//! The application configuration and where its files lie.

use vstd::prelude::*;
use crate::error::StoreError;
use crate::paths::{join, joined, opt_text};

verus! {

/// A vault recorded in the configuration.
#[derive(Clone, Debug)]
pub struct VaultEntry {
    pub id: String,
    pub name: String,
    pub path: String,
}

/// The persisted configuration: the recorded vaults, in order.
#[derive(Clone, Debug)]
pub struct AppConfig {
    pub vaults: Vec<VaultEntry>,
}

impl Default for AppConfig {
    /// The configuration of a fresh installation: no vaults.
    fn default() -> (r: AppConfig)
        ensures
            r.vaults@.len() == 0,
    {
        AppConfig { vaults: Vec::new() }
    }
}

/// The path of the configuration file inside the application data directory.
pub fn get_config_file_path(app_data_dir: &str) -> (r: String)
    ensures
        r@ == joined(app_data_dir@, "config.json"@),
{
    join(app_data_dir, "config.json")
}

/// The path of the record of the last opened vault inside the application
/// data directory.
pub fn get_vault_record_path(app_data_dir: &str) -> (r: String)
    ensures
        r@ == joined(app_data_dir@, "vault_config.json"@),
{
    join(app_data_dir, "vault_config.json")
}

/// A vault path is accessible when it exists, is a directory, and its
/// entries can be listed; any failure to observe one of these counts as no.
pub fn check_vault_accessible(exists: bool, is_dir: bool, listable: bool) -> (r: bool)
    ensures
        r == (exists && is_dir && listable),
{
    exists && is_dir && listable
}

/// Whether serde_json reads `text` as one JSON value.
pub uninterp spec fn json_parses(text: Seq<char>) -> bool;

/// The string that serde_json finds under `key` in the JSON value `text`,
/// when that value is an object whose member `key` is a string.
pub uninterp spec fn json_string_member(text: Seq<char>, key: Seq<char>) -> Option<Seq<char>>;

/// The pretty-printed text that serde_json gives for the object whose one
/// member `key` is the string `value`.
pub uninterp spec fn json_pretty_record(key: Seq<char>, value: Seq<char>) -> Seq<char>;

/// Relies on `serde_json::from_str` into a `serde_json::Value`, then
/// `Value::get` and `Value::as_str` for the member `key`. The error is
/// serde_json's message.
#[verifier::external_body]
fn string_member(text: &str, key: &str) -> (r: Result<Option<String>, String>)
    ensures
        (r is Ok) == json_parses(text@),
        r matches Ok(o) ==> opt_text(o) == json_string_member(text@, key@),
{
    serde_json::from_str::<serde_json::Value>(text)
        .map(|v| v.get(key).and_then(|m| m.as_str()).map(String::from))
        .map_err(|e| e.to_string())
}

/// Relies on `serde_json::to_string_pretty` of a `serde_json::Value` object
/// holding the one member `key` with the string `value`. It fails only where
/// a `Serialize` impl fails or a map has keys that are not strings, neither
/// of which happens for such an object written into memory.
#[verifier::external_body]
fn pretty_record(key: &str, value: &str) -> (r: Result<String, String>)
    ensures
        r is Ok,
        r matches Ok(t) ==> t@ == json_pretty_record(key@, value@),
{
    let mut map = serde_json::Map::new();
    map.insert(key.to_string(), serde_json::Value::String(value.to_string()));
    serde_json::to_string_pretty(&serde_json::Value::Object(map)).map_err(|e| e.to_string())
}

/// The last opened vault from the text of its record, `None` when there is
/// no record. A record that is not JSON is an error; one without a string
/// member `vault_path` records no vault.
pub fn get_saved_vault_path(content: Option<&str>) -> (r: Result<Option<String>, StoreError>)
    ensures
        content is None ==> r matches Ok(None),
        content matches Some(t) && !json_parses(t@) ==> r matches Err(StoreError::Serialization(_)),
        content is Some && json_parses(content->Some_0@) ==> (r matches Ok(o) && opt_text(o)
            == json_string_member(content->Some_0@, "vault_path"@)),
{
    match content {
        None => Ok(None),
        Some(text) => match string_member(text, "vault_path") {
            Ok(found) => Ok(found),
            Err(cause) => Err(StoreError::Serialization(cause)),
        },
    }
}

/// The text of the record of the last opened vault: a pretty-printed JSON
/// object whose member `vault_path` is `vault_path`.
pub fn save_vault_path(vault_path: &str) -> (r: String)
    ensures
        r@ == json_pretty_record("vault_path"@, vault_path@),
{
    pretty_record("vault_path", vault_path).unwrap()
}

} // verus!
