//! Paths as text, and the few questions the library asks of them.

use vstd::prelude::*;

verus! {

/// What `Path::extension` gives for the path `p`.
pub uninterp spec fn extension_of(p: Seq<char>) -> Option<Seq<char>>;

/// What `Path::file_stem` gives for the path `p`.
pub uninterp spec fn stem_of(p: Seq<char>) -> Option<Seq<char>>;

/// What `Path::parent` gives for the path `p`.
pub uninterp spec fn parent_of(p: Seq<char>) -> Option<Seq<char>>;

/// What `Path::join` gives for the base `base` and the addition `name`.
pub uninterp spec fn joined(base: Seq<char>, name: Seq<char>) -> Seq<char>;

/// The text of an optional string.
pub open spec fn opt_text(o: Option<String>) -> Option<Seq<char>> {
    match o {
        Some(s) => Some(s@),
        None => None,
    }
}

/// Relies on `Path::extension`: the text after the last period of the final
/// component, when there is one.
#[verifier::external_body]
fn extension(p: &str) -> (r: Option<String>)
    ensures
        opt_text(r) == extension_of(p@),
{
    std::path::Path::new(p).extension().map(|e| e.to_string_lossy().into_owned())
}

/// Relies on `Path::file_stem`: the final component without its extension.
#[verifier::external_body]
pub(crate) fn file_stem(p: &str) -> (r: Option<String>)
    ensures
        opt_text(r) == stem_of(p@),
{
    std::path::Path::new(p).file_stem().map(|e| e.to_string_lossy().into_owned())
}

/// Relies on `Path::parent`: the path without its final component.
#[verifier::external_body]
pub(crate) fn parent(p: &str) -> (r: Option<String>)
    ensures
        opt_text(r) == parent_of(p@),
{
    std::path::Path::new(p).parent().map(|e| e.to_string_lossy().into_owned())
}

/// Relies on `Path::join`: `name` appended to `base` as a further component.
#[verifier::external_body]
pub(crate) fn join(base: &str, name: &str) -> (r: String)
    ensures
        r@ == joined(base@, name@),
{
    std::path::Path::new(base).join(name).to_string_lossy().into_owned()
}

/// Whether a path names a document: its extension is exactly `mschema`.
pub open spec fn is_document(p: Seq<char>) -> bool {
    extension_of(p) == Some("mschema"@)
}

/// Whether `path` names a document file, judged by its extension alone
/// (case-sensitive).
pub fn is_document_path(path: &str) -> (r: bool)
    ensures
        r == is_document(path@),
{
    match extension(path) {
        Some(e) => e == String::from_str("mschema"),
        None => false,
    }
}

} // verus!
