use brain_down::config::{
    check_vault_accessible, get_config_file_path, get_saved_vault_path, get_vault_record_path,
    save_vault_path, AppConfig, VaultEntry,
};
use brain_down::error::StoreError;

#[test]
fn fresh_config_has_no_vaults() {
    assert!(AppConfig::default().vaults.is_empty());
}

#[test]
fn config_holds_vaults_in_order() {
    let cfg = AppConfig {
        vaults: vec![
            VaultEntry { id: "1".to_string(), name: "Work".to_string(), path: "/w".to_string() },
            VaultEntry { id: "2".to_string(), name: "Home".to_string(), path: "/h".to_string() },
        ],
    };
    let copy = cfg.clone();
    assert_eq!(copy.vaults.len(), 2);
    assert_eq!(copy.vaults[1].name, "Home");
}

#[test]
fn config_files_lie_in_app_data_dir() {
    assert_eq!(get_config_file_path("/data/app"), "/data/app/config.json");
    assert_eq!(get_vault_record_path("/data/app"), "/data/app/vault_config.json");
}

#[test]
fn accessible_only_for_listable_directory() {
    assert!(!check_vault_accessible(false, false, false));
    assert!(!check_vault_accessible(true, false, false));
    assert!(!check_vault_accessible(true, true, false));
    assert!(check_vault_accessible(true, true, true));
}

#[test]
fn saved_vault_path_absent_record() {
    assert!(matches!(get_saved_vault_path(None), Ok(None)));
}

#[test]
fn saved_vault_path_read_from_record() {
    let r = get_saved_vault_path(Some("{\n  \"vault_path\": \"/home/me/vault\"\n}"));
    assert_eq!(r.unwrap(), Some("/home/me/vault".to_string()));
}

#[test]
fn saved_vault_path_missing_or_not_string() {
    assert!(matches!(get_saved_vault_path(Some("{}")), Ok(None)));
    assert!(matches!(get_saved_vault_path(Some("{\"vault_path\": 3}")), Ok(None)));
    assert!(matches!(get_saved_vault_path(Some("[1, 2]")), Ok(None)));
}

#[test]
fn saved_vault_path_unparsable_record() {
    let r = get_saved_vault_path(Some("not json"));
    assert!(matches!(r, Err(StoreError::Serialization(_))));
    let r = get_saved_vault_path(Some(""));
    assert!(matches!(r, Err(StoreError::Serialization(_))));
}

#[test]
fn vault_record_is_pretty_json() {
    assert_eq!(save_vault_path("/v"), "{\n  \"vault_path\": \"/v\"\n}");
}

#[test]
fn vault_record_round_trip() {
    let path = "/tmp/a \"quoted\" \\ vault";
    let text = save_vault_path(path);
    assert_eq!(get_saved_vault_path(Some(&text)).unwrap(), Some(path.to_string()));
}
