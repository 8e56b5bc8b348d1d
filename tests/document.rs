use brain_down::document::{
    create_map_file, create_target_path, delete_map_file, read_map_file, rename_map_file,
    rename_target_path,
};
use brain_down::error::StoreError;

#[test]
fn read_missing_document_is_not_found() {
    let r = read_map_file("/nowhere/x.mschema", false);
    assert!(matches!(r, Err(StoreError::NotFound(ref p)) if p == "/nowhere/x.mschema"));
    assert!(read_map_file("/vault/x.mschema", true).is_ok());
}

#[test]
fn create_target_is_sanitized_name_in_vault() {
    assert_eq!(create_target_path("/tmp/vault", "My Note!!"), "/tmp/vault/My Note.mschema");
}

#[test]
fn create_gives_sanitized_path_in_vault() {
    let r = create_map_file("/tmp/vault", true, true, "My Note!!", false);
    assert_eq!(r.unwrap(), "/tmp/vault/My Note.mschema");
}

#[test]
fn create_in_missing_vault_is_not_found() {
    let r = create_map_file("/tmp/none", false, false, "a", false);
    assert!(matches!(r, Err(StoreError::NotFound(ref p)) if p == "/tmp/none"));
}

#[test]
fn create_in_file_vault_is_invalid() {
    let r = create_map_file("/tmp/file.txt", true, false, "a", false);
    assert!(matches!(r, Err(StoreError::InvalidArgument(ref p)) if p == "/tmp/file.txt"));
}

#[test]
fn second_create_with_same_name_collides() {
    let first = create_map_file("/tmp/vault", true, true, "My Note!!", false).unwrap();
    assert_eq!(first, "/tmp/vault/My Note.mschema");
    let r = create_map_file("/tmp/vault", true, true, "My Note!!", true);
    assert!(matches!(r, Err(StoreError::Collision(ref p)) if p == "/tmp/vault/My Note.mschema"));
}

#[test]
fn delete_requires_document_extension() {
    let r = delete_map_file("/vault/notes.txt", true);
    assert!(matches!(r, Err(StoreError::InvalidArgument(ref p)) if p == "/vault/notes.txt"));
    let r = delete_map_file("/vault/notes.MSCHEMA", true);
    assert!(matches!(r, Err(StoreError::InvalidArgument(_))));
    assert!(delete_map_file("/vault/notes.mschema", true).is_ok());
}

#[test]
fn delete_missing_is_not_found() {
    let r = delete_map_file("/vault/notes.txt", false);
    assert!(matches!(r, Err(StoreError::NotFound(ref p)) if p == "/vault/notes.txt"));
}

#[test]
fn rename_target_keeps_directory() {
    assert_eq!(
        rename_target_path("/vault/sub/old.mschema", "New: name?").unwrap(),
        "/vault/sub/New name.mschema"
    );
    assert!(rename_target_path("/", "x").is_none());
}

#[test]
fn rename_keeps_directory_and_sanitizes() {
    let r = rename_map_file("/vault/sub/old.mschema", true, "New: name?", false);
    assert_eq!(r.unwrap(), "/vault/sub/New name.mschema");
}

#[test]
fn rename_missing_is_not_found() {
    let r = rename_map_file("/vault/old.mschema", false, "x", false);
    assert!(matches!(r, Err(StoreError::NotFound(ref p)) if p == "/vault/old.mschema"));
}

#[test]
fn rename_without_parent_is_invalid() {
    let r = rename_map_file("/", true, "x", false);
    assert!(matches!(r, Err(StoreError::InvalidArgument(ref p)) if p == "/"));
}

#[test]
fn rename_onto_existing_collides() {
    let r = rename_map_file("/vault/a.mschema", true, "b", true);
    assert!(matches!(r, Err(StoreError::Collision(ref p)) if p == "/vault/b.mschema"));
}
