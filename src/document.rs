//! Decisions of the document commands. The caller observes the filesystem
//! (whether a path exists, whether it is a directory), hands the facts in,
//! and performs the read, write, rename or removal only when the decision is
//! `Ok`, at the path that the decision names.

use vstd::prelude::*;
use crate::error::StoreError;
use crate::naming::{document_file_name, document_file_name_of};
use crate::paths::{is_document, is_document_path, join, joined, opt_text, parent, parent_of};

verus! {

/// Whether `r` is the error `NotFound` about the text `subject`.
pub open spec fn is_not_found<T>(r: Result<T, StoreError>, subject: Seq<char>) -> bool {
    r matches Err(StoreError::NotFound(s)) && s@ == subject
}

/// Whether `r` is the error `InvalidArgument` about the text `subject`.
pub open spec fn is_invalid<T>(r: Result<T, StoreError>, subject: Seq<char>) -> bool {
    r matches Err(StoreError::InvalidArgument(s)) && s@ == subject
}

/// Whether `r` is the error `Collision` about the text `subject`.
pub open spec fn is_collision<T>(r: Result<T, StoreError>, subject: Seq<char>) -> bool {
    r matches Err(StoreError::Collision(s)) && s@ == subject
}

/// Whether `r` is `Ok` with a string whose text is `text`.
pub open spec fn is_ok_text(r: Result<String, StoreError>, text: Seq<char>) -> bool {
    r matches Ok(s) && s@ == text
}

/// The path of the document called `name` inside the vault `vault`.
pub open spec fn create_target(vault: Seq<char>, name: Seq<char>) -> Seq<char> {
    joined(vault, document_file_name_of(name))
}

/// The path that a document at `old` takes when renamed to `name`: the same
/// directory, the new file name.
pub open spec fn rename_target(old: Seq<char>, name: Seq<char>) -> Option<Seq<char>> {
    match parent_of(old) {
        Some(dir) => Some(joined(dir, document_file_name_of(name))),
        None => None,
    }
}

/// Reading a document: it must exist.
pub fn read_map_file(path: &str, exists: bool) -> (r: Result<(), StoreError>)
    ensures
        exists <==> r is Ok,
        !exists ==> is_not_found(r, path@),
{
    if !exists {
        return Err(StoreError::NotFound(String::from_str(path)));
    }
    Ok(())
}

/// The path that a document called `name` takes inside the vault `vault_path`.
pub fn create_target_path(vault_path: &str, name: &str) -> (r: String)
    ensures
        r@ == create_target(vault_path@, name@),
{
    let file_name = document_file_name(name);
    join(vault_path, file_name.as_str())
}

/// Creating a document in a vault: the vault must exist and be a directory,
/// and nothing may occupy the new file's path (`target_exists` tells whether
/// something is at [`create_target_path`]). On success gives that path, where
/// the caller then writes the document.
pub fn create_map_file(
    vault_path: &str,
    vault_exists: bool,
    vault_is_dir: bool,
    name: &str,
    target_exists: bool,
) -> (r: Result<String, StoreError>)
    ensures
        !vault_exists ==> is_not_found(r, vault_path@),
        vault_exists && !vault_is_dir ==> is_invalid(r, vault_path@),
        vault_exists && vault_is_dir && target_exists ==> is_collision(
            r,
            create_target(vault_path@, name@),
        ),
        vault_exists && vault_is_dir && !target_exists ==> is_ok_text(
            r,
            create_target(vault_path@, name@),
        ),
{
    if !vault_exists {
        return Err(StoreError::NotFound(String::from_str(vault_path)));
    }
    if !vault_is_dir {
        return Err(StoreError::InvalidArgument(String::from_str(vault_path)));
    }
    let target = create_target_path(vault_path, name);
    if target_exists {
        return Err(StoreError::Collision(target));
    }
    Ok(target)
}

/// Deleting a document: it must exist, and only a file with the document
/// extension may be deleted.
pub fn delete_map_file(path: &str, exists: bool) -> (r: Result<(), StoreError>)
    ensures
        (r is Ok) <==> (exists && is_document(path@)),
        !exists ==> is_not_found(r, path@),
        exists && !is_document(path@) ==> is_invalid(r, path@),
{
    if !exists {
        return Err(StoreError::NotFound(String::from_str(path)));
    }
    if !is_document_path(path) {
        return Err(StoreError::InvalidArgument(String::from_str(path)));
    }
    Ok(())
}

/// The path that the document at `old_path` takes when renamed to
/// `new_name`, when `old_path` has a parent directory.
pub fn rename_target_path(old_path: &str, new_name: &str) -> (r: Option<String>)
    ensures
        opt_text(r) == rename_target(old_path@, new_name@),
{
    match parent(old_path) {
        None => None,
        Some(dir) => {
            let file_name = document_file_name(new_name);
            Some(join(dir.as_str(), file_name.as_str()))
        },
    }
}

/// Renaming a document: it must exist and have a parent directory, and
/// nothing may occupy the new path (`target_exists` tells whether something
/// is at [`rename_target_path`]). On success gives the new path, in the same
/// directory, to which the caller then moves the file; on any error both
/// files stay as they are.
pub fn rename_map_file(old_path: &str, exists: bool, new_name: &str, target_exists: bool) -> (r:
    Result<String, StoreError>)
    ensures
        !exists ==> is_not_found(r, old_path@),
        exists && rename_target(old_path@, new_name@) is None ==> is_invalid(r, old_path@),
        exists && rename_target(old_path@, new_name@) is Some && target_exists ==> is_collision(
            r,
            rename_target(old_path@, new_name@)->Some_0,
        ),
        exists && rename_target(old_path@, new_name@) is Some && !target_exists ==> is_ok_text(
            r,
            rename_target(old_path@, new_name@)->Some_0,
        ),
{
    if !exists {
        return Err(StoreError::NotFound(String::from_str(old_path)));
    }
    match rename_target_path(old_path, new_name) {
        None => Err(StoreError::InvalidArgument(String::from_str(old_path))),
        Some(target) => {
            if target_exists {
                Err(StoreError::Collision(target))
            } else {
                Ok(target)
            }
        },
    }
}

} // verus!
