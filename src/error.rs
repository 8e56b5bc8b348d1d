//! Failures of the persistence layer.

use vstd::prelude::*;

verus! {

/// Why an operation failed; each variant carries the path or name concerned,
/// or the cause reported by the system.
#[derive(Debug, Clone)]
pub enum StoreError {
    /// A path that had to exist does not.
    NotFound(String),
    /// A path exists but cannot serve: a vault that is not a directory, a
    /// file that is not a document, a path without a parent directory.
    InvalidArgument(String),
    /// The name that a create or rename aims at is taken.
    Collision(String),
    /// A read, write, directory creation, removal or rename failed.
    Io(String),
    /// Encoding or decoding a JSON file failed.
    Serialization(String),
}

} // verus!
