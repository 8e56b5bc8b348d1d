//! Persistence layer of a note vault: document file names, the decisions of
//! the document commands, vault listings and the application configuration.
//!
//! Filesystem access, and the encoding of the configuration as JSON, happen
//! around this library; what is decided from what was observed is verified
//! here.

pub mod naming;
pub mod paths;
pub mod error;
pub mod document;
pub mod listing;
pub mod config;
