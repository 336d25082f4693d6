//! Verified core of a versioned key-value file storage: the on-disk text
//! format (a version header followed by a JSON object), the in-memory
//! storage state machine, the decisions of the `file append` command and of
//! the index watcher.

pub mod text;
pub mod json;
pub mod entries;
pub mod error;
pub mod paths;
pub mod file_storage;
pub mod append;
pub mod watch;
