//! Flattening of a directory tree: every directory hands the files it holds
//! to its parent and is removed once drained.
//!
//! The traversal is a state machine ([`walker::Walker`]) that names the next
//! filesystem operation to perform and is told its outcome; the caller does
//! the filesystem work.
pub mod entry;
pub mod laws;
pub mod walker;
