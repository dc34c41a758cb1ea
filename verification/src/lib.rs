//! Generation-based replication of database pages to an object store.
//!
//! The crate holds the rules of the replicator: how generations are named so
//! that the newest sorts first, how remote objects are keyed, what a commit
//! uploads and when the write buffer may be cleared, and how paginated
//! listings are walked, filtered, pruned and restored from. It performs no
//! I/O itself: every operation that needs the object store hands out the
//! request to perform and takes the store's answer back as plain values.

pub mod buffer;
pub mod catalog;
pub mod clock;
pub mod error;
pub mod generation;
pub mod keys;
pub mod listing;
pub mod metadata;
pub mod outside;
pub mod remote;
pub mod replicator;
pub mod restore;
pub mod text;
pub mod walks;
