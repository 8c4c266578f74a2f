//! Backup and restore of a photo server's album and favorite-asset metadata.
//!
//! Live snapshots fetched from a server carry server-assigned IDs; save files
//! identify assets by their original file name instead, so that a save file
//! written against one server instance can be replayed against another. The
//! [`models`] module holds the domain types and their persisted forms, the
//! [`codec`] module the mapping between the two, and the [`reconcile`] module
//! computes the server mutations that bring live state into agreement with a
//! loaded save file.

pub mod codec;
pub mod models;
pub mod reconcile;
