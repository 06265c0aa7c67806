//! An in-memory key-value store split into independently owned shards,
//! with the request dispatch that a connection handler performs on it.

pub mod command;
pub mod hashing;
pub mod routing;
pub mod shard;
pub mod store;
