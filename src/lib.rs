//! Cluster metadata and slot migration for a sharded key-value store: slot hashing
//! and slot ranges, an epoch-checked metadata store, the map of delete tasks that a
//! metadata change gives, and the scan-and-delete loop that each task drives.

pub mod delete_keys;
pub mod meta_store;
pub mod protocol;
pub mod resp;
pub mod scan;
pub mod slots;
pub mod utils;
