//! Key-value storage of a federation node on top of RocksDB: how the store is
//! configured and opened, which commits are made durable at once, and how keys
//! are looked up, scanned and removed.

pub mod claims;
pub mod clock;
pub mod commit;
pub mod db;
pub mod envs;
pub mod error;
pub mod key_order;
pub mod operations;
pub mod options;
pub mod prefix;
pub mod scan;
pub mod text;
pub mod wal_sync;
