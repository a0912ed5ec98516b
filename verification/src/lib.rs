//! A sharded, durable key-value storage core with a concurrent load generator.
//!
//! The library models storable values, routes keys to shards with a stable
//! hash, keeps each shard's state in a verified in-memory map, encodes and
//! decodes whole-map snapshots, and aggregates load-generator statistics.
//! File handling and thread plumbing live with the embedding program, which
//! hands this library plain values and carries its snapshot bytes to disk.

pub mod codec;
pub mod file_store;
pub mod load_test;
pub mod mem_store;
pub mod router;
pub mod store;

pub use store::Blob;
pub use store::Store;
pub use store::StoreError;
