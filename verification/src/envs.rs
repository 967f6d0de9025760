//! Names of the environment variables that configure the store.

use vstd::prelude::*;

verus! {

/// Size in bytes of one in-memory write buffer; a power of two.
pub const FM_ROCKSDB_WRITE_BUFFER_SIZE_ENV: &'static str = "FM_ROCKSDB_WRITE_BUFFER_SIZE";

/// Size in bytes of the block cache; a power of two.
pub const FM_ROCKSDB_BLOCK_CACHE_SIZE_ENV: &'static str = "FM_ROCKSDB_BLOCK_CACHE_SIZE";

/// Minimum interval in milliseconds between `fsync`-ed commits.
///
/// Unset or `0` (the default) means that every commit is `fsync`-ed on its
/// own. Any larger value relaxes that to at most one `fsync`-ed commit per
/// interval, trading a bounded window of durability for a large reduction in
/// physical disk writes.
pub const FM_ROCKSDB_WAL_SYNC_INTERVAL_MS_ENV: &'static str = "FM_ROCKSDB_WAL_SYNC_INTERVAL_MS";

/// The names under which operators know the variables.
pub proof fn law_names_of_variables()
    ensures
        FM_ROCKSDB_WRITE_BUFFER_SIZE_ENV@ == "FM_ROCKSDB_WRITE_BUFFER_SIZE"@,
        FM_ROCKSDB_BLOCK_CACHE_SIZE_ENV@ == "FM_ROCKSDB_BLOCK_CACHE_SIZE"@,
        FM_ROCKSDB_WAL_SYNC_INTERVAL_MS_ENV@ == "FM_ROCKSDB_WAL_SYNC_INTERVAL_MS"@,
{
}

} // verus!
