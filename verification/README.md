# fedimint-rocksdb

Key-value storage of a federation node on top of RocksDB, with the decisions
verified in [Verus](https://github.com/verus-lang/verus).

- `src/` is the verified library. It decides how the store is configured and
  opened (`options`, `db`), which commits are `fsync`-ed (`wal_sync`, `commit`),
  and how keys are looked up, scanned and removed (`operations`, `scan`,
  `prefix`, `key_order`). `claims` models the order in which concurrent commits
  read and swap the deadline of a policy, taken to behave as an atomic integer
  does, and proves what follows for the syncs that they claim. The library never
  touches the disk: it says which call on the store comes next and takes the
  reply.
- `app/` is ordinary Rust around it: it reads the environment, locks and opens
  the database, performs the calls on RocksDB and offers async transactions.
- `tests/` runs the library, with a store in memory where one is needed.

## Configuration

| Variable | Meaning |
| --- | --- |
| `FM_ROCKSDB_WRITE_BUFFER_SIZE` | bytes of one write buffer, a power of two; 2 MiB if unset |
| `FM_ROCKSDB_BLOCK_CACHE_SIZE` | bytes of the block cache, a power of two; 2 MiB if unset |
| `FM_ROCKSDB_WAL_SYNC_INTERVAL_MS` | at most one `fsync` per so many milliseconds; every commit if unset or `0`; at most 60000 |

With a sync interval, commits are written without `fsync`, and a commit that
comes an interval or more after the last sync makes itself and all commits
before it durable. A power loss can discard the commits since then. The
write-ahead log is replayed up to the first gap, so what is left is a consistent
prefix.
