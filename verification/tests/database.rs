use std::collections::BTreeMap;
use std::path::Path;
use std::time::Duration;

use fedimint_rocksdb::commit::CommitStep;
use fedimint_rocksdb::db::{
    EnvVars, OpenPlan, RocksDb, RocksDbReadOnly, RocksDbTransaction, TransactionOptions,
};
use fedimint_rocksdb::error::{ConfigError, DatabaseError, ErrorKind, StoreError};
use fedimint_rocksdb::operations::RemovalStep;
use fedimint_rocksdb::options::RecoveryMode;
use fedimint_rocksdb::scan::{Direction, IterateRange, IteratorMode, Keep, Scan};

/// A store that is kept in memory.
type Store = BTreeMap<Vec<u8>, Vec<u8>>;

type Tx<'a> = RocksDbTransaction<'a, (), ()>;

const UNSET: EnvVars<'static> = EnvVars {
    write_buffer_size: None,
    block_cache_size: None,
    wal_sync_interval_ms: None,
};

fn database() -> RocksDb<()> {
    RocksDb::from((), None).0
}

fn open(env: EnvVars<'_>, relaxed_consistency: bool) -> Result<OpenPlan, ConfigError> {
    RocksDb::<()>::open_blocking_unlocked(env, relaxed_consistency)
}

fn broken() -> StoreError {
    StoreError {
        kind: ErrorKind::Corruption,
        message: "bad block".to_string(),
    }
}

/// The items that the iterator of a scan comes upon.
fn items(store: &Store, scan: &Scan) -> Vec<(Vec<u8>, Vec<u8>)> {
    let in_range = |key: &Vec<u8>| match &scan.range {
        IterateRange::Prefix(prefix) => key.starts_with(prefix),
        IterateRange::Between(start, end) => start <= key && key < end,
    };
    let mut items: Vec<_> = store
        .iter()
        .filter(|(key, _)| in_range(key))
        .filter(|(key, _)| match &scan.mode {
            IteratorMode::From(start, Direction::Forward) => *key >= start,
            IteratorMode::From(start, Direction::Reverse) => *key <= start,
            IteratorMode::End => true,
        })
        .map(|(key, value)| (key.clone(), value.clone()))
        .collect();
    if !matches!(scan.mode, IteratorMode::From(_, Direction::Forward)) {
        items.reverse();
    }
    items
}

/// What a scan hands out.
fn found(store: &Store, scan: &Scan) -> Vec<(Vec<u8>, Vec<u8>)> {
    items(store, scan)
        .iter()
        .map_while(|(key, value)| scan.hand_out(key, value))
        .collect()
}

fn insert(store: &mut Store, tx: &Tx<'_>, key: &[u8], value: &[u8]) -> Option<Vec<u8>> {
    let insertion = tx.raw_insert_bytes(key, value);
    let previous = store.get(&insertion.key).cloned();
    let write = insertion.read(previous);
    store.insert(write.key.clone(), write.value.clone());
    write.written(Ok(())).expect("insert")
}

fn remove(store: &mut Store, tx: &Tx<'_>, key: &[u8]) -> Option<Vec<u8>> {
    let removal = tx.raw_remove_entry(key);
    let previous = store.get(&removal.key).cloned();
    let delete = removal.read(previous);
    store.remove(&delete.key);
    delete.deleted(Ok(())).expect("remove")
}

fn get(store: &Store, tx: &Tx<'_>, key: &[u8]) -> Option<Vec<u8>> {
    let lookup = tx.raw_get_bytes(key);
    let reply = store.get(&lookup.key).cloned();
    lookup.read(Ok(reply)).expect("get")
}

fn remove_by_prefix(store: &mut Store, tx: &Tx<'_>, prefix: &[u8]) -> Result<(), DatabaseError> {
    let removal = tx.raw_remove_by_prefix(prefix);
    let mut keys = items(store, &removal.scan)
        .into_iter()
        .map(|(key, _)| Ok(key));
    let mut step = RemovalStep::Next;
    loop {
        step = match step {
            RemovalStep::Next => removal.item(keys.next()),
            RemovalStep::Delete(key) => {
                store.remove(&key);
                removal.deleted(Ok(()))
            }
            RemovalStep::Finish(result) => return result,
        };
    }
}

#[test]
fn the_default_opens_strictly_and_syncs_every_commit() {
    let plan = open(UNSET, false).expect("open");
    assert_eq!(plan.options.write_buffer_size, 2_097_152);
    assert_eq!(plan.options.block_cache_size, 2_097_152);
    assert_eq!(plan.recovery_mode, RecoveryMode::AbsoluteConsistency);
    assert_eq!(plan.relaxed_durability(), None);
    let db = RocksDb::opened(plan, "store");
    assert_eq!(*db.inner(), "store");
    assert_eq!(
        db.begin_transaction(),
        TransactionOptions {
            set_snapshot: true,
            sync: true
        }
    );
    let (tx, committing) = db.begun(5).commit_tx();
    assert_eq!(tx, 5);
    assert_eq!(*committing.inner(), "store");
    assert_eq!(committing.committed(Ok(())), CommitStep::Finish(Ok(())));
    assert_eq!(db.next_sync_millis(), 0);
    assert_eq!(db.into_inner(), "store");
}

#[test]
fn relaxed_consistency_tolerates_a_torn_tail() {
    let env = EnvVars {
        wal_sync_interval_ms: Some("0"),
        ..UNSET
    };
    assert_eq!(
        open(env, true).expect("open").recovery_mode,
        RecoveryMode::TolerateCorruptedTailRecords
    );
}

#[test]
fn a_sync_interval_relaxes_durability() {
    let env = EnvVars {
        wal_sync_interval_ms: Some("5000"),
        ..UNSET
    };
    for relaxed_consistency in [false, true] {
        let plan = open(env, relaxed_consistency).expect("open");
        assert_eq!(plan.recovery_mode, RecoveryMode::PointInTime);
        assert_eq!(plan.relaxed_durability(), Some(5_000));
        assert_eq!(plan.wal_sync.interval(), Some(Duration::from_secs(5)));
        let db = RocksDb::opened(plan, ());
        assert!(!db.begin_transaction().sync);
        let commit = |reply| db.begun(()).commit_tx().1.committed(reply);
        // A commit that fails does not claim the sync.
        assert_eq!(
            commit(Err(broken())),
            CommitStep::Finish(Err(DatabaseError::Backend(broken())))
        );
        assert_eq!(db.next_sync_millis(), 0);
        assert_eq!(commit(Ok(())), CommitStep::FlushWal);
        assert_eq!(commit(Ok(())), CommitStep::Finish(Ok(())));
    }
}

#[test]
fn a_refused_setting_keeps_the_database_shut() {
    let env = EnvVars {
        wal_sync_interval_ms: Some("60001"),
        ..UNSET
    };
    assert_eq!(
        open(env, false).unwrap_err(),
        ConfigError::IntervalTooLong { millis: 60_001 }
    );
    // The sizes are looked at first.
    let env = EnvVars {
        block_cache_size: Some("5"),
        ..env
    };
    assert_eq!(
        open(env, false).unwrap_err(),
        ConfigError::NotPowerOfTwo {
            env_name: "FM_ROCKSDB_BLOCK_CACHE_SIZE".to_string()
        }
    );
}

#[test]
fn a_store_opened_elsewhere_falls_back_to_syncing_every_commit() {
    let (db, refused) = RocksDb::from("store", Some("soon"));
    assert!(matches!(refused, Some(ConfigError::InvalidInterval { .. })));
    assert!(db.begin_transaction().sync);
    assert_eq!(db.into_inner(), "store");

    let (db, refused) = RocksDb::from("store", Some("20"));
    assert_eq!(refused, None);
    assert!(!db.begin_transaction().sync);
}

#[test]
fn a_database_needs_a_base_dir() {
    let request =
        RocksDb::<()>::open_blocking(Path::new("/data/db").parent(), None).expect("base dir");
    assert_eq!(request.base_dir, Path::new("/data"));
    assert!(!request.relaxed_consistency);
    let request =
        RocksDb::<()>::open_blocking(Path::new("/data/db").parent(), Some(true)).expect("base dir");
    assert!(request.relaxed_consistency);
    assert_eq!(
        RocksDb::<()>::open_blocking(Path::new("/").parent(), Some(true)).unwrap_err(),
        ConfigError::NoBaseDir
    );
}

#[test]
fn a_database_can_be_read_beside_its_writer() {
    // The sync interval is of no concern to a reader.
    let env = EnvVars {
        wal_sync_interval_ms: Some("nonsense"),
        write_buffer_size: Some("64"),
        ..UNSET
    };
    let plan = RocksDbReadOnly::<()>::open_read_only_blocking(env).expect("open");
    assert!(!plan.error_if_log_file_exist);
    assert_eq!(plan.options.write_buffer_size, 64);
    let env = EnvVars {
        write_buffer_size: Some("65"),
        ..env
    };
    assert!(RocksDbReadOnly::<()>::open_read_only_blocking(env).is_err());

    let db = RocksDbReadOnly::opened("store");
    assert_eq!(*db.inner(), "store");
    assert_eq!(*db.begin_transaction().inner(), "store");
}

#[test]
fn scans_are_confined_to_what_they_look_for() {
    let db = database();
    let tx = db.begun(());
    assert_eq!(
        tx.raw_find_by_prefix(&[7, 255]),
        Scan {
            range: IterateRange::Prefix(vec![7, 255]),
            mode: IteratorMode::From(vec![7, 255], Direction::Forward),
            keep: Keep::WithPrefix(vec![7, 255]),
        }
    );
    assert_eq!(
        tx.raw_find_by_prefix_sorted_descending(&[7, 255]),
        Scan {
            range: IterateRange::Prefix(vec![7, 255]),
            mode: IteratorMode::From(vec![8, 0], Direction::Reverse),
            keep: Keep::WithPrefix(vec![7, 255]),
        }
    );
    assert_eq!(
        tx.raw_find_by_prefix_sorted_descending(&[255]).mode,
        IteratorMode::End
    );
    assert_eq!(
        tx.raw_find_by_range(&[1], &[2, 3]),
        Scan {
            range: IterateRange::Between(vec![1], vec![2, 3]),
            mode: IteratorMode::From(vec![1], Direction::Forward),
            keep: Keep::Before(vec![2, 3]),
        }
    );
    let db = RocksDbReadOnly::opened(());
    let read_only = db.begin_transaction();
    for key in [&[][..], &[7, 255], &[255]] {
        assert_eq!(read_only.raw_find_by_prefix(key), tx.raw_find_by_prefix(key));
        assert_eq!(
            read_only.raw_find_by_prefix_sorted_descending(key),
            tx.raw_find_by_prefix_sorted_descending(key)
        );
        assert_eq!(
            read_only.raw_find_by_range(key, &[9]),
            tx.raw_find_by_range(key, &[9])
        );
        assert_eq!(read_only.raw_get_bytes(key).key, key);
    }
}

#[test]
fn a_scan_ends_at_the_first_item_that_it_does_not_keep() {
    let by_prefix = Scan::by_prefix(&[5]);
    assert_eq!(
        by_prefix.hand_out(&[5, 1], &[9]),
        Some((vec![5, 1], vec![9]))
    );
    assert_eq!(by_prefix.hand_out(&[6], &[9]), None);
    let by_range = Scan::by_range(&[5], &[6]);
    assert_eq!(
        by_range.hand_out(&[5, 255], &[]),
        Some((vec![5, 255], vec![]))
    );
    assert_eq!(by_range.hand_out(&[6], &[9]), None);
}

#[test]
fn test_retrieve_descending_order() {
    let mut store = Store::new();
    let db = database();
    let tx = db.begun(());
    for prefix in [254, 255] {
        insert(&mut store, &tx, &[prefix, 1, 0], &[1, 3]);
        insert(&mut store, &tx, &[prefix, 1, 254], &[1, 1]);
        insert(&mut store, &tx, &[prefix, 1, 255], &[1, 2]);
    }
    let db_readonly = RocksDbReadOnly::opened(());
    let tx_readonly = db_readonly.begin_transaction();
    for prefix in [254, 255] {
        let expected = vec![
            (vec![prefix, 1, 255], vec![1, 2]),
            (vec![prefix, 1, 254], vec![1, 1]),
            (vec![prefix, 1, 0], vec![1, 3]),
        ];
        let query = found(&store, &tx.raw_find_by_prefix_sorted_descending(&[prefix]));
        assert_eq!(query, expected);
        let query = found(
            &store,
            &tx_readonly.raw_find_by_prefix_sorted_descending(&[prefix]),
        );
        assert_eq!(query, expected);

        let mut ascending = found(&store, &tx.raw_find_by_prefix(&[prefix]));
        ascending.reverse();
        assert_eq!(ascending, expected);
    }
}

#[test]
fn finding_by_range_takes_the_start_and_leaves_the_end() {
    let mut store = Store::new();
    let db = database();
    let tx = db.begun(());
    for n in 50..60 {
        insert(&mut store, &tx, &[1, n], &[n]);
    }
    let keys = |start: &[u8], end: &[u8]| -> Vec<u8> {
        found(&store, &tx.raw_find_by_range(start, end))
            .into_iter()
            .map(|(key, _)| key[1])
            .collect()
    };
    assert_eq!(keys(&[1, 55], &[1, 58]), vec![55, 56, 57]);
    assert_eq!(keys(&[1, 55, 0], &[1, 57, 0]), vec![56, 57]);
    assert_eq!(keys(&[1, 58], &[1, 55]), Vec::<u8>::new());
    assert_eq!(keys(&[0], &[2]).len(), 10);
}

#[test]
fn a_transaction_reads_its_own_writes() {
    let mut store = Store::new();
    let db = database();
    let tx = db.begun(());
    assert_eq!(get(&store, &tx, b"k"), None);
    assert_eq!(remove(&mut store, &tx, b"k"), None);
    assert_eq!(insert(&mut store, &tx, b"k", b"v"), None);
    assert_eq!(get(&store, &tx, b"k"), Some(b"v".to_vec()));
    assert_eq!(
        insert(&mut store, &tx, b"k", b"w"),
        Some(b"v".to_vec())
    );
    assert_eq!(remove(&mut store, &tx, b"k"), Some(b"w".to_vec()));
    assert_eq!(get(&store, &tx, b"k"), None);
}

#[test]
fn removing_by_prefix_leaves_the_other_keys() {
    let mut store = Store::new();
    let db = database();
    let tx = db.begun(());
    let keys: [&[u8]; 7] = [&[1], &[2], &[2, 0], &[2, 255, 255], &[3], &[255], &[255, 0]];
    for key in keys {
        insert(&mut store, &tx, key, &[0]);
    }
    assert_eq!(remove_by_prefix(&mut store, &tx, &[2]), Ok(()));
    let left: Vec<&Vec<u8>> = store.keys().collect();
    assert_eq!(left, [&vec![1], &vec![3], &vec![255], &vec![255, 0]]);
    assert_eq!(remove_by_prefix(&mut store, &tx, &[255]), Ok(()));
    assert_eq!(store.len(), 2);
    assert_eq!(remove_by_prefix(&mut store, &tx, &[]), Ok(()));
    assert!(store.is_empty());
}

#[test]
fn a_failing_store_ends_the_operation() {
    let db = database();
    let tx = db.begun(());
    assert_eq!(
        tx.raw_get_bytes(b"k").read(Err(broken())),
        Err(DatabaseError::Backend(broken()))
    );
    assert_eq!(
        tx.raw_insert_bytes(b"k", b"v")
            .read(Some(b"w".to_vec()))
            .written(Err(broken())),
        Err(DatabaseError::Backend(broken()))
    );
    assert_eq!(
        tx.raw_remove_entry(b"k").read(None).deleted(Err(broken())),
        Err(DatabaseError::Backend(broken()))
    );
    let removal = tx.raw_remove_by_prefix(b"k");
    assert_eq!(
        removal.item(Some(Err(broken()))),
        RemovalStep::Finish(Err(DatabaseError::Backend(broken())))
    );
    assert_eq!(
        removal.deleted(Err(broken())),
        RemovalStep::Finish(Err(DatabaseError::Backend(broken())))
    );
    assert_eq!(
        removal.item(Some(Ok(b"l".to_vec()))),
        RemovalStep::Finish(Ok(()))
    );
    assert_eq!(
        removal.item(Some(Ok(b"kk".to_vec()))),
        RemovalStep::Delete(b"kk".to_vec())
    );
}
