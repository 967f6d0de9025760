use fedimint_rocksdb::commit::{
    classify_commit_error, committed, sync_claimed, wal_flushed, CommitStep,
};
use fedimint_rocksdb::error::{ConfigError, DatabaseError, ErrorKind, StoreError};
use fedimint_rocksdb::options::parse_env_size;
use fedimint_rocksdb::text::to_decimal;
use fedimint_rocksdb::wal_sync::parse_env_wal_sync_interval_from;

fn store_error(kind: ErrorKind) -> StoreError {
    StoreError {
        kind,
        message: "out of order".to_string(),
    }
}

#[test]
fn refusals_are_reported_in_words() {
    assert_eq!(
        parse_env_size("FM_ROCKSDB_BLOCK_CACHE_SIZE", Some("x"))
            .unwrap_err()
            .message(),
        "Could not parse FM_ROCKSDB_BLOCK_CACHE_SIZE"
    );
    assert_eq!(
        parse_env_size("FM_ROCKSDB_WRITE_BUFFER_SIZE", Some("3"))
            .unwrap_err()
            .message(),
        "FM_ROCKSDB_WRITE_BUFFER_SIZE is not a power of 2"
    );
    assert_eq!(
        parse_env_wal_sync_interval_from(Some("5s"))
            .unwrap_err()
            .message(),
        "Could not parse FM_ROCKSDB_WAL_SYNC_INTERVAL_MS as milliseconds"
    );
    assert_eq!(
        parse_env_wal_sync_interval_from(Some("3600000"))
            .unwrap_err()
            .message(),
        "FM_ROCKSDB_WAL_SYNC_INTERVAL_MS is 3600000ms, refusing anything above 60000ms; \
         a larger value would leave writes un-synced almost indefinitely"
    );
    assert_eq!(
        ConfigError::NoBaseDir.message(),
        "db path must have a base dir"
    );
}

#[test]
fn numbers_are_written_in_decimal() {
    for n in [0, 7, 9, 10, 99, 100, 60_001, 1_234_567_890, u64::MAX] {
        assert_eq!(to_decimal(n), n.to_string());
    }
}

#[test]
fn conflicts_can_be_retried() {
    for kind in [
        ErrorKind::Busy,
        ErrorKind::TryAgain,
        ErrorKind::MergeInProgress,
        ErrorKind::TimedOut,
    ] {
        assert_eq!(
            classify_commit_error(store_error(kind)),
            DatabaseError::WriteConflict
        );
        assert_eq!(
            committed(Err(store_error(kind))),
            CommitStep::Finish(Err(DatabaseError::WriteConflict))
        );
    }
}

#[test]
fn other_failures_are_passed_on() {
    for kind in [
        ErrorKind::NotFound,
        ErrorKind::Corruption,
        ErrorKind::NotSupported,
        ErrorKind::InvalidArgument,
        ErrorKind::IOError,
        ErrorKind::Incomplete,
        ErrorKind::ShutdownInProgress,
        ErrorKind::Aborted,
        ErrorKind::Expired,
        ErrorKind::CompactionTooLarge,
        ErrorKind::ColumnFamilyDropped,
        ErrorKind::Unknown,
    ] {
        assert_eq!(
            committed(Err(store_error(kind))),
            CommitStep::Finish(Err(DatabaseError::Backend(store_error(kind))))
        );
    }
}

#[test]
fn a_claimed_sync_is_performed() {
    assert_eq!(committed(Ok(())), CommitStep::ClaimSync);
    assert_eq!(sync_claimed(true), CommitStep::FlushWal);
    assert_eq!(sync_claimed(false), CommitStep::Finish(Ok(())));
    assert_eq!(wal_flushed(Ok(())), CommitStep::Finish(Ok(())));
    // A failed sync is no conflict, whatever the store calls it.
    assert_eq!(
        wal_flushed(Err(store_error(ErrorKind::Busy))),
        CommitStep::Finish(Err(DatabaseError::Backend(store_error(ErrorKind::Busy))))
    );
}

#[test]
fn a_refused_number_comes_with_the_parsers_error() {
    for text in ["", "x", "18446744073709551616", "-1"] {
        assert_eq!(
            parse_env_wal_sync_interval_from(Some(&format!(" {text} "))),
            Err(ConfigError::InvalidInterval {
                cause: text.parse::<u64>().unwrap_err()
            })
        );
        assert_eq!(
            parse_env_size("SIZE", Some(text)),
            Err(ConfigError::InvalidSize {
                env_name: "SIZE".to_string(),
                cause: text.parse::<usize>().unwrap_err()
            })
        );
    }
}
