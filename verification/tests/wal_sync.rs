use std::sync::atomic::{AtomicU64, Ordering};
use std::sync::Arc;
use std::time::{Duration, Instant};

use fedimint_rocksdb::commit::CommitStep;
use fedimint_rocksdb::db::RocksDb;
use fedimint_rocksdb::error::ConfigError;
use fedimint_rocksdb::wal_sync::{
    parse_env_wal_sync_interval_from, saturating_millis, sync_slot, ClaimAttempt, WalSyncPolicy,
    MAX_WAL_SYNC_INTERVAL_MS,
};

/// Lets time pass without giving up the thread.
fn wait(duration: Duration) {
    let start = Instant::now();
    while start.elapsed() < duration {}
}

/// With no interval configured every commit is already `fsync`-ed, so the
/// commit path must not issue a second, redundant flush.
#[test]
fn no_explicit_sync_when_disabled() {
    let policy = WalSyncPolicy::new(None);
    for _ in 0..100 {
        assert!(
            !policy.claim_sync(),
            "default path must not add an extra fsync on top of set_sync(true)"
        );
    }
}

#[test]
fn syncs_first_commit_then_rate_limits() {
    let policy = WalSyncPolicy::new(Some(Duration::from_secs(30)));

    // The commit right after opening must be durable.
    assert!(policy.claim_sync());

    // Everything within the interval rides on that fsync.
    for _ in 0..100 {
        assert!(!policy.claim_sync());
    }
}

#[test]
fn syncs_again_once_interval_elapses() {
    let policy = WalSyncPolicy::new(Some(Duration::from_millis(50)));

    assert!(policy.claim_sync());
    assert!(!policy.claim_sync());

    wait(Duration::from_millis(75));

    // A new interval means a new fsync, which also makes every commit skipped
    // above durable.
    assert!(policy.claim_sync());
    assert!(!policy.claim_sync());
}

#[test]
fn only_one_concurrent_commit_claims_the_sync() {
    let policy = Arc::new(WalSyncPolicy::new(Some(Duration::from_secs(30))));
    let claims = Arc::new(AtomicU64::new(0));
    let runtime = tokio::runtime::Builder::new_multi_thread()
        .worker_threads(16)
        .build()
        .expect("runtime");

    let threads: Vec<_> = (0..16)
        .map(|_| {
            let policy = policy.clone();
            let claims = claims.clone();
            runtime.spawn_blocking(move || {
                for _ in 0..1000 {
                    if policy.claim_sync() {
                        claims.fetch_add(1, Ordering::Relaxed);
                    }
                }
            })
        })
        .collect();

    for thread in threads {
        runtime.block_on(thread).expect("thread panicked");
    }

    // Racing transactions must not each take the slot for one interval.
    assert_eq!(claims.load(Ordering::Relaxed), 1);
}

/// Opening transactions must not consume the interval's sync: those that only
/// read are dropped without committing, and the `fsync` that they had claimed
/// would never happen.
#[test]
fn read_only_transactions_do_not_consume_the_sync() {
    let (db, refused) = RocksDb::from((), Some("1"));
    assert!(refused.is_none());

    // Well past the interval, so any claim would be granted.
    wait(Duration::from_millis(5));

    for _ in 0..50 {
        let options = db.begin_transaction();
        assert!(options.set_snapshot);
        assert!(!options.sync);
        let tx = db.begun(());
        drop(tx);
    }

    assert_eq!(
        db.next_sync_millis(),
        0,
        "opening (and dropping) transactions must leave the sync unclaimed"
    );

    // A real commit does claim it.
    let ((), committing) = db.begun(()).commit_tx();
    assert_eq!(committing.committed(Ok(())), CommitStep::FlushWal);

    assert_ne!(
        db.next_sync_millis(),
        0,
        "a committed transaction must claim the sync"
    );
}

#[test]
fn rejects_absurd_intervals() {
    assert!(parse_env_wal_sync_interval_from(Some(&MAX_WAL_SYNC_INTERVAL_MS.to_string())).is_ok());
    assert!(
        parse_env_wal_sync_interval_from(Some(&(MAX_WAL_SYNC_INTERVAL_MS + 1).to_string()))
            .is_err(),
        "an interval past the cap must be rejected, not silently disable syncing"
    );
    assert!(parse_env_wal_sync_interval_from(Some(&u64::MAX.to_string())).is_err());
}

#[test]
fn zero_and_unset_mean_sync_every_commit() {
    assert_eq!(parse_env_wal_sync_interval_from(None).expect("valid"), None);
    assert_eq!(
        parse_env_wal_sync_interval_from(Some("0")).expect("valid"),
        None
    );
    assert_eq!(
        parse_env_wal_sync_interval_from(Some(" 5000 ")).expect("valid"),
        Some(Duration::from_secs(5))
    );
    assert!(parse_env_wal_sync_interval_from(Some("nonsense")).is_err());
}

#[test]
fn intervals_are_told_apart_from_everything_else() {
    for (text, millis) in [("1", 1), ("+7", 7), ("007", 7), ("60000", 60_000)] {
        assert_eq!(
            parse_env_wal_sync_interval_from(Some(text)).expect("valid"),
            Some(Duration::from_millis(millis)),
            "{text}"
        );
    }
    assert_eq!(
        parse_env_wal_sync_interval_from(Some("\u{2003}\t12\u{a0}\n")).expect("valid"),
        Some(Duration::from_millis(12))
    );
    for text in ["", " ", "+", "-1", "++1", "1_000", "1 2", "5s", "0x10", "18446744073709551616"] {
        assert!(
            matches!(
                parse_env_wal_sync_interval_from(Some(text)),
                Err(ConfigError::InvalidInterval { .. })
            ),
            "{text}"
        );
    }
    assert_eq!(
        parse_env_wal_sync_interval_from(Some("18446744073709551615")),
        Err(ConfigError::IntervalTooLong { millis: u64::MAX })
    );
    assert_eq!(
        parse_env_wal_sync_interval_from(Some("60001")),
        Err(ConfigError::IntervalTooLong { millis: 60_001 })
    );
}

#[test]
fn policy_comes_from_the_variable() {
    assert_eq!(
        WalSyncPolicy::from_env(None).expect("valid").interval(),
        None
    );
    assert_eq!(
        WalSyncPolicy::from_env(Some("250"))
            .expect("valid")
            .interval(),
        Some(Duration::from_millis(250))
    );
    assert!(matches!(
        WalSyncPolicy::from_env(Some("60001")),
        Err(ConfigError::IntervalTooLong { millis: 60_001 })
    ));
}

#[test]
fn a_slot_is_due_from_its_deadline_on() {
    assert_eq!(sync_slot(50, 0, 0), Some(50));
    assert_eq!(sync_slot(50, 49, 50), None);
    assert_eq!(sync_slot(50, 50, 50), Some(100));
    assert_eq!(sync_slot(50, 120, 50), Some(170));
    assert_eq!(sync_slot(50, u64::MAX - 10, 0), Some(u64::MAX));
}

#[test]
fn durations_are_cut_to_whole_milliseconds() {
    assert_eq!(saturating_millis(&Duration::from_secs(30)), 30_000);
    assert_eq!(saturating_millis(&Duration::from_micros(1_999)), 1);
    assert_eq!(saturating_millis(&Duration::from_micros(999)), 0);
    assert_eq!(saturating_millis(&Duration::from_secs(u64::MAX)), u64::MAX);
}

#[test]
fn at_most_one_claim_per_interval() {
    let policy = WalSyncPolicy::new(Some(Duration::from_millis(50)));
    let claimed_at: Vec<u64> = [10, 20, 59, 60, 61, 109, 110, 300, 349, 350]
        .into_iter()
        .filter(|now| policy.attempt_at(*now).expect("enabled").claimed())
        .collect();
    assert_eq!(claimed_at, vec![10, 60, 110, 300, 350]);
    assert_eq!(policy.next_sync_millis(), 400);
}

#[test]
fn an_attempt_tells_what_it_has_seen() {
    let policy = WalSyncPolicy::new(Some(Duration::from_secs(30)));
    assert_eq!(
        policy.attempt_at(5),
        Some(ClaimAttempt {
            deadline: 0,
            next: Some(30_005),
            swapped: Some(Ok(0))
        })
    );
    assert_eq!(
        policy.attempt_at(30_004),
        Some(ClaimAttempt {
            deadline: 30_005,
            next: None,
            swapped: None
        })
    );
    assert_eq!(WalSyncPolicy::new(None).attempt_at(5), None);
}

#[test]
fn an_attempt_claims_by_moving_the_deadline() {
    let attempt = |swapped| ClaimAttempt {
        deadline: 7,
        next: Some(57),
        swapped,
    };
    assert!(attempt(Some(Ok(7))).claimed());
    assert!(!attempt(Some(Err(60))).claimed());
    assert!(!attempt(None).claimed());
}

#[test]
fn the_longest_interval_does_not_overflow() {
    let policy = WalSyncPolicy::new(Some(Duration::MAX));
    assert_eq!(policy.next_sync_millis(), 0);
    assert!(policy.attempt_at(3).expect("enabled").claimed());
    assert!(!policy.attempt_at(10).expect("enabled").claimed());
    assert_eq!(policy.next_sync_millis(), u64::MAX);
}

#[test]
fn a_claim_sets_the_deadline() {
    let policy = WalSyncPolicy::from_env(Some("1")).expect("valid");
    assert_eq!(policy.next_sync_millis(), 0);
    assert!(policy.attempt_at(5).expect("enabled").claimed());
    assert_eq!(policy.next_sync_millis(), 6);
}

#[test]
fn without_an_interval_the_deadline_stays() {
    let policy = WalSyncPolicy::new(None);
    for now in [0, 5, u64::MAX] {
        assert_eq!(policy.attempt_at(now), None);
        assert!(!policy.claim_sync());
    }
    assert_eq!(policy.next_sync_millis(), 0);
}
