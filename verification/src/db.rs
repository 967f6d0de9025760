//! The database and its transactions, around a handle to the store.

use std::time::Duration;

use vstd::prelude::*;

use crate::clock::duration_nanos;
use crate::commit::{committed, step_after_claim, step_after_commit, sync_claimed, CommitStep};
use crate::error::{ConfigError, StoreError};
use crate::operations::{Insertion, Lookup, PrefixRemoval, Removal};
use crate::options::{
    get_default_options, is_default_options, is_size_text, recovery_mode, recovery_mode_for,
    size_is_accepted, size_setting, RecoveryMode, StoreOptions,
};
use crate::scan::{descending_prefix_scan, prefix_scan, range_scan, Scan};
use crate::text::{trimmed, unsigned_value};
use crate::wal_sync::{interval_setting, is_interval_of, is_refusal_of, text_of, WalSyncPolicy};

verus! {

/// The values of the environment variables that configure the store, each
/// `None` where the variable is unset.
#[derive(Debug, Clone, Copy)]
pub struct EnvVars<'a> {
    pub write_buffer_size: Option<&'a str>,
    pub block_cache_size: Option<&'a str>,
    pub wal_sync_interval_ms: Option<&'a str>,
}

/// How a database is to be opened for writing.
#[derive(Debug)]
pub struct OpenPlan {
    pub options: StoreOptions,
    pub recovery_mode: RecoveryMode,
    pub wal_sync: WalSyncPolicy,
}

impl OpenPlan {
    /// The sync interval in milliseconds, where one is configured. The
    /// operator is then to be warned: commits are not `fsync`-ed one by one,
    /// in every process that reads the variable.
    pub fn relaxed_durability(&self) -> (r: Option<u128>)
        ensures
            match self.wal_sync.sync_interval() {
                Some(interval) => r is Some && r->Some_0 == duration_nanos(interval) / 1_000_000,
                None => r is None,
            },
    {
        match self.wal_sync.interval() {
            Some(interval) => Some(interval.as_millis()),
            None => None,
        }
    }
}

/// How a database is to be opened for reading.
#[derive(Debug, Clone, Copy, PartialEq, Eq, Structural)]
pub struct ReadOnlyPlan {
    pub options: StoreOptions,
    /// The store may be open for writing in another process.
    pub error_if_log_file_exist: bool,
}

/// What is needed before a database can be opened.
#[derive(Debug)]
pub struct OpenRequest<P> {
    /// The directory that has to exist.
    pub base_dir: P,
    pub relaxed_consistency: bool,
}

/// How a transaction is begun on the store.
#[derive(Debug, Clone, Copy, PartialEq, Eq, Structural)]
pub struct TransactionOptions {
    /// Reads see the state in which the transaction was begun.
    pub set_snapshot: bool,
    /// The commit is `fsync`-ed by the write itself.
    pub sync: bool,
}

/// How a transaction is begun with a given sync interval.
pub open spec fn transaction_options_for(interval: Option<Duration>) -> TransactionOptions {
    TransactionOptions { set_snapshot: true, sync: interval is None }
}

/// Whether `r` is how a database is opened with these settings. The sizes are
/// read before the sync interval, so where both are refused a size is
/// reported.
pub open spec fn is_open_plan(
    r: Result<OpenPlan, ConfigError>,
    env: EnvVars,
    relaxed_consistency: bool,
) -> bool {
    let write_buffer_size = size_setting(text_of(env.write_buffer_size));
    let block_cache_size = size_setting(text_of(env.block_cache_size));
    let interval = interval_setting(text_of(env.wal_sync_interval_ms));
    match r {
        Ok(plan) => {
            &&& is_default_options(Ok(plan.options), write_buffer_size, block_cache_size)
            &&& is_interval_of(plan.wal_sync.sync_interval(), interval)
            &&& plan.wal_sync.starts_at(0)
            &&& plan.recovery_mode == recovery_mode_for(
                plan.wal_sync.sync_interval(),
                relaxed_consistency,
            )
        },
        Err(err) => if size_is_accepted(write_buffer_size)
            && size_is_accepted(block_cache_size) {
            is_refusal_of(err, interval)
        } else {
            is_default_options(Err(err), write_buffer_size, block_cache_size)
        },
    }
}

/// A database, around the handle `db` to the store.
#[derive(Debug)]
pub struct RocksDb<D> {
    db: D,
    wal_sync: WalSyncPolicy,
}

impl<D> RocksDb<D> {
    /// The handle to the store.
    pub closed spec fn store(&self) -> D {
        self.db
    }

    /// The policy that decides which commits get an `fsync`.
    pub closed spec fn policy(&self) -> WalSyncPolicy {
        self.wal_sync
    }

    /// The configured sync interval, `None` if every commit is `fsync`-ed.
    pub open spec fn sync_interval(&self) -> Option<Duration> {
        self.policy().sync_interval()
    }

    /// Prepares the opening of a database whose path has the parent directory
    /// `base_dir`. Relaxed consistency, which allows opening the database even
    /// if the log got corrupted, is off unless asked for.
    pub fn open_blocking<P>(base_dir: Option<P>, relaxed_consistency: Option<bool>) -> (r: Result<
        OpenRequest<P>,
        ConfigError,
    >)
        ensures
            match base_dir {
                Some(dir) => r == Ok::<_, ConfigError>(
                    OpenRequest {
                        base_dir: dir,
                        relaxed_consistency: relaxed_consistency == Some(true),
                    },
                ),
                None => r == Err::<OpenRequest<P>, _>(ConfigError::NoBaseDir),
            },
    {
        let relaxed_consistency = match relaxed_consistency {
            Some(relaxed) => relaxed,
            None => false,
        };
        match base_dir {
            Some(base_dir) => Ok(OpenRequest { base_dir, relaxed_consistency }),
            None => Err(ConfigError::NoBaseDir),
        }
    }

    /// Decides how the store is opened.
    pub fn open_blocking_unlocked(env: EnvVars, relaxed_consistency: bool) -> (r: Result<
        OpenPlan,
        ConfigError,
    >)
        ensures
            is_open_plan(r, env, relaxed_consistency),
    {
        let options = match get_default_options(env.write_buffer_size, env.block_cache_size) {
            Ok(options) => options,
            Err(err) => {
                return Err(err);
            },
        };
        let wal_sync = match WalSyncPolicy::from_env(env.wal_sync_interval_ms) {
            Ok(wal_sync) => wal_sync,
            Err(err) => {
                return Err(err);
            },
        };
        let recovery_mode = recovery_mode(wal_sync.interval(), relaxed_consistency);
        Ok(OpenPlan { options, recovery_mode, wal_sync })
    }

    /// The database that was opened by a plan.
    pub fn opened(plan: OpenPlan, db: D) -> (r: Self)
        ensures
            r.store() == db,
            r.policy() == plan.wal_sync,
    {
        RocksDb { db, wal_sync: plan.wal_sync }
    }

    /// Takes over a store that was opened elsewhere, with the value of the
    /// sync interval variable. No error can be reported here, so a value that
    /// is refused falls back to the conservative "`fsync` every commit"; the
    /// refusal is handed out beside the database, to be logged.
    pub fn from(db: D, wal_sync_interval_ms: Option<&str>) -> (r: (Self, Option<ConfigError>))
        ensures
            r.0.store() == db,
            r.0.policy().starts_at(0),
            match r.1 {
                None => is_interval_of(
                    r.0.sync_interval(),
                    interval_setting(text_of(wal_sync_interval_ms)),
                ),
                Some(err) => r.0.sync_interval() is None && is_refusal_of(
                    err,
                    interval_setting(text_of(wal_sync_interval_ms)),
                ),
            },
    {
        match WalSyncPolicy::from_env(wal_sync_interval_ms) {
            Ok(wal_sync) => (RocksDb { db, wal_sync }, None),
            Err(err) => (RocksDb { db, wal_sync: WalSyncPolicy::new(None) }, Some(err)),
        }
    }

    pub fn inner(&self) -> (r: &D)
        ensures
            *r == self.store(),
    {
        &self.db
    }

    pub fn into_inner(self) -> (r: D)
        ensures
            r == self.store(),
    {
        self.db
    }

    /// From when on the next commit may claim the sync, in milliseconds.
    pub fn next_sync_millis(&self) -> (millis: u64)
        ensures
            self.policy().reads_deadline(millis),
    {
        self.wal_sync.next_sync_millis()
    }

    /// How a transaction is begun on the store.
    ///
    /// Nothing is lost on an unclean shutdown, unless the operator opted into
    /// a bounded window with a sync interval. Whether a sync is due is not
    /// decided here: transactions that only read are begun in the same way,
    /// and would consume the sync without ever performing it.
    pub fn begin_transaction(&self) -> (r: TransactionOptions)
        ensures
            r == transaction_options_for(self.sync_interval()),
            r.set_snapshot,
            r.sync <==> self.sync_interval() is None,
    {
        TransactionOptions { set_snapshot: true, sync: self.wal_sync.interval().is_none() }
    }

    /// The transaction that was begun on the store.
    pub fn begun<T>(&self, tx: T) -> (r: RocksDbTransaction<'_, T, D>)
        ensures
            r.handle() == tx,
            r.store() == self.store(),
            r.policy() == self.policy(),
    {
        RocksDbTransaction { tx, db: self }
    }
}

/// A transaction, around the handle `tx` to the store's transaction.
pub struct RocksDbTransaction<'a, T, D> {
    tx: T,
    db: &'a RocksDb<D>,
}

impl<'a, T, D> RocksDbTransaction<'a, T, D> {
    /// The handle to the store's transaction.
    pub closed spec fn handle(&self) -> T {
        self.tx
    }

    /// The handle to the store.
    pub closed spec fn store(&self) -> D {
        self.db.store()
    }

    /// The policy of the database.
    pub closed spec fn policy(&self) -> WalSyncPolicy {
        self.db.policy()
    }

    pub fn inner(&self) -> (r: &T)
        ensures
            *r == self.handle(),
    {
        &self.tx
    }

    pub fn raw_insert_bytes(&self, key: &[u8], value: &[u8]) -> (r: Insertion)
        ensures
            r.key@ == key@,
            r.value@ == value@,
    {
        Insertion::of(key, value)
    }

    pub fn raw_get_bytes(&self, key: &[u8]) -> (r: Lookup)
        ensures
            r.key@ == key@,
    {
        Lookup::of(key)
    }

    pub fn raw_remove_entry(&self, key: &[u8]) -> (r: Removal)
        ensures
            r.key@ == key@,
    {
        Removal::of(key)
    }

    pub fn raw_find_by_prefix(&self, key_prefix: &[u8]) -> (r: Scan)
        ensures
            r@ == prefix_scan(key_prefix@),
    {
        Scan::by_prefix(key_prefix)
    }

    pub fn raw_find_by_range(&self, start: &[u8], end: &[u8]) -> (r: Scan)
        ensures
            r@ == range_scan(start@, end@),
    {
        Scan::by_range(start, end)
    }

    pub fn raw_remove_by_prefix(&self, key_prefix: &[u8]) -> (r: PrefixRemoval)
        ensures
            r.scan@ == prefix_scan(key_prefix@),
    {
        PrefixRemoval::of(key_prefix)
    }

    pub fn raw_find_by_prefix_sorted_descending(&self, key_prefix: &[u8]) -> (r: Scan)
        ensures
            r@ == descending_prefix_scan(key_prefix@),
    {
        Scan::by_prefix_sorted_descending(key_prefix)
    }

    /// Hands out the store's transaction, for the store to commit it.
    pub fn commit_tx(self) -> (r: (T, Committing<'a, D>))
        ensures
            r.0 == self.handle(),
            r.1.store() == self.store(),
            r.1.policy() == self.policy(),
    {
        (self.tx, Committing { db: self.db })
    }
}

/// A transaction that the store is committing.
pub struct Committing<'a, D> {
    db: &'a RocksDb<D>,
}

impl<'a, D> Committing<'a, D> {
    /// The handle to the store.
    pub closed spec fn store(&self) -> D {
        self.db.store()
    }

    /// The policy of the database.
    pub closed spec fn policy(&self) -> WalSyncPolicy {
        self.db.policy()
    }

    pub fn inner(&self) -> (r: &'a D)
        ensures
            *r == self.store(),
    {
        self.db.inner()
    }

    /// Takes the store's reply to the commit, and claims the sync if the
    /// commit has succeeded. The log is flushed exactly if the claim is
    /// granted. Without a sync interval there is nothing to claim, and the log
    /// is not flushed. That the sync is claimed no more than once is left
    /// unsaid: the deadline moves behind a shared reference.
    pub fn committed(&self, reply: Result<(), StoreError>) -> (r: CommitStep)
        ensures
            match step_after_commit(reply) {
                CommitStep::ClaimSync => exists|claimed: bool| #[trigger]
                    self.policy().is_claim(claimed) && r == step_after_claim(claimed),
                last => r == last,
            },
            self.policy().sync_interval() is None ==> r !is FlushWal,
            reply is Ok ==> r == CommitStep::FlushWal || r == CommitStep::Finish(Ok(())),
            reply is Ok && r is FlushWal ==> self.policy().is_claim(true),
            reply is Ok && r is Finish ==> self.policy().is_claim(false),
            reply is Err ==> r is Finish && r->Finish_0 is Err,
    {
        match committed(reply) {
            CommitStep::ClaimSync => {
                let claimed = self.db.wal_sync.claim_sync();
                assert(self.policy().is_claim(claimed));
                sync_claimed(claimed)
            },
            last => last,
        }
    }
}

/// A database that is open for reading only, around the handle to the store.
#[derive(Debug)]
pub struct RocksDbReadOnly<D>(D);

impl<D> RocksDbReadOnly<D> {
    /// The handle to the store.
    pub closed spec fn store(&self) -> D {
        self.0
    }

    /// Decides how the store is opened. It may be open for writing in another
    /// process.
    pub fn open_read_only_blocking(env: EnvVars) -> (r: Result<ReadOnlyPlan, ConfigError>)
        ensures
            match r {
                Ok(plan) => {
                    &&& is_default_options(
                        Ok(plan.options),
                        size_setting(text_of(env.write_buffer_size)),
                        size_setting(text_of(env.block_cache_size)),
                    )
                    &&& !plan.error_if_log_file_exist
                },
                Err(err) => is_default_options(
                    Err(err),
                    size_setting(text_of(env.write_buffer_size)),
                    size_setting(text_of(env.block_cache_size)),
                ),
            },
    {
        match get_default_options(env.write_buffer_size, env.block_cache_size) {
            Ok(options) => Ok(ReadOnlyPlan { options, error_if_log_file_exist: false }),
            Err(err) => Err(err),
        }
    }

    /// The database that was opened by a plan.
    pub fn opened(db: D) -> (r: Self)
        ensures
            r.store() == db,
    {
        RocksDbReadOnly(db)
    }

    pub fn inner(&self) -> (r: &D)
        ensures
            *r == self.store(),
    {
        &self.0
    }

    pub fn begin_transaction(&self) -> (r: RocksDbReadOnlyTransaction<'_, D>)
        ensures
            r.store() == self.store(),
    {
        RocksDbReadOnlyTransaction(&self.0)
    }
}

/// A transaction that only reads.
pub struct RocksDbReadOnlyTransaction<'a, D>(&'a D);

impl<'a, D> RocksDbReadOnlyTransaction<'a, D> {
    /// The handle to the store.
    pub closed spec fn store(&self) -> D {
        *self.0
    }

    pub fn inner(&self) -> (r: &'a D)
        ensures
            *r == self.store(),
    {
        self.0
    }

    pub fn raw_get_bytes(&self, key: &[u8]) -> (r: Lookup)
        ensures
            r.key@ == key@,
    {
        Lookup::of(key)
    }

    pub fn raw_find_by_range(&self, start: &[u8], end: &[u8]) -> (r: Scan)
        ensures
            r@ == range_scan(start@, end@),
    {
        Scan::by_range(start, end)
    }

    pub fn raw_find_by_prefix(&self, key_prefix: &[u8]) -> (r: Scan)
        ensures
            r@ == prefix_scan(key_prefix@),
    {
        Scan::by_prefix(key_prefix)
    }

    pub fn raw_find_by_prefix_sorted_descending(&self, key_prefix: &[u8]) -> (r: Scan)
        ensures
            r@ == descending_prefix_scan(key_prefix@),
    {
        Scan::by_prefix_sorted_descending(key_prefix)
    }
}

/// With the variable unset or zero the sync interval changes nothing: the
/// database opens, every commit is `fsync`-ed by the write itself, and only
/// relaxed consistency decides how the log is replayed.
pub proof fn law_default_syncs_every_commit(
    env: EnvVars,
    relaxed_consistency: bool,
    r: Result<OpenPlan, ConfigError>,
)
    requires
        is_open_plan(r, env, relaxed_consistency),
        size_is_accepted(size_setting(text_of(env.write_buffer_size))),
        size_is_accepted(size_setting(text_of(env.block_cache_size))),
        match text_of(env.wal_sync_interval_ms) {
            None => true,
            Some(s) => unsigned_value(trimmed(s)) == Some(0nat),
        },
    ensures
        r is Ok,
        r->Ok_0.wal_sync.sync_interval() is None,
        transaction_options_for(r->Ok_0.wal_sync.sync_interval()).sync,
        r->Ok_0.recovery_mode == (if relaxed_consistency {
            RecoveryMode::TolerateCorruptedTailRecords
        } else {
            RecoveryMode::AbsoluteConsistency
        }),
{
}

/// With a sync interval commits are not `fsync`-ed by the write itself, and
/// the log is replayed up to the first gap, whether or not relaxed consistency
/// is asked for.
pub proof fn law_interval_replays_up_to_first_gap(
    env: EnvVars,
    relaxed_consistency: bool,
    r: Result<OpenPlan, ConfigError>,
)
    requires
        is_open_plan(r, env, relaxed_consistency),
        r is Ok,
        interval_setting(text_of(env.wal_sync_interval_ms)) is Millis,
    ensures
        r->Ok_0.wal_sync.sync_interval() is Some,
        !transaction_options_for(r->Ok_0.wal_sync.sync_interval()).sync,
        r->Ok_0.recovery_mode == RecoveryMode::PointInTime,
{
}

/// A sync interval of more than a minute is refused when the database is
/// opened.
pub proof fn law_long_intervals_are_refused(
    env: EnvVars,
    relaxed_consistency: bool,
    r: Result<OpenPlan, ConfigError>,
    millis: nat,
)
    requires
        is_open_plan(r, env, relaxed_consistency),
        text_of(env.wal_sync_interval_ms) is Some,
        unsigned_value(trimmed(text_of(env.wal_sync_interval_ms)->Some_0)) == Some(millis),
        millis > 60_000,
    ensures
        r is Err,
{
}

/// Every transaction is begun with a snapshot, whatever the sync interval, and
/// is `fsync`-ed by the write itself exactly if there is none.
pub proof fn law_every_transaction_has_a_snapshot(interval: Option<Duration>)
    ensures
        transaction_options_for(interval).set_snapshot,
        transaction_options_for(interval).sync <==> interval is None,
{
}

/// What a database that opens is opened with, in terms of the texts of the
/// three variables. It opens exactly if both sizes are unset or powers of two,
/// and the interval is unset or a number up to 60000. It then has the sizes and
/// the interval that were given, to the byte and to the millisecond, and its
/// first commit may claim the sync.
pub proof fn law_database_opens_as_configured(
    env: EnvVars,
    relaxed_consistency: bool,
    r: Result<OpenPlan, ConfigError>,
)
    requires
        is_open_plan(r, env, relaxed_consistency),
    ensures
        ({
            let var = env.wal_sync_interval_ms;
            let number = unsigned_value(trimmed(var->Some_0@));
            let is_interval_text = var is Some ==> number is Some && number->Some_0 <= 60_000;
            &&& r is Ok <==> is_size_text(env.write_buffer_size) && is_size_text(
                env.block_cache_size,
            ) && is_interval_text
            &&& r is Ok ==> {
                let plan = r->Ok_0;
                let interval = plan.wal_sync.sync_interval();
                &&& plan.wal_sync.starts_at(0)
                &&& match env.write_buffer_size {
                    Some(text) => unsigned_value(text@) == Some(
                        plan.options.write_buffer_size as nat,
                    ),
                    None => plan.options.write_buffer_size == 2_097_152,
                }
                &&& match env.block_cache_size {
                    Some(text) => unsigned_value(text@) == Some(
                        plan.options.block_cache_size as nat,
                    ),
                    None => plan.options.block_cache_size == 2_097_152,
                }
                &&& plan.options.max_write_buffer_number == 2
                &&& plan.options.cache_index_and_filter_blocks
                &&& plan.options.max_open_files == 256
                &&& plan.options.create_if_missing
                &&& var is None || number == Some(0nat) ==> {
                    &&& interval is None
                    &&& plan.recovery_mode == (if relaxed_consistency {
                        RecoveryMode::TolerateCorruptedTailRecords
                    } else {
                        RecoveryMode::AbsoluteConsistency
                    })
                }
                &&& var is Some && number->Some_0 > 0 ==> {
                    &&& interval is Some
                    &&& duration_nanos(interval->Some_0) == number->Some_0 * 1_000_000
                    &&& plan.recovery_mode == RecoveryMode::PointInTime
                }
            }
        }),
{
}

/// A database that does not open says why. A size is reported before the
/// interval, and that of the write buffer before that of the block cache.
pub proof fn law_refused_database_says_why(
    env: EnvVars,
    relaxed_consistency: bool,
    r: Result<OpenPlan, ConfigError>,
)
    requires
        is_open_plan(r, env, relaxed_consistency),
        r is Err,
    ensures
        !is_size_text(env.write_buffer_size) ==> match r->Err_0 {
            ConfigError::InvalidSize { env_name, .. } => env_name@
                == "FM_ROCKSDB_WRITE_BUFFER_SIZE"@,
            ConfigError::NotPowerOfTwo { env_name } => env_name@
                == "FM_ROCKSDB_WRITE_BUFFER_SIZE"@,
            _ => false,
        },
        is_size_text(env.write_buffer_size) && !is_size_text(env.block_cache_size)
            ==> match r->Err_0 {
            ConfigError::InvalidSize { env_name, .. } => env_name@
                == "FM_ROCKSDB_BLOCK_CACHE_SIZE"@,
            ConfigError::NotPowerOfTwo { env_name } => env_name@ == "FM_ROCKSDB_BLOCK_CACHE_SIZE"@,
            _ => false,
        },
        is_size_text(env.write_buffer_size) && is_size_text(env.block_cache_size) ==> {
            let number = unsigned_value(trimmed(env.wal_sync_interval_ms->Some_0@));
            match r->Err_0 {
                ConfigError::InvalidInterval { .. } => number is None || number->Some_0 > u64::MAX,
                ConfigError::IntervalTooLong { millis } => number == Some(millis as nat) && millis
                    > 60_000,
                _ => false,
            }
        },
{
}

/// A handle is handed out as it was handed in, and a policy stays with its
/// database.
proof fn law_handles_are_kept<T, D>(
    db: RocksDb<D>,
    tx: RocksDbTransaction<'_, T, D>,
    committing: Committing<'_, D>,
    read_only: RocksDbReadOnly<D>,
    reader: RocksDbReadOnlyTransaction<'_, D>,
)
    ensures
        db.store() == db.db,
        db.policy() == db.wal_sync,
        db.sync_interval() == db.wal_sync.sync_interval(),
        tx.handle() == tx.tx,
        tx.store() == tx.db.db,
        tx.policy() == tx.db.wal_sync,
        committing.store() == committing.db.db,
        committing.policy() == committing.db.wal_sync,
        read_only.store() == read_only.0,
        reader.store() == *reader.0,
{
}

} // verus!
