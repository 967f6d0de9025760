//! Which commits get an `fsync`.
//!
//! With no interval configured every commit is `fsync`-ed by the write itself.
//! With an interval, commits are written without `fsync` and the write-ahead
//! log is synced at most once per interval instead. That sync covers every
//! live log file, so it also makes all commits before it durable.

use std::sync::atomic::{AtomicU64, Ordering};
use std::time::{Duration, Instant};

use vstd::prelude::*;

use crate::clock::duration_nanos;
use crate::error::ConfigError;
use crate::text::{is_u64_refusal, read_u64, trim, trimmed, unsigned_value};

verus! {

/// Upper bound on the configurable sync interval. Beyond this the setting
/// stops being "bounded durability" and becomes "effectively never sync",
/// which is much more likely to be a typo or a mix-up of seconds and
/// milliseconds than an intent.
pub const MAX_WAL_SYNC_INTERVAL_MS: u64 = 60_000;

/// What a setting of the sync interval means.
pub enum IntervalSetting {
    /// Every commit is `fsync`-ed.
    EveryCommit,
    /// At most one sync per so many milliseconds.
    Millis(u64),
    /// This text is not a number, or one that does not fit.
    Invalid(Seq<char>),
    /// A number of milliseconds above the largest allowed.
    TooLong(u64),
}

/// The meaning of the variable's value, where `None` stands for an unset
/// variable.
pub open spec fn interval_setting(var: Option<Seq<char>>) -> IntervalSetting {
    match var {
        None => IntervalSetting::EveryCommit,
        Some(s) => match unsigned_value(trimmed(s)) {
            None => IntervalSetting::Invalid(trimmed(s)),
            Some(v) => if v > u64::MAX {
                IntervalSetting::Invalid(trimmed(s))
            } else if v > MAX_WAL_SYNC_INTERVAL_MS {
                IntervalSetting::TooLong(v as u64)
            } else if v == 0 {
                IntervalSetting::EveryCommit
            } else {
                IntervalSetting::Millis(v as u64)
            },
        },
    }
}

/// The characters of an optional text.
pub open spec fn text_of(var: Option<&str>) -> Option<Seq<char>> {
    match var {
        None => None,
        Some(s) => Some(s@),
    }
}

/// Whether `interval` is what `setting` asks for; never so for a setting that
/// is refused.
pub open spec fn is_interval_of(interval: Option<Duration>, setting: IntervalSetting) -> bool {
    match setting {
        IntervalSetting::EveryCommit => interval is None,
        IntervalSetting::Millis(millis) => interval is Some && duration_nanos(interval->Some_0)
            == millis * 1_000_000,
        IntervalSetting::Invalid(_) => false,
        IntervalSetting::TooLong(_) => false,
    }
}

/// Whether `err` is how `setting` is refused; never so for a setting that is
/// accepted. A text that is not a number is refused with the parser's error.
pub open spec fn is_refusal_of(err: ConfigError, setting: IntervalSetting) -> bool {
    match setting {
        IntervalSetting::EveryCommit => false,
        IntervalSetting::Millis(_) => false,
        IntervalSetting::Invalid(text) => match err {
            ConfigError::InvalidInterval { cause } => is_u64_refusal(text, cause),
            _ => false,
        },
        IntervalSetting::TooLong(millis) => err == (ConfigError::IntervalTooLong { millis }),
    }
}

/// Reads the value of the sync interval variable, `None` if it is unset.
///
/// Unset or `0` yields `None`, meaning every commit is `fsync`-ed.
pub fn parse_env_wal_sync_interval_from(var: Option<&str>) -> (r: Result<
    Option<Duration>,
    ConfigError,
>)
    ensures
        match r {
            Ok(interval) => is_interval_of(interval, interval_setting(text_of(var))),
            Err(err) => is_refusal_of(err, interval_setting(text_of(var))),
        },
        r is Ok && r->Ok_0 is Some ==> var is Some && unsigned_value(
            trimmed(var->Some_0@),
        ) is Some && duration_nanos(r->Ok_0->Some_0) == unsigned_value(
            trimmed(var->Some_0@),
        )->Some_0 * 1_000_000,
{
    let text = match var {
        None => {
            return Ok(None);
        },
        Some(text) => text,
    };
    let millis = match read_u64(trim(text)) {
        Ok(millis) => millis,
        Err(cause) => {
            return Err(ConfigError::InvalidInterval { cause });
        },
    };
    if millis > MAX_WAL_SYNC_INTERVAL_MS {
        return Err(ConfigError::IntervalTooLong { millis });
    }
    if millis == 0 {
        Ok(None)
    } else {
        Ok(Some(Duration::from_millis(millis)))
    }
}

/// The sum of two numbers of milliseconds, at most `u64::MAX`.
pub open spec fn add_millis(a: u64, b: u64) -> u64 {
    if a + b > u64::MAX {
        u64::MAX
    } else {
        (a + b) as u64
    }
}

/// The whole milliseconds of a number of nanoseconds, at most `u64::MAX`.
pub open spec fn whole_millis(nanos: nat) -> u64 {
    if nanos / 1_000_000 > u64::MAX {
        u64::MAX
    } else {
        (nanos / 1_000_000) as u64
    }
}

/// The deadline that a commit at time `now` sets when it claims the sync, or
/// `None` where the present deadline has not come yet.
pub open spec fn claimed_deadline(interval: u64, now: u64, deadline: u64) -> Option<u64> {
    if now < deadline {
        None
    } else {
        Some(add_millis(now, interval))
    }
}

/// Decides whether a commit at time `now` may claim the sync, and from when
/// on the next one may. All times are milliseconds since the policy was made.
pub fn sync_slot(interval: u64, now: u64, deadline: u64) -> (r: Option<u64>)
    ensures
        r == claimed_deadline(interval, now, deadline),
        r is Some <==> now >= deadline,
        r is Some && now + interval <= u64::MAX ==> r->Some_0 == now + interval,
        r is Some && now + interval > u64::MAX ==> r->Some_0 == u64::MAX,
{
    if now < deadline {
        None
    } else {
        Some(now.saturating_add(interval))
    }
}

/// The length of a duration in whole milliseconds, at most `u64::MAX`.
pub fn saturating_millis(d: &Duration) -> (r: u64)
    ensures
        r == whole_millis(duration_nanos(*d)),
{
    let millis: u128 = d.as_millis();
    if millis > u64::MAX as u128 {
        u64::MAX
    } else {
        millis as u64
    }
}

/// What came of an attempt to claim the sync.
#[derive(Debug, Clone, Copy, PartialEq, Eq)]
pub struct ClaimAttempt {
    /// The deadline that the attempt has read.
    pub deadline: u64,
    /// The deadline that it tried to set in its place, `None` if the one it
    /// has read had not come yet.
    pub next: Option<u64>,
    /// What the compare-and-swap of the one for the other answered, `None` if
    /// there was nothing to swap.
    pub swapped: Option<Result<u64, u64>>,
}

impl ClaimAttempt {
    /// Whether the attempt has claimed the sync: it has moved the deadline.
    pub open spec fn succeeded(&self) -> bool {
        self.swapped is Some && self.swapped->Some_0 is Ok
    }

    pub fn claimed(&self) -> (r: bool)
        ensures
            r == self.succeeded(),
            r <==> self.swapped is Some && self.swapped->Some_0 is Ok,
    {
        match self.swapped {
            Some(Ok(_)) => true,
            _ => false,
        }
    }
}

/// Decides which commits get an `fsync`.
///
/// The sync is claimed when a transaction commits, not when it is opened: a
/// transaction that only reads is dropped without committing, and a sync that
/// it had claimed would never be performed.
#[derive(Debug)]
pub struct WalSyncPolicy {
    /// `None` means "`fsync` every commit".
    interval: Option<Duration>,
    epoch: Instant,
    /// Milliseconds since `epoch` from which the next commit may claim the
    /// sync. Starts at 0, so that the first commit may.
    next_sync_millis: AtomicU64,
}

impl WalSyncPolicy {
    /// The configured interval, `None` if every commit is `fsync`-ed.
    pub closed spec fn sync_interval(&self) -> Option<Duration> {
        self.interval
    }

    /// Whether the deadline was made with the value `millis`, so that it holds
    /// that until the first swap.
    pub closed spec fn starts_at(&self, millis: u64) -> bool {
        call_ensures(AtomicU64::new, (millis,), self.next_sync_millis)
    }

    /// Whether `elapsed` is a reading of the time since the policy was made:
    /// `Instant::elapsed` can give it for the policy's epoch.
    pub closed spec fn reads_clock(&self, elapsed: Duration) -> bool {
        call_ensures(Instant::elapsed, (&self.epoch,), elapsed)
    }

    /// Whether `millis` is a reading of the deadline: an atomic load of it can
    /// give it.
    pub closed spec fn reads_deadline(&self, millis: u64) -> bool {
        call_ensures(AtomicU64::load, (&self.next_sync_millis, Ordering::Relaxed), millis)
    }

    /// Whether `answer` is what an atomic compare-and-swap of the deadline,
    /// from `deadline` to `next`, can answer.
    pub closed spec fn swaps_deadline(
        &self,
        deadline: u64,
        next: u64,
        answer: Result<u64, u64>,
    ) -> bool {
        call_ensures(
            AtomicU64::compare_exchange,
            (&self.next_sync_millis, deadline, next, Ordering::Relaxed, Ordering::Relaxed),
            answer,
        )
    }

    /// Whether `attempt` is what comes of an attempt, at time `now`, to claim
    /// the sync of a policy with the given interval: the deadline is read, and
    /// where it has come, it is swapped for the one that `now` leads to.
    pub open spec fn is_attempt(
        &self,
        interval: Duration,
        now: u64,
        attempt: ClaimAttempt,
    ) -> bool {
        &&& self.reads_deadline(attempt.deadline)
        &&& attempt.next == claimed_deadline(
            whole_millis(duration_nanos(interval)),
            now,
            attempt.deadline,
        )
        &&& match attempt.next {
            None => attempt.swapped is None,
            Some(next) => attempt.swapped is Some && self.swaps_deadline(
                attempt.deadline,
                next,
                attempt.swapped->Some_0,
            ),
        }
    }

    /// Whether `claimed` is what a claim of this interval's sync can be
    /// answered: without an interval it is refused, and with one the answer is
    /// what an attempt at the time that the clock shows has come to.
    pub open spec fn is_claim(&self, claimed: bool) -> bool {
        match self.sync_interval() {
            None => !claimed,
            Some(interval) => exists|elapsed: Duration, attempt: ClaimAttempt|
                #![trigger self.reads_clock(elapsed), attempt.succeeded()]
                {
                    &&& self.reads_clock(elapsed)
                    &&& self.is_attempt(interval, whole_millis(duration_nanos(elapsed)), attempt)
                    &&& claimed == attempt.succeeded()
                },
        }
    }

    /// The policy that the value of the sync interval variable asks for.
    pub fn from_env(var: Option<&str>) -> (r: Result<Self, ConfigError>)
        ensures
            match r {
                Ok(policy) => {
                    &&& is_interval_of(policy.sync_interval(), interval_setting(text_of(var)))
                    &&& policy.starts_at(0)
                },
                Err(err) => is_refusal_of(err, interval_setting(text_of(var))),
            },
    {
        match parse_env_wal_sync_interval_from(var) {
            Ok(interval) => Ok(Self::new(interval)),
            Err(err) => Err(err),
        }
    }

    /// A policy whose first commit may claim the sync.
    pub fn new(interval: Option<Duration>) -> (policy: Self)
        ensures
            policy.sync_interval() == interval,
            policy.starts_at(0),
    {
        WalSyncPolicy { interval, epoch: Instant::now(), next_sync_millis: AtomicU64::new(0) }
    }

    pub fn interval(&self) -> (r: Option<Duration>)
        ensures
            r == self.sync_interval(),
    {
        self.interval
    }

    /// From when on the next commit may claim the sync, in milliseconds since
    /// the policy was made. Other threads may move it at any time.
    pub fn next_sync_millis(&self) -> (millis: u64)
        ensures
            self.reads_deadline(millis),
    {
        self.next_sync_millis.load(Ordering::Relaxed)
    }

    /// Attempts to claim this interval's sync for a commit at time `now`, in
    /// milliseconds since the policy was made. `None` if no interval is
    /// configured.
    ///
    /// A deadline that has come is replaced by a compare-and-swap, so that of
    /// several commits racing for it a single one succeeds.
    pub fn attempt_at(&self, now: u64) -> (r: Option<ClaimAttempt>)
        ensures
            match self.sync_interval() {
                None => r is None,
                Some(interval) => r is Some && self.is_attempt(interval, now, r->Some_0),
            },
    {
        let interval = match self.interval {
            None => {
                return None;
            },
            Some(interval) => saturating_millis(&interval),
        };
        let deadline: u64 = self.next_sync_millis.load(Ordering::Relaxed);
        let next = sync_slot(interval, now, deadline);
        let swapped = match next {
            None => None,
            Some(next) => Some(
                self.next_sync_millis.compare_exchange(
                    deadline,
                    next,
                    Ordering::Relaxed,
                    Ordering::Relaxed,
                ),
            ),
        };
        Some(ClaimAttempt { deadline, next, swapped })
    }

    /// Claims this interval's sync, if one is due.
    ///
    /// Whoever is told `true` must then perform the sync. To be called only
    /// after a commit has succeeded: a claim that no sync follows silently
    /// widens the window in which commits can be lost.
    ///
    /// Always `false` when no interval is configured: those commits are
    /// already `fsync`-ed, and another sync would be redundant. Otherwise the
    /// answer is what an attempt at the time that the clock shows came to.
    #[must_use]
    pub fn claim_sync(&self) -> (claimed: bool)
        ensures
            self.is_claim(claimed),
    {
        if self.interval.is_none() {
            return false;
        }
        let elapsed = self.epoch.elapsed();
        assert(self.reads_clock(elapsed));
        match self.attempt_at(saturating_millis(&elapsed)) {
            Some(attempt) => attempt.claimed(),
            None => false,
        }
    }
}

/// What the sync interval variable leads to, for every value. Unset or zero
/// asks for no interval. A number `n` from 1 to 60000 asks for an interval of
/// exactly `n` milliseconds. A larger one is refused with the number, and
/// anything else with the parser's error.
pub proof fn law_interval_is_taken_exactly(
    var: Option<&str>,
    r: Result<Option<Duration>, ConfigError>,
)
    requires
        match r {
            Ok(interval) => is_interval_of(interval, interval_setting(text_of(var))),
            Err(err) => is_refusal_of(err, interval_setting(text_of(var))),
        },
    ensures
        var is None ==> r == Ok::<Option<Duration>, ConfigError>(None),
        var is Some ==> match unsigned_value(trimmed(var->Some_0@)) {
            Some(n) => {
                &&& n == 0 ==> r == Ok::<Option<Duration>, ConfigError>(None)
                &&& 1 <= n <= 60_000 ==> r is Ok && r->Ok_0 is Some && duration_nanos(
                    r->Ok_0->Some_0,
                ) == n * 1_000_000
                &&& 60_000 < n <= u64::MAX ==> r is Err && r->Err_0 is IntervalTooLong
                    && r->Err_0->millis == n
                &&& n > u64::MAX ==> r is Err && r->Err_0 is InvalidInterval && is_u64_refusal(
                    trimmed(var->Some_0@),
                    r->Err_0->InvalidInterval_cause,
                )
            },
            None => r is Err && r->Err_0 is InvalidInterval && is_u64_refusal(
                trimmed(var->Some_0@),
                r->Err_0->InvalidInterval_cause,
            ),
        },
{
}

/// Milliseconds are counted whole: a length of time is at least so many of
/// them and less than one more. Times that do not fit count as the largest.
pub proof fn law_milliseconds_are_whole(nanos: nat, a: u64, b: u64)
    ensures
        nanos < (u64::MAX + 1) * 1_000_000 ==> whole_millis(nanos) * 1_000_000 <= nanos < (
        whole_millis(nanos) + 1) * 1_000_000,
        nanos >= (u64::MAX + 1) * 1_000_000 ==> whole_millis(nanos) == u64::MAX,
        a + b <= u64::MAX ==> add_millis(a, b) == a + b,
        a + b > u64::MAX ==> add_millis(a, b) == u64::MAX,
{
}

/// A commit may claim the sync exactly from the deadline on. It sets the next
/// one to exactly an interval after its own time, whatever the present one is,
/// as long as that fits.
pub proof fn law_next_deadline_is_an_interval_away(interval: u64, now: u64, deadline: u64)
    ensures
        claimed_deadline(interval, now, deadline) is Some <==> now >= deadline,
        now >= deadline && now + interval <= u64::MAX ==> claimed_deadline(interval, now, deadline)
            == Some((now + interval) as u64),
        now >= deadline && now + interval > u64::MAX ==> claimed_deadline(interval, now, deadline)
            == Some(u64::MAX),
{
}

/// What stands behind the answer to a claim. Without an interval it is `false`.
/// With one of `n` milliseconds, the clock and the deadline have been read. If
/// the deadline had come, a swap for the time of the clock plus `n` has been
/// tried, and its success is the answer; if not, the answer is `false`.
pub proof fn law_claim_is_answered_by_the_swap(policy: WalSyncPolicy, n: u64, claimed: bool) -> (
    r: (Duration, u64, Option<Result<u64, u64>>))
    requires
        policy.is_claim(claimed),
        policy.sync_interval() is Some ==> duration_nanos(policy.sync_interval()->Some_0) == n
            * 1_000_000,
    ensures
        policy.sync_interval() is None ==> !claimed,
        policy.sync_interval() is Some ==> {
            let (elapsed, deadline, swapped) = r;
            let now = duration_nanos(elapsed) / 1_000_000;
            &&& policy.reads_clock(elapsed)
            &&& policy.reads_deadline(deadline)
            &&& now + n <= u64::MAX ==> if now >= deadline {
                &&& swapped is Some
                &&& policy.swaps_deadline(deadline, (now + n) as u64, swapped->Some_0)
                &&& claimed <==> swapped->Some_0 is Ok
            } else {
                swapped is None && !claimed
            }
        },
{
    match policy.sync_interval() {
        None => (arbitrary(), 0, None),
        Some(interval) => {
            let (elapsed, attempt) = choose|elapsed: Duration, attempt: ClaimAttempt|
                #![trigger policy.reads_clock(elapsed), attempt.succeeded()]
                {
                    &&& policy.reads_clock(elapsed)
                    &&& policy.is_attempt(interval, whole_millis(duration_nanos(elapsed)), attempt)
                    &&& claimed == attempt.succeeded()
                };
            (elapsed, attempt.deadline, attempt.swapped)
        },
    }
}

/// The readings of a policy are those of its own clock and its own deadline,
/// and the deadline is what the policy was made with.
proof fn law_readings_are_the_policys_own(
    policy: WalSyncPolicy,
    millis: u64,
    next: u64,
    elapsed: Duration,
    answer: Result<u64, u64>,
)
    ensures
        policy.sync_interval() == policy.interval,
        policy.starts_at(millis) <==> call_ensures(
            AtomicU64::new,
            (millis,),
            policy.next_sync_millis,
        ),
        policy.reads_clock(elapsed) <==> call_ensures(Instant::elapsed, (&policy.epoch,), elapsed),
        policy.reads_deadline(millis) <==> call_ensures(
            AtomicU64::load,
            (&policy.next_sync_millis, Ordering::Relaxed),
            millis,
        ),
        policy.swaps_deadline(millis, next, answer) <==> call_ensures(
            AtomicU64::compare_exchange,
            (&policy.next_sync_millis, millis, next, Ordering::Relaxed, Ordering::Relaxed),
            answer,
        ),
{
}

} // verus!
