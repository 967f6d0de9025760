//! What holds of the syncs that concurrent commits claim.
//!
//! The commits that share one policy are put in the order in which their
//! compare-and-swaps take effect. Each of them looked at the deadline before
//! its own swap, so possibly before swaps of others that then came first.
//!
//! The first laws speak of the course that the deadline takes on that account.
//! A [`History`] then holds what `attempt_at` has given on one policy, together
//! with the values that its deadline took, which are those of an atomic
//! integer. It is the course that the first laws speak of, and so they hold of
//! every policy, and of the commits on every database.

use std::time::Duration;

use vstd::prelude::*;

use crate::clock::duration_nanos;
use crate::commit::{step_after_claim, step_after_commit, CommitStep};
use crate::error::StoreError;
use crate::wal_sync::{add_millis, claimed_deadline, whole_millis, ClaimAttempt, WalSyncPolicy};

verus! {

/// One commit's attempt to claim the sync.
pub struct Attempt {
    /// The commit's reading of the clock.
    pub now: u64,
    /// How many attempts had been decided when this one read the deadline.
    pub looked: nat,
}

/// Every attempt read the deadline before it was decided itself.
pub open spec fn valid_attempts(attempts: Seq<Attempt>) -> bool {
    forall|i: int| 0 <= i < attempts.len() ==> (#[trigger] attempts[i]).looked <= i
}

/// The deadline once the first `n` attempts have been decided. It starts at 0;
/// an attempt moves it if it finds its sync due and nobody has moved the
/// deadline since it looked.
pub open spec fn deadline_after(interval: u64, attempts: Seq<Attempt>, n: nat) -> u64
    decreases n,
{
    if n == 0 {
        0
    } else {
        let before = deadline_after(interval, attempts, (n - 1) as nat);
        let attempt = attempts[n - 1];
        if attempt.looked < n {
            let seen = deadline_after(interval, attempts, attempt.looked);
            match claimed_deadline(interval, attempt.now, seen) {
                Some(next) => if seen == before {
                    next
                } else {
                    before
                },
                None => before,
            }
        } else {
            before
        }
    }
}

/// The deadline that attempt `i` has read.
pub open spec fn deadline_seen(interval: u64, attempts: Seq<Attempt>, i: int) -> u64 {
    deadline_after(interval, attempts, attempts[i].looked)
}

/// What comes of attempt `i`. Its swap finds the deadline that the attempts
/// before it have left, and succeeds if that is still the one it has read.
pub open spec fn attempt_of(interval: u64, attempts: Seq<Attempt>, i: int) -> ClaimAttempt {
    let seen = deadline_seen(interval, attempts, i);
    let present = deadline_after(interval, attempts, i as nat);
    let next = claimed_deadline(interval, attempts[i].now, seen);
    ClaimAttempt {
        deadline: seen,
        next,
        swapped: if next is None {
            None
        } else if seen == present {
            Some(Ok(present))
        } else {
            Some(Err(present))
        },
    }
}

/// Whether attempt `i` finds the sync due.
pub open spec fn is_due(interval: u64, attempts: Seq<Attempt>, i: int) -> bool {
    attempt_of(interval, attempts, i).next is Some
}

/// Whether attempt `i` claims the sync.
pub open spec fn claims(interval: u64, attempts: Seq<Attempt>, i: int) -> bool {
    attempt_of(interval, attempts, i).succeeded()
}

/// One more attempt moves the deadline exactly if it claims the sync.
proof fn lemma_step(interval: u64, attempts: Seq<Attempt>, i: int)
    requires
        valid_attempts(attempts),
        0 <= i < attempts.len(),
    ensures
        deadline_after(interval, attempts, (i + 1) as nat) == (if claims(interval, attempts, i) {
            add_millis(attempts[i].now, interval)
        } else {
            deadline_after(interval, attempts, i as nat)
        }),
{
    assert(attempts[i].looked <= i);
}

proof fn lemma_deadline_grows(interval: u64, attempts: Seq<Attempt>, i: int, j: int)
    requires
        valid_attempts(attempts),
        0 <= i <= j <= attempts.len(),
    ensures
        deadline_after(interval, attempts, i as nat) <= deadline_after(
            interval,
            attempts,
            j as nat,
        ),
    decreases j - i,
{
    if i < j {
        lemma_deadline_grows(interval, attempts, i, j - 1);
        lemma_step(interval, attempts, j - 1);
    }
}

/// The deadline stays where it is as long as nobody claims.
proof fn lemma_unclaimed(interval: u64, attempts: Seq<Attempt>, i: int, j: int)
    requires
        valid_attempts(attempts),
        0 <= i <= j <= attempts.len(),
        forall|k: int| i <= k < j ==> !claims(interval, attempts, k),
    ensures
        deadline_after(interval, attempts, i as nat) == deadline_after(
            interval,
            attempts,
            j as nat,
        ),
    decreases j - i,
{
    if i < j {
        lemma_unclaimed(interval, attempts, i, j - 1);
        lemma_step(interval, attempts, j - 1);
    }
}

/// Whether `j` is the latest of the first `n` attempts to claim the sync.
pub open spec fn is_latest_claim(interval: u64, attempts: Seq<Attempt>, n: int, j: int) -> bool {
    &&& 0 <= j < n
    &&& claims(interval, attempts, j)
    &&& forall|k: int| j < k < n ==> !claims(interval, attempts, k)
}

/// Either nobody has claimed the sync yet, or there is a latest claim.
proof fn lemma_latest_claim(interval: u64, attempts: Seq<Attempt>, n: int)
    requires
        0 <= n <= attempts.len(),
    ensures
        (forall|k: int| 0 <= k < n ==> !claims(interval, attempts, k)) || exists|j: int|
            is_latest_claim(interval, attempts, n, j),
    decreases n,
{
    if n > 0 {
        let m = n - 1;
        if claims(interval, attempts, m) {
            assert(is_latest_claim(interval, attempts, n, m));
        } else {
            lemma_latest_claim(interval, attempts, m);
            if exists|j: int| is_latest_claim(interval, attempts, m, j) {
                let j = choose|j: int| is_latest_claim(interval, attempts, m, j);
                assert(is_latest_claim(interval, attempts, n, j));
            }
        }
    }
}

/// The deadline never goes back.
pub proof fn law_deadline_never_goes_back(interval: u64, attempts: Seq<Attempt>, m: int, n: int)
    requires
        valid_attempts(attempts),
        0 <= m <= n <= attempts.len(),
    ensures
        deadline_after(interval, attempts, m as nat) <= deadline_after(
            interval,
            attempts,
            n as nat,
        ),
{
    lemma_deadline_grows(interval, attempts, m, n);
}

/// The deadline is 0 until the sync is first claimed, and from then on an
/// interval after the time of the latest claim.
pub proof fn law_deadline_is_set_by_latest_claim(interval: u64, attempts: Seq<Attempt>, n: int)
    requires
        valid_attempts(attempts),
        0 <= n <= attempts.len(),
    ensures
        (forall|k: int| 0 <= k < n ==> !claims(interval, attempts, k)) ==> deadline_after(
            interval,
            attempts,
            n as nat,
        ) == 0,
        forall|j: int| #[trigger]
            is_latest_claim(interval, attempts, n, j) ==> deadline_after(
                interval,
                attempts,
                n as nat,
            ) == add_millis(attempts[j].now, interval),
{
    if forall|k: int| 0 <= k < n ==> !claims(interval, attempts, k) {
        lemma_unclaimed(interval, attempts, 0, n);
    }
    assert forall|j: int| #[trigger]
        is_latest_claim(interval, attempts, n, j) implies deadline_after(
        interval,
        attempts,
        n as nat,
    ) == add_millis(attempts[j].now, interval) by {
        lemma_step(interval, attempts, j);
        lemma_unclaimed(interval, attempts, j + 1, n);
    }
}

/// The sync is claimed at most once per interval: of two claims, the later one
/// comes at least one interval after the earlier one.
pub proof fn law_at_most_one_claim_per_interval(
    interval: u64,
    attempts: Seq<Attempt>,
    i: int,
    j: int,
)
    requires
        valid_attempts(attempts),
        0 <= i < j < attempts.len(),
        claims(interval, attempts, i),
        claims(interval, attempts, j),
    ensures
        attempts[j].now >= add_millis(attempts[i].now, interval),
{
    lemma_step(interval, attempts, i);
    lemma_deadline_grows(interval, attempts, i + 1, j);
}

/// Of the commits that race for one deadline, at most one claims the sync.
/// (The interval is at least a millisecond, and the deadline is not the last
/// that there is.)
pub proof fn law_one_winner_per_deadline(interval: u64, attempts: Seq<Attempt>, i: int, j: int)
    requires
        valid_attempts(attempts),
        0 <= i < j < attempts.len(),
        interval > 0,
        deadline_seen(interval, attempts, i) == deadline_seen(interval, attempts, j),
        deadline_seen(interval, attempts, i) < u64::MAX,
        claims(interval, attempts, i),
    ensures
        !claims(interval, attempts, j),
{
    lemma_step(interval, attempts, i);
    lemma_deadline_grows(interval, attempts, i + 1, j);
}

/// A commit whose sync is due and who does not claim it has lost it to another
/// one, which claimed it after this one looked.
pub proof fn law_due_sync_is_claimed(interval: u64, attempts: Seq<Attempt>, i: int)
    requires
        valid_attempts(attempts),
        0 <= i < attempts.len(),
        is_due(interval, attempts, i),
        !claims(interval, attempts, i),
    ensures
        exists|k: int| attempts[i].looked <= k < i && #[trigger] claims(interval, attempts, k),
{
    if forall|k: int| attempts[i].looked <= k < i ==> !claims(interval, attempts, k) {
        lemma_unclaimed(interval, attempts, attempts[i].looked as int, i);
        assert(false);
    }
}

/// The first commit after opening claims the sync.
pub proof fn law_first_commit_claims(interval: u64, attempts: Seq<Attempt>)
    requires
        valid_attempts(attempts),
        attempts.len() > 0,
    ensures
        claims(interval, attempts, 0),
{
    assert(attempts[0].looked <= 0);
}

/// A commit that nobody races claims the sync exactly if nobody has claimed it
/// before, or an interval has passed since the latest claim.
pub proof fn law_claims_once_interval_elapses(interval: u64, attempts: Seq<Attempt>, i: int)
    requires
        valid_attempts(attempts),
        0 <= i < attempts.len(),
        attempts[i].looked == i,
    ensures
        claims(interval, attempts, i) <==> forall|j: int| #[trigger]
            is_latest_claim(interval, attempts, i, j) ==> attempts[i].now >= add_millis(
                attempts[j].now,
                interval,
            ),
{
    lemma_latest_claim(interval, attempts, i);
    law_deadline_is_set_by_latest_claim(interval, attempts, i);
}

/// The window of commits without a sync is bounded: a commit that neither
/// claims the sync itself nor sees another one claim it after having looked
/// comes less than an interval after the latest claim of all.
pub proof fn law_unsynced_window_is_bounded(interval: u64, attempts: Seq<Attempt>, i: int)
    requires
        valid_attempts(attempts),
        0 <= i < attempts.len(),
        forall|k: int|
            attempts[i].looked <= k < attempts.len() ==> !claims(interval, attempts, k),
    ensures
        exists|j: int| #[trigger]
            is_latest_claim(interval, attempts, attempts.len() as int, j) && attempts[i].now
                < add_millis(attempts[j].now, interval),
{
    let looked = attempts[i].looked as int;
    assert(looked <= i);
    if is_due(interval, attempts, i) {
        law_due_sync_is_claimed(interval, attempts, i);
    }
    law_deadline_is_set_by_latest_claim(interval, attempts, looked);
    lemma_latest_claim(interval, attempts, looked);
    let j = choose|j: int| is_latest_claim(interval, attempts, looked, j);
    assert(is_latest_claim(interval, attempts, attempts.len() as int, j));
}

/// The attempts that were made on one policy, in the order in which they were
/// decided.
pub struct History {
    pub policy: WalSyncPolicy,
    pub interval: Duration,
    /// When the attempts were made.
    pub attempts: Seq<Attempt>,
    /// What `attempt_at` gave for each of them.
    pub outcomes: Seq<ClaimAttempt>,
    /// The values of the deadline: at first, and after each attempt.
    pub course: Seq<u64>,
}

impl History {
    pub open spec fn millis(self) -> u64 {
        whole_millis(duration_nanos(self.interval))
    }

    /// The deadline behaves as an atomic integer does. It first holds what it
    /// was made with. An attempt reads the value of when it looked. A swap finds
    /// the present value, and replaces it if it is the expected one.
    pub open spec fn is_atomic(self) -> bool {
        &&& forall|millis: u64| #[trigger]
            self.policy.starts_at(millis) ==> self.course[0] == millis
        &&& forall|i: int|
            #![trigger self.outcomes[i]]
            0 <= i < self.attempts.len() ==> {
                let outcome = self.outcomes[i];
                let present = self.course[i];
                &&& outcome.deadline == self.course[self.attempts[i].looked as int]
                &&& match outcome.swapped {
                    None => self.course[i + 1] == present,
                    Some(answer) => if present == outcome.deadline {
                        answer == Ok::<u64, u64>(present) && Some(self.course[i + 1])
                            == outcome.next
                    } else {
                        answer == Err::<u64, u64>(present) && self.course[i + 1] == present
                    },
                }
            }
    }

    /// All attempts on the policy since it was made are there, as they were.
    pub open spec fn valid(self) -> bool {
        &&& self.policy.sync_interval() == Some(self.interval)
        &&& self.policy.starts_at(0)
        &&& valid_attempts(self.attempts)
        &&& self.outcomes.len() == self.attempts.len()
        &&& self.course.len() == self.attempts.len() + 1
        &&& forall|i: int|
            #![trigger self.outcomes[i]]
            0 <= i < self.attempts.len() ==> self.policy.is_attempt(
                self.interval,
                self.attempts[i].now,
                self.outcomes[i],
            )
        &&& self.is_atomic()
    }

    /// Whether attempt `i` has claimed the sync.
    pub open spec fn claimed(self, i: int) -> bool {
        self.outcomes[i].succeeded()
    }
}

proof fn lemma_course(h: History, n: int)
    requires
        h.valid(),
        0 <= n <= h.attempts.len(),
    ensures
        forall|m: int|
            0 <= m <= n ==> #[trigger] h.course[m] == deadline_after(
                h.millis(),
                h.attempts,
                m as nat,
            ),
        forall|m: int| #![trigger h.outcomes[m]]
            0 <= m < n ==> h.outcomes[m] == attempt_of(h.millis(), h.attempts, m),
    decreases n,
{
    if n > 0 {
        let i = n - 1;
        lemma_course(h, i);
        lemma_step(h.millis(), h.attempts, i);
        let outcome = h.outcomes[i];
        assert(h.attempts[i].looked <= i);
        assert(h.policy.is_attempt(h.interval, h.attempts[i].now, outcome));
        assert(h.course[h.attempts[i].looked as int] == deadline_seen(h.millis(), h.attempts, i));
        assert(outcome == attempt_of(h.millis(), h.attempts, i));
    }
}

/// On a policy that starts at 0, the attempts come to what the course of the
/// deadline leads to, and the deadline takes that course.
pub proof fn law_attempts_take_their_course(h: History)
    requires
        h.valid(),
    ensures
        forall|i: int|
            #![trigger h.outcomes[i]]
            0 <= i < h.attempts.len() ==> h.outcomes[i] == attempt_of(h.millis(), h.attempts, i),
        forall|n: int|
            0 <= n <= h.attempts.len() ==> #[trigger] h.course[n] == deadline_after(
                h.millis(),
                h.attempts,
                n as nat,
            ),
{
    lemma_course(h, h.attempts.len() as int);
}

/// Two claims on one policy are never closer together than the interval.
/// (The interval is at least a millisecond, and no time is so late that an
/// interval more does not fit.)
pub proof fn law_claims_on_a_policy_are_an_interval_apart(h: History, i: int, j: int)
    requires
        h.valid(),
        0 <= i < h.attempts.len(),
        0 <= j < h.attempts.len(),
        i != j,
        h.claimed(i),
        h.claimed(j),
        h.attempts[i].now <= h.attempts[j].now,
        h.millis() >= 1,
        h.attempts[i].now + h.millis() <= u64::MAX,
    ensures
        h.attempts[j].now - h.attempts[i].now >= h.millis(),
{
    law_attempts_take_their_course(h);
    assert(h.outcomes[i] == attempt_of(h.millis(), h.attempts, i));
    assert(h.outcomes[j] == attempt_of(h.millis(), h.attempts, j));
    if i < j {
        law_at_most_one_claim_per_interval(h.millis(), h.attempts, i, j);
    } else {
        law_at_most_one_claim_per_interval(h.millis(), h.attempts, j, i);
    }
}

/// Of attempts on one policy that race for one deadline, all of which find the
/// sync due, exactly one claims it, and the deadline is then the one that it
/// has set.
pub proof fn law_exactly_one_of_racing_attempts_claims(h: History, first: int, end: int) -> (
    winner: int)
    requires
        h.valid(),
        0 <= first < end <= h.attempts.len(),
        h.millis() >= 1,
        h.course[first] < u64::MAX,
        forall|i: int|
            #![trigger h.outcomes[i]]
            first <= i < end ==> h.outcomes[i].deadline == h.course[first] && h.attempts[i].now
                >= h.course[first],
    ensures
        first <= winner < end,
        forall|i: int| first <= i < end ==> (#[trigger] h.claimed(i) <==> i == winner),
        h.course[end] == add_millis(h.attempts[winner].now, h.millis()),
{
    let millis = h.millis();
    law_attempts_take_their_course(h);
    assert(h.outcomes[first] == attempt_of(millis, h.attempts, first));
    assert(h.claimed(first));
    assert forall|i: int| first < i < end implies !#[trigger] h.claimed(i) by {
        assert(h.outcomes[i] == attempt_of(millis, h.attempts, i));
        law_one_winner_per_deadline(millis, h.attempts, first, i);
    }
    assert forall|k: int| first + 1 <= k < end implies !claims(millis, h.attempts, k) by {
        assert(!h.claimed(k));
        assert(h.outcomes[k] == attempt_of(millis, h.attempts, k));
    }
    lemma_step(millis, h.attempts, first);
    lemma_unclaimed(millis, h.attempts, first + 1, end);
    assert(h.course[end] == deadline_after(millis, h.attempts, end as nat));
    first
}

/// Of attempts on one policy that are all made within an interval of its
/// making, exactly the first one that is decided claims the sync.
pub proof fn law_exactly_one_claim_in_the_first_interval(h: History)
    requires
        h.valid(),
        h.attempts.len() > 0,
        forall|i: int|
            0 <= i < h.attempts.len() ==> (#[trigger] h.attempts[i]).now < h.millis(),
    ensures
        forall|i: int| 0 <= i < h.attempts.len() ==> (#[trigger] h.claimed(i) <==> i == 0),
{
    let millis = h.millis();
    law_attempts_take_their_course(h);
    law_first_commit_claims(millis, h.attempts);
    assert forall|i: int| 0 <= i < h.attempts.len() implies (#[trigger] h.claimed(i) <==> i
        == 0) by {
        assert(h.outcomes[i] == attempt_of(millis, h.attempts, i));
        if i > 0 && h.claimed(i) {
            law_at_most_one_claim_per_interval(millis, h.attempts, 0, i);
            assert(h.attempts[i].now < millis);
        }
    }
}

/// Whether commit `i` is covered by a flush of the log, its own or another's:
/// by one whose claim was decided after the commit had looked at the deadline.
pub open spec fn is_covered(attempts: Seq<Attempt>, steps: Seq<CommitStep>, i: int) -> bool {
    exists|k: int| attempts[i].looked <= k < steps.len() && (#[trigger] steps[k]) is FlushWal
}

/// Of the commits on a database that have succeeded, in the order in which
/// their claims were decided:
///
/// - The first one flushes the log.
/// - The claims of two that flush it are at least an interval apart.
/// - One that is not covered by a flush comes less than an interval after the
///   latest claim. So at most the commits of one interval are without a sync at
///   any time.
pub proof fn law_commits_are_synced(h: History, steps: Seq<CommitStep>)
    requires
        h.valid(),
        steps.len() == h.attempts.len(),
        forall|i: int|
            0 <= i < steps.len() ==> #[trigger] steps[i] == step_after_claim(h.claimed(i)),
    ensures
        step_after_commit(Ok::<(), StoreError>(())) is ClaimSync,
        steps.len() > 0 ==> steps[0] is FlushWal,
        forall|i: int, j: int|
            #![trigger steps[i], steps[j]]
            0 <= i < j < steps.len() && steps[i] is FlushWal && steps[j] is FlushWal
                ==> h.attempts[j].now >= add_millis(h.attempts[i].now, h.millis()),
        forall|i: int|
            0 <= i < steps.len() && !#[trigger] is_covered(h.attempts, steps, i) ==> exists|j: int|
                #[trigger]
                is_latest_claim(h.millis(), h.attempts, steps.len() as int, j)
                    && steps[j] is FlushWal && h.attempts[i].now < add_millis(
                    h.attempts[j].now,
                    h.millis(),
                ),
{
    let millis = h.millis();
    law_attempts_take_their_course(h);
    assert forall|i: int| 0 <= i < steps.len() implies (#[trigger] steps[i] is FlushWal <==> claims(
        millis,
        h.attempts,
        i,
    )) by {
        assert(h.outcomes[i] == attempt_of(millis, h.attempts, i));
        assert(steps[i] == step_after_claim(h.claimed(i)));
    }
    if steps.len() > 0 {
        law_first_commit_claims(millis, h.attempts);
    }
    assert forall|i: int, j: int|
        #![trigger steps[i], steps[j]]
        0 <= i < j < steps.len() && steps[i] is FlushWal && steps[j]
            is FlushWal implies h.attempts[j].now >= add_millis(h.attempts[i].now, millis) by {
        law_at_most_one_claim_per_interval(millis, h.attempts, i, j);
    }
    assert forall|i: int|
        0 <= i < steps.len() && !#[trigger] is_covered(
            h.attempts,
            steps,
            i,
        ) implies exists|j: int| #[trigger]
        is_latest_claim(millis, h.attempts, steps.len() as int, j) && steps[j] is FlushWal
            && h.attempts[i].now < add_millis(h.attempts[j].now, millis) by {
        assert forall|k: int|
            h.attempts[i].looked <= k < h.attempts.len() implies !claims(
            millis,
            h.attempts,
            k,
        ) by {
            assert(!(steps[k] is FlushWal));
        }
        law_unsynced_window_is_bounded(millis, h.attempts, i);
        let j = choose|j: int| #[trigger]
            is_latest_claim(millis, h.attempts, h.attempts.len() as int, j) && h.attempts[i].now
                < add_millis(h.attempts[j].now, millis);
        assert(steps[j] is FlushWal);
    }
}

/// Whether attempt `i` was answered that its swap has succeeded.
pub open spec fn swap_succeeded(h: History, i: int) -> bool {
    h.outcomes[i].swapped is Some && h.outcomes[i].swapped->Some_0 is Ok
}

/// An attempt has claimed the sync exactly if it has moved the deadline, and
/// one that has found it not yet due leaves it where it is. (The interval is at
/// least a millisecond, and the deadline is not the last that there is.)
pub proof fn law_claiming_is_moving_the_deadline(h: History, i: int)
    requires
        h.valid(),
        0 <= i < h.attempts.len(),
        h.millis() >= 1,
        h.course[i] < u64::MAX,
    ensures
        swap_succeeded(h, i) <==> h.course[i + 1] != h.course[i],
        h.course[i] <= h.course[i + 1],
{
    law_attempts_take_their_course(h);
    lemma_step(h.millis(), h.attempts, i);
    assert(h.outcomes[i] == attempt_of(h.millis(), h.attempts, i));
    assert(h.course[i] == deadline_after(h.millis(), h.attempts, i as nat));
    assert(h.course[i + 1] == deadline_after(h.millis(), h.attempts, (i + 1) as nat));
}

/// On a policy with an interval of `n` milliseconds, a claim at time `now` sets
/// the deadline to `now + n`.
pub proof fn law_claim_sets_deadline_one_interval_ahead(h: History, n: u64, i: int)
    requires
        h.valid(),
        duration_nanos(h.interval) == n * 1_000_000,
        0 <= i < h.attempts.len(),
        swap_succeeded(h, i),
        h.attempts[i].now + n <= u64::MAX,
    ensures
        h.course[i] <= h.attempts[i].now,
        h.course[i + 1] == h.attempts[i].now + n,
{
    law_attempts_take_their_course(h);
    lemma_step(h.millis(), h.attempts, i);
    assert(h.millis() == n);
    assert(h.outcomes[i] == attempt_of(h.millis(), h.attempts, i));
    assert(h.course[i] == deadline_after(h.millis(), h.attempts, i as nat));
    assert(h.course[i + 1] == deadline_after(h.millis(), h.attempts, (i + 1) as nat));
}

/// On a policy with an interval of `n` milliseconds, an attempt that nobody
/// races claims the sync exactly if at least `n` milliseconds have passed since
/// every claim before it. So the first one claims it, and it is claimed again
/// as soon as an interval has passed, and no sooner.
pub proof fn law_sync_is_claimed_exactly_when_due(h: History, n: u64, i: int)
    requires
        h.valid(),
        duration_nanos(h.interval) == n * 1_000_000,
        0 <= i < h.attempts.len(),
        h.attempts[i].looked == i,
        forall|j: int| 0 <= j < i ==> (#[trigger] h.attempts[j]).now + n <= u64::MAX,
    ensures
        swap_succeeded(h, i) <==> forall|j: int|
            0 <= j < i && #[trigger] swap_succeeded(h, j) ==> h.attempts[i].now
                >= h.attempts[j].now + n,
{
    let millis = h.millis();
    assert(millis == n);
    law_attempts_take_their_course(h);
    assert forall|k: int| 0 <= k < h.attempts.len() implies (#[trigger] swap_succeeded(h, k)
        <==> claims(millis, h.attempts, k)) by {
        assert(h.outcomes[k] == attempt_of(millis, h.attempts, k));
    }
    law_claims_once_interval_elapses(millis, h.attempts, i);
    if swap_succeeded(h, i) {
        assert forall|j: int| 0 <= j < i && #[trigger] swap_succeeded(h, j) implies h.attempts[i].now
            >= h.attempts[j].now + n by {
            law_at_most_one_claim_per_interval(millis, h.attempts, j, i);
            assert(h.attempts[j].now + n <= u64::MAX);
        }
    } else {
        let j = choose|j: int| #[trigger]
            is_latest_claim(millis, h.attempts, i, j) && h.attempts[i].now < add_millis(
                h.attempts[j].now,
                millis,
            );
        assert(swap_succeeded(h, j));
        assert(h.attempts[j].now + n <= u64::MAX);
    }
}

/// On a policy with an interval of `n` milliseconds, a commit after which the
/// sync is not claimed any more came less than `n` milliseconds after the
/// latest claim. So what a power loss can discard was committed within one
/// interval.
pub proof fn law_unsynced_commits_are_within_one_interval(h: History, n: u64, i: int) -> (j: int)
    requires
        h.valid(),
        duration_nanos(h.interval) == n * 1_000_000,
        0 <= i < h.attempts.len(),
        forall|k: int|
            h.attempts[i].looked <= k < h.attempts.len() ==> !#[trigger] swap_succeeded(h, k),
    ensures
        0 <= j < h.attempts[i].looked,
        swap_succeeded(h, j),
        forall|k: int| j < k < h.attempts.len() ==> !#[trigger] swap_succeeded(h, k),
        h.attempts[i].now < h.attempts[j].now + n,
{
    let millis = h.millis();
    assert(millis == n);
    law_attempts_take_their_course(h);
    assert forall|k: int| 0 <= k < h.attempts.len() implies (#[trigger] swap_succeeded(h, k)
        <==> claims(millis, h.attempts, k)) by {
        assert(h.outcomes[k] == attempt_of(millis, h.attempts, k));
    }
    assert forall|k: int|
        h.attempts[i].looked <= k < h.attempts.len() implies !claims(millis, h.attempts, k) by {
        assert(!swap_succeeded(h, k));
    }
    law_unsynced_window_is_bounded(millis, h.attempts, i);
    let j = choose|j: int| #[trigger]
        is_latest_claim(millis, h.attempts, h.attempts.len() as int, j) && h.attempts[i].now
            < add_millis(h.attempts[j].now, millis);
    assert(swap_succeeded(h, j));
    assert forall|k: int| j < k < h.attempts.len() implies !#[trigger] swap_succeeded(h, k) by {
        assert(!claims(millis, h.attempts, k));
    }
    j
}

/// How many of the steps flush the log.
pub open spec fn flushes(steps: Seq<CommitStep>) -> nat
    decreases steps.len(),
{
    if steps.len() == 0 {
        0
    } else {
        flushes(steps.drop_last()) + (if steps.last() is FlushWal {
            1nat
        } else {
            0nat
        })
    }
}

/// How often a value has changed on its course.
pub open spec fn moves(course: Seq<u64>) -> nat
    decreases course.len(),
{
    if course.len() <= 1 {
        0
    } else {
        moves(course.drop_last()) + (if course.last() != course[course.len() - 2] {
            1nat
        } else {
            0nat
        })
    }
}

/// No claim that is granted is left without a flush: where each successful
/// commit has made one of the attempts on a policy, the commit flushes the log
/// exactly if its attempt has moved the deadline, and the log is flushed as
/// often as the deadline has moved.
pub proof fn law_every_granted_claim_is_flushed(h: History, steps: Seq<CommitStep>)
    requires
        h.valid(),
        h.millis() >= 1,
        forall|i: int| 0 <= i < h.attempts.len() ==> #[trigger] h.course[i] < u64::MAX,
        steps.len() == h.attempts.len(),
        forall|i: int|
            0 <= i < steps.len() ==> #[trigger] steps[i] == step_after_claim(h.claimed(i)),
    ensures
        forall|i: int|
            0 <= i < steps.len() ==> (#[trigger] steps[i] == CommitStep::FlushWal <==> h.course[i
                + 1] != h.course[i]),
        forall|i: int|
            0 <= i < steps.len() ==> #[trigger] steps[i] == CommitStep::FlushWal || steps[i]
                == CommitStep::Finish(Ok(())),
        flushes(steps) == moves(h.course),
{
    assert forall|i: int| 0 <= i < steps.len() implies (#[trigger] steps[i]
        == CommitStep::FlushWal <==> h.course[i + 1] != h.course[i]) by {
        assert(h.course[i] < u64::MAX);
        law_claiming_is_moving_the_deadline(h, i);
    }
    lemma_flushes_are_moves(h.course, steps);
}

proof fn lemma_flushes_are_moves(course: Seq<u64>, steps: Seq<CommitStep>)
    requires
        course.len() == steps.len() + 1,
        forall|i: int|
            0 <= i < steps.len() ==> (#[trigger] steps[i] == CommitStep::FlushWal <==> course[i + 1]
                != course[i]),
    ensures
        flushes(steps) == moves(course),
    decreases steps.len(),
{
    if steps.len() > 0 {
        let fewer = steps.drop_last();
        let shorter = course.drop_last();
        assert forall|i: int| 0 <= i < fewer.len() implies (#[trigger] fewer[i]
            == CommitStep::FlushWal <==> shorter[i + 1] != shorter[i]) by {
            assert(fewer[i] == steps[i]);
        }
        lemma_flushes_are_moves(shorter, fewer);
        assert(steps.last() == steps[steps.len() - 1]);
    }
}

} // verus!
