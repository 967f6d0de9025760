//! Committing a transaction, cut at its calls on the store.

use vstd::prelude::*;

use crate::error::{DatabaseError, ErrorKind, StoreError};

verus! {

/// What a commit needs next.
#[derive(Debug, PartialEq, Eq)]
pub enum CommitStep {
    /// An attempt to claim the sync.
    ClaimSync,
    /// All live files of the write-ahead log synced.
    FlushWal,
    /// Nothing more.
    Finish(Result<(), DatabaseError>),
}

/// Whether a failed commit is due to a conflict with another transaction, so
/// that trying again may succeed.
pub open spec fn is_conflict(kind: ErrorKind) -> bool {
    ||| kind is Busy
    ||| kind is TryAgain
    ||| kind is MergeInProgress
    ||| kind is TimedOut
}

/// The error that a failed commit ends with.
pub open spec fn commit_error(err: StoreError) -> DatabaseError {
    if is_conflict(err.kind) {
        DatabaseError::WriteConflict
    } else {
        DatabaseError::Backend(err)
    }
}

/// What comes after the store has been asked to commit. Only a commit that
/// succeeded may claim the sync: a transaction that is rolled back could not
/// perform it.
pub open spec fn step_after_commit(reply: Result<(), StoreError>) -> CommitStep {
    match reply {
        Ok(()) => CommitStep::ClaimSync,
        Err(err) => CommitStep::Finish(Err(commit_error(err))),
    }
}

/// What comes after the attempt to claim the sync.
pub open spec fn step_after_claim(claimed: bool) -> CommitStep {
    if claimed {
        CommitStep::FlushWal
    } else {
        CommitStep::Finish(Ok(()))
    }
}

/// What comes after the log has been synced.
pub open spec fn step_after_flush(reply: Result<(), StoreError>) -> CommitStep {
    match reply {
        Ok(()) => CommitStep::Finish(Ok(())),
        Err(err) => CommitStep::Finish(Err(DatabaseError::Backend(err))),
    }
}

/// Sorts out why a commit failed. The store reports conflicts between
/// concurrent transactions in several ways, all of which can be retried.
pub fn classify_commit_error(err: StoreError) -> (r: DatabaseError)
    ensures
        r == commit_error(err),
{
    match err.kind {
        ErrorKind::Busy
        | ErrorKind::TryAgain
        | ErrorKind::MergeInProgress
        | ErrorKind::TimedOut => DatabaseError::WriteConflict,
        _ => DatabaseError::backend(err),
    }
}

/// Takes the reply to the commit.
pub fn committed(reply: Result<(), StoreError>) -> (r: CommitStep)
    ensures
        r == step_after_commit(reply),
{
    match reply {
        Ok(()) => CommitStep::ClaimSync,
        Err(err) => CommitStep::Finish(Err(classify_commit_error(err))),
    }
}

/// Takes the answer to the claim.
pub fn sync_claimed(claimed: bool) -> (r: CommitStep)
    ensures
        r == step_after_claim(claimed),
{
    if claimed {
        CommitStep::FlushWal
    } else {
        CommitStep::Finish(Ok(()))
    }
}

/// Takes the reply to the sync.
pub fn wal_flushed(reply: Result<(), StoreError>) -> (r: CommitStep)
    ensures
        r == step_after_flush(reply),
{
    match reply {
        Ok(()) => CommitStep::Finish(Ok(())),
        Err(err) => CommitStep::Finish(Err(DatabaseError::backend(err))),
    }
}

/// The steps that a commit takes, given the replies that it gets on its way.
pub open spec fn commit_run(
    commit: Result<(), StoreError>,
    claimed: bool,
    flush: Result<(), StoreError>,
) -> Seq<CommitStep> {
    match step_after_commit(commit) {
        CommitStep::ClaimSync => match step_after_claim(claimed) {
            CommitStep::FlushWal => seq![
                CommitStep::ClaimSync,
                CommitStep::FlushWal,
                step_after_flush(flush),
            ],
            last => seq![CommitStep::ClaimSync, last],
        },
        last => seq![last],
    }
}

/// The sync is claimed exactly by commits that have succeeded, and it is
/// performed exactly by those that were granted the claim. Every commit comes
/// to an end, and it ends well exactly if the commit succeeded and the sync,
/// where one was performed, did too.
pub proof fn law_claimed_sync_is_performed(
    commit: Result<(), StoreError>,
    claimed: bool,
    flush: Result<(), StoreError>,
)
    ensures
        ({
            let run = commit_run(commit, claimed, flush);
            &&& run.contains(CommitStep::ClaimSync) <==> commit is Ok
            &&& run.contains(CommitStep::FlushWal) <==> commit is Ok && claimed
            &&& run.last() is Finish
            &&& run.last() == CommitStep::Finish(Ok(())) <==> commit is Ok && (claimed ==> flush
                is Ok)
        }),
{
    let run = commit_run(commit, claimed, flush);
    if commit is Ok {
        assert(run[0] == CommitStep::ClaimSync);
        if claimed {
            assert(run[1] == CommitStep::FlushWal);
        }
    }
}

/// A commit is reported as a conflict exactly if the store reports one; any
/// other failure is passed on as it is.
pub proof fn law_conflicts_are_told_apart(
    commit: Result<(), StoreError>,
    claimed: bool,
    flush: Result<(), StoreError>,
)
    ensures
        ({
            let last = commit_run(commit, claimed, flush).last();
            &&& last == CommitStep::Finish(Err(DatabaseError::WriteConflict)) <==> commit is Err
                && is_conflict(commit->Err_0.kind)
            &&& commit is Err && !is_conflict(commit->Err_0.kind) ==> last == CommitStep::Finish(
                Err(DatabaseError::Backend(commit->Err_0)),
            )
        }),
{
}

/// What a commit comes to, for every reply. The four kinds of failure by which
/// the store reports a conflict can be retried; every other failure, and a
/// failed sync of whatever kind, is handed on with its kind and message.
pub proof fn law_commit_ends_with_the_stores_reply(
    commit: Result<(), StoreError>,
    claimed: bool,
    flush: Result<(), StoreError>,
)
    ensures
        ({
            let run = commit_run(commit, claimed, flush);
            let last = run.last();
            match commit {
                Err(err) => {
                    &&& run.len() == 1
                    &&& err.kind == ErrorKind::Busy || err.kind == ErrorKind::TryAgain || err.kind
                        == ErrorKind::MergeInProgress || err.kind == ErrorKind::TimedOut
                        ==> last == CommitStep::Finish(Err(DatabaseError::WriteConflict))
                    &&& err.kind != ErrorKind::Busy && err.kind != ErrorKind::TryAgain && err.kind
                        != ErrorKind::MergeInProgress && err.kind != ErrorKind::TimedOut
                        ==> last == CommitStep::Finish(Err(DatabaseError::Backend(err)))
                },
                Ok(()) => {
                    &&& run[0] == CommitStep::ClaimSync
                    &&& !claimed ==> run.len() == 2 && last == CommitStep::Finish(Ok(()))
                    &&& claimed ==> run.len() == 3 && run[1] == CommitStep::FlushWal
                    &&& claimed && flush is Ok ==> last == CommitStep::Finish(Ok(()))
                    &&& claimed && flush is Err ==> last == CommitStep::Finish(
                        Err(DatabaseError::Backend(flush->Err_0)),
                    )
                },
            }
        }),
{
}

} // verus!
