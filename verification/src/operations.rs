//! The operations of a transaction, cut at their calls on the store.
//!
//! An operation says which call it needs, takes the store's reply, and goes on
//! from there. Reads go through the transaction's snapshot, which shows the
//! transaction's own writes over the state in which it was opened.

use vstd::prelude::*;
use vstd::slice::slice_to_vec;

use crate::error::{DatabaseError, StoreError};
use crate::key_order::{has_prefix, lemma_prefixed_not_before};
use crate::scan::{keeps, prefix_scan, yields, Entries, KeepView, Scan};

verus! {

/// The error that a failed call on the store ends an operation with.
pub open spec fn store_failure<T>(reply: Result<T, StoreError>) -> Result<T, DatabaseError> {
    match reply {
        Ok(value) => Ok(value),
        Err(err) => Err(DatabaseError::Backend(err)),
    }
}

/// Passes on the reply to a call whose failure is the store's.
pub fn backend_result<T>(reply: Result<T, StoreError>) -> (r: Result<T, DatabaseError>)
    ensures
        r == store_failure(reply),
{
    match reply {
        Ok(value) => Ok(value),
        Err(err) => Err(DatabaseError::backend(err)),
    }
}

/// A lookup, which needs the value at `key`.
#[derive(Debug)]
pub struct Lookup {
    pub key: Vec<u8>,
}

impl Lookup {
    pub fn of(key: &[u8]) -> (op: Lookup)
        ensures
            op.key@ == key@,
    {
        Lookup { key: slice_to_vec(key) }
    }

    /// Takes the value at the key.
    pub fn read(self, reply: Result<Option<Vec<u8>>, StoreError>) -> (r: Result<
        Option<Vec<u8>>,
        DatabaseError,
    >)
        ensures
            r == store_failure(reply),
    {
        backend_result(reply)
    }
}

/// An insertion that needs the value at `key` as it is before.
#[derive(Debug)]
pub struct Insertion {
    pub key: Vec<u8>,
    pub value: Vec<u8>,
}

/// An insertion that needs `value` written at `key`.
#[derive(Debug)]
pub struct InsertionWrite {
    pub key: Vec<u8>,
    pub value: Vec<u8>,
    pub previous: Option<Vec<u8>>,
}

impl Insertion {
    pub fn of(key: &[u8], value: &[u8]) -> (op: Insertion)
        ensures
            op.key@ == key@,
            op.value@ == value@,
    {
        Insertion { key: slice_to_vec(key), value: slice_to_vec(value) }
    }

    pub open spec fn after_read(self, previous: Option<Vec<u8>>) -> InsertionWrite {
        InsertionWrite { key: self.key, value: self.value, previous }
    }

    /// Takes the value at the key.
    pub fn read(self, previous: Option<Vec<u8>>) -> (r: InsertionWrite)
        ensures
            r == self.after_read(previous),
    {
        InsertionWrite { key: self.key, value: self.value, previous }
    }
}

impl InsertionWrite {
    /// The write that the store is asked for.
    pub open spec fn write(self) -> Write {
        Write::Put(self.key@, self.value@)
    }

    pub open spec fn outcome(self, reply: Result<(), StoreError>) -> Result<
        Option<Vec<u8>>,
        DatabaseError,
    > {
        match reply {
            Ok(()) => Ok(self.previous),
            Err(err) => Err(DatabaseError::Backend(err)),
        }
    }

    /// Takes the reply to the write. The operation gives back the value that
    /// was at the key before.
    pub fn written(self, reply: Result<(), StoreError>) -> (r: Result<
        Option<Vec<u8>>,
        DatabaseError,
    >)
        ensures
            r == self.outcome(reply),
    {
        match reply {
            Ok(()) => Ok(self.previous),
            Err(err) => Err(DatabaseError::backend(err)),
        }
    }
}

/// A removal that needs the value at `key` as it is before.
#[derive(Debug)]
pub struct Removal {
    pub key: Vec<u8>,
}

/// A removal that needs `key` deleted.
#[derive(Debug)]
pub struct RemovalDelete {
    pub key: Vec<u8>,
    pub previous: Option<Vec<u8>>,
}

impl Removal {
    pub fn of(key: &[u8]) -> (op: Removal)
        ensures
            op.key@ == key@,
    {
        Removal { key: slice_to_vec(key) }
    }

    pub open spec fn after_read(self, previous: Option<Vec<u8>>) -> RemovalDelete {
        RemovalDelete { key: self.key, previous }
    }

    /// Takes the value at the key.
    pub fn read(self, previous: Option<Vec<u8>>) -> (r: RemovalDelete)
        ensures
            r == self.after_read(previous),
    {
        RemovalDelete { key: self.key, previous }
    }
}

impl RemovalDelete {
    /// The write that the store is asked for.
    pub open spec fn write(self) -> Write {
        Write::Delete(self.key@)
    }

    pub open spec fn outcome(self, reply: Result<(), StoreError>) -> Result<
        Option<Vec<u8>>,
        DatabaseError,
    > {
        match reply {
            Ok(()) => Ok(self.previous),
            Err(err) => Err(DatabaseError::Backend(err)),
        }
    }

    /// Takes the reply to the deletion. The operation gives back the value
    /// that was at the key before.
    pub fn deleted(self, reply: Result<(), StoreError>) -> (r: Result<
        Option<Vec<u8>>,
        DatabaseError,
    >)
        ensures
            r == self.outcome(reply),
    {
        match reply {
            Ok(()) => Ok(self.previous),
            Err(err) => Err(DatabaseError::backend(err)),
        }
    }
}

/// What the removal of all keys with a prefix needs next.
#[derive(Debug, PartialEq, Eq)]
pub enum RemovalStep {
    /// The next item of the scan.
    Next,
    /// This key deleted.
    Delete(Vec<u8>),
    /// Nothing more.
    Finish(Result<(), DatabaseError>),
}

/// The removal of all keys with a prefix. A transaction cannot delete a range,
/// so the keys are found by a scan and deleted one by one.
#[derive(Debug)]
pub struct PrefixRemoval {
    pub scan: Scan,
}

/// What the removal needs once its scan has come upon `item`, a key or an
/// error, or has come to its end.
pub open spec fn step_at_item(
    keep: KeepView,
    item: Option<Result<Vec<u8>, StoreError>>,
) -> RemovalStep {
    match item {
        Some(Ok(key)) => if keeps(keep, key@) {
            RemovalStep::Delete(key)
        } else {
            RemovalStep::Finish(Ok(()))
        },
        Some(Err(err)) => RemovalStep::Finish(Err(DatabaseError::Backend(err))),
        None => RemovalStep::Finish(Ok(())),
    }
}

/// What the removal needs once a key has been deleted.
pub open spec fn step_after_delete(reply: Result<(), StoreError>) -> RemovalStep {
    match reply {
        Ok(()) => RemovalStep::Next,
        Err(err) => RemovalStep::Finish(Err(DatabaseError::Backend(err))),
    }
}

impl PrefixRemoval {
    pub fn of(prefix: &[u8]) -> (op: PrefixRemoval)
        ensures
            op.scan@ == prefix_scan(prefix@),
    {
        PrefixRemoval { scan: Scan::by_prefix(prefix) }
    }

    /// Takes the next item of the scan.
    pub fn item(&self, item: Option<Result<Vec<u8>, StoreError>>) -> (r: RemovalStep)
        ensures
            r == step_at_item(self.scan@.keep, item),
    {
        match item {
            Some(Ok(key)) => {
                if self.scan.keep.keeps(key.as_slice()) {
                    RemovalStep::Delete(key)
                } else {
                    RemovalStep::Finish(Ok(()))
                }
            },
            Some(Err(err)) => RemovalStep::Finish(Err(DatabaseError::backend(err))),
            None => RemovalStep::Finish(Ok(())),
        }
    }

    /// Takes the reply to a deletion.
    pub fn deleted(&self, reply: Result<(), StoreError>) -> (r: RemovalStep)
        ensures
            r == step_after_delete(reply),
    {
        match reply {
            Ok(()) => RemovalStep::Next,
            Err(err) => RemovalStep::Finish(Err(DatabaseError::backend(err))),
        }
    }
}

/// The value at a key, as a store with these entries shows it.
pub open spec fn value_at(entries: Entries, key: Seq<u8>) -> Option<Seq<u8>> {
    if entries.contains_key(key) {
        Some(entries[key])
    } else {
        None
    }
}

/// The bytes of an optional value.
pub open spec fn bytes_of(value: Option<Vec<u8>>) -> Option<Seq<u8>> {
    match value {
        Some(bytes) => Some(bytes@),
        None => None,
    }
}

/// A reply to a read that gives the value at the key.
pub open spec fn answers_read(entries: Entries, key: Seq<u8>, reply: Option<Vec<u8>>) -> bool {
    bytes_of(reply) == value_at(entries, key)
}

/// A write that an operation asks the store for.
pub enum Write {
    Put(Seq<u8>, Seq<u8>),
    Delete(Seq<u8>),
}

/// The entries once the store has performed a write.
pub open spec fn after_write(entries: Entries, write: Write) -> Entries {
    match write {
        Write::Put(key, value) => entries.insert(key, value),
        Write::Delete(key) => entries.remove(key),
    }
}

/// The entries once the store has performed several writes in turn.
pub open spec fn after_writes(entries: Entries, writes: Seq<Write>) -> Entries
    decreases writes.len(),
{
    if writes.len() == 0 {
        entries
    } else {
        after_write(after_writes(entries, writes.drop_last()), writes.last())
    }
}

pub open spec fn key_of(write: Write) -> Seq<u8> {
    match write {
        Write::Put(key, _) => key,
        Write::Delete(key) => key,
    }
}

/// What a write leaves at its key.
pub open spec fn left_by(write: Write) -> Option<Seq<u8>> {
    match write {
        Write::Put(_, value) => Some(value),
        Write::Delete(_) => None,
    }
}

/// An insertion gives back what was at its key before and leaves its value
/// there. No other key changes.
pub proof fn law_insertion_replaces(
    before: Entries,
    insertion: Insertion,
    previous: Option<Vec<u8>>,
    key: Seq<u8>,
)
    requires
        answers_read(before, insertion.key@, previous),
    ensures
        ({
            let write = insertion.after_read(previous);
            &&& write.outcome(Ok(())) is Ok
            &&& bytes_of(write.outcome(Ok(()))->Ok_0) == value_at(before, insertion.key@)
            &&& value_at(after_write(before, write.write()), key) == (if key == insertion.key@ {
                Some(insertion.value@)
            } else {
                value_at(before, key)
            })
        }),
{
}

/// A removal gives back what was at its key before, `None` if nothing was, and
/// leaves nothing there. No other key changes.
pub proof fn law_removal_clears(
    before: Entries,
    removal: Removal,
    previous: Option<Vec<u8>>,
    key: Seq<u8>,
)
    requires
        answers_read(before, removal.key@, previous),
    ensures
        ({
            let delete = removal.after_read(previous);
            &&& delete.outcome(Ok(())) is Ok
            &&& bytes_of(delete.outcome(Ok(()))->Ok_0) == value_at(before, removal.key@)
            &&& value_at(after_write(before, delete.write()), key) == (if key == removal.key@ {
                None
            } else {
                value_at(before, key)
            })
        }),
{
}

/// A lookup gives back what the transaction's own last write to the key left
/// there, and where it wrote nothing to the key, what the snapshot shows. So a
/// transaction reads its own writes, and a lookup that is repeated with no
/// write to its key in between gives the same again.
pub proof fn law_lookup_gives_last_write(
    snapshot: Entries,
    writes: Seq<Write>,
    key: Seq<u8>,
    reply: Option<Vec<u8>>,
    last: int,
)
    requires
        answers_read(after_writes(snapshot, writes), key, reply),
        -1 <= last < writes.len(),
        last >= 0 ==> key_of(writes[last]) == key,
        forall|i: int| last < i < writes.len() ==> key_of(#[trigger] writes[i]) != key,
    ensures
        store_failure(Ok(reply)) == Ok::<_, DatabaseError>(reply),
        bytes_of(reply) == (if last >= 0 {
            left_by(writes[last])
        } else {
            value_at(snapshot, key)
        }),
{
    lemma_last_write(snapshot, writes, key, last);
}

proof fn lemma_last_write(snapshot: Entries, writes: Seq<Write>, key: Seq<u8>, last: int)
    requires
        -1 <= last < writes.len(),
        last >= 0 ==> key_of(writes[last]) == key,
        forall|i: int| last < i < writes.len() ==> key_of(#[trigger] writes[i]) != key,
    ensures
        value_at(after_writes(snapshot, writes), key) == (if last >= 0 {
            left_by(writes[last])
        } else {
            value_at(snapshot, key)
        }),
    decreases writes.len(),
{
    if writes.len() > 0 && last < writes.len() - 1 {
        assert(key_of(writes[writes.len() - 1]) != key);
        assert forall|i: int| last < i < writes.drop_last().len() implies key_of(
            #[trigger] writes.drop_last()[i],
        ) != key by {
            assert(writes.drop_last()[i] == writes[i]);
        }
        lemma_last_write(snapshot, writes.drop_last(), key, last);
    }
}

/// The entries once the given keys have been deleted one by one.
pub open spec fn after_deletes(entries: Entries, keys: Seq<Vec<u8>>) -> Entries
    decreases keys.len(),
{
    if keys.len() == 0 {
        entries
    } else {
        after_deletes(entries.remove(keys.first()@), keys.drop_first())
    }
}

/// The keys that the removal deletes when its scan comes upon `keys` and every
/// call succeeds.
pub open spec fn deletes(keep: KeepView, keys: Seq<Vec<u8>>) -> Seq<Vec<u8>>
    decreases keys.len(),
{
    if keys.len() == 0 {
        Seq::empty()
    } else {
        match step_at_item(keep, Some(Ok(keys.first()))) {
            RemovalStep::Delete(key) => seq![key] + deletes(keep, keys.drop_first()),
            _ => Seq::empty(),
        }
    }
}

proof fn lemma_all_deleted(keep: KeepView, keys: Seq<Vec<u8>>)
    requires
        forall|i: int| 0 <= i < keys.len() ==> keeps(keep, (#[trigger] keys[i])@),
    ensures
        deletes(keep, keys) == keys,
    decreases keys.len(),
{
    if keys.len() > 0 {
        assert forall|i: int| 0 <= i < keys.drop_first().len() implies keeps(
            keep,
            (#[trigger] keys.drop_first()[i])@,
        ) by {
            assert(keys.drop_first()[i] == keys[i + 1]);
        }
        lemma_all_deleted(keep, keys.drop_first());
        assert(keys.first() == keys[0]);
        assert(seq![keys.first()] + keys.drop_first() =~= keys);
    } else {
        assert(keys =~= Seq::empty());
    }
}

proof fn lemma_after_deletes(entries: Entries, keys: Seq<Vec<u8>>, key: Seq<u8>)
    ensures
        after_deletes(entries, keys).contains_key(key) <==> entries.contains_key(key) && forall|
            i: int,
        |
            0 <= i < keys.len() ==> (#[trigger] keys[i])@ != key,
        after_deletes(entries, keys).contains_key(key) ==> after_deletes(entries, keys)[key]
            == entries[key],
    decreases keys.len(),
{
    if keys.len() > 0 {
        lemma_after_deletes(entries.remove(keys.first()@), keys.drop_first(), key);
        assert(keys.first() == keys[0]);
        assert forall|i: int| 0 < i < keys.len() implies (#[trigger] keys[i])@ == (
        keys.drop_first()[i - 1])@ by {}
        if forall|i: int|
            0 <= i < keys.drop_first().len() ==> (#[trigger] keys.drop_first()[i])@ != key {
            assert forall|i: int| 0 < i < keys.len() implies (#[trigger] keys[i])@ != key by {
                assert(keys[i] == keys.drop_first()[i - 1]);
            }
        } else {
            let i = choose|i: int|
                0 <= i < keys.drop_first().len() && (#[trigger] keys.drop_first()[i])@ == key;
            assert(keys[i + 1]@ == key);
        }
    }
}

/// Removing by prefix removes exactly the keys that have the prefix, leaves
/// every other entry as it was, and ends well where every call succeeds.
pub proof fn law_remove_by_prefix(
    before: Entries,
    prefix: Seq<u8>,
    items: Seq<(Seq<u8>, Seq<u8>)>,
    keys: Seq<Vec<u8>>,
    key: Seq<u8>,
)
    requires
        yields(before, prefix_scan(prefix).range, prefix_scan(prefix).mode, items),
        keys.len() == items.len(),
        forall|i: int| 0 <= i < keys.len() ==> (#[trigger] keys[i])@ == items[i].0,
    ensures
        value_at(after_deletes(before, deletes(prefix_scan(prefix).keep, keys)), key) == (
        if has_prefix(key, prefix) {
            None
        } else {
            value_at(before, key)
        }),
        step_at_item(prefix_scan(prefix).keep, None) == RemovalStep::Finish(Ok(())),
{
    let keep = prefix_scan(prefix).keep;
    assert forall|i: int| 0 <= i < keys.len() implies keeps(keep, (#[trigger] keys[i])@) by {
        assert(before.contains_pair(items[i].0, items[i].1));
    }
    lemma_all_deleted(keep, keys);
    lemma_after_deletes(before, keys, key);
    if before.contains_key(key) && has_prefix(key, prefix) {
        lemma_prefixed_not_before(key, prefix);
        let i = choose|i: int| 0 <= i < items.len() && (#[trigger] items[i]).0 == key;
        assert(keys[i]@ == key);
    }
}

/// Whatever the store fails with, at whatever call, the operation ends there
/// with that failure, its kind and message unchanged.
pub proof fn law_store_failures_are_handed_on(
    err: StoreError,
    insertion: InsertionWrite,
    removal: RemovalDelete,
    keep: KeepView,
)
    ensures
        store_failure::<Option<Vec<u8>>>(Err(err)) == Err::<Option<Vec<u8>>, _>(
            DatabaseError::Backend(err),
        ),
        insertion.outcome(Err(err)) == Err::<Option<Vec<u8>>, _>(DatabaseError::Backend(err)),
        removal.outcome(Err(err)) == Err::<Option<Vec<u8>>, _>(DatabaseError::Backend(err)),
        step_at_item(keep, Some(Err(err))) == RemovalStep::Finish(Err(DatabaseError::Backend(err))),
        step_after_delete(Err(err)) == RemovalStep::Finish(Err(DatabaseError::Backend(err))),
{
}

/// Where no call fails, the value that was read is what the operation gives
/// back, and the store is asked for a write of the key and the value that the
/// caller gave.
pub proof fn law_operations_act_on_what_was_given(
    insertion: Insertion,
    removal: Removal,
    previous: Option<Vec<u8>>,
)
    ensures
        store_failure::<Option<Vec<u8>>>(Ok(previous)) == Ok::<_, DatabaseError>(previous),
        insertion.after_read(previous).key@ == insertion.key@,
        insertion.after_read(previous).value@ == insertion.value@,
        insertion.after_read(previous).outcome(Ok(())) == Ok::<_, DatabaseError>(previous),
        insertion.after_read(previous).write() == Write::Put(insertion.key@, insertion.value@),
        removal.after_read(previous).key@ == removal.key@,
        removal.after_read(previous).outcome(Ok(())) == Ok::<_, DatabaseError>(previous),
        removal.after_read(previous).write() == Write::Delete(removal.key@),
{
}

/// The removal of the keys with a prefix deletes each key that has the prefix
/// and goes on after it, and it ends well at the first key that has not, or
/// when there are no more.
pub proof fn law_prefix_removal_deletes_prefixed_keys(prefix: Seq<u8>, key: Vec<u8>)
    ensures
        has_prefix(key@, prefix) ==> step_at_item(prefix_scan(prefix).keep, Some(Ok(key)))
            == RemovalStep::Delete(key),
        !has_prefix(key@, prefix) ==> step_at_item(prefix_scan(prefix).keep, Some(Ok(key)))
            == RemovalStep::Finish(Ok(())),
        step_at_item(prefix_scan(prefix).keep, None) == RemovalStep::Finish(Ok(())),
        step_after_delete(Ok(())) == RemovalStep::Next,
{
}

} // verus!
