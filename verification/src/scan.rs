//! Scans over the keys of the store.
//!
//! A scan says which keys the store's iterator is confined to, where it starts
//! and in which direction it goes, and up to which item its items are kept.

use vstd::prelude::*;
use vstd::slice::slice_to_vec;

use crate::key_order::{
    comes_before, has_prefix, lemma_order_asymmetric, lemma_prefixed_not_before, precedes,
    precedes_at, starts_with,
};
use crate::prefix::{following, law_next_prefix_is_above_prefixed_keys, next_prefix};

verus! {

#[derive(Debug, Clone, Copy, PartialEq, Eq, Structural)]
pub enum Direction {
    Forward,
    Reverse,
}

/// The keys that an iterator is confined to.
#[derive(Debug, PartialEq, Eq)]
pub enum IterateRange {
    /// Keys that begin with the given bytes.
    Prefix(Vec<u8>),
    /// Keys from the first one on that come before the second one.
    Between(Vec<u8>, Vec<u8>),
}

/// Where an iterator starts, and in which direction it goes.
#[derive(Debug, PartialEq, Eq)]
pub enum IteratorMode {
    /// At the given key, or the nearest one in the direction.
    From(Vec<u8>, Direction),
    /// At the last key, going down.
    End,
}

/// Up to which item the items of an iterator are kept.
#[derive(Debug, PartialEq, Eq)]
pub enum Keep {
    /// While the keys begin with the given bytes.
    WithPrefix(Vec<u8>),
    /// While the keys come before the given one.
    Before(Vec<u8>),
}

#[derive(Debug, PartialEq, Eq)]
pub struct Scan {
    pub range: IterateRange,
    pub mode: IteratorMode,
    pub keep: Keep,
}

/// An [`IterateRange`] over sequences.
pub enum RangeView {
    Prefix(Seq<u8>),
    Between(Seq<u8>, Seq<u8>),
}

/// An [`IteratorMode`] over sequences.
pub enum ModeView {
    From(Seq<u8>, Direction),
    End,
}

/// A [`Keep`] over sequences.
pub enum KeepView {
    WithPrefix(Seq<u8>),
    Before(Seq<u8>),
}

/// A [`Scan`] over sequences.
pub struct ScanView {
    pub range: RangeView,
    pub mode: ModeView,
    pub keep: KeepView,
}

impl View for IterateRange {
    type V = RangeView;

    open spec fn view(&self) -> RangeView {
        match self {
            IterateRange::Prefix(prefix) => RangeView::Prefix(prefix@),
            IterateRange::Between(start, end) => RangeView::Between(start@, end@),
        }
    }
}

impl View for IteratorMode {
    type V = ModeView;

    open spec fn view(&self) -> ModeView {
        match self {
            IteratorMode::From(key, direction) => ModeView::From(key@, *direction),
            IteratorMode::End => ModeView::End,
        }
    }
}

impl View for Keep {
    type V = KeepView;

    open spec fn view(&self) -> KeepView {
        match self {
            Keep::WithPrefix(prefix) => KeepView::WithPrefix(prefix@),
            Keep::Before(end) => KeepView::Before(end@),
        }
    }
}

impl View for Scan {
    type V = ScanView;

    open spec fn view(&self) -> ScanView {
        ScanView { range: self.range@, mode: self.mode@, keep: self.keep@ }
    }
}

/// The scan over the keys with a given prefix, going up.
pub open spec fn prefix_scan(prefix: Seq<u8>) -> ScanView {
    ScanView {
        range: RangeView::Prefix(prefix),
        mode: ModeView::From(prefix, Direction::Forward),
        keep: KeepView::WithPrefix(prefix),
    }
}

/// The scan over the keys with a given prefix, going down: it starts from the
/// next prefix, or from the last key if there is none.
pub open spec fn descending_prefix_scan(prefix: Seq<u8>) -> ScanView {
    ScanView {
        range: RangeView::Prefix(prefix),
        mode: match following(prefix) {
            Some(next) => ModeView::From(next, Direction::Reverse),
            None => ModeView::End,
        },
        keep: KeepView::WithPrefix(prefix),
    }
}

/// The scan over the keys from `start` on that come before `end`, going up.
pub open spec fn range_scan(start: Seq<u8>, end: Seq<u8>) -> ScanView {
    ScanView {
        range: RangeView::Between(start, end),
        mode: ModeView::From(start, Direction::Forward),
        keep: KeepView::Before(end),
    }
}

/// Whether a scan goes on at an item with this key.
pub open spec fn keeps(keep: KeepView, key: Seq<u8>) -> bool {
    match keep {
        KeepView::WithPrefix(prefix) => has_prefix(key, prefix),
        KeepView::Before(end) => precedes(key, end),
    }
}

impl Keep {
    pub fn keeps(&self, key: &[u8]) -> (r: bool)
        ensures
            r == keeps(self@, key@),
    {
        match self {
            Keep::WithPrefix(prefix) => starts_with(key, prefix.as_slice()),
            Keep::Before(end) => comes_before(key, end.as_slice()),
        }
    }
}

impl Scan {
    pub fn by_prefix(prefix: &[u8]) -> (scan: Scan)
        ensures
            scan@ == prefix_scan(prefix@),
    {
        Scan {
            range: IterateRange::Prefix(slice_to_vec(prefix)),
            mode: IteratorMode::From(slice_to_vec(prefix), Direction::Forward),
            keep: Keep::WithPrefix(slice_to_vec(prefix)),
        }
    }

    pub fn by_prefix_sorted_descending(prefix: &[u8]) -> (scan: Scan)
        ensures
            scan@ == descending_prefix_scan(prefix@),
    {
        let mode = match next_prefix(prefix) {
            Some(next) => IteratorMode::From(next, Direction::Reverse),
            None => IteratorMode::End,
        };
        Scan {
            range: IterateRange::Prefix(slice_to_vec(prefix)),
            mode,
            keep: Keep::WithPrefix(slice_to_vec(prefix)),
        }
    }

    pub fn by_range(start: &[u8], end: &[u8]) -> (scan: Scan)
        ensures
            scan@ == range_scan(start@, end@),
    {
        Scan {
            range: IterateRange::Between(slice_to_vec(start), slice_to_vec(end)),
            mode: IteratorMode::From(slice_to_vec(start), Direction::Forward),
            keep: Keep::Before(slice_to_vec(end)),
        }
    }

    /// The entry that the scan hands out for an item of the iterator, or
    /// `None` where the scan ends.
    pub fn hand_out(&self, key: &[u8], value: &[u8]) -> (r: Option<(Vec<u8>, Vec<u8>)>)
        ensures
            match r {
                Some((k, v)) => keeps(self@.keep, key@) && k@ == key@ && v@ == value@,
                None => !keeps(self@.keep, key@),
            },
    {
        if self.keep.keeps(key) {
            Some((slice_to_vec(key), slice_to_vec(value)))
        } else {
            None
        }
    }
}

/// The entries of an ordered store.
pub type Entries = Map<Seq<u8>, Seq<u8>>;

/// Whether an iterator confined to `range` may come upon `key`.
pub open spec fn in_range(range: RangeView, key: Seq<u8>) -> bool {
    match range {
        RangeView::Prefix(prefix) => has_prefix(key, prefix),
        RangeView::Between(start, end) => !precedes(key, start) && precedes(key, end),
    }
}

/// Whether `key` lies ahead of where an iterator starts.
pub open spec fn lies_ahead(mode: ModeView, key: Seq<u8>) -> bool {
    match mode {
        ModeView::From(start, Direction::Forward) => !precedes(key, start),
        ModeView::From(start, Direction::Reverse) => !precedes(start, key),
        ModeView::End => true,
    }
}

/// Whether an iterator comes upon `a` before it comes upon `b`.
pub open spec fn comes_first(mode: ModeView, a: Seq<u8>, b: Seq<u8>) -> bool {
    match mode {
        ModeView::From(_, Direction::Forward) => precedes(a, b),
        ModeView::From(_, Direction::Reverse) => precedes(b, a),
        ModeView::End => precedes(b, a),
    }
}

/// Whether `items` is what the iterator of an ordered store with these entries
/// yields: the entries in its range and ahead of its start, all of them, each
/// once, in the order of its direction.
pub open spec fn yields(
    entries: Entries,
    range: RangeView,
    mode: ModeView,
    items: Seq<(Seq<u8>, Seq<u8>)>,
) -> bool {
    &&& forall|i: int|
        #![trigger items[i]]
        0 <= i < items.len() ==> {
            &&& entries.contains_pair(items[i].0, items[i].1)
            &&& in_range(range, items[i].0)
            &&& lies_ahead(mode, items[i].0)
        }
    &&& forall|i: int, j: int|
        #![trigger items[i], items[j]]
        0 <= i < j < items.len() ==> comes_first(mode, items[i].0, items[j].0)
    &&& forall|key: Seq<u8>| #[trigger]
        entries.contains_key(key) && in_range(range, key) && lies_ahead(mode, key) ==> exists|i: int|
            0 <= i < items.len() && (#[trigger] items[i]).0 == key
}

/// What a scan hands out of the items of its iterator: the items before the
/// first one that it does not keep.
pub open spec fn kept(keep: KeepView, items: Seq<(Seq<u8>, Seq<u8>)>) -> Seq<(Seq<u8>, Seq<u8>)>
    decreases items.len(),
{
    if items.len() > 0 && keeps(keep, items.first().0) {
        seq![items.first()] + kept(keep, items.drop_first())
    } else {
        Seq::empty()
    }
}

proof fn lemma_all_kept(keep: KeepView, items: Seq<(Seq<u8>, Seq<u8>)>)
    requires
        forall|i: int| 0 <= i < items.len() ==> keeps(keep, (#[trigger] items[i]).0),
    ensures
        kept(keep, items) == items,
    decreases items.len(),
{
    if items.len() > 0 {
        assert forall|i: int| 0 <= i < items.drop_first().len() implies keeps(
            keep,
            (#[trigger] items.drop_first()[i]).0,
        ) by {
            assert(items.drop_first()[i] == items[i + 1]);
        }
        lemma_all_kept(keep, items.drop_first());
        assert(seq![items.first()] + items.drop_first() =~= items);
    } else {
        assert(items =~= Seq::empty());
    }
}

/// `found` lists exactly the entries whose keys satisfy `wanted`, each once,
/// with keys going up or going down.
pub open spec fn lists_exactly(
    entries: Entries,
    wanted: spec_fn(Seq<u8>) -> bool,
    direction: Direction,
    found: Seq<(Seq<u8>, Seq<u8>)>,
) -> bool {
    &&& forall|key: Seq<u8>, value: Seq<u8>| #[trigger]
        found.contains((key, value)) <==> entries.contains_pair(key, value) && wanted(key)
    &&& forall|i: int, j: int|
        #![trigger found[i], found[j]]
        0 <= i < j < found.len() ==> match direction {
            Direction::Forward => precedes(found[i].0, found[j].0),
            Direction::Reverse => precedes(found[j].0, found[i].0),
        }
}

/// Finding by prefix gives exactly the entries whose keys have the prefix, in
/// ascending order.
pub proof fn law_find_by_prefix(
    entries: Entries,
    prefix: Seq<u8>,
    items: Seq<(Seq<u8>, Seq<u8>)>,
)
    requires
        yields(entries, prefix_scan(prefix).range, prefix_scan(prefix).mode, items),
    ensures
        lists_exactly(
            entries,
            |key: Seq<u8>| has_prefix(key, prefix),
            Direction::Forward,
            kept(prefix_scan(prefix).keep, items),
        ),
{
    let scan = prefix_scan(prefix);
    lemma_all_kept(scan.keep, items);
    assert forall|key: Seq<u8>, value: Seq<u8>|
        entries.contains_pair(key, value) && has_prefix(key, prefix) implies items.contains(
        (key, value),
    ) by {
        lemma_prefixed_not_before(key, prefix);
        assert(entries.contains_key(key));
    }
}

/// Finding by prefix in descending order gives exactly the entries whose keys
/// have the prefix, in descending order.
pub proof fn law_find_by_prefix_sorted_descending(
    entries: Entries,
    prefix: Seq<u8>,
    items: Seq<(Seq<u8>, Seq<u8>)>,
)
    requires
        yields(
            entries,
            descending_prefix_scan(prefix).range,
            descending_prefix_scan(prefix).mode,
            items,
        ),
    ensures
        lists_exactly(
            entries,
            |key: Seq<u8>| has_prefix(key, prefix),
            Direction::Reverse,
            kept(descending_prefix_scan(prefix).keep, items),
        ),
{
    let scan = descending_prefix_scan(prefix);
    lemma_all_kept(scan.keep, items);
    assert forall|key: Seq<u8>, value: Seq<u8>|
        entries.contains_pair(key, value) && has_prefix(key, prefix) implies items.contains(
        (key, value),
    ) by {
        match following(prefix) {
            Some(next) => {
                law_next_prefix_is_above_prefixed_keys(prefix, next, key);
                lemma_order_asymmetric(key, next);
            },
            None => {},
        }
        assert(entries.contains_key(key));
    }
}

/// The keys with a given prefix lie side by side: a key between two of them
/// has the prefix too. A scan that ends at the first key without the prefix
/// therefore passes over none that has it.
pub proof fn law_prefixed_keys_are_adjacent(
    prefix: Seq<u8>,
    first: Seq<u8>,
    between: Seq<u8>,
    last: Seq<u8>,
)
    requires
        has_prefix(first, prefix),
        has_prefix(last, prefix),
        precedes(first, between),
        precedes(between, last),
    ensures
        has_prefix(between, prefix),
{
    let i = choose|i: int| precedes_at(first, between, i);
    let j = choose|j: int| precedes_at(between, last, j);
    assert forall|k: int| 0 <= k < prefix.len() implies first[k] == prefix[k] && last[k]
        == prefix[k] by {}
    if i < prefix.len() && j < prefix.len() {
        if i < j {
            assert(between[i] == last[i]);
        } else if j < i {
            assert(first[j] == between[j]);
        }
        assert(false);
    }
}

/// Finding by range gives exactly the entries whose keys are in the range, the
/// start included and the end not, in ascending order.
pub proof fn law_find_by_range(
    entries: Entries,
    start: Seq<u8>,
    end: Seq<u8>,
    items: Seq<(Seq<u8>, Seq<u8>)>,
)
    requires
        yields(entries, range_scan(start, end).range, range_scan(start, end).mode, items),
    ensures
        lists_exactly(
            entries,
            |key: Seq<u8>| !precedes(key, start) && precedes(key, end),
            Direction::Forward,
            kept(range_scan(start, end).keep, items),
        ),
{
    let scan = range_scan(start, end);
    lemma_all_kept(scan.keep, items);
    assert forall|key: Seq<u8>, value: Seq<u8>|
        entries.contains_pair(key, value) && !precedes(key, start) && precedes(
            key,
            end,
        ) implies items.contains((key, value)) by {
        assert(entries.contains_key(key));
    }
}

/// Two lists with the same items, each in ascending order of keys, are equal.
proof fn lemma_ascending_list_is_unique(a: Seq<(Seq<u8>, Seq<u8>)>, b: Seq<(Seq<u8>, Seq<u8>)>)
    requires
        forall|item: (Seq<u8>, Seq<u8>)| a.contains(item) <==> b.contains(item),
        forall|i: int, j: int|
            #![trigger a[i], a[j]]
            0 <= i < j < a.len() ==> precedes(a[i].0, a[j].0),
        forall|i: int, j: int|
            #![trigger b[i], b[j]]
            0 <= i < j < b.len() ==> precedes(b[i].0, b[j].0),
    ensures
        a == b,
    decreases a.len(),
{
    if a.len() == 0 || b.len() == 0 {
        if a.len() > 0 {
            assert(a.contains(a[0]));
        }
        if b.len() > 0 {
            assert(b.contains(b[0]));
        }
        assert(a =~= b);
    } else {
        let la = a.len() - 1;
        let lb = b.len() - 1;
        assert(b.contains(a[la]));
        assert(a.contains(b[lb]));
        let i = choose|i: int| 0 <= i < b.len() && b[i] == a[la];
        let j = choose|j: int| 0 <= j < a.len() && a[j] == b[lb];
        if i < lb && j < la {
            lemma_order_asymmetric(a[la].0, b[lb].0);
        }
        assert(a[la] == b[lb]);
        assert forall|item: (Seq<u8>, Seq<u8>)| #[trigger] a.drop_last().contains(item)
            <==> b.drop_last().contains(item) by {
            lemma_dropped_last(a, item);
            lemma_dropped_last(b, item);
        }
        lemma_ascending_list_is_unique(a.drop_last(), b.drop_last());
        assert(a =~= a.drop_last().push(a[la]));
        assert(b =~= b.drop_last().push(b[lb]));
    }
}

/// Without its last item an ascending list holds the other items and no more.
proof fn lemma_dropped_last(a: Seq<(Seq<u8>, Seq<u8>)>, item: (Seq<u8>, Seq<u8>))
    requires
        a.len() > 0,
        forall|i: int, j: int|
            #![trigger a[i], a[j]]
            0 <= i < j < a.len() ==> precedes(a[i].0, a[j].0),
    ensures
        a.drop_last().contains(item) <==> a.contains(item) && item != a.last(),
{
    if a.drop_last().contains(item) {
        let i = choose|i: int| 0 <= i < a.drop_last().len() && a.drop_last()[i] == item;
        assert(a[i] == item);
        lemma_order_asymmetric(a[i].0, a[a.len() - 1].0);
    }
    if a.contains(item) && item != a.last() {
        let i = choose|i: int| 0 <= i < a.len() && a[i] == item;
        assert(a.drop_last()[i] == item);
    }
}

/// Finding by prefix in descending order gives what finding by prefix gives,
/// from the last entry to the first.
pub proof fn law_descending_is_ascending_reversed(
    entries: Entries,
    prefix: Seq<u8>,
    up: Seq<(Seq<u8>, Seq<u8>)>,
    down: Seq<(Seq<u8>, Seq<u8>)>,
)
    requires
        yields(entries, prefix_scan(prefix).range, prefix_scan(prefix).mode, up),
        yields(
            entries,
            descending_prefix_scan(prefix).range,
            descending_prefix_scan(prefix).mode,
            down,
        ),
    ensures
        kept(descending_prefix_scan(prefix).keep, down) == kept(
            prefix_scan(prefix).keep,
            up,
        ).reverse(),
{
    law_find_by_prefix(entries, prefix, up);
    law_find_by_prefix_sorted_descending(entries, prefix, down);
    let a = kept(prefix_scan(prefix).keep, up);
    let b = kept(descending_prefix_scan(prefix).keep, down);
    let r = b.reverse();
    assert forall|item: (Seq<u8>, Seq<u8>)| #[trigger] a.contains(item) <==> r.contains(item) by {
        assert(a.contains((item.0, item.1)) <==> b.contains((item.0, item.1)));
        if b.contains(item) {
            let i = choose|i: int| 0 <= i < b.len() && b[i] == item;
            assert(r[b.len() - 1 - i] == item);
        }
        if r.contains(item) {
            let i = choose|i: int| 0 <= i < r.len() && r[i] == item;
            assert(b[b.len() - 1 - i] == item);
        }
    }
    assert forall|i: int, j: int|
        #![trigger r[i], r[j]]
        0 <= i < j < r.len() implies precedes(r[i].0, r[j].0) by {
        assert(r[i] == b[b.len() - 1 - i]);
        assert(r[j] == b[b.len() - 1 - j]);
    }
    lemma_ascending_list_is_unique(a, r);
    assert(r.reverse() =~= b);
}

/// What a scan holds is what its view shows: nothing is cut, swapped or made
/// up.
pub proof fn law_views_show_what_a_scan_holds(
    a: Vec<u8>,
    b: Vec<u8>,
    direction: Direction,
    scan: Scan,
)
    ensures
        IterateRange::Prefix(a)@ == RangeView::Prefix(a@),
        IterateRange::Between(a, b)@ == RangeView::Between(a@, b@),
        IteratorMode::From(a, direction)@ == ModeView::From(a@, direction),
        IteratorMode::End@ == ModeView::End,
        Keep::WithPrefix(a)@ == KeepView::WithPrefix(a@),
        Keep::Before(a)@ == KeepView::Before(a@),
        scan@.range == scan.range@,
        scan@.mode == scan.mode@,
        scan@.keep == scan.keep@,
{
}

/// A scan by prefix goes on exactly while the keys have the prefix, in either
/// direction, and a scan by range exactly while they come before the end.
pub proof fn law_scans_end_where_they_should(
    prefix: Seq<u8>,
    start: Seq<u8>,
    end: Seq<u8>,
    key: Seq<u8>,
)
    ensures
        keeps(prefix_scan(prefix).keep, key) <==> has_prefix(key, prefix),
        keeps(descending_prefix_scan(prefix).keep, key) <==> has_prefix(key, prefix),
        keeps(range_scan(start, end).keep, key) <==> precedes(key, end),
{
}

/// A scan passes over no key that it is to find, and its range holds no other
/// ones: exactly these keys are in its range, and all of them lie ahead of where
/// it starts.
pub proof fn law_scans_reach_every_wanted_key(
    prefix: Seq<u8>,
    start: Seq<u8>,
    end: Seq<u8>,
    key: Seq<u8>,
)
    ensures
        has_prefix(key, prefix) <==> in_range(prefix_scan(prefix).range, key),
        has_prefix(key, prefix) ==> lies_ahead(prefix_scan(prefix).mode, key),
        has_prefix(key, prefix) <==> in_range(descending_prefix_scan(prefix).range, key),
        has_prefix(key, prefix) ==> lies_ahead(descending_prefix_scan(prefix).mode, key),
        !precedes(key, start) && precedes(key, end) <==> in_range(range_scan(start, end).range, key),
        !precedes(key, start) ==> lies_ahead(range_scan(start, end).mode, key),
{
    if has_prefix(key, prefix) {
        lemma_prefixed_not_before(key, prefix);
        match following(prefix) {
            Some(next) => {
                law_next_prefix_is_above_prefixed_keys(prefix, next, key);
                lemma_order_asymmetric(key, next);
            },
            None => {},
        }
    }
}

} // verus!
