//! The prefix that follows a given one.

use vstd::prelude::*;
use vstd::slice::slice_to_vec;

use crate::key_order::{agree, has_prefix, lemma_order_asymmetric, precedes, precedes_at};

verus! {

/// The byte string of the same length that follows `prefix`: its last byte
/// goes up by one, and a byte that overflows becomes zero and carries over.
/// `None` if `prefix` is the last of its length.
pub open spec fn following(prefix: Seq<u8>) -> Option<Seq<u8>>
    decreases prefix.len(),
{
    if prefix.len() == 0 {
        None
    } else if prefix.last() < u8::MAX {
        Some(prefix.drop_last().push((prefix.last() + 1) as u8))
    } else {
        match following(prefix.drop_last()) {
            Some(carried) => Some(carried.push(0)),
            None => None,
        }
    }
}

/// A byte string of zeros.
pub open spec fn zeros(len: nat) -> Seq<u8> {
    Seq::new(len, |i: int| 0u8)
}

/// Trailing maximal bytes become zeros and carry into what is before them.
proof fn lemma_following_carries(prefix: Seq<u8>, i: int)
    requires
        0 <= i <= prefix.len(),
        forall|j: int| i <= j < prefix.len() ==> prefix[j] == u8::MAX,
    ensures
        following(prefix) == (match following(prefix.take(i)) {
            Some(carried) => Some(carried + zeros((prefix.len() - i) as nat)),
            None => None,
        }),
    decreases prefix.len() - i,
{
    if i == prefix.len() {
        assert(prefix.take(i) =~= prefix);
        match following(prefix) {
            Some(carried) => {
                assert(carried + zeros(0) =~= carried);
            },
            None => {},
        }
    } else {
        lemma_following_carries(prefix.drop_last(), i);
        assert(prefix.drop_last().take(i) =~= prefix.take(i));
        match following(prefix.take(i)) {
            Some(carried) => {
                let n = (prefix.len() - i) as nat;
                assert((carried + zeros((n - 1) as nat)).push(0) =~= carried + zeros(n));
            },
            None => {},
        }
    }
}

/// When finding by prefix in reverse order, the search starts from
/// "prefix + 1" instead of "prefix", in lexicographic order. `None` if there
/// is no next prefix, that is if `prefix` is already the last one.
pub fn next_prefix(prefix: &[u8]) -> (r: Option<Vec<u8>>)
    ensures
        match r {
            Some(next) => following(prefix@) == Some(next@),
            None => following(prefix@) is None,
        },
{
    let mut next = slice_to_vec(prefix);
    let mut i: usize = next.len();
    while i > 0
        invariant
            i <= prefix@.len(),
            next@ =~= prefix@.take(i as int) + zeros((prefix@.len() - i) as nat),
            forall|j: int| i <= j < prefix@.len() ==> prefix@[j] == u8::MAX,
        decreases i,
    {
        i -= 1;
        let byte: u8 = next[i].wrapping_add(1);
        next.set(i, byte);
        if byte > 0 {
            proof {
                let head = prefix@.take(i + 1);
                lemma_following_carries(prefix@, i + 1);
                assert(head.drop_last() =~= prefix@.take(i as int));
                assert(next@ =~= head.drop_last().push(byte) + zeros(
                    (prefix@.len() - i - 1) as nat,
                ));
            }
            return Some(next);
        }
    }
    proof {
        lemma_following_carries(prefix@, 0);
    }
    None
}

/// Where `prefix` and the one that follows it part.
proof fn lemma_following_shape(prefix: Seq<u8>) -> (i: int)
    ensures
        match following(prefix) {
            Some(next) => {
                &&& next.len() == prefix.len()
                &&& agree(prefix, next, i)
                &&& i < prefix.len()
                &&& next[i] == prefix[i] + 1
                &&& forall|j: int| i < j < prefix.len() ==> prefix[j] == u8::MAX && next[j] == 0
            },
            None => forall|j: int| 0 <= j < prefix.len() ==> prefix[j] == u8::MAX,
        },
    decreases prefix.len(),
{
    if prefix.len() == 0 {
        0
    } else if prefix.last() < u8::MAX {
        prefix.len() - 1
    } else {
        let i = lemma_following_shape(prefix.drop_last());
        assert forall|j: int| 0 <= j < prefix.len() - 1 implies prefix[j]
            == prefix.drop_last()[j] by {}
        i
    }
}

/// Every key with a given prefix comes before the next prefix, so a search
/// that goes down from the next prefix misses none of them.
pub proof fn law_next_prefix_is_above_prefixed_keys(prefix: Seq<u8>, next: Seq<u8>, key: Seq<u8>)
    requires
        following(prefix) == Some(next),
        has_prefix(key, prefix),
    ensures
        precedes(key, next),
{
    let i = lemma_following_shape(prefix);
    assert(precedes_at(key, next, i));
}

/// The next prefix is the least byte string of its length that comes after
/// the prefix.
pub proof fn law_next_prefix_is_least(prefix: Seq<u8>, next: Seq<u8>, other: Seq<u8>)
    requires
        following(prefix) == Some(next),
        other.len() == prefix.len(),
        precedes(prefix, other),
    ensures
        next.len() == prefix.len(),
        precedes(prefix, next),
        !precedes(other, next),
{
    let i = lemma_following_shape(prefix);
    assert(precedes_at(prefix, next, i));
    let j = choose|j: int| precedes_at(prefix, other, j);
    assert(prefix[j] < u8::MAX);
    assert(j <= i);
    if j < i {
        assert(precedes_at(next, other, j));
        lemma_order_asymmetric(next, other);
    } else if precedes(other, next) {
        let k = choose|k: int| precedes_at(other, next, k);
        assert(k >= i) by {
            if k < i {
                assert(other[k] == prefix[k] == next[k]);
            }
        }
        if k > i {
            assert(next[k] == 0);
        }
        assert(false);
    }
}

/// There is no next prefix exactly if every byte of the prefix is the largest
/// one. Then the keys with that prefix are the last of all keys: every key
/// that does not come before the prefix has it.
pub proof fn law_last_prefix_is_at_the_end(prefix: Seq<u8>, key: Seq<u8>)
    ensures
        following(prefix) is None <==> forall|j: int|
            0 <= j < prefix.len() ==> prefix[j] == u8::MAX,
        following(prefix) is None && !precedes(key, prefix) ==> has_prefix(key, prefix),
{
    let i = lemma_following_shape(prefix);
    if following(prefix) is None && !precedes(key, prefix) {
        lemma_above_last(prefix, key, prefix.len() as int);
    }
}

proof fn lemma_above_last(prefix: Seq<u8>, key: Seq<u8>, n: int)
    requires
        0 <= n <= prefix.len(),
        forall|j: int| 0 <= j < prefix.len() ==> prefix[j] == u8::MAX,
        !precedes(key, prefix),
    ensures
        agree(key, prefix, n),
    decreases n,
{
    if n > 0 {
        lemma_above_last(prefix, key, n - 1);
        assert(!precedes_at(key, prefix, n - 1));
    }
}

/// The next prefix has as many bytes as the prefix and comes after it. There is
/// one for every prefix that some byte string of its length comes after.
pub proof fn law_next_prefix_comes_after(prefix: Seq<u8>, other: Seq<u8>)
    ensures
        following(prefix) is Some ==> {
            &&& following(prefix)->Some_0.len() == prefix.len()
            &&& precedes(prefix, following(prefix)->Some_0)
        },
        other.len() == prefix.len() && precedes(prefix, other) ==> following(prefix) is Some,
{
    let i = lemma_following_shape(prefix);
    match following(prefix) {
        Some(next) => {
            assert(precedes_at(prefix, next, i));
        },
        None => {
            if other.len() == prefix.len() && precedes(prefix, other) {
                let j = choose|j: int| precedes_at(prefix, other, j);
                assert(prefix[j] == u8::MAX);
            }
        },
    }
}

} // verus!
