//! Keys are byte strings in lexicographic order.

use vstd::prelude::*;

verus! {

/// `a` and `b` agree in their first `i` bytes.
pub open spec fn agree(a: Seq<u8>, b: Seq<u8>, i: int) -> bool {
    &&& 0 <= i <= a.len()
    &&& i <= b.len()
    &&& forall|j: int| 0 <= j < i ==> a[j] == b[j]
}

/// `a` comes before `b`, and position `i` decides it: `a` ends there, or has
/// the smaller byte.
pub open spec fn precedes_at(a: Seq<u8>, b: Seq<u8>, i: int) -> bool {
    &&& agree(a, b, i)
    &&& i < b.len()
    &&& i == a.len() || a[i] < b[i]
}

/// `a` comes before `b` in lexicographic order.
pub open spec fn precedes(a: Seq<u8>, b: Seq<u8>) -> bool {
    exists|i: int| precedes_at(a, b, i)
}

/// `key` begins with `prefix`.
pub open spec fn has_prefix(key: Seq<u8>, prefix: Seq<u8>) -> bool {
    agree(key, prefix, prefix.len() as int)
}

/// No two keys come before each other; in particular none before itself.
pub proof fn lemma_order_asymmetric(a: Seq<u8>, b: Seq<u8>)
    requires
        precedes(a, b),
    ensures
        !precedes(b, a),
{
    let i = choose|i: int| precedes_at(a, b, i);
    assert forall|j: int| !precedes_at(b, a, j) by {
        if precedes_at(b, a, j) {
            if i < j {
                assert(b[i] == a[i]);
            } else if j < i {
                assert(a[j] == b[j]);
            }
        }
    }
}

/// A key with a given prefix does not come before that prefix.
pub proof fn lemma_prefixed_not_before(key: Seq<u8>, prefix: Seq<u8>)
    requires
        has_prefix(key, prefix),
    ensures
        !precedes(key, prefix),
{
    assert forall|i: int| !precedes_at(key, prefix, i) by {
        if precedes_at(key, prefix, i) {
            assert(key[i] == prefix[i]);
        }
    }
}

/// Whether `a` comes before `b` in lexicographic order.
pub fn comes_before(a: &[u8], b: &[u8]) -> (r: bool)
    ensures
        r == precedes(a@, b@),
{
    let mut i: usize = 0;
    while i < a.len() && i < b.len()
        invariant
            agree(a@, b@, i as int),
        decreases a.len() - i,
    {
        if a[i] < b[i] {
            assert(precedes_at(a@, b@, i as int));
            return true;
        }
        if a[i] > b[i] {
            proof {
                assert(precedes_at(b@, a@, i as int));
                lemma_order_asymmetric(b@, a@);
            }
            return false;
        }
        i += 1;
    }
    if i < b.len() {
        assert(precedes_at(a@, b@, i as int));
        true
    } else {
        proof {
            assert(has_prefix(a@, b@));
            lemma_prefixed_not_before(a@, b@);
        }
        false
    }
}

/// Whether `key` begins with `prefix`.
pub fn starts_with(key: &[u8], prefix: &[u8]) -> (r: bool)
    ensures
        r == has_prefix(key@, prefix@),
{
    if key.len() < prefix.len() {
        return false;
    }
    let mut i: usize = 0;
    while i < prefix.len()
        invariant
            prefix.len() <= key.len(),
            agree(key@, prefix@, i as int),
        decreases prefix.len() - i,
    {
        if key[i] != prefix[i] {
            return false;
        }
        i += 1;
    }
    true
}

/// A key begins with a prefix exactly if it is the prefix and something more
/// behind it.
pub proof fn law_prefixed_key_is_prefix_and_rest(key: Seq<u8>, prefix: Seq<u8>, rest: Seq<u8>)
    ensures
        has_prefix(prefix + rest, prefix),
        has_prefix(key, prefix) ==> key == prefix + key.skip(prefix.len() as int),
        key.len() < prefix.len() ==> !has_prefix(key, prefix),
{
    if has_prefix(key, prefix) {
        assert(key =~= prefix + key.skip(prefix.len() as int));
    }
}

/// Nothing comes before the empty key, which comes before every other one. Of
/// two keys with different first bytes the one with the smaller byte comes
/// first; where the first bytes are the same, what is behind them decides.
pub proof fn law_keys_are_ordered_byte_by_byte(x: u8, a: Seq<u8>, y: u8, b: Seq<u8>)
    ensures
        !precedes(a, Seq::empty()),
        precedes(Seq::empty(), b) <==> b.len() > 0,
        precedes(seq![x] + a, seq![y] + b) <==> x < y || (x == y && precedes(a, b)),
{
    let xa = seq![x] + a;
    let yb = seq![y] + b;
    if b.len() > 0 {
        assert(precedes_at(Seq::empty(), b, 0));
    }
    if x < y {
        assert(precedes_at(xa, yb, 0));
    }
    if x == y && precedes(a, b) {
        let i = choose|i: int| precedes_at(a, b, i);
        assert forall|j: int| 0 <= j < i + 1 implies xa[j] == yb[j] by {
            if j > 0 {
                assert(xa[j] == a[j - 1] && yb[j] == b[j - 1]);
            }
        }
        assert(precedes_at(xa, yb, i + 1));
    }
    if precedes(xa, yb) {
        let i = choose|i: int| precedes_at(xa, yb, i);
        assert(xa[0] == x && yb[0] == y);
        if i > 0 {
            assert forall|j: int| 0 <= j < i - 1 implies a[j] == b[j] by {
                assert(xa[j + 1] == a[j] && yb[j + 1] == b[j]);
            }
            assert(precedes_at(a, b, i - 1));
        }
    }
}

} // verus!
