//! The byte order that makes key aggregation independent of input order.
use vstd::prelude::*;
use vstd::relations::{sorted_by, total_ordering};

verus! {

broadcast use vstd::array::group_array_axioms;

/// Lexicographic order on byte strings (a prefix comes first).
pub open spec fn lex_le(a: Seq<u8>, b: Seq<u8>) -> bool
    decreases a.len(),
{
    if a.len() == 0 {
        true
    } else if b.len() == 0 {
        false
    } else if a[0] != b[0] {
        a[0] < b[0]
    } else {
        lex_le(a.drop_first(), b.drop_first())
    }
}

/// Encodings ordered lexicographically, as `Ord` orders byte arrays.
pub open spec fn key_order() -> spec_fn([u8; 32], [u8; 32]) -> bool {
    |a: [u8; 32], b: [u8; 32]| lex_le(a@, b@)
}

proof fn lemma_lex_reflexive(a: Seq<u8>)
    ensures
        lex_le(a, a),
    decreases a.len(),
{
    if a.len() > 0 {
        lemma_lex_reflexive(a.drop_first());
    }
}

proof fn lemma_lex_antisymmetric(a: Seq<u8>, b: Seq<u8>)
    requires
        lex_le(a, b),
        lex_le(b, a),
    ensures
        a == b,
    decreases a.len(),
{
    if a.len() > 0 {
        lemma_lex_antisymmetric(a.drop_first(), b.drop_first());
        assert forall|i: int| 0 <= i < a.len() implies a[i] == b[i] by {
            if i > 0 {
                assert(a[i] == a.drop_first()[i - 1]);
                assert(b[i] == b.drop_first()[i - 1]);
            }
        }
        assert(a =~= b);
    }
}

proof fn lemma_lex_transitive(a: Seq<u8>, b: Seq<u8>, c: Seq<u8>)
    requires
        lex_le(a, b),
        lex_le(b, c),
    ensures
        lex_le(a, c),
    decreases a.len(),
{
    if a.len() > 0 && b.len() > 0 && c.len() > 0 && a[0] == b[0] && b[0] == c[0] {
        lemma_lex_transitive(a.drop_first(), b.drop_first(), c.drop_first());
    }
}

proof fn lemma_lex_connected(a: Seq<u8>, b: Seq<u8>)
    ensures
        lex_le(a, b) || lex_le(b, a),
    decreases a.len(),
{
    if a.len() > 0 && b.len() > 0 && a[0] == b[0] {
        lemma_lex_connected(a.drop_first(), b.drop_first());
    }
}

/// The order on encodings is a total order.
pub proof fn lemma_key_order_total()
    ensures
        total_ordering(key_order()),
{
    let r = key_order();
    assert forall|x: [u8; 32]| #[trigger] r(x, x) by {
        lemma_lex_reflexive(x@);
    }
    assert forall|x: [u8; 32], y: [u8; 32]| #[trigger] r(x, y) && #[trigger] r(y, x) implies x
        == y by {
        lemma_lex_antisymmetric(x@, y@);
        assert(x =~= y);
    }
    assert forall|x: [u8; 32], y: [u8; 32], z: [u8; 32]| #[trigger] r(x, y) && #[trigger] r(
        y,
        z,
    ) implies r(x, z) by {
        lemma_lex_transitive(x@, y@, z@);
    }
    assert forall|x: [u8; 32], y: [u8; 32]| #[trigger] r(x, y) || #[trigger] r(y, x) by {
        lemma_lex_connected(x@, y@);
    }
}

/// The encodings of `s` in ascending order.
pub open spec fn sorted_keys(s: Seq<[u8; 32]>) -> Seq<[u8; 32]> {
    s.sort_by(key_order())
}

/// A sorted rearrangement of `s` is the sorted form of `s`.
pub proof fn lemma_sorted_is_unique(x: Seq<[u8; 32]>, s: Seq<[u8; 32]>)
    requires
        x.to_multiset() == s.to_multiset(),
        sorted_by(x, key_order()),
    ensures
        x == sorted_keys(s),
{
    lemma_key_order_total();
    s.lemma_sort_by_ensures(key_order());
    vstd::seq_lib::lemma_sorted_unique(x, sorted_keys(s), key_order());
}

/// Rearranging a sequence does not change its sorted form.
pub proof fn lemma_sorted_keys_of_permutation(a: Seq<[u8; 32]>, b: Seq<[u8; 32]>)
    requires
        a.to_multiset() == b.to_multiset(),
    ensures
        sorted_keys(a) == sorted_keys(b),
{
    lemma_key_order_total();
    a.lemma_sort_by_ensures(key_order());
    lemma_sorted_is_unique(sorted_keys(a), b);
}

/// Relies on `slice::sort` of std, with the lexicographic `Ord` of byte arrays:
/// the result is a sorted rearrangement of the input.
#[verifier::external_body]
pub(crate) fn sort_encodings(v: &mut Vec<[u8; 32]>)
    ensures
        final(v)@.to_multiset() == old(v)@.to_multiset(),
        sorted_by(final(v)@, key_order()),
{
    v.sort();
}

/// Sorts `v` into ascending byte order.
pub fn sort_keys(v: &mut Vec<[u8; 32]>)
    ensures
        final(v)@ == sorted_keys(old(v)@),
{
    sort_encodings(v);
    proof {
        lemma_sorted_is_unique(v@, old(v)@);
    }
}

/// Whether two encodings are equal.
pub fn same_bytes(a: &[u8; 32], b: &[u8; 32]) -> (r: bool)
    ensures
        r == (*a == *b),
{
    let mut i: usize = 0;
    while i < 32
        invariant
            0 <= i <= 32,
            forall|j: int| 0 <= j < i ==> a[j] == b[j],
        decreases 32 - i,
    {
        if a[i] != b[i] {
            return false;
        }
        i = i + 1;
    }
    assert(*a =~= *b);
    true
}

} // verus!
