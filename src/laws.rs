//! Properties of the protocol that relate several calls or every input.
use crate::curve::{group_order, lemma_scalar_one, one_spec, point_valid, scalar_of};
use crate::musig::{
    aggregated_key, coefficient_input, concat_keys, aggregation_error, binding_scalar, coefficient, effective_nonce,
    key_coefficient_of, partial_value, second_key, signing_points_valid, slot_pick,
    slot_points, weighted_key, PartialNonces, PublicKeyAgg,
};
use crate::ordering::{
    key_order, lemma_key_order_total, lemma_sorted_is_unique, lemma_sorted_keys_of_permutation,
    sorted_keys,
};
use vstd::prelude::*;

verus! {

broadcast use vstd::multiset::group_multiset_axioms;

/// Mapping two rearrangements of one sequence gives two rearrangements of one sequence.
pub proof fn lemma_map_permutation<A, B>(s1: Seq<A>, s2: Seq<A>, f: spec_fn(A) -> B)
    requires
        s1.to_multiset() == s2.to_multiset(),
    ensures
        s1.map_values(f).to_multiset() == s2.map_values(f).to_multiset(),
    decreases s1.len(),
{
    s1.to_multiset_ensures();
    s2.to_multiset_ensures();
    s1.map_values(f).to_multiset_ensures();
    s2.map_values(f).to_multiset_ensures();
    if s1.len() == 0 {
        assert(s1.map_values(f) =~= s2.map_values(f));
    } else {
        let x = s1.last();
        let rest1 = s1.drop_last();
        assert(rest1.push(x) =~= s1);
        rest1.to_multiset_ensures();
        assert(s1[s1.len() - 1] == x);
        assert(s1.contains(x));
        assert(s1.to_multiset().count(x) > 0);
        assert(s2.to_multiset().count(x) > 0);
        assert(s2.contains(x));
        let i = choose|i: int| 0 <= i < s2.len() && s2[i] == x;
        let rest2 = s2.remove(i);
        assert(rest1.to_multiset() =~= rest2.to_multiset());
        lemma_map_permutation(rest1, rest2, f);
        assert(rest1.map_values(f).push(f(x)) =~= s1.map_values(f));
        rest1.map_values(f).to_multiset_ensures();
        assert(s2.map_values(f).remove(i) =~= rest2.map_values(f));
        assert(s2.map_values(f)[i] == f(x));
        assert(s2.map_values(f).to_multiset() =~= rest2.map_values(f).to_multiset().insert(f(x)));
    }
}

/// Key aggregation does not depend on the order in which the keys are given:
/// any rearrangement of a key set gives the same aggregate key, the same
/// coefficient for each signer, and the same refusal.
pub proof fn lemma_key_aggregation_order_independent(
    a: Seq<[u8; 32]>,
    b: Seq<[u8; 32]>,
    my: [u8; 32],
)
    requires
        a.to_multiset() == b.to_multiset(),
    ensures
        aggregated_key(a) == aggregated_key(b),
        key_coefficient_of(a, my) == key_coefficient_of(b, my),
        aggregation_error(a, my) == aggregation_error(b, my),
{
    lemma_sorted_keys_of_permutation(a, b);
    a.to_multiset_ensures();
    b.to_multiset_ensures();
}

/// The second distinct key of a key set gets coefficient one, and enters the
/// aggregate key unmultiplied.
pub proof fn lemma_second_key_coefficient_one(keys: Seq<[u8; 32]>)
    ensures
        coefficient(sorted_keys(keys), second_key(sorted_keys(keys))) == one_spec(),
        scalar_of(coefficient(sorted_keys(keys), second_key(sorted_keys(keys)))) == 1,
        weighted_key(sorted_keys(keys), second_key(sorted_keys(keys))) == second_key(
            sorted_keys(keys),
        )@,
{
    lemma_scalar_one();
}

/// With a single signer, the aggregate key is that signer's key and its coefficient is one.
pub proof fn lemma_single_signer_aggregation(k: [u8; 32])
    requires
        point_valid(k@),
    ensures
        aggregation_error(seq![k], k) is None,
        aggregated_key(seq![k]) == k@,
        key_coefficient_of(seq![k], k) == one_spec(),
        scalar_of(key_coefficient_of(seq![k], k)) == 1,
{
    let s = seq![k];
    lemma_key_order_total();
    lemma_sorted_is_unique(s, s);
    assert(sorted_keys(s) == s);
    assert(s[0] == k);
    assert(s.contains(k));
    let terms = s.map_values(|x: [u8; 32]| weighted_key(s, x));
    assert(terms.len() == 1);
    lemma_scalar_one();
}

/// The effective nonce and each partial signature do not depend on the order in
/// which the other signers' public nonces arrive.
pub proof fn lemma_nonce_arrival_order(
    nonces: PartialNonces,
    others1: Seq<[[u8; 32]; 2]>,
    others2: Seq<[[u8; 32]; 2]>,
    agg: PublicKeyAgg,
    private_key: [u8; 32],
    message: Seq<u8>,
)
    requires
        others1.to_multiset() == others2.to_multiset(),
    ensures
        signing_points_valid(nonces.R, others1, agg.agg_public_key) == signing_points_valid(
            nonces.R,
            others2,
            agg.agg_public_key,
        ),
        effective_nonce(nonces.R, others1, agg.agg_public_key, message) == effective_nonce(
            nonces.R,
            others2,
            agg.agg_public_key,
            message,
        ),
        partial_value(nonces, others1, agg, private_key, message) == partial_value(
            nonces,
            others2,
            agg,
            private_key,
            message,
        ),
{
    lemma_slot_permutation(nonces.R, others1, others2, 0);
    lemma_slot_permutation(nonces.R, others1, others2, 1);
}

proof fn lemma_slot_permutation(
    own: [[u8; 32]; 2],
    others1: Seq<[[u8; 32]; 2]>,
    others2: Seq<[[u8; 32]; 2]>,
    j: int,
)
    requires
        others1.to_multiset() == others2.to_multiset(),
    ensures
        sorted_keys(slot_points(own, others1, j)) == sorted_keys(slot_points(own, others2, j)),
{
    lemma_map_permutation(others1, others2, slot_pick(j));
    others1.map_values(slot_pick(j)).to_multiset_ensures();
    others2.map_values(slot_pick(j)).to_multiset_ensures();
    lemma_sorted_keys_of_permutation(slot_points(own, others1, j), slot_points(own, others2, j));
}

proof fn lemma_concat_len(s: Seq<[u8; 32]>)
    ensures
        concat_keys(s).len() == 32 * s.len(),
    decreases s.len(),
{
    if s.len() > 0 {
        lemma_concat_len(s.drop_last());
    }
}

proof fn lemma_concat_injective(s1: Seq<[u8; 32]>, s2: Seq<[u8; 32]>)
    requires
        concat_keys(s1) == concat_keys(s2),
    ensures
        s1 == s2,
    decreases s1.len(),
{
    broadcast use vstd::array::group_array_axioms;

    lemma_concat_len(s1);
    lemma_concat_len(s2);
    if s1.len() == 0 {
        assert(s1 =~= s2);
    } else {
        let prefix1 = concat_keys(s1.drop_last());
        let prefix2 = concat_keys(s2.drop_last());
        lemma_concat_len(s1.drop_last());
        lemma_concat_len(s2.drop_last());
        let c = concat_keys(s1);
        assert(c.subrange(0, prefix1.len() as int) =~= prefix1);
        assert(c.subrange(0, prefix2.len() as int) =~= prefix2);
        assert(c.subrange(prefix1.len() as int, c.len() as int) =~= s1.last()@);
        assert(concat_keys(s2).subrange(prefix2.len() as int, c.len() as int) =~= s2.last()@);
        assert(s1.last() =~= s2.last());
        lemma_concat_injective(s1.drop_last(), s2.drop_last());
        assert(s1 =~= s1.drop_last().push(s1.last()));
        assert(s2 =~= s2.drop_last().push(s2.last()));
    }
}

/// The hash that gives a key its coefficient covers the whole key set: two
/// different ascending key sequences never give the same key the same hash input.
pub proof fn lemma_coefficient_input_binds_key_set(
    s1: Seq<[u8; 32]>,
    s2: Seq<[u8; 32]>,
    k: [u8; 32],
)
    requires
        s1 != s2,
    ensures
        coefficient_input(s1, k) != coefficient_input(s2, k),
{
    if coefficient_input(s1, k) == coefficient_input(s2, k) {
        let prefix = seq![1u8] + k@;
        assert(coefficient_input(s1, k).subrange(prefix.len() as int, coefficient_input(s1, k).len() as int) =~= concat_keys(s1));
        assert(coefficient_input(s2, k).subrange(prefix.len() as int, coefficient_input(s2, k).len() as int) =~= concat_keys(s2));
        lemma_concat_injective(s1, s2);
    }
}

} // verus!
