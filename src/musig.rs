//! Key aggregation, nonce generation, partial signing and signature aggregation.
use crate::curve::{
    add_points, add_scalars, base_times, decodes_as_point, group_order, hash_scalar,
    hash_to_scalar, mul_base, mul_point, mul_scalars, one_spec, point_sum, point_times,
    point_valid, scalar_of, scalar_one, scalar_zero,
};
use crate::ordering::{same_bytes, sort_keys, sorted_keys};
use vstd::prelude::*;

verus! {

broadcast use vstd::array::group_array_axioms;

/// The joint public key of a key set, and the calling signer's coefficient.
#[derive(Clone, Copy, Debug)]
pub struct PublicKeyAgg {
    pub agg_public_key: [u8; 32],
    pub musig_coefficient: [u8; 32],
}

/// Why an operation of the protocol was refused.
#[derive(Clone, Copy, Debug, PartialEq, Eq, Structural)]
pub enum MusigError {
    /// The key set is empty.
    EmptyKeySet,
    /// A point encoding does not decode to a point of the group.
    InvalidPoint,
    /// The calling signer's public key is not in the key set.
    MissingOwnKey,
    /// Partial signatures to be combined carry different effective nonces.
    MismatchedNonce,
}

/// The concatenation of the encodings in `s`, in order.
pub open spec fn concat_keys(s: Seq<[u8; 32]>) -> Seq<u8>
    decreases s.len(),
{
    if s.len() == 0 {
        Seq::empty()
    } else {
        concat_keys(s.drop_last()) + s.last()@
    }
}

/// The first key of `s` from index `i` on that differs from `s[0]`, or `s[0]` if there is none.
pub open spec fn second_key_from(s: Seq<[u8; 32]>, i: int) -> [u8; 32]
    decreases s.len() - i,
{
    if i >= s.len() {
        s[0]
    } else if s[i] != s[0] {
        s[i]
    } else {
        second_key_from(s, i + 1)
    }
}

/// In an ascending key sequence, the first key strictly greater than the smallest
/// (the smallest itself when all keys are equal).
pub open spec fn second_key(s: Seq<[u8; 32]>) -> [u8; 32] {
    second_key_from(s, 1)
}

/// What is hashed to get the coefficient of `k` in the ascending key sequence `s`.
pub open spec fn coefficient_input(s: Seq<[u8; 32]>, k: [u8; 32]) -> Seq<u8> {
    seq![1u8] + k@ + concat_keys(s)
}

/// The coefficient of `k` in the ascending key sequence `s`: one for the second
/// distinct key, a hash bound to the whole set for every other key.
pub open spec fn coefficient(s: Seq<[u8; 32]>, k: [u8; 32]) -> Seq<u8> {
    if k == second_key(s) {
        one_spec()
    } else {
        hash_scalar(coefficient_input(s, k))
    }
}

/// The key `k` multiplied by its coefficient.
pub open spec fn weighted_key(s: Seq<[u8; 32]>, k: [u8; 32]) -> Seq<u8> {
    if k == second_key(s) {
        k@
    } else {
        point_times(k@, coefficient(s, k))
    }
}

/// The group sum of the points in `s`, added from first to last.
pub open spec fn sum_points(s: Seq<Seq<u8>>) -> Seq<u8>
    decreases s.len(),
{
    if s.len() == 0 {
        Seq::empty()
    } else if s.len() == 1 {
        s[0]
    } else {
        point_sum(sum_points(s.drop_last()), s.last())
    }
}

/// The aggregate key of the ascending key sequence `s`.
pub open spec fn aggregate_of(s: Seq<[u8; 32]>) -> Seq<u8> {
    sum_points(s.map_values(|k: [u8; 32]| weighted_key(s, k)))
}

/// The aggregate public key of a key set, in whatever order it is given.
pub open spec fn aggregated_key(keys: Seq<[u8; 32]>) -> Seq<u8> {
    aggregate_of(sorted_keys(keys))
}

/// The coefficient of `my` in the key set `keys`.
pub open spec fn key_coefficient_of(keys: Seq<[u8; 32]>, my: [u8; 32]) -> Seq<u8> {
    coefficient(sorted_keys(keys), my)
}

/// Every key of `s` decodes to a point.
pub open spec fn all_valid(s: Seq<[u8; 32]>) -> bool {
    forall|i: int| 0 <= i < s.len() ==> point_valid(#[trigger] s[i]@)
}

/// Why key aggregation refuses `keys` with own key `my`, if it does.
pub open spec fn aggregation_error(keys: Seq<[u8; 32]>, my: [u8; 32]) -> Option<MusigError> {
    if keys.len() == 0 {
        Some(MusigError::EmptyKeySet)
    } else if !all_valid(sorted_keys(keys)) {
        Some(MusigError::InvalidPoint)
    } else if !sorted_keys(keys).contains(my) {
        Some(MusigError::MissingOwnKey)
    } else {
        None
    }
}

/// Appends `b` to `v`.
pub fn push_bytes(v: &mut Vec<u8>, b: &[u8])
    ensures
        final(v)@ == old(v)@ + b@,
{
    let ghost start = v@;
    let mut i: usize = 0;
    while i < b.len()
        invariant
            0 <= i <= b.len(),
            v@ == start + b@.take(i as int),
        decreases b.len() - i,
    {
        v.push(b[i]);
        i = i + 1;
        assert(v@ =~= start + b@.take(i as int));
    }
    assert(b@.take(b.len() as int) =~= b@);
}

/// The concatenation of all encodings in `keys`.
fn concat_all(keys: &Vec<[u8; 32]>) -> (r: Vec<u8>)
    ensures
        r@ == concat_keys(keys@),
{
    let mut out: Vec<u8> = Vec::new();
    let mut i: usize = 0;
    while i < keys.len()
        invariant
            0 <= i <= keys.len(),
            out@ == concat_keys(keys@.take(i as int)),
        decreases keys.len() - i,
    {
        push_bytes(&mut out, &keys[i]);
        assert(keys@.take(i + 1).drop_last() =~= keys@.take(i as int));
        i = i + 1;
    }
    assert(keys@.take(keys.len() as int) =~= keys@);
    out
}

/// The second distinct key of an ascending, non-empty key sequence.
fn second_distinct(keys: &Vec<[u8; 32]>) -> (r: [u8; 32])
    requires
        keys.len() > 0,
    ensures
        r == second_key(keys@),
{
    let mut i: usize = 1;
    while i < keys.len()
        invariant
            1 <= i <= keys.len(),
            second_key_from(keys@, i as int) == second_key(keys@),
        decreases keys.len() - i,
    {
        if !same_bytes(&keys[i], &keys[0]) {
            return keys[i];
        }
        i = i + 1;
    }
    keys[0]
}

/// The coefficient of `k` in the ascending key sequence `keys`.
fn coefficient_in(keys: &Vec<[u8; 32]>, second: &[u8; 32], all: &Vec<u8>, k: &[u8; 32]) -> (r: [u8; 32])
    requires
        keys.len() > 0,
        *second == second_key(keys@),
        all@ == concat_keys(keys@),
    ensures
        r@ == coefficient(keys@, *k),
{
    if same_bytes(k, second) {
        scalar_one()
    } else {
        let mut data: Vec<u8> = Vec::new();
        data.push(1u8);
        push_bytes(&mut data, k);
        push_bytes(&mut data, all.as_slice());
        assert(data@ =~= coefficient_input(keys@, *k));
        hash_to_scalar(&data)
    }
}

/// The key `k` multiplied by its coefficient in `keys`.
fn weighted_in(keys: &Vec<[u8; 32]>, second: &[u8; 32], all: &Vec<u8>, k: &[u8; 32]) -> (r: [u8; 32])
    requires
        keys.len() > 0,
        *second == second_key(keys@),
        all@ == concat_keys(keys@),
        point_valid(k@),
    ensures
        r@ == weighted_key(keys@, *k),
        point_valid(r@),
{
    if same_bytes(k, second) {
        *k
    } else {
        let c = coefficient_in(keys, second, all, k);
        mul_point(k, &c)
    }
}

impl PublicKeyAgg {
    /// Aggregates `public_keys` into one public key, and gives the coefficient of
    /// `my_public_key`. The result does not depend on the order of `public_keys`.
    pub fn key_aggregation_n(public_keys: Vec<[u8; 32]>, my_public_key: &[u8; 32]) -> (r: Result<
        PublicKeyAgg,
        MusigError,
    >)
        ensures
            r.is_ok() == (aggregation_error(public_keys@, *my_public_key) is None),
            r matches Err(e) ==> aggregation_error(public_keys@, *my_public_key) == Some(e),
            r matches Ok(a) ==> a.agg_public_key@ == aggregated_key(public_keys@)
                && a.musig_coefficient@ == key_coefficient_of(public_keys@, *my_public_key),
    {
        if public_keys.len() == 0 {
            return Err(MusigError::EmptyKeySet);
        }
        let ghost given = public_keys@;
        let mut keys = public_keys;
        sort_keys(&mut keys);
        let keys = keys;
        proof {
            crate::ordering::lemma_key_order_total();
            given.lemma_sort_by_ensures(crate::ordering::key_order());
            keys@.to_multiset_ensures();
            given.to_multiset_ensures();
        }
        assert(keys.len() > 0);
        let mut i: usize = 0;
        while i < keys.len()
            invariant
                0 <= i <= keys.len(),
                forall|j: int| 0 <= j < i ==> point_valid(#[trigger] keys@[j]@),
                given == public_keys@,
                given.len() > 0,
                keys@ == sorted_keys(given),
            decreases keys.len() - i,
        {
            if !decodes_as_point(&keys[i]) {
                assert(!all_valid(keys@));
                return Err(MusigError::InvalidPoint);
            }
            i = i + 1;
        }
        let mut found = false;
        let mut i: usize = 0;
        while i < keys.len()
            invariant
                0 <= i <= keys.len(),
                found == exists|j: int| 0 <= j < i && keys@[j] == *my_public_key,
            decreases keys.len() - i,
        {
            if same_bytes(&keys[i], my_public_key) {
                found = true;
            }
            i = i + 1;
        }
        if !found {
            return Err(MusigError::MissingOwnKey);
        }
        let second = second_distinct(&keys);
        let all = concat_all(&keys);
        let ghost terms = keys@.map_values(|k: [u8; 32]| weighted_key(keys@, k));
        let mut sum = weighted_in(&keys, &second, &all, &keys[0]);
        assert(terms.take(1) =~= seq![terms[0]]);
        let mut i: usize = 1;
        while i < keys.len()
            invariant
                1 <= i <= keys.len(),
                keys@ == sorted_keys(given),
                all_valid(keys@),
                second == second_key(keys@),
                all@ == concat_keys(keys@),
                terms == keys@.map_values(|k: [u8; 32]| weighted_key(keys@, k)),
                terms.len() == keys.len(),
                sum@ == sum_points(terms.take(i as int)),
                point_valid(sum@),
            decreases keys.len() - i,
        {
            let w = weighted_in(&keys, &second, &all, &keys[i]);
            sum = add_points(&sum, &w);
            assert(terms.take(i + 1).drop_last() =~= terms.take(i as int));
            assert(terms.take(i + 1).last() == w@);
            i = i + 1;
        }
        assert(terms.take(keys.len() as int) =~= terms);
        let coeff = coefficient_in(&keys, &second, &all, my_public_key);
        Ok(PublicKeyAgg { agg_public_key: sum, musig_coefficient: coeff })
    }
}


/// A signer's key material: the public key, the secret scalar, and the secret
/// prefix from which nonces are derived.
pub struct ExpandedKeyPair {
    pub public_key: [u8; 32],
    pub prefix: [u8; 32],
    pub private_key: [u8; 32],
}

impl ExpandedKeyPair {
    /// The key pair with secret scalar `private_key` and nonce prefix `prefix`.
    pub fn from_secrets(private_key: [u8; 32], prefix: [u8; 32]) -> (r: ExpandedKeyPair)
        ensures
            r.public_key@ == base_times(private_key@),
            r.private_key == private_key,
            r.prefix == prefix,
    {
        let public_key = mul_base(&private_key);
        ExpandedKeyPair { public_key, prefix, private_key }
    }
}

/// The two secret nonces of one signing session, and their public points.
pub struct PartialNonces {
    pub r: [[u8; 32]; 2],
    pub R: [[u8; 32]; 2],
}

/// One signer's contribution: the session's effective nonce point and its partial scalar.
#[derive(Clone, Copy, Debug)]
pub struct PartialSignature {
    pub R: [u8; 32],
    pub my_partial_s: [u8; 32],
}

/// A Schnorr signature over Ed25519.
#[derive(Clone, Copy, Debug)]
pub struct Signature {
    pub R: [u8; 32],
    pub s: [u8; 32],
}

/// The message bytes that nonce derivation mixes in (none stands for the empty string).
pub open spec fn message_bytes(message: Option<&[u8]>) -> Seq<u8> {
    match message {
        Some(m) => m@,
        None => Seq::empty(),
    }
}

/// What is hashed to derive one secret nonce.
pub open spec fn nonce_input(prefix: Seq<u8>, message: Seq<u8>, random: Seq<u8>) -> Seq<u8> {
    seq![2u8] + prefix + message + random
}

/// The Fiat-Shamir challenge of nonce point `R`, public key `A` and `message`.
pub open spec fn challenge(R: Seq<u8>, A: Seq<u8>, message: Seq<u8>) -> Seq<u8> {
    hash_scalar(R + A + message)
}

/// Whether `sig` is a valid signature on `message` under `public_key`: `R + k A == s G`.
pub open spec fn signature_holds(sig: Signature, message: Seq<u8>, public_key: [u8; 32]) -> bool {
    &&& point_valid(public_key@)
    &&& point_valid(sig.R@)
    &&& point_sum(point_times(public_key@, challenge(sig.R@, public_key@, message)), sig.R@)
        == base_times(sig.s@)
}

/// Picks the point of nonce slot `j` out of a bundle of public nonces.
pub open spec fn slot_pick(j: int) -> spec_fn([[u8; 32]; 2]) -> [u8; 32] {
    |b: [[u8; 32]; 2]| b[j]
}

/// The points of nonce slot `j` of every other signer, then the caller's own.
pub open spec fn slot_points(own: [[u8; 32]; 2], others: Seq<[[u8; 32]; 2]>, j: int) -> Seq<[u8; 32]> {
    others.map_values(slot_pick(j)).push(own[j])
}

/// The group sum of the points in `s`, taken in ascending byte order.
pub open spec fn sorted_sum(s: Seq<[u8; 32]>) -> Seq<u8> {
    sum_points(sorted_keys(s).map_values(|p: [u8; 32]| p@))
}

/// The aggregate nonce of slot `j`.
pub open spec fn nonce_sum(own: [[u8; 32]; 2], others: Seq<[[u8; 32]; 2]>, j: int) -> Seq<u8> {
    sorted_sum(slot_points(own, others, j))
}

/// Every public nonce and the aggregate key decode to points.
pub open spec fn signing_points_valid(
    own: [[u8; 32]; 2],
    others: Seq<[[u8; 32]; 2]>,
    agg: [u8; 32],
) -> bool {
    &&& point_valid(agg@)
    &&& all_valid(sorted_keys(slot_points(own, others, 0)))
    &&& all_valid(sorted_keys(slot_points(own, others, 1)))
}

/// The binding scalar `b`: a hash of the aggregate key, both aggregate nonces and the message.
pub open spec fn binding_scalar(
    own: [[u8; 32]; 2],
    others: Seq<[[u8; 32]; 2]>,
    agg: [u8; 32],
    message: Seq<u8>,
) -> Seq<u8> {
    hash_scalar(
        seq![3u8] + agg@ + nonce_sum(own, others, 0) + nonce_sum(own, others, 1) + message,
    )
}

/// The effective nonce point `R[0] + b R[1]`.
pub open spec fn effective_nonce(
    own: [[u8; 32]; 2],
    others: Seq<[[u8; 32]; 2]>,
    agg: [u8; 32],
    message: Seq<u8>,
) -> Seq<u8> {
    point_sum(
        nonce_sum(own, others, 0),
        point_times(nonce_sum(own, others, 1), binding_scalar(own, others, agg, message)),
    )
}

/// The partial scalar `e a x + r[0] + b r[1]` modulo the group order.
pub open spec fn partial_value(
    nonces: PartialNonces,
    others: Seq<[[u8; 32]; 2]>,
    agg: PublicKeyAgg,
    private_key: [u8; 32],
    message: Seq<u8>,
) -> int {
    let b = scalar_of(binding_scalar(nonces.R, others, agg.agg_public_key, message));
    let e = scalar_of(
        challenge(effective_nonce(nonces.R, others, agg.agg_public_key, message), agg.agg_public_key@, message),
    );
    (e * scalar_of(agg.musig_coefficient@) * scalar_of(private_key@) + scalar_of(nonces.r[0]@)
        + b * scalar_of(nonces.r[1]@)) % group_order()
}

/// The sum of the scalars that the encodings in `s` stand for.
pub open spec fn scalar_total(s: Seq<[u8; 32]>) -> int
    decreases s.len(),
{
    if s.len() == 0 {
        0
    } else {
        scalar_total(s.drop_last()) + scalar_of(s.last()@)
    }
}

impl Signature {
    /// The Fiat-Shamir challenge: SHA-512 of `R`, `PK` and `message`, as a scalar.
    pub fn k(R: &[u8; 32], PK: &[u8; 32], message: &[u8]) -> (r: [u8; 32])
        ensures
            r@ == challenge(R@, PK@, message@),
    {
        let mut data: Vec<u8> = Vec::new();
        push_bytes(&mut data, R);
        push_bytes(&mut data, PK);
        push_bytes(&mut data, message);
        hash_to_scalar(&data)
    }

    /// Whether this is a valid signature on `message` under `public_key`.
    pub fn verify(&self, message: &[u8], public_key: &[u8; 32]) -> (r: bool)
        ensures
            r == signature_holds(*self, message@, *public_key),
    {
        if !decodes_as_point(public_key) || !decodes_as_point(&self.R) {
            return false;
        }
        let k = Signature::k(&self.R, public_key, message);
        let kA = mul_point(public_key, &k);
        let lhs = add_points(&kA, &self.R);
        let rhs = mul_base(&self.s);
        let same = same_bytes(&lhs, &rhs);
        proof {
            if lhs@ == rhs@ {
                assert(lhs =~= rhs);
            }
        }
        same
    }
}

/// Derives the two secret nonces of a session from the signer's prefix, the message
/// if any, and one 32-byte random string per nonce, and their public points.
pub fn generate_partial_nonces(
    keys: &ExpandedKeyPair,
    message: Option<&[u8]>,
    randomness: &[[u8; 32]; 2],
) -> (r: PartialNonces)
    ensures
        r.r[0]@ == hash_scalar(nonce_input(keys.prefix@, message_bytes(message), randomness[0]@)),
        r.r[1]@ == hash_scalar(nonce_input(keys.prefix@, message_bytes(message), randomness[1]@)),
        r.R[0]@ == base_times(r.r[0]@),
        r.R[1]@ == base_times(r.r[1]@),
{
    let r0 = derive_nonce(keys, message, &randomness[0]);
    let r1 = derive_nonce(keys, message, &randomness[1]);
    let point0 = mul_base(&r0);
    let point1 = mul_base(&r1);
    PartialNonces { r: [r0, r1], R: [point0, point1] }
}

fn derive_nonce(keys: &ExpandedKeyPair, message: Option<&[u8]>, random: &[u8; 32]) -> (r: [u8; 32])
    ensures
        r@ == hash_scalar(nonce_input(keys.prefix@, message_bytes(message), random@)),
{
    let mut data: Vec<u8> = Vec::new();
    data.push(2u8);
    push_bytes(&mut data, &keys.prefix);
    match message {
        Some(m) => push_bytes(&mut data, m),
        None => {},
    }
    push_bytes(&mut data, random);
    assert(data@ =~= nonce_input(keys.prefix@, message_bytes(message), random@));
    hash_to_scalar(&data)
}

/// The group sum of `points` in ascending byte order, or none if one of them does not decode.
fn sum_sorted(points: Vec<[u8; 32]>) -> (r: Option<[u8; 32]>)
    requires
        points.len() > 0,
    ensures
        r is Some == all_valid(sorted_keys(points@)),
        r matches Some(p) ==> p@ == sorted_sum(points@) && point_valid(p@),
{
    let ghost given = points@;
    let mut keys = points;
    sort_keys(&mut keys);
    let keys = keys;
    proof {
        crate::ordering::lemma_key_order_total();
        given.lemma_sort_by_ensures(crate::ordering::key_order());
        keys@.to_multiset_ensures();
        given.to_multiset_ensures();
    }
    let mut i: usize = 0;
    while i < keys.len()
        invariant
            0 <= i <= keys.len(),
            forall|j: int| 0 <= j < i ==> point_valid(#[trigger] keys@[j]@),
            given == points@,
            keys@ == sorted_keys(given),
        decreases keys.len() - i,
    {
        if !decodes_as_point(&keys[i]) {
            assert(!all_valid(keys@));
            return None;
        }
        i = i + 1;
    }
    let ghost terms = keys@.map_values(|p: [u8; 32]| p@);
    let mut sum = keys[0];
    assert(terms.take(1) =~= seq![terms[0]]);
    let mut i: usize = 1;
    while i < keys.len()
        invariant
            1 <= i <= keys.len(),
            all_valid(keys@),
            terms == keys@.map_values(|p: [u8; 32]| p@),
            sum@ == sum_points(terms.take(i as int)),
            point_valid(sum@),
        decreases keys.len() - i,
    {
        sum = add_points(&sum, &keys[i]);
        assert(terms.take(i + 1).drop_last() =~= terms.take(i as int));
        i = i + 1;
    }
    assert(terms.take(keys.len() as int) =~= terms);
    Some(sum)
}

/// The points of nonce slot `j` of every other signer, then the caller's own.
fn slot_of(own: &[[u8; 32]; 2], others: &[[[u8; 32]; 2]], j: usize) -> (r: Vec<[u8; 32]>)
    requires
        j < 2,
    ensures
        r@ == slot_points(*own, others@, j as int),
{
    let mut out: Vec<[u8; 32]> = Vec::new();
    let mut i: usize = 0;
    while i < others.len()
        invariant
            0 <= i <= others.len(),
            j < 2,
            out@ == others@.take(i as int).map_values(slot_pick(j as int)),
        decreases others.len() - i,
    {
        out.push(others[i][j]);
        i = i + 1;
        assert(out@ =~= others@.take(i as int).map_values(slot_pick(j as int)));
    }
    assert(others@.take(others.len() as int) =~= others@);
    out.push(own[j]);
    out
}

proof fn lemma_partial_arith(e: int, c: int, x: int, r0: int, b: int, r1: int, m: int)
    requires
        m > 0,
    ensures
        ((((e * c) % m) * x) % m + (r0 + (b * r1) % m) % m) % m == (e * c * x + r0 + b * r1) % m,
{
    vstd::arithmetic::div_mod::lemma_mul_mod_noop_left(e * c, x, m);
    vstd::arithmetic::div_mod::lemma_add_mod_noop_right(r0, b * r1, m);
    vstd::arithmetic::div_mod::lemma_add_mod_noop(e * c * x, r0 + b * r1, m);
    assert(e * c * x + (r0 + b * r1) == e * c * x + r0 + b * r1);
}

/// Computes this signer's partial signature over `message`, from every other
/// signer's public nonces, its own nonces, the aggregated key and its key pair.
pub fn partial_sign(
    nonces_from_other_parties: &[[[u8; 32]; 2]],
    my_partial_nonces: PartialNonces,
    agg_public_key: &PublicKeyAgg,
    my_keypair: &ExpandedKeyPair,
    message: &[u8],
) -> (r: Result<PartialSignature, MusigError>)
    ensures
        r.is_ok() == signing_points_valid(
            my_partial_nonces.R,
            nonces_from_other_parties@,
            agg_public_key.agg_public_key,
        ),
        r matches Err(e) ==> e == MusigError::InvalidPoint,
        r matches Ok(sig) ==> sig.R@ == effective_nonce(
            my_partial_nonces.R,
            nonces_from_other_parties@,
            agg_public_key.agg_public_key,
            message@,
        ) && scalar_of(sig.my_partial_s@) == partial_value(
            my_partial_nonces,
            nonces_from_other_parties@,
            *agg_public_key,
            my_keypair.private_key,
            message@,
        ),
{
    let ghost others = nonces_from_other_parties@;
    if !decodes_as_point(&agg_public_key.agg_public_key) {
        return Err(MusigError::InvalidPoint);
    }
    let slot0 = slot_of(&my_partial_nonces.R, nonces_from_other_parties, 0);
    let slot1 = slot_of(&my_partial_nonces.R, nonces_from_other_parties, 1);
    let R0 = match sum_sorted(slot0) {
        Some(p) => p,
        None => return Err(MusigError::InvalidPoint),
    };
    let R1 = match sum_sorted(slot1) {
        Some(p) => p,
        None => return Err(MusigError::InvalidPoint),
    };
    let mut data: Vec<u8> = Vec::new();
    data.push(3u8);
    push_bytes(&mut data, &agg_public_key.agg_public_key);
    push_bytes(&mut data, &R0);
    push_bytes(&mut data, &R1);
    push_bytes(&mut data, message);
    assert(data@ =~= seq![3u8] + agg_public_key.agg_public_key@ + R0@ + R1@ + message@);
    let b = hash_to_scalar(&data);
    let bR1 = mul_point(&R1, &b);
    let effective_R = add_points(&R0, &bR1);
    let br1 = mul_scalars(&b, &my_partial_nonces.r[1]);
    let effective_r = add_scalars(&my_partial_nonces.r[0], &br1);
    let e = Signature::k(&effective_R, &agg_public_key.agg_public_key, message);
    let ea = mul_scalars(&e, &agg_public_key.musig_coefficient);
    let eax = mul_scalars(&ea, &my_keypair.private_key);
    let s = add_scalars(&eax, &effective_r);
    proof {
        crate::curve::lemma_moduli();
        lemma_partial_arith(
            scalar_of(e@),
            scalar_of(agg_public_key.musig_coefficient@),
            scalar_of(my_keypair.private_key@),
            scalar_of(my_partial_nonces.r[0]@),
            scalar_of(b@),
            scalar_of(my_partial_nonces.r[1]@),
            group_order(),
        );
    }
    Ok(PartialSignature { R: effective_R, my_partial_s: s })
}

/// Combines this signer's partial signature with every other signer's partial
/// scalar. The caller checks beforehand that all partial signatures carry the same `R`.
pub fn aggregate_partial_signatures(
    my_partial_sig: &PartialSignature,
    partial_sigs_from_other_parties: &[[u8; 32]],
) -> (r: Signature)
    ensures
        r.R == my_partial_sig.R,
        scalar_of(r.s@) == (scalar_total(partial_sigs_from_other_parties@) + scalar_of(
            my_partial_sig.my_partial_s@,
        )) % group_order(),
{
    let ghost parts = partial_sigs_from_other_parties@;
    proof {
        crate::curve::lemma_moduli();
    }
    let mut total = scalar_zero();
    proof {
        assert(parts.take(0) =~= Seq::<[u8; 32]>::empty());
        vstd::arithmetic::div_mod::lemma_small_mod(0, group_order() as nat);
    }
    let mut i: usize = 0;
    while i < partial_sigs_from_other_parties.len()
        invariant
            0 <= i <= parts.len(),
            parts == partial_sigs_from_other_parties@,
            group_order() > 0,
            scalar_of(total@) == scalar_total(parts.take(i as int)) % group_order(),
        decreases parts.len() - i,
    {
        let x = partial_sigs_from_other_parties[i];
        total = add_scalars(&total, &x);
        proof {
            assert(parts.take(i + 1).drop_last() =~= parts.take(i as int));
            vstd::arithmetic::div_mod::lemma_add_mod_noop(
                scalar_total(parts.take(i as int)),
                scalar_of(x@),
                group_order(),
            );
            vstd::arithmetic::div_mod::lemma_mod_twice(
                (le_int_mod(x@)),
                group_order(),
            );
        }
        i = i + 1;
    }
    assert(parts.take(parts.len() as int) =~= parts);
    let s = add_scalars(&total, &my_partial_sig.my_partial_s);
    proof {
        vstd::arithmetic::div_mod::lemma_add_mod_noop(
            scalar_total(parts),
            scalar_of(my_partial_sig.my_partial_s@),
            group_order(),
        );
        vstd::arithmetic::div_mod::lemma_mod_twice(
            le_int_mod(my_partial_sig.my_partial_s@),
            group_order(),
        );
    }
    Signature { R: my_partial_sig.R, s }
}

/// The partial scalars of a sequence of partial signatures.
pub open spec fn partial_scalars(s: Seq<PartialSignature>) -> Seq<[u8; 32]> {
    s.map_values(|p: PartialSignature| p.my_partial_s)
}

/// Combines this signer's partial signature with every other signer's partial
/// signature, refusing them unless all carry this signer's effective nonce `R`.
pub fn aggregate_signatures(my_partial_sig: &PartialSignature, others: &[PartialSignature]) -> (r:
    Result<Signature, MusigError>)
    ensures
        r.is_ok() == (forall|i: int| 0 <= i < others@.len() ==> (#[trigger] others@[i]).R == my_partial_sig.R),
        r matches Err(e) ==> e == MusigError::MismatchedNonce,
        r matches Ok(sig) ==> sig.R == my_partial_sig.R && scalar_of(sig.s@) == (scalar_total(
            partial_scalars(others@),
        ) + scalar_of(my_partial_sig.my_partial_s@)) % group_order(),
{
    let mut scalars: Vec<[u8; 32]> = Vec::new();
    let mut i: usize = 0;
    while i < others.len()
        invariant
            0 <= i <= others.len(),
            forall|j: int| 0 <= j < i ==> (#[trigger] others@[j]).R == my_partial_sig.R,
            scalars@ == partial_scalars(others@.take(i as int)),
        decreases others.len() - i,
    {
        if !same_bytes(&others[i].R, &my_partial_sig.R) {
            return Err(MusigError::MismatchedNonce);
        }
        scalars.push(others[i].my_partial_s);
        i = i + 1;
        assert(scalars@ =~= partial_scalars(others@.take(i as int)));
    }
    assert(others@.take(others.len() as int) =~= others@);
    Ok(aggregate_partial_signatures(my_partial_sig, scalars.as_slice()))
}

/// The field element that an encoding stands for, before reduction by the group order.
spec fn le_int_mod(s: Seq<u8>) -> int {
    (crate::curve::le_int(s) as int % vstd::arithmetic::power2::pow2(255) as int)
        % crate::curve::field_prime()
}

} // verus!
