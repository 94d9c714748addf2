//! Encodings, the scalar field, and the curve and hash primitives of `curv`.
use curv::cryptographic_primitives::hashing::DigestExt;
use curv::elliptic::curves::{Ed25519, Point, Scalar};
use sha2::{Digest, Sha512};
use vstd::arithmetic::power2::pow2;
use vstd::prelude::*;

verus! {

/// The order of the Ed25519 base point.
pub open spec fn group_order() -> int {
    pow2(252) as int + 27742317777372353535851937790883648493int
}

/// The prime of the Ed25519 base field.
pub open spec fn field_prime() -> int {
    pow2(255) as int - 19
}

/// The unsigned little-endian integer held by `s`.
pub open spec fn le_int(s: Seq<u8>) -> nat
    decreases s.len(),
{
    if s.len() == 0 {
        0
    } else {
        s[0] as nat + 256 * le_int(s.drop_first())
    }
}

/// The scalar that a 32-byte encoding stands for: the top bit is ignored, the
/// rest is read as a field element and then reduced modulo the group order.
pub open spec fn scalar_of(s: Seq<u8>) -> int {
    ((le_int(s) as int % pow2(255) as int) % field_prime()) % group_order()
}

/// Whether `p` decodes to a curve point of the prime-order subgroup (or the identity).
pub uninterp spec fn point_valid(p: Seq<u8>) -> bool;

/// The encoding of the sum of two points.
pub uninterp spec fn point_sum(a: Seq<u8>, b: Seq<u8>) -> Seq<u8>;

/// The encoding of the point `p` multiplied by the scalar `k`.
pub uninterp spec fn point_times(p: Seq<u8>, k: Seq<u8>) -> Seq<u8>;

/// The encoding of the base point multiplied by the scalar `k`.
pub uninterp spec fn base_times(k: Seq<u8>) -> Seq<u8>;

/// The encoding of the scalar that SHA-512 over `data` is reduced to.
pub uninterp spec fn hash_scalar(data: Seq<u8>) -> Seq<u8>;

/// The encoding of the scalar one.
pub open spec fn one_spec() -> Seq<u8> {
    seq![1u8].add(Seq::new(31, |i: int| 0u8))
}

/// The encoding of the scalar one.
pub fn scalar_one() -> (r: [u8; 32])
    ensures
        r@ == one_spec(),
{
    let mut a = [0u8; 32];
    a[0] = 1;
    assert(a@ =~= one_spec());
    a
}

/// The encoding of the scalar zero.
pub fn scalar_zero() -> (r: [u8; 32])
    ensures
        r@ == Seq::new(32, |i: int| 0u8),
        scalar_of(r@) == 0,
{
    let a = [0u8; 32];
    assert(a@ =~= Seq::new(32, |i: int| 0u8));
    proof {
        lemma_le_int_zeros(a@);
        lemma_small_scalar(0);
    }
    a
}

pub proof fn lemma_le_int_zeros(s: Seq<u8>)
    requires
        forall|i: int| 0 <= i < s.len() ==> s[i] == 0u8,
    ensures
        le_int(s) == 0,
    decreases s.len(),
{
    if s.len() > 0 {
        lemma_le_int_zeros(s.drop_first());
    }
}

/// The scalar one encodes the value one.
pub proof fn lemma_scalar_one()
    ensures
        scalar_of(one_spec()) == 1,
{
    let s = one_spec();
    lemma_le_int_zeros(s.drop_first());
    assert(le_int(s) == 1);
    lemma_small_scalar(1);
}

/// The moduli are large.
pub proof fn lemma_moduli()
    ensures
        64 <= group_order() < field_prime() < pow2(255),
{
    vstd::arithmetic::power2::lemma2_to64();
    vstd::arithmetic::power2::lemma_pow2_strictly_increases(6, 252);
    vstd::arithmetic::power2::lemma_pow2_adds(252, 3);
    vstd::arithmetic::power2::lemma_pow2_adds(64, 64);
    vstd::arithmetic::power2::lemma_pow2_strictly_increases(128, 252);
    assert(pow2(3) == 8);
    assert(pow2(128) == 0x100000000000000000000000000000000nat);
}

/// A small encoded integer is read unchanged as a scalar.
pub proof fn lemma_small_scalar(n: nat)
    requires
        n < 64,
    ensures
        ((n as int % pow2(255) as int) % field_prime()) % group_order() == n,
{
    lemma_moduli();
    vstd::arithmetic::div_mod::lemma_small_mod(n, pow2(255));
    vstd::arithmetic::div_mod::lemma_small_mod(n, field_prime() as nat);
    vstd::arithmetic::div_mod::lemma_small_mod(n, group_order() as nat);
}

/// Relies on `curv::Point::<Ed25519>::from_bytes`: whether the bytes decode.
#[verifier::external_body]
pub(crate) fn decodes_as_point(p: &[u8; 32]) -> (r: bool)
    ensures
        r == point_valid(p@),
{
    Point::<Ed25519>::from_bytes(p).is_ok()
}

/// Relies on `curv`'s point addition (`&Point + &Point`) and `Point::to_bytes`.
#[verifier::external_body]
pub(crate) fn add_points(a: &[u8; 32], b: &[u8; 32]) -> (r: [u8; 32])
    requires
        point_valid(a@),
        point_valid(b@),
    ensures
        r@ == point_sum(a@, b@),
        point_valid(r@),
{
    let pa = Point::<Ed25519>::from_bytes(a).unwrap();
    let pb = Point::<Ed25519>::from_bytes(b).unwrap();
    let mut out = [0u8; 32];
    out.copy_from_slice(&(&pa + &pb).to_bytes(true));
    out
}

/// Relies on `curv`'s multiplication of a point by a scalar (`&Point * &Scalar`).
#[verifier::external_body]
pub(crate) fn mul_point(p: &[u8; 32], k: &[u8; 32]) -> (r: [u8; 32])
    requires
        point_valid(p@),
    ensures
        r@ == point_times(p@, k@),
        point_valid(r@),
{
    let pp = Point::<Ed25519>::from_bytes(p).unwrap();
    let kk = Scalar::<Ed25519>::from_bytes(k).unwrap();
    let mut out = [0u8; 32];
    out.copy_from_slice(&(&pp * &kk).to_bytes(true));
    out
}

/// Relies on `curv`'s multiplication of the generator by a scalar (`Point::generator() * &Scalar`).
#[verifier::external_body]
pub(crate) fn mul_base(k: &[u8; 32]) -> (r: [u8; 32])
    ensures
        r@ == base_times(k@),
        point_valid(r@),
{
    let kk = Scalar::<Ed25519>::from_bytes(k).unwrap();
    let mut out = [0u8; 32];
    out.copy_from_slice(&(Point::<Ed25519>::generator() * &kk).to_bytes(true));
    out
}

/// Relies on `curv`'s scalar addition (`&Scalar + &Scalar`), which reduces modulo the group order.
#[verifier::external_body]
pub(crate) fn add_scalars(a: &[u8; 32], b: &[u8; 32]) -> (r: [u8; 32])
    ensures
        scalar_of(r@) == (scalar_of(a@) + scalar_of(b@)) % group_order(),
{
    let sa = Scalar::<Ed25519>::from_bytes(a).unwrap();
    let sb = Scalar::<Ed25519>::from_bytes(b).unwrap();
    let mut out = [0u8; 32];
    out.copy_from_slice(&(&sa + &sb).to_bytes());
    out
}

/// Relies on `curv`'s scalar multiplication (`&Scalar * &Scalar`), which reduces modulo the group order.
#[verifier::external_body]
pub(crate) fn mul_scalars(a: &[u8; 32], b: &[u8; 32]) -> (r: [u8; 32])
    ensures
        scalar_of(r@) == (scalar_of(a@) * scalar_of(b@)) % group_order(),
{
    let sa = Scalar::<Ed25519>::from_bytes(a).unwrap();
    let sb = Scalar::<Ed25519>::from_bytes(b).unwrap();
    let mut out = [0u8; 32];
    out.copy_from_slice(&(&sa * &sb).to_bytes());
    out
}

/// Relies on SHA-512 from `sha2` and `curv`'s `DigestExt::result_scalar`, which turns the
/// digest of `data` into a scalar.
#[verifier::external_body]
pub(crate) fn hash_to_scalar(data: &Vec<u8>) -> (r: [u8; 32])
    ensures
        r@ == hash_scalar(data@),
{
    let s: Scalar<Ed25519> = Sha512::new().chain(data).result_scalar();
    let mut out = [0u8; 32];
    out.copy_from_slice(&s.to_bytes());
    out
}

} // verus!
