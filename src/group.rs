//! The two source groups of BLS12-381, its pairing, and the randomness that
//! sampling draws on.
//!
//! Group elements are opaque here: what each operation returns is named by a
//! spec function of its inputs, and the protocol's contracts are stated over
//! those names.
use crate::scalar::{modulus, Scalar};
use ark_bls12_381::{Bls12_381, Fr, G1Projective, G2Projective};
use ark_ec::pairing::{Pairing, PairingOutput};
use ark_ec::Group;
use ark_ff::{BigInt, PrimeField};
use ark_serialize::{CanonicalDeserialize, CanonicalSerialize};
use ark_std::rand::rngs::StdRng;
use ark_std::{UniformRand, Zero};
use vstd::prelude::*;

verus! {

#[verifier::external_type_specification]
#[verifier::external_body]
pub struct ExStdRng(StdRng);

/// A point of G1. The curve type of ark_ec is bound by traits of that crate,
/// so the point is held in a field that only the group operations below read.
#[verifier::external_body]
pub struct G1 {
    point: G1Projective,
}

/// A point of G2, held as `G1` is.
#[verifier::external_body]
pub struct G2 {
    point: G2Projective,
}

/// An element of the target group of the pairing, held as `G1` is.
#[verifier::external_body]
pub struct Gt {
    value: PairingOutput<Bls12_381>,
}

/// The generator of G1 multiplied by `s`.
pub uninterp spec fn g1_gen_times(s: nat) -> G1;

/// The generator of G2 multiplied by `s`.
pub uninterp spec fn g2_gen_times(s: nat) -> G2;

/// `p` multiplied by the scalar `s`, in G1.
pub uninterp spec fn g1_times(p: G1, s: nat) -> G1;

/// `p` multiplied by the scalar `s`, in G2.
pub uninterp spec fn g2_times(p: G2, s: nat) -> G2;

/// The sum of `p` and `q`, in G1.
pub uninterp spec fn g1_plus(p: G1, q: G1) -> G1;

/// The sum of `p` and `q`, in G2.
pub uninterp spec fn g2_plus(p: G2, q: G2) -> G2;

/// Whether `p` is the identity of G2.
pub uninterp spec fn g2_identity(p: G2) -> bool;

/// The pairing of `p` and `q`.
pub uninterp spec fn pairing_of(p: G1, q: G2) -> Gt;

/// `x` multiplied by the scalar `s`, in the target group.
pub uninterp spec fn gt_times(x: Gt, s: nat) -> Gt;

/// Relies on `Group::generator` and `Mul<Fr>` for ark_ec's G1 projective points.
#[verifier::external_body]
pub(crate) fn g1_gen_mul(s: &Scalar) -> (r: G1)
    requires
        s.wf(),
    ensures
        r == g1_gen_times(s.val()),
{
    G1 { point: G1Projective::generator() * Fr::from_bigint(BigInt::new(s.limbs)).unwrap() }
}

/// Relies on `Group::generator` and `Mul<Fr>` for ark_ec's G2 projective points.
#[verifier::external_body]
pub(crate) fn g2_gen_mul(s: &Scalar) -> (r: G2)
    requires
        s.wf(),
    ensures
        r == g2_gen_times(s.val()),
{
    G2 { point: G2Projective::generator() * Fr::from_bigint(BigInt::new(s.limbs)).unwrap() }
}

/// Relies on `Mul<Fr>` for ark_ec's G1 projective points.
#[verifier::external_body]
pub(crate) fn g1_mul(p: &G1, s: &Scalar) -> (r: G1)
    requires
        s.wf(),
    ensures
        r == g1_times(*p, s.val()),
{
    G1 { point: p.point * Fr::from_bigint(BigInt::new(s.limbs)).unwrap() }
}

/// Relies on `Mul<Fr>` for ark_ec's G2 projective points; a multiple by zero
/// is the identity of the group.
#[verifier::external_body]
pub(crate) fn g2_mul(p: &G2, s: &Scalar) -> (r: G2)
    requires
        s.wf(),
    ensures
        r == g2_times(*p, s.val()),
        s.val() == 0 ==> g2_identity(r),
{
    G2 { point: p.point * Fr::from_bigint(BigInt::new(s.limbs)).unwrap() }
}

/// Relies on `Add` for ark_ec's G1 projective points.
#[verifier::external_body]
pub(crate) fn g1_add(p: &G1, q: &G1) -> (r: G1)
    ensures
        r == g1_plus(*p, *q),
{
    G1 { point: p.point + q.point }
}

/// Relies on `Add` for ark_ec's G2 projective points.
#[verifier::external_body]
pub(crate) fn g2_add(p: &G2, q: &G2) -> (r: G2)
    ensures
        r == g2_plus(*p, *q),
{
    G2 { point: p.point + q.point }
}

/// Relies on `Zero::is_zero` for ark_ec's G2 projective points.
#[verifier::external_body]
fn g2_is_zero(p: &G2) -> (r: bool)
    ensures
        r == g2_identity(*p),
{
    p.point.is_zero()
}

/// Relies on `Pairing::pairing` for `Bls12_381`.
#[verifier::external_body]
pub(crate) fn pairing(p: &G1, q: &G2) -> (r: Gt)
    ensures
        r == pairing_of(*p, *q),
{
    Gt { value: Bls12_381::pairing(p.point, q.point) }
}

/// Relies on `Mul<Fr>` for ark_ec's `PairingOutput`.
#[verifier::external_body]
pub(crate) fn gt_mul(x: &Gt, s: &Scalar) -> (r: Gt)
    requires
        s.wf(),
    ensures
        r == gt_times(*x, s.val()),
{
    Gt { value: x.value * Fr::from_bigint(BigInt::new(s.limbs)).unwrap() }
}

/// Relies on `UniformRand` for ark_ff's `Fp256`: a field element drawn from
/// `rng`, which is below r.
#[verifier::external_body]
pub(crate) fn random_scalar(rng: &mut StdRng) -> (r: Scalar)
    ensures
        r.wf(),
{
    Scalar { limbs: Fr::rand(rng).into_bigint().0 }
}

/// The compressed encoding of `p`.
pub uninterp spec fn g1_bytes(p: G1) -> Seq<u8>;

/// The point that the compressed encoding at the front of `b` stands for, if
/// it is one of G1.
pub uninterp spec fn g1_parsed(b: Seq<u8>) -> Option<G1>;

/// The compressed encoding of `p`.
pub uninterp spec fn g2_bytes(p: G2) -> Seq<u8>;

/// The point that the compressed encoding at the front of `b` stands for, if
/// it is one of G2.
pub uninterp spec fn g2_parsed(b: Seq<u8>) -> Option<G2>;

/// The compressed encoding of `x`.
pub uninterp spec fn gt_bytes(x: Gt) -> Seq<u8>;

/// The element that the compressed encoding at the front of `b` stands for,
/// if it is one of the target group.
pub uninterp spec fn gt_parsed(b: Seq<u8>) -> Option<Gt>;

/// Bytes in the compressed encoding of a point of G1.
pub const G1_BYTES: usize = 48;

/// Bytes in the compressed encoding of a point of G2.
pub const G2_BYTES: usize = 96;

/// Bytes in the compressed encoding of an element of the target group.
pub const GT_BYTES: usize = 576;

/// Relies on ark_serialize's `CanonicalSerialize::serialize_compressed` for
/// G1 points of BLS12-381, which writes 48 bytes of the affine point; and on
/// `deserialize_compressed`, which reads those bytes back as the same point.
#[verifier::external_body]
fn g1_encode(p: &G1) -> (r: Vec<u8>)
    ensures
        r@ == g1_bytes(*p),
        r@.len() == G1_BYTES,
        g1_parsed(r@) matches Some(q) && g1_bytes(q) == r@,
{
    let mut v: Vec<u8> = Vec::new();
    p.point.serialize_compressed(&mut v).unwrap();
    v
}

/// Relies on ark_serialize's `CanonicalDeserialize::deserialize_compressed`
/// for G1 points of BLS12-381, which reads 48 bytes and checks the point.
#[verifier::external_body]
fn g1_decode(b: &[u8]) -> (r: Option<G1>)
    ensures
        r == g1_parsed(b@),
        b@.len() < G1_BYTES ==> r is None,
{
    G1Projective::deserialize_compressed(b).ok().map(|point| G1 { point })
}

/// Relies on ark_serialize's `CanonicalSerialize::serialize_compressed` for
/// G2 points of BLS12-381, which writes 96 bytes of the affine point; and on
/// `deserialize_compressed`, which reads those bytes back as the same point.
#[verifier::external_body]
fn g2_encode(p: &G2) -> (r: Vec<u8>)
    ensures
        r@ == g2_bytes(*p),
        r@.len() == G2_BYTES,
        g2_parsed(r@) matches Some(q) && g2_bytes(q) == r@,
{
    let mut v: Vec<u8> = Vec::new();
    p.point.serialize_compressed(&mut v).unwrap();
    v
}

/// Relies on ark_serialize's `CanonicalDeserialize::deserialize_compressed`
/// for G2 points of BLS12-381, which reads 96 bytes and checks the point.
#[verifier::external_body]
fn g2_decode(b: &[u8]) -> (r: Option<G2>)
    ensures
        r == g2_parsed(b@),
        b@.len() < G2_BYTES ==> r is None,
{
    G2Projective::deserialize_compressed(b).ok().map(|point| G2 { point })
}

/// Relies on ark_serialize's `CanonicalSerialize::serialize_compressed` for
/// `PairingOutput`, which writes the twelve base-field coordinates, 48 bytes
/// each; and on `deserialize_compressed`, which reads them back as the same
/// element, one of the subgroup of order r.
#[verifier::external_body]
fn gt_encode(x: &Gt) -> (r: Vec<u8>)
    ensures
        r@ == gt_bytes(*x),
        r@.len() == GT_BYTES,
        gt_parsed(r@) matches Some(y) && gt_bytes(y) == r@,
{
    let mut v: Vec<u8> = Vec::new();
    x.value.serialize_compressed(&mut v).unwrap();
    v
}

/// Relies on ark_serialize's `CanonicalDeserialize::deserialize_compressed`
/// for `PairingOutput`, which reads 576 bytes and checks the element.
#[verifier::external_body]
fn gt_decode(b: &[u8]) -> (r: Option<Gt>)
    ensures
        r == gt_parsed(b@),
        b@.len() < GT_BYTES ==> r is None,
{
    PairingOutput::<Bls12_381>::deserialize_compressed(b).ok().map(|value| Gt { value })
}

impl G1 {
    /// The compressed encoding, 48 bytes, which decodes to this point again.
    pub fn to_bytes(&self) -> (r: Vec<u8>)
        ensures
            r@ == g1_bytes(*self),
            r@.len() == G1_BYTES,
            g1_parsed(r@) matches Some(q) && g1_bytes(q) == r@,
    {
        g1_encode(self)
    }

    /// The point whose compressed encoding is `b`, if `b` is one.
    pub fn from_bytes(b: &[u8]) -> (r: Option<G1>)
        ensures
            b@.len() != G1_BYTES ==> r is None,
            b@.len() == G1_BYTES ==> r == g1_parsed(b@),
    {
        if b.len() != G1_BYTES {
            return None;
        }
        g1_decode(b)
    }
}

impl G2 {
    /// The compressed encoding, 96 bytes, which decodes to this point again.
    pub fn to_bytes(&self) -> (r: Vec<u8>)
        ensures
            r@ == g2_bytes(*self),
            r@.len() == G2_BYTES,
            g2_parsed(r@) matches Some(q) && g2_bytes(q) == r@,
    {
        g2_encode(self)
    }

    /// The point whose compressed encoding is `b`, if `b` is one.
    pub fn from_bytes(b: &[u8]) -> (r: Option<G2>)
        ensures
            b@.len() != G2_BYTES ==> r is None,
            b@.len() == G2_BYTES ==> r == g2_parsed(b@),
    {
        if b.len() != G2_BYTES {
            return None;
        }
        g2_decode(b)
    }

    /// Whether this is the identity of G2, as the share of a nullified party is.
    pub fn is_identity(&self) -> (r: bool)
        ensures
            r == g2_identity(*self),
    {
        g2_is_zero(self)
    }
}

impl Gt {
    /// The compressed encoding, 576 bytes, which decodes to this element again.
    pub fn to_bytes(&self) -> (r: Vec<u8>)
        ensures
            r@ == gt_bytes(*self),
            r@.len() == GT_BYTES,
            gt_parsed(r@) matches Some(q) && gt_bytes(q) == r@,
    {
        gt_encode(self)
    }

    /// The element whose compressed encoding is `b`, if `b` is one.
    pub fn from_bytes(b: &[u8]) -> (r: Option<Gt>)
        ensures
            b@.len() != GT_BYTES ==> r is None,
            b@.len() == GT_BYTES ==> r == gt_parsed(b@),
    {
        if b.len() != GT_BYTES {
            return None;
        }
        gt_decode(b)
    }
}

} // verus!
