//! Elements of the scalar field of BLS12-381, held by their canonical value.
use ark_bls12_381::Fr;
use crate::codec::{le_bytes, le_value, pow256};
use ark_ff::{BigInt, PrimeField};
use ark_serialize::{CanonicalDeserialize, CanonicalSerialize};
use vstd::prelude::*;

verus! {

/// The weight of a 64-bit limb.
pub open spec fn limb_base() -> nat {
    0x1_0000_0000_0000_0000
}

/// The number that four little-endian 64-bit limbs spell.
pub open spec fn limbs_value(l: [u64; 4]) -> nat {
    l[0] as nat + limb_base() * (l[1] as nat + limb_base() * (l[2] as nat + limb_base() * (l[3] as nat)))
}

/// The order r of the scalar field.
pub open spec fn modulus() -> nat {
    limbs_value([0xffffffff00000001u64, 0x53bda402fffe5bfeu64, 0x3339d80809a1d805u64, 0x73eda753299d7d48u64])
}

/// A scalar, stored as the canonical representative of its class modulo r.
#[derive(Clone, Copy, Debug, PartialEq, Eq)]
pub struct Scalar {
    pub limbs: [u64; 4],
}

impl Scalar {
    /// The integer in `[0, r)` that the scalar stands for.
    pub open spec fn val(self) -> nat {
        limbs_value(self.limbs)
    }

    /// The limbs hold a canonical value, below r.
    pub open spec fn wf(self) -> bool {
        self.val() < modulus()
    }

    pub fn zero() -> (r: Scalar)
        ensures
            r.wf(),
            r.val() == 0,
    {
        Scalar { limbs: [0, 0, 0, 0] }
    }

    pub fn one() -> (r: Scalar)
        ensures
            r.wf(),
            r.val() == 1,
    {
        Scalar { limbs: [1, 0, 0, 0] }
    }

    /// The scalar with value `v`.
    pub fn from_u64(v: u64) -> (r: Scalar)
        ensures
            r.wf(),
            r.val() == v as nat,
    {
        Scalar { limbs: [v, 0, 0, 0] }
    }

    pub fn is_zero(&self) -> (r: bool)
        ensures
            r == (self.val() == 0),
    {
        self.limbs[0] == 0 && self.limbs[1] == 0 && self.limbs[2] == 0 && self.limbs[3] == 0
    }

    /// The sum modulo r.
    pub fn add(&self, other: &Scalar) -> (r: Scalar)
        requires
            self.wf(),
            other.wf(),
        ensures
            r.wf(),
            r.val() == (self.val() + other.val()) % modulus(),
    {
        field_add(self, other)
    }

    /// The product modulo r.
    pub fn mul(&self, other: &Scalar) -> (r: Scalar)
        requires
            self.wf(),
            other.wf(),
        ensures
            r.wf(),
            r.val() == (self.val() * other.val()) % modulus(),
    {
        field_mul(self, other)
    }

    /// The additive inverse modulo r.
    pub fn neg(&self) -> (r: Scalar)
        requires
            self.wf(),
        ensures
            r.wf(),
            r.val() == (modulus() - self.val()) % (modulus() as int),
    {
        field_neg(self)
    }
}

/// Relies on `Add` for ark_ff's `Fp256`: addition modulo r, and
/// `PrimeField::from_bigint` / `into_bigint` for the canonical limbs.
#[verifier::external_body]
fn field_add(a: &Scalar, b: &Scalar) -> (r: Scalar)
    requires
        a.wf(),
        b.wf(),
    ensures
        r.wf(),
        r.val() == (a.val() + b.val()) % modulus(),
{
    let x = Fr::from_bigint(BigInt::new(a.limbs)).unwrap();
    let y = Fr::from_bigint(BigInt::new(b.limbs)).unwrap();
    Scalar { limbs: (x + y).into_bigint().0 }
}

/// Relies on `Mul` for ark_ff's `Fp256`: multiplication modulo r, and
/// `PrimeField::from_bigint` / `into_bigint` for the canonical limbs.
#[verifier::external_body]
fn field_mul(a: &Scalar, b: &Scalar) -> (r: Scalar)
    requires
        a.wf(),
        b.wf(),
    ensures
        r.wf(),
        r.val() == (a.val() * b.val()) % modulus(),
{
    let x = Fr::from_bigint(BigInt::new(a.limbs)).unwrap();
    let y = Fr::from_bigint(BigInt::new(b.limbs)).unwrap();
    Scalar { limbs: (x * y).into_bigint().0 }
}

/// Relies on `Neg` for ark_ff's `Fp256`: negation modulo r, and
/// `PrimeField::from_bigint` / `into_bigint` for the canonical limbs.
#[verifier::external_body]
fn field_neg(a: &Scalar) -> (r: Scalar)
    requires
        a.wf(),
    ensures
        r.wf(),
        r.val() == (modulus() - a.val()) % (modulus() as int),
{
    let x = Fr::from_bigint(BigInt::new(a.limbs)).unwrap();
    Scalar { limbs: (-x).into_bigint().0 }
}

/// Bytes in the encoding of a scalar.
pub const SCALAR_BYTES: usize = 32;

/// `b` is the encoding of a scalar: 32 bytes, least significant first, of a
/// value below r.
pub open spec fn is_scalar_encoding(b: Seq<u8>) -> bool {
    b.len() == SCALAR_BYTES && le_value(b) < modulus()
}

/// Every canonical value fits the 32 bytes of its encoding.
pub proof fn lemma_modulus_fits()
    ensures
        modulus() < pow256(SCALAR_BYTES as nat),
{
    reveal_with_fuel(pow256, 33);
}

/// Relies on ark_serialize's `CanonicalSerialize` for ark_ff's `Fp256`: the
/// canonical value in 32 bytes, least significant first.
#[verifier::external_body]
fn scalar_encode(s: &Scalar) -> (r: Vec<u8>)
    requires
        s.wf(),
    ensures
        r@ == le_bytes(s.val(), SCALAR_BYTES as nat),
{
    let mut v: Vec<u8> = Vec::new();
    Fr::from_bigint(BigInt::new(s.limbs)).unwrap().serialize_compressed(&mut v).unwrap();
    v
}

/// `b` starts with the encoding of a scalar.
pub open spec fn scalar_prefix_decodes(b: Seq<u8>) -> bool {
    b.len() >= SCALAR_BYTES && le_value(b.subrange(0, SCALAR_BYTES as int)) < modulus()
}

/// Relies on ark_serialize's `CanonicalDeserialize` for ark_ff's `Fp256`: it
/// reads 32 bytes, least significant first, and accepts a value below r.
#[verifier::external_body]
fn scalar_decode(b: &[u8]) -> (r: Option<Scalar>)
    ensures
        r is Some <==> scalar_prefix_decodes(b@),
        r matches Some(x) ==> x.wf() && x.val() == le_value(b@.subrange(0, 32)),
{
    Fr::deserialize_compressed(b).ok().map(|x| Scalar { limbs: x.into_bigint().0 })
}

impl Scalar {
    /// The canonical value in 32 bytes, least significant first.
    pub fn to_bytes(&self) -> (r: Vec<u8>)
        requires
            self.wf(),
        ensures
            r@ == le_bytes(self.val(), SCALAR_BYTES as nat),
    {
        scalar_encode(self)
    }

    /// The scalar that `b` encodes, if it encodes one.
    pub fn from_bytes(b: &[u8]) -> (r: Option<Scalar>)
        ensures
            r is Some <==> is_scalar_encoding(b@),
            r matches Some(x) ==> x.wf() && x.val() == le_value(b@),
    {
        if b.len() != SCALAR_BYTES {
            return None;
        }
        assert(b@.subrange(0, SCALAR_BYTES as int) =~= b@);
        scalar_decode(b)
    }
}

} // verus!
