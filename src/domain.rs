//! The multiplicative subgroup of n-th roots of unity that the Lagrange basis
//! is built on, as ark_poly's radix-2 evaluation domain provides it.
use crate::scalar::Scalar;
use ark_bls12_381::Fr;
use ark_ff::{BigInt, PrimeField};
use ark_poly::{EvaluationDomain, Radix2EvaluationDomain};
use vstd::prelude::*;

verus! {

/// The largest domain the scalar field has roots of unity for: its two-adicity is 32.
pub open spec fn max_domain_size() -> nat {
    0x1_0000_0000
}

/// `n` is a power of two.
pub open spec fn is_pow2(n: nat) -> bool
    decreases n,
{
    if n <= 1 {
        n == 1
    } else {
        n % 2 == 0 && is_pow2(n / 2)
    }
}

/// `n` is the size of a domain: a power of two for which roots of unity exist.
pub open spec fn is_domain_size(n: nat) -> bool {
    is_pow2(n) && n <= max_domain_size()
}

/// The values of the scalars in `v`.
pub open spec fn values(v: Seq<Scalar>) -> Seq<nat> {
    v.map_values(|s: Scalar| s.val())
}

/// All scalars of `v` are canonical.
pub open spec fn all_wf(v: Seq<Scalar>) -> bool {
    forall|k: int| 0 <= k < v.len() ==> (#[trigger] v[k]).wf()
}

/// The `i`-th element of the domain for `n` points: the `i`-th power of its generator.
pub uninterp spec fn domain_point(n: nat, i: nat) -> nat;

/// The values at `tau` of the Lagrange basis polynomials of the domain for `n` points.
pub uninterp spec fn lagrange_values(n: nat, tau: nat) -> Seq<nat>;

/// The coefficients of the polynomial that takes the values `evals` on the
/// domain for `n` points.
pub uninterp spec fn interpolation(n: nat, evals: Seq<nat>) -> Seq<nat>;

/// Relies on `Radix2EvaluationDomain::new`, which exists exactly for sizes up
/// to 2^32, and `EvaluationDomain::element`, whose element 0 is one.
#[verifier::external_body]
pub(crate) fn domain_element(n: usize, i: usize) -> (r: Option<Scalar>)
    ensures
        r is Some <==> n as nat <= max_domain_size(),
        r matches Some(x) ==> x.wf() && x.val() == domain_point(n as nat, i as nat),
        r matches Some(x) ==> (i == 0 ==> x.val() == 1),
{
    Radix2EvaluationDomain::<Fr>::new(n).map(|d| Scalar { limbs: d.element(i).into_bigint().0 })
}

/// Relies on `EvaluationDomain::evaluate_all_lagrange_coefficients` of
/// ark_poly's radix-2 domain, which gives one value for each of its points.
#[verifier::external_body]
pub(crate) fn lagrange_evaluations(n: usize, tau: &Scalar) -> (r: Option<Vec<Scalar>>)
    requires
        tau.wf(),
    ensures
        r is Some <==> n as nat <= max_domain_size(),
        r matches Some(v) ==> all_wf(v@) && values(v@) == lagrange_values(n as nat, tau.val()),
        r matches Some(v) ==> (is_pow2(n as nat) ==> v@.len() == n),
{
    let t = Fr::from_bigint(BigInt::new(tau.limbs)).unwrap();
    Radix2EvaluationDomain::<Fr>::new(n).map(|d| {
        d.evaluate_all_lagrange_coefficients(t).into_iter().map(|x| Scalar { limbs: x.into_bigint().0 }).collect()
    })
}

/// Relies on `EvaluationDomain::ifft` of ark_poly's radix-2 domain, which
/// pads or cuts `evals` to the size of the domain.
#[verifier::external_body]
pub(crate) fn interpolate(n: usize, evals: &Vec<Scalar>) -> (r: Option<Vec<Scalar>>)
    requires
        all_wf(evals@),
    ensures
        r is Some <==> n as nat <= max_domain_size(),
        r matches Some(v) ==> all_wf(v@) && values(v@) == interpolation(n as nat, values(evals@)),
        r matches Some(v) ==> (is_pow2(n as nat) ==> v@.len() == n),
{
    let e: Vec<Fr> = evals.iter().map(|s| Fr::from_bigint(BigInt::new(s.limbs)).unwrap()).collect();
    Radix2EvaluationDomain::<Fr>::new(n).map(|d| {
        d.ifft(&e).into_iter().map(|x| Scalar { limbs: x.into_bigint().0 }).collect()
    })
}

} // verus!
