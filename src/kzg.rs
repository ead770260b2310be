//! Universal parameters: the powers of a trapdoor in both source groups, and
//! the commitment to a polynomial that they allow.
use crate::domain::{all_wf, is_domain_size, is_pow2, values};
use crate::group::{g1_add, g1_gen_mul, g1_gen_times, g1_mul, g1_plus, g1_times, g2_gen_mul, g2_gen_times, G1, G2};
use crate::scalar::{modulus, Scalar};
use vstd::prelude::*;

verus! {

/// `tau` to the power `i`, reduced modulo r.
pub open spec fn power_mod(tau: nat, i: nat) -> nat
    decreases i,
{
    if i == 0 {
        1
    } else {
        (power_mod(tau, (i - 1) as nat) * tau) % modulus()
    }
}

/// The sum of `bases[k] * coeffs[k]` for `k < len`, added up from the front.
pub open spec fn commitment(bases: Seq<G1>, coeffs: Seq<nat>, len: nat) -> G1
    decreases len,
{
    if len == 0 {
        g1_gen_times(0)
    } else {
        g1_plus(
            commitment(bases, coeffs, (len - 1) as nat),
            g1_times(bases[len - 1], coeffs[len - 1]),
        )
    }
}

/// Powers of a trapdoor `tau`, as multiples of the generators of G1 and G2.
pub struct UniversalParams {
    pub powers_of_g: Vec<G1>,
    pub powers_of_h: Vec<G2>,
}

impl UniversalParams {
    /// `powers_of_g` holds the powers `0..n` of `tau`, and `powers_of_h` the
    /// powers `0..=n`.
    pub open spec fn powers_of(self, tau: nat, n: nat) -> bool {
        &&& self.powers_of_g@.len() == n
        &&& self.powers_of_h@.len() == n + 1
        &&& forall|i: int| 0 <= i < n ==> #[trigger] self.powers_of_g@[i] == g1_gen_times(power_mod(tau, i as nat))
        &&& forall|i: int| 0 <= i <= n ==> #[trigger] self.powers_of_h@[i] == g2_gen_times(power_mod(tau, i as nat))
    }
}

/// Why universal parameters could not be made.
#[derive(Clone, Copy, Debug, PartialEq, Eq)]
pub enum SetupError {
    /// The committee size is not a power of two for which the scalar field has roots of unity.
    UnsupportedSize,
}

/// Whether `n` is a committee size that the evaluation domain supports.
pub fn is_supported_size(n: usize) -> (r: bool)
    ensures
        r == is_domain_size(n as nat),
{
    if n == 0 {
        return false;
    }
    let mut m: usize = n;
    while m % 2 == 0
        invariant
            m >= 1,
            is_pow2(m as nat) == is_pow2(n as nat),
        decreases m,
    {
        m = m / 2;
    }
    m == 1 && n as u64 <= 0x1_0000_0000u64
}

/// The universal parameters for committees of `n` parties, from the trapdoor
/// `tau`: the powers `tau^0 .. tau^(n-1)` in G1, and in G2 also `tau^n`, which
/// the aggregate key's commitment to the vanishing polynomial needs.
pub fn setup(n: usize, tau: &Scalar) -> (r: Result<UniversalParams, SetupError>)
    requires
        tau.wf(),
    ensures
        r is Err <==> !is_domain_size(n as nat),
        r matches Ok(p) ==> p.powers_of(tau.val(), n as nat),
{
    if !is_supported_size(n) {
        return Err(SetupError::UnsupportedSize);
    }
    let mut powers_of_g: Vec<G1> = Vec::new();
    let mut powers_of_h: Vec<G2> = Vec::new();
    let mut cur = Scalar::one();
    let mut i: usize = 0;
    while i < n
        invariant
            i <= n,
            tau.wf(),
            cur.wf(),
            cur.val() == power_mod(tau.val(), i as nat),
            powers_of_g@.len() == i,
            powers_of_h@.len() == i,
            forall|k: int| 0 <= k < i ==> #[trigger] powers_of_g@[k] == g1_gen_times(power_mod(tau.val(), k as nat)),
            forall|k: int| 0 <= k < i ==> #[trigger] powers_of_h@[k] == g2_gen_times(power_mod(tau.val(), k as nat)),
        decreases n - i,
    {
        powers_of_g.push(g1_gen_mul(&cur));
        powers_of_h.push(g2_gen_mul(&cur));
        cur = cur.mul(tau);
        i = i + 1;
    }
    powers_of_h.push(g2_gen_mul(&cur));
    Ok(UniversalParams { powers_of_g, powers_of_h })
}

/// The commitment to the polynomial with coefficients `coeffs`, over the bases `powers`.
pub fn commit(powers: &Vec<G1>, coeffs: &Vec<Scalar>) -> (r: G1)
    requires
        coeffs@.len() <= powers@.len(),
        all_wf(coeffs@),
    ensures
        r == commitment(powers@, values(coeffs@), coeffs@.len()),
{
    let mut acc = g1_gen_mul(&Scalar::zero());
    let mut k: usize = 0;
    while k < coeffs.len()
        invariant
            k <= coeffs@.len() <= powers@.len(),
            all_wf(coeffs@),
            acc == commitment(powers@, values(coeffs@), k as nat),
        decreases coeffs@.len() - k,
    {
        let term = g1_mul(&powers[k], &coeffs[k]);
        acc = g1_add(&acc, &term);
        k = k + 1;
    }
    acc
}

} // verus!
