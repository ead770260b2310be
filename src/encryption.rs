//! Constant-size encryption under an aggregate key.
use crate::codec::{le_bytes, le_value, lemma_u64_round_trip, u64_decode, u64_encode};
use crate::domain::{domain_element, max_domain_size};
use crate::group::{
    g1_add, g1_mul, g1_plus, g1_times, g2_add, g2_mul, g2_plus, g2_times, gt_mul, gt_times, pairing, pairing_of,
    random_scalar, g1_bytes, g1_parsed, g2_bytes, g2_parsed, gt_bytes, gt_parsed, G1, G2, Gt, G1_BYTES, G2_BYTES,
    GT_BYTES,
};
use crate::kzg::UniversalParams;
use crate::scalar::{modulus, Scalar};
use crate::setup::AggregateKey;
use ark_std::rand::rngs::StdRng;
use vstd::prelude::*;

verus! {

/// A ciphertext: its size does not depend on the committee's.
pub struct Ciphertext {
    pub gamma_g2: G2,
    pub sa1: [G1; 2],
    pub sa2: [G2; 6],
    /// The encapsulated key that a quorum recovers.
    pub enc_key: Gt,
    /// The threshold: any `t + 1` parties can decrypt.
    pub t: usize,
}

/// `ct` is the encryption for threshold `t` under `apk` and `params` with the
/// randomness `gamma` and blinding scalars `s`, where `g` and `h` are the
/// first powers of the parameters and `tau` stands for the trapdoor:
/// - `gamma_g2 = h * gamma`
/// - `sa1 = [ask * s0 + g^{tau^t} * s3 + g * s4, g * s2]`
/// - `sa2 = [h * s0 + gamma_g2 * s2, z_g2 * s0, h^tau * (s0 + s1), h * s1, h * s3,
///   (h^tau - h) * s4]`, where `h^tau - h` is `h^tau` plus `h` times minus
///   the first point of the domain, which is one
/// - `enc_key = e(g, h) * s4`.
pub open spec fn is_encryption(
    ct: Ciphertext,
    apk: AggregateKey,
    t: nat,
    params: UniversalParams,
    gamma: nat,
    s: Seq<nat>,
) -> bool {
    let g = params.powers_of_g@[0];
    let h = params.powers_of_h@[0];
    let h_tau = params.powers_of_h@[1];
    &&& s.len() == 5
    &&& ct.t == t
    &&& ct.gamma_g2 == g2_times(h, gamma)
    &&& ct.sa1[0] == g1_plus(
        g1_plus(g1_times(apk.ask, s[0]), g1_times(params.powers_of_g@[t as int], s[3])),
        g1_times(g, s[4]),
    )
    &&& ct.sa1[1] == g1_times(g, s[2])
    &&& ct.sa2[0] == g2_plus(g2_times(h, s[0]), g2_times(ct.gamma_g2, s[2]))
    &&& ct.sa2[1] == g2_times(apk.z_g2, s[0])
    &&& ct.sa2[2] == g2_times(h_tau, (s[0] + s[1]) % modulus())
    &&& ct.sa2[3] == g2_times(h, s[1])
    &&& ct.sa2[4] == g2_times(h, s[3])
    &&& ct.sa2[5] == g2_times(g2_plus(h_tau, g2_times(h, (modulus() - 1) as nat)), s[4])
    &&& ct.enc_key == gt_times(pairing_of(g, h), s[4])
}

/// What `encrypt` needs of its inputs: the threshold indexes a power of the
/// parameters, the parameters hold `h^tau`, and the committee fits a domain.
pub open spec fn can_encrypt(apk: AggregateKey, t: nat, params: UniversalParams) -> bool {
    &&& t < params.powers_of_g@.len()
    &&& 2 <= params.powers_of_h@.len()
    &&& apk.pk@.len() <= max_domain_size()
}

impl Ciphertext {
    pub fn new(gamma_g2: G2, sa1: [G1; 2], sa2: [G2; 6], enc_key: Gt, t: usize) -> (r: Ciphertext)
        ensures
            r.gamma_g2 == gamma_g2,
            r.sa1 == sa1,
            r.sa2 == sa2,
            r.enc_key == enc_key,
            r.t == t,
    {
        Ciphertext { gamma_g2, sa1, sa2, enc_key, t }
    }
}

/// Encrypts for threshold `t` under `apk`, with the randomness `gamma` and the
/// blinding scalars `s` given.
pub fn encrypt_with_randomness(
    apk: &AggregateKey,
    t: usize,
    params: &UniversalParams,
    gamma: &Scalar,
    s: &[Scalar; 5],
) -> (r: Ciphertext)
    requires
        can_encrypt(*apk, t as nat, *params),
        gamma.wf(),
        forall|k: int| 0 <= k < 5 ==> (#[trigger] s[k]).wf(),
    ensures
        is_encryption(r, *apk, t as nat, *params, gamma.val(), s@.map_values(|x: Scalar| x.val())),
{
    let g = &params.powers_of_g[0];
    let h = &params.powers_of_h[0];
    let gamma_g2 = g2_mul(h, gamma);
    let e_gh = pairing(g, h);

    // sa1[0] = ask * s0 + g^{tau^t} * s3 + g * s4
    let a = g1_mul(&apk.ask, &s[0]);
    let b = g1_mul(&params.powers_of_g[t], &s[3]);
    let c = g1_mul(g, &s[4]);
    let sa1_0 = g1_add(&g1_add(&a, &b), &c);
    // sa1[1] = g * s2
    let sa1_1 = g1_mul(g, &s[2]);

    // sa2[0] = h * s0 + gamma_g2 * s2
    let sa2_0 = g2_add(&g2_mul(h, &s[0]), &g2_mul(&gamma_g2, &s[2]));
    // sa2[1] = z_g2 * s0
    let sa2_1 = g2_mul(&apk.z_g2, &s[0]);
    // sa2[2] = h^tau * (s0 + s1)
    let sa2_2 = g2_mul(&params.powers_of_h[1], &s[0].add(&s[1]));
    // sa2[3] = h * s1
    let sa2_3 = g2_mul(h, &s[1]);
    // sa2[4] = h * s3
    let sa2_4 = g2_mul(h, &s[3]);
    // sa2[5] = (h^tau - h * omega^0) * s4
    let omega0 = domain_element(apk.pk.len(), 0).unwrap();
    let minus_omega0 = omega0.neg();
    proof {
        assert(modulus() > 1);
        vstd::arithmetic::div_mod::lemma_small_mod((modulus() - 1) as nat, modulus());
    }
    let shift = g2_add(&params.powers_of_h[1], &g2_mul(h, &minus_omega0));
    let sa2_5 = g2_mul(&shift, &s[4]);

    // enc_key = e(g, h) * s4
    let enc_key = gt_mul(&e_gh, &s[4]);

    let ct = Ciphertext {
        gamma_g2,
        sa1: [sa1_0, sa1_1],
        sa2: [sa2_0, sa2_1, sa2_2, sa2_3, sa2_4, sa2_5],
        enc_key,
        t,
    };
    ct
}

/// Encrypts for threshold `t` under `apk`, drawing `gamma` and the five
/// blinding scalars from `rng`. The result is the encryption for some choice
/// of that randomness.
pub fn encrypt(apk: &AggregateKey, t: usize, params: &UniversalParams, rng: &mut StdRng) -> (r: Ciphertext)
    requires
        can_encrypt(*apk, t as nat, *params),
    ensures
        exists|gamma: nat, s: Seq<nat>| #[trigger] is_encryption(r, *apk, t as nat, *params, gamma, s),
{
    let gamma = random_scalar(rng);
    let s0 = random_scalar(rng);
    let s1 = random_scalar(rng);
    let s2 = random_scalar(rng);
    let s3 = random_scalar(rng);
    let s4 = random_scalar(rng);
    let s = [s0, s1, s2, s3, s4];
    let ct = encrypt_with_randomness(apk, t, params, &gamma, &s);
    assert(is_encryption(ct, *apk, t as nat, *params, gamma.val(), s@.map_values(|x: Scalar| x.val())));
    ct
}

/// Bytes in the encoding of a ciphertext.
pub const CIPHERTEXT_BYTES: usize = 1352;

/// Where the encoding of `sa1[k]` starts.
pub open spec fn sa1_at(k: int) -> int {
    96 + 48 * k
}

/// Where the encoding of `sa2[k]` starts.
pub open spec fn sa2_at(k: int) -> int {
    192 + 96 * k
}

/// Where the encoding of `enc_key` starts; the threshold's eight bytes follow it.
pub open spec fn enc_key_at() -> int {
    768
}

/// The encoding of `ct`: `gamma_g2`, `sa1` and `sa2` in order, and `enc_key`,
/// all compressed, then the threshold in eight bytes, least significant first.
pub open spec fn ciphertext_bytes(ct: Ciphertext) -> Seq<u8> {
    g2_bytes(ct.gamma_g2) + g1_bytes(ct.sa1[0]) + g1_bytes(ct.sa1[1]) + g2_bytes(ct.sa2[0]) + g2_bytes(ct.sa2[1])
        + g2_bytes(ct.sa2[2]) + g2_bytes(ct.sa2[3]) + g2_bytes(ct.sa2[4]) + g2_bytes(ct.sa2[5]) + gt_bytes(ct.enc_key)
        + le_bytes(ct.t as nat, 8)
}

/// The G1 point encoded at `start` in `b`.
pub open spec fn g1_in(b: Seq<u8>, start: int) -> Option<G1> {
    g1_parsed(b.subrange(start, start + 48))
}

/// The G2 point encoded at `start` in `b`.
pub open spec fn g2_in(b: Seq<u8>, start: int) -> Option<G2> {
    g2_parsed(b.subrange(start, start + 96))
}

/// `b` has the length of a ciphertext's encoding, and each of its parts decodes.
pub open spec fn ciphertext_decodes(b: Seq<u8>) -> bool {
    &&& b.len() == CIPHERTEXT_BYTES
    &&& g2_in(b, 0) is Some
    &&& forall|k: int| 0 <= k < 2 ==> (#[trigger] g1_in(b, sa1_at(k))) is Some
    &&& forall|k: int| 0 <= k < 6 ==> (#[trigger] g2_in(b, sa2_at(k))) is Some
    &&& gt_parsed(b.subrange(enc_key_at(), enc_key_at() + 576)) is Some
    &&& le_value(b.subrange(enc_key_at() + 576, CIPHERTEXT_BYTES as int)) <= usize::MAX
}

/// `ct` is what the ciphertext encoding `b` decodes to.
pub open spec fn decodes_to_ciphertext(b: Seq<u8>, ct: Ciphertext) -> bool {
    &&& g2_in(b, 0) == Some(ct.gamma_g2)
    &&& forall|k: int| 0 <= k < 2 ==> #[trigger] g1_in(b, sa1_at(k)) == Some(ct.sa1[k])
    &&& forall|k: int| 0 <= k < 6 ==> #[trigger] g2_in(b, sa2_at(k)) == Some(ct.sa2[k])
    &&& gt_parsed(b.subrange(enc_key_at(), enc_key_at() + 576)) == Some(ct.enc_key)
    &&& ct.t as nat == le_value(b.subrange(enc_key_at() + 576, CIPHERTEXT_BYTES as int))
}

/// Decoding `b` accepts it, and every ciphertext that it decodes to has the
/// encoding `b` again.
pub open spec fn ciphertext_round_trips(b: Seq<u8>) -> bool {
    &&& ciphertext_decodes(b)
    &&& forall|ct: Ciphertext| #[trigger] decodes_to_ciphertext(b, ct) ==> ciphertext_bytes(ct) == b
}

/// The G1 point at `start` in `b`.
fn g1_from(b: &[u8], start: usize) -> (r: Option<G1>)
    requires
        start + 48 <= b@.len() <= CIPHERTEXT_BYTES,
    ensures
        r == g1_in(b@, start as int),
{
    G1::from_bytes(vstd::slice::slice_subrange(b, start, start + G1_BYTES))
}

/// The G2 point at `start` in `b`.
fn g2_from(b: &[u8], start: usize) -> (r: Option<G2>)
    requires
        start + 96 <= b@.len() <= CIPHERTEXT_BYTES,
    ensures
        r == g2_in(b@, start as int),
{
    G2::from_bytes(vstd::slice::slice_subrange(b, start, start + G2_BYTES))
}

impl Ciphertext {
    /// The encoding, 1352 bytes, which decodes to this ciphertext again.
    pub fn to_bytes(&self) -> (r: Vec<u8>)
        ensures
            r@ == ciphertext_bytes(*self),
            r@.len() == CIPHERTEXT_BYTES,
            ciphertext_round_trips(r@),
    {
        let mut out = self.gamma_g2.to_bytes();
        let mut p1 = self.sa1[0].to_bytes();
        let mut p2 = self.sa1[1].to_bytes();
        let mut q0 = self.sa2[0].to_bytes();
        let mut q1 = self.sa2[1].to_bytes();
        let mut q2 = self.sa2[2].to_bytes();
        let mut q3 = self.sa2[3].to_bytes();
        let mut q4 = self.sa2[4].to_bytes();
        let mut q5 = self.sa2[5].to_bytes();
        let mut e = self.enc_key.to_bytes();
        let mut t = u64_encode(self.t as u64);
        let ghost pieces = seq![out@, p1@, p2@, q0@, q1@, q2@, q3@, q4@, q5@, e@, t@];
        out.append(&mut p1);
        out.append(&mut p2);
        out.append(&mut q0);
        out.append(&mut q1);
        out.append(&mut q2);
        out.append(&mut q3);
        out.append(&mut q4);
        out.append(&mut q5);
        out.append(&mut e);
        out.append(&mut t);
        proof {
            let b = out@;
            lemma_u64_round_trip(self.t as nat);
            assert(b =~= ciphertext_bytes(*self));
            assert(b.subrange(0, 96) =~= pieces[0]);
            assert(b.subrange(sa1_at(0), sa1_at(0) + 48) =~= pieces[1]);
            assert(b.subrange(sa1_at(1), sa1_at(1) + 48) =~= pieces[2]);
            assert(b.subrange(sa2_at(0), sa2_at(0) + 96) =~= pieces[3]);
            assert(b.subrange(sa2_at(1), sa2_at(1) + 96) =~= pieces[4]);
            assert(b.subrange(sa2_at(2), sa2_at(2) + 96) =~= pieces[5]);
            assert(b.subrange(sa2_at(3), sa2_at(3) + 96) =~= pieces[6]);
            assert(b.subrange(sa2_at(4), sa2_at(4) + 96) =~= pieces[7]);
            assert(b.subrange(sa2_at(5), sa2_at(5) + 96) =~= pieces[8]);
            assert(b.subrange(enc_key_at(), enc_key_at() + 576) =~= pieces[9]);
            assert(b.subrange(enc_key_at() + 576, CIPHERTEXT_BYTES as int) =~= pieces[10]);
            assert(ciphertext_decodes(b));
            assert forall|c: Ciphertext| #[trigger] decodes_to_ciphertext(b, c) implies ciphertext_bytes(c) == b by {
                assert(g1_in(b, sa1_at(0)) == Some(c.sa1[0]));
                assert(g1_in(b, sa1_at(1)) == Some(c.sa1[1]));
                assert(g2_in(b, sa2_at(0)) == Some(c.sa2[0]));
                assert(g2_in(b, sa2_at(1)) == Some(c.sa2[1]));
                assert(g2_in(b, sa2_at(2)) == Some(c.sa2[2]));
                assert(g2_in(b, sa2_at(3)) == Some(c.sa2[3]));
                assert(g2_in(b, sa2_at(4)) == Some(c.sa2[4]));
                assert(g2_in(b, sa2_at(5)) == Some(c.sa2[5]));
                assert(ciphertext_bytes(c) =~= b);
            }
        }
        out
    }

    /// The ciphertext that `b` encodes, if it encodes one.
    pub fn from_bytes(b: &[u8]) -> (r: Option<Ciphertext>)
        ensures
            r is Some <==> ciphertext_decodes(b@),
            r matches Some(ct) ==> decodes_to_ciphertext(b@, ct),
    {
        if b.len() != CIPHERTEXT_BYTES {
            return None;
        }
        assert(sa1_at(0) == 96 && sa1_at(1) == 144);
        assert(sa2_at(0) == 192 && sa2_at(1) == 288 && sa2_at(2) == 384 && sa2_at(3) == 480 && sa2_at(4) == 576
            && sa2_at(5) == 672);
        let gamma_g2 = match g2_from(b, 0) {
            Some(p) => p,
            None => return None,
        };
        let sa1_0 = match g1_from(b, 96) {
            Some(p) => p,
            None => return None,
        };
        let sa1_1 = match g1_from(b, 144) {
            Some(p) => p,
            None => return None,
        };
        let sa2_0 = match g2_from(b, 192) {
            Some(p) => p,
            None => return None,
        };
        let sa2_1 = match g2_from(b, 288) {
            Some(p) => p,
            None => return None,
        };
        let sa2_2 = match g2_from(b, 384) {
            Some(p) => p,
            None => return None,
        };
        let sa2_3 = match g2_from(b, 480) {
            Some(p) => p,
            None => return None,
        };
        let sa2_4 = match g2_from(b, 576) {
            Some(p) => p,
            None => return None,
        };
        let sa2_5 = match g2_from(b, 672) {
            Some(p) => p,
            None => return None,
        };
        let enc_key = match Gt::from_bytes(vstd::slice::slice_subrange(b, 768, 768 + GT_BYTES)) {
            Some(x) => x,
            None => return None,
        };
        let t_bytes = vstd::slice::slice_subrange(b, 1344, CIPHERTEXT_BYTES);
        assert(t_bytes@.subrange(0, 8) =~= t_bytes@);
        let t = match u64_decode(t_bytes) {
            Some(x) => x,
            None => return None,
        };
        if t > usize::MAX as u64 {
            return None;
        }
        let ct = Ciphertext {
            gamma_g2,
            sa1: [sa1_0, sa1_1],
            sa2: [sa2_0, sa2_1, sa2_2, sa2_3, sa2_4, sa2_5],
            enc_key,
            t: t as usize,
        };
        Some(ct)
    }
}

} // verus!
