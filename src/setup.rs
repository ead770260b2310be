//! Silent key derivation: Lagrange powers, key pairs and the aggregate key.
use crate::domain::{all_wf, interpolate, interpolation, is_domain_size, lagrange_evaluations, lagrange_values, values};
use crate::encryption::Ciphertext;
use crate::group::{
    g2_bytes, g2_parsed, G2_BYTES, g1_bytes, g1_parsed, G1_BYTES, g1_add, g1_gen_mul, g1_gen_times, g1_mul, g1_plus, g1_times, g2_add, g2_identity, g2_mul, g2_plus,
    g2_times, random_scalar, G1, G2,
};
use crate::kzg::{commit, commitment, UniversalParams};
use crate::codec::{le_bytes, le_value, lemma_le_round_trip, lemma_u64_round_trip, u64_decode, u64_encode};
use crate::scalar::{is_scalar_encoding, lemma_modulus_fits, modulus, Scalar, SCALAR_BYTES};
use ark_std::rand::rngs::StdRng;
use vstd::prelude::*;

verus! {

/// The values `(c * s) mod r` for each `c` of `coeffs`.
pub open spec fn scaled(coeffs: Seq<nat>, s: nat) -> Seq<nat> {
    coeffs.map_values(|c: nat| (c * s) % modulus())
}

/// The evaluations that are one at point `i` of an `n`-point domain and zero elsewhere.
pub open spec fn unit_evals(n: nat, i: nat) -> Seq<nat> {
    Seq::new(n, |k: int| if k == i { 1nat } else { 0nat })
}

/// The coefficients of the `i`-th Lagrange basis polynomial of the `n`-point domain.
pub open spec fn lagrange_basis(n: nat, i: nat) -> Seq<nat> {
    interpolation(n, unit_evals(n, i))
}

/// The commitments `g^{L_i(tau)}` to the Lagrange basis polynomials, one per
/// party, for a trapdoor `tau`.
pub struct LagrangePowers {
    pub li: Vec<G1>,
}

impl LagrangePowers {
    /// `li` holds, for each of the `n` points, the generator of G1 times the
    /// value of that point's Lagrange polynomial at `tau`.
    pub open spec fn powers_of(self, tau: nat, n: nat) -> bool {
        &&& self.li@.len() == n
        &&& forall|i: int| 0 <= i < n ==> #[trigger] self.li@[i] == g1_gen_times(lagrange_values(n, tau)[i])
    }

    /// Precomputes the Lagrange powers of the `n`-point domain for the trapdoor `tau`.
    pub fn new(tau: &Scalar, n: usize) -> (r: LagrangePowers)
        requires
            tau.wf(),
            is_domain_size(n as nat),
        ensures
            r.powers_of(tau.val(), n as nat),
    {
        let evals = lagrange_evaluations(n, tau).unwrap();
        let mut li: Vec<G1> = Vec::new();
        let mut i: usize = 0;
        while i < n
            invariant
                i <= n,
                evals@.len() == n,
                all_wf(evals@),
                values(evals@) == lagrange_values(n as nat, tau.val()),
                li@.len() == i,
                forall|k: int| 0 <= k < i ==> #[trigger] li@[k] == g1_gen_times(lagrange_values(n as nat, tau.val())[k]),
            decreases n - i,
        {
            li.push(g1_gen_mul(&evals[i]));
            proof {
                assert(evals@[i as int].wf());
                assert(values(evals@)[i as int] == evals@[i as int].val());
            }
            i = i + 1;
        }
        LagrangePowers { li }
    }
}

/// A party's secret scalar.
pub struct SecretKey {
    sk: Scalar,
}

/// A party's public key: its index in the committee, the multiple `g^sk`, and
/// the commitment `g^{sk * L_id(tau)}` to its secret times its Lagrange polynomial.
pub struct PublicKey {
    pub id: usize,
    pub bls_pk: G1,
    pub sk_li: G1,
}

impl SecretKey {
    /// The secret scalar.
    pub closed spec fn value(&self) -> nat {
        self.sk.val()
    }

    /// The secret is a canonical scalar.
    pub closed spec fn wf(&self) -> bool {
        self.sk.wf()
    }

    /// A nonzero secret key drawn from `rng`. The draw is uniform over the
    /// field; the one value it may not take, zero, is replaced by one.
    pub fn new(rng: &mut StdRng) -> (r: SecretKey)
        ensures
            r.wf(),
            r.value() != 0,
    {
        let s = random_scalar(rng);
        if s.is_zero() {
            SecretKey { sk: Scalar::one() }
        } else {
            SecretKey { sk: s }
        }
    }

    /// The secret key holding `s`.
    pub fn from_scalar(s: Scalar) -> (r: SecretKey)
        requires
            s.wf(),
        ensures
            r.wf(),
            r.value() == s.val(),
    {
        SecretKey { sk: s }
    }

    /// Sets the secret to zero, for a placeholder party that contributes nothing.
    pub fn nullify(&mut self)
        ensures
            final(self).wf(),
            final(self).value() == 0,
    {
        self.sk = Scalar::zero();
    }

    /// The public key of party `id` in a committee of `n`, committed from the
    /// universal parameters: the secret times the coefficients of the party's
    /// Lagrange polynomial, over the powers of the trapdoor in G1.
    pub fn get_pk(&self, id: usize, params: &UniversalParams, n: usize) -> (r: PublicKey)
        requires
            self.wf(),
            is_domain_size(n as nat),
            id < n,
            n <= params.powers_of_g@.len(),
        ensures
            r.id == id,
            r.bls_pk == g1_gen_times(self.value()),
            r.sk_li == commitment(
                params.powers_of_g@,
                scaled(lagrange_basis(n as nat, id as nat), self.value()),
                n as nat,
            ),
    {
        let mut unit: Vec<Scalar> = Vec::new();
        let mut k: usize = 0;
        while k < n
            invariant
                k <= n,
                id < n,
                unit@.len() == k,
                all_wf(unit@),
                forall|j: int| 0 <= j < k ==> #[trigger] unit@[j].val() == if j == id { 1nat } else { 0nat },
            decreases n - k,
        {
            if k == id {
                unit.push(Scalar::one());
            } else {
                unit.push(Scalar::zero());
            }
            k = k + 1;
        }
        assert(values(unit@) =~= unit_evals(n as nat, id as nat));
        let basis = interpolate(n, &unit).unwrap();
        let mut coeffs: Vec<Scalar> = Vec::new();
        let mut j: usize = 0;
        while j < n
            invariant
                j <= n,
                self.wf(),
                basis@.len() == n,
                all_wf(basis@),
                values(basis@) == lagrange_basis(n as nat, id as nat),
                coeffs@.len() == j,
                all_wf(coeffs@),
                forall|m: int| 0 <= m < j ==> #[trigger] coeffs@[m].val() == (basis@[m].val() * self.value()) % modulus(),
            decreases n - j,
        {
            coeffs.push(basis[j].mul(&self.sk));
            j = j + 1;
        }
        assert(values(coeffs@) =~= scaled(lagrange_basis(n as nat, id as nat), self.value())) by {
            assert forall|m: int| 0 <= m < n implies values(coeffs@)[m] == scaled(
                lagrange_basis(n as nat, id as nat),
                self.value(),
            )[m] by {
                assert(values(basis@)[m] == basis@[m].val());
            }
        }
        PublicKey { id, bls_pk: g1_gen_mul(&self.sk), sk_li: commit(&params.powers_of_g, &coeffs) }
    }

    /// The public key of party `id` in a committee of `n`, from the precomputed
    /// Lagrange powers: the party's power times the secret.
    pub fn lagrange_get_pk(&self, id: usize, lagrange_params: &LagrangePowers, n: usize) -> (r: PublicKey)
        requires
            self.wf(),
            id < n,
            lagrange_params.li@.len() == n,
        ensures
            r.id == id,
            r.bls_pk == g1_gen_times(self.value()),
            r.sk_li == g1_times(lagrange_params.li@[id as int], self.value()),
    {
        PublicKey { id, bls_pk: g1_gen_mul(&self.sk), sk_li: g1_mul(&lagrange_params.li[id], &self.sk) }
    }

    /// This party's share of the decryption of `ct`: the ciphertext's `gamma_g2`
    /// times the secret. A nullified key gives the identity.
    pub fn partial_decryption(&self, ct: &Ciphertext) -> (r: G2)
        requires
            self.wf(),
        ensures
            r == g2_times(ct.gamma_g2, self.value()),
            self.value() == 0 ==> g2_identity(r),
    {
        g2_mul(&ct.gamma_g2, &self.sk)
    }
}

impl SecretKey {
    /// The encoding of the secret: 32 bytes, least significant first.
    pub fn to_bytes(&self) -> (r: Vec<u8>)
        requires
            self.wf(),
        ensures
            r@ == le_bytes(self.value(), SCALAR_BYTES as nat),
    {
        self.sk.to_bytes()
    }

    /// The secret key that `b` encodes, if it encodes a scalar.
    pub fn from_bytes(b: &[u8]) -> (r: Option<SecretKey>)
        ensures
            r is Some <==> is_scalar_encoding(b@),
            r matches Some(k) ==> k.wf() && k.value() == le_value(b@),
    {
        match Scalar::from_bytes(b) {
            Some(s) => Some(SecretKey { sk: s }),
            None => None,
        }
    }
}

/// Decoding the encoding of a secret key accepts it and gives back the same secret.
pub proof fn lemma_secret_key_round_trip(k: SecretKey)
    requires
        k.wf(),
    ensures
        is_scalar_encoding(le_bytes(k.value(), SCALAR_BYTES as nat)),
        le_value(le_bytes(k.value(), SCALAR_BYTES as nat)) == k.value(),
{
    lemma_modulus_fits();
    lemma_le_round_trip(k.value(), SCALAR_BYTES as nat);
    assert(k.value() % crate::codec::pow256(SCALAR_BYTES as nat) == k.value()) by {
        vstd::arithmetic::div_mod::lemma_small_mod(k.value(), crate::codec::pow256(SCALAR_BYTES as nat));
    }
}

/// Bytes in the encoding of a public key: its index, then its two points.
pub const PUBLIC_KEY_BYTES: usize = 104;

/// The encoding of `pk`: its index in eight bytes, least significant first,
/// then `bls_pk` and `sk_li` compressed.
pub open spec fn public_key_bytes(pk: PublicKey) -> Seq<u8> {
    le_bytes(pk.id as nat, 8) + g1_bytes(pk.bls_pk) + g1_bytes(pk.sk_li)
}

/// `b` encodes a public key: 104 bytes, whose index fits a `usize` and whose
/// points decode.
pub open spec fn public_key_decodes(b: Seq<u8>) -> bool {
    &&& b.len() == PUBLIC_KEY_BYTES
    &&& le_value(b.subrange(0, 8)) <= usize::MAX
    &&& g1_parsed(b.subrange(8, 56)) is Some
    &&& g1_parsed(b.subrange(56, 104)) is Some
}

/// `pk` is what the public key encoding `b` decodes to.
pub open spec fn decodes_to_public_key(b: Seq<u8>, pk: PublicKey) -> bool {
    &&& pk.id as nat == le_value(b.subrange(0, 8))
    &&& g1_parsed(b.subrange(8, 56)) == Some(pk.bls_pk)
    &&& g1_parsed(b.subrange(56, 104)) == Some(pk.sk_li)
}

/// Decoding `b` accepts it, and every public key that it decodes to has the
/// encoding `b` again.
pub open spec fn public_key_round_trips(b: Seq<u8>) -> bool {
    &&& public_key_decodes(b)
    &&& forall|pk: PublicKey| #[trigger] decodes_to_public_key(b, pk) ==> public_key_bytes(pk) == b
}

impl PublicKey {
    /// The encoding, 104 bytes, which decodes to this public key again.
    pub fn to_bytes(&self) -> (r: Vec<u8>)
        ensures
            r@ == public_key_bytes(*self),
            r@.len() == PUBLIC_KEY_BYTES,
            public_key_round_trips(r@),
    {
        let mut out = u64_encode(self.id as u64);
        let mut a = self.bls_pk.to_bytes();
        let mut b = self.sk_li.to_bytes();
        let ghost id_bytes = out@;
        let ghost a_bytes = a@;
        let ghost b_bytes = b@;
        out.append(&mut a);
        out.append(&mut b);
        proof {
            lemma_u64_round_trip(self.id as nat);
            assert(out@.subrange(0, 8) =~= id_bytes);
            assert(out@.subrange(8, 56) =~= a_bytes);
            assert(out@.subrange(56, 104) =~= b_bytes);
            assert forall|pk: PublicKey| #[trigger] decodes_to_public_key(out@, pk) implies public_key_bytes(pk)
                == out@ by {
                assert(public_key_bytes(pk) =~= out@);
            }
        }
        out
    }

    /// The public key that `b` encodes: 104 bytes, whose index fits a `usize`
    /// and whose points decode.
    pub fn from_bytes(b: &[u8]) -> (r: Option<PublicKey>)
        ensures
            r is Some <==> public_key_decodes(b@),
            r matches Some(pk) ==> decodes_to_public_key(b@, pk),
    {
        if b.len() != PUBLIC_KEY_BYTES {
            return None;
        }
        let id_bytes = vstd::slice::slice_subrange(b, 0, 8);
        assert(id_bytes@.subrange(0, 8) =~= id_bytes@);
        let id = match u64_decode(id_bytes) {
            Some(x) => x,
            None => return None,
        };
        if id > usize::MAX as u64 {
            return None;
        }
        let bls_pk = match G1::from_bytes(vstd::slice::slice_subrange(b, 8, 56)) {
            Some(p) => p,
            None => return None,
        };
        let sk_li = match G1::from_bytes(vstd::slice::slice_subrange(b, 56, 104)) {
            Some(p) => p,
            None => return None,
        };
        Some(PublicKey { id: id as usize, bls_pk, sk_li })
    }
}

/// The sum of the `sk_li` commitments of the first `len` public keys, added up
/// from the front.
pub open spec fn sum_sk_li(pks: Seq<PublicKey>, len: nat) -> G1
    decreases len,
{
    if len == 0 {
        g1_gen_times(0)
    } else {
        g1_plus(sum_sk_li(pks, (len - 1) as nat), pks[len - 1].sk_li)
    }
}

/// The committee-wide key that encryption and decryption share.
pub struct AggregateKey {
    /// The public keys, in committee order.
    pub pk: Vec<PublicKey>,
    /// The sum of the parties' `sk_li` commitments.
    pub ask: G1,
    /// `h^{tau^n} - h`, the commitment in G2 to the vanishing polynomial `x^n - 1`.
    pub z_g2: G2,
}

impl AggregateKey {
    /// The aggregate key of the committee whose public keys are `pk`, in that order.
    pub fn new(pk: Vec<PublicKey>, params: &UniversalParams) -> (r: AggregateKey)
        requires
            pk@.len() < params.powers_of_h@.len(),
        ensures
            r.pk@ == pk@,
            r.ask == sum_sk_li(pk@, pk@.len()),
            r.z_g2 == g2_plus(
                params.powers_of_h@[pk@.len() as int],
                g2_times(params.powers_of_h@[0], (modulus() - 1) as nat),
            ),
    {
        let n = pk.len();
        let minus_one = Scalar::one().neg();
        proof {
            assert(modulus() > 1);
            vstd::arithmetic::div_mod::lemma_small_mod((modulus() - 1) as nat, modulus());
        }
        let h_minus1 = g2_mul(&params.powers_of_h[0], &minus_one);
        let z_g2 = g2_add(&params.powers_of_h[n], &h_minus1);
        let mut ask = g1_gen_mul(&Scalar::zero());
        let mut i: usize = 0;
        while i < n
            invariant
                i <= n == pk@.len(),
                ask == sum_sk_li(pk@, i as nat),
            decreases n - i,
        {
            ask = g1_add(&ask, &pk[i].sk_li);
            i = i + 1;
        }
        AggregateKey { pk, ask, z_g2 }
    }
}

/// The encodings of the first `len` public keys of `pks`, one after the other.
pub open spec fn public_keys_bytes(pks: Seq<PublicKey>, len: nat) -> Seq<u8>
    decreases len,
{
    if len == 0 {
        Seq::empty()
    } else {
        public_keys_bytes(pks, (len - 1) as nat) + public_key_bytes(pks[len - 1])
    }
}

/// The encoding of `ak`: the number of public keys in eight bytes, least
/// significant first, the public keys, then `ask` and `z_g2` compressed.
pub open spec fn aggregate_key_bytes(ak: AggregateKey) -> Seq<u8> {
    le_bytes(ak.pk@.len(), 8) + public_keys_bytes(ak.pk@, ak.pk@.len()) + g1_bytes(ak.ask) + g2_bytes(ak.z_g2)
}

/// Bytes in an encoded aggregate key besides its public keys.
pub const AGGREGATE_KEY_FIXED_BYTES: usize = 152;

/// Where the encoding of the `k`-th public key starts in an encoded aggregate key.
pub open spec fn public_key_at(k: int) -> int {
    8 + PUBLIC_KEY_BYTES * k
}

/// The number of public keys that the aggregate key encoding `b` announces.
pub open spec fn announced_keys(b: Seq<u8>) -> nat {
    le_value(b.subrange(0, 8))
}

/// `b` encodes an aggregate key: its length fits the number of public keys it
/// announces, and each public key and point decodes.
pub open spec fn aggregate_key_decodes(b: Seq<u8>) -> bool {
    let c = announced_keys(b);
    let end = public_key_at(c as int);
    &&& b.len() >= AGGREGATE_KEY_FIXED_BYTES
    &&& b.len() == end + 144
    &&& forall|k: int| 0 <= k < c ==> #[trigger] public_key_decodes(b.subrange(public_key_at(k), public_key_at(k + 1)))
    &&& g1_parsed(b.subrange(end, end + 48)) is Some
    &&& g2_parsed(b.subrange(end + 48, end + 144)) is Some
}

/// `ak` is what the aggregate key encoding `b` decodes to.
pub open spec fn decodes_to_aggregate_key(b: Seq<u8>, ak: AggregateKey) -> bool {
    let end = public_key_at(ak.pk@.len() as int);
    &&& ak.pk@.len() == announced_keys(b)
    &&& forall|k: int| 0 <= k < ak.pk@.len() ==>
        #[trigger] decodes_to_public_key(b.subrange(public_key_at(k), public_key_at(k + 1)), ak.pk@[k])
    &&& g1_parsed(b.subrange(end, end + 48)) == Some(ak.ask)
    &&& g2_parsed(b.subrange(end + 48, end + 144)) == Some(ak.z_g2)
}

/// Decoding `b` accepts it, and every aggregate key that it decodes to has the
/// encoding `b` again.
pub open spec fn aggregate_key_round_trips(b: Seq<u8>) -> bool {
    &&& aggregate_key_decodes(b)
    &&& forall|ak: AggregateKey| #[trigger] decodes_to_aggregate_key(b, ak) ==> aggregate_key_bytes(ak) == b
}

/// Public keys whose encodings stand one after the other in `b`, from byte 8
/// on, are what `public_keys_bytes` lays out there.
proof fn lemma_public_keys_bytes(pks: Seq<PublicKey>, b: Seq<u8>, m: nat)
    requires
        m <= pks.len(),
        public_key_at(m as int) <= b.len(),
        forall|j: int| 0 <= j < m ==> #[trigger] public_key_bytes(pks[j]) == b.subrange(public_key_at(j), public_key_at(j + 1)),
    ensures
        public_keys_bytes(pks, m) == b.subrange(8, public_key_at(m as int)),
    decreases m,
{
    if m == 0 {
        assert(b.subrange(8, 8) =~= Seq::<u8>::empty());
    } else {
        lemma_public_keys_bytes(pks, b, (m - 1) as nat);
        assert(public_key_bytes(pks[m - 1]) == b.subrange(public_key_at(m - 1), public_key_at(m as int)));
        assert(b.subrange(8, public_key_at(m as int)) =~= b.subrange(8, public_key_at(m - 1)) + b.subrange(
            public_key_at(m - 1),
            public_key_at(m as int),
        ));
    }
}

impl AggregateKey {
    /// The encoding, 152 bytes and 104 more per public key, which decodes to
    /// this aggregate key again.
    pub fn to_bytes(&self) -> (r: Vec<u8>)
        ensures
            r@ == aggregate_key_bytes(*self),
            r@.len() == AGGREGATE_KEY_FIXED_BYTES + PUBLIC_KEY_BYTES * self.pk@.len(),
            aggregate_key_round_trips(r@),
    {
        let mut out = u64_encode(self.pk.len() as u64);
        let ghost count_bytes = out@;
        let mut k: usize = 0;
        while k < self.pk.len()
            invariant
                k <= self.pk@.len(),
                out@ == le_bytes(self.pk@.len(), 8) + public_keys_bytes(self.pk@, k as nat),
                out@.len() == public_key_at(k as int),
                out@.subrange(0, 8) == count_bytes,
                count_bytes == le_bytes(self.pk@.len(), 8),
                forall|j: int| 0 <= j < k ==> #[trigger] public_key_bytes(self.pk@[j]) == out@.subrange(
                    public_key_at(j),
                    public_key_at(j + 1),
                ),
                forall|j: int| 0 <= j < k ==> public_key_round_trips(
                    #[trigger] out@.subrange(public_key_at(j), public_key_at(j + 1)),
                ),
            decreases self.pk@.len() - k,
        {
            let mut p = self.pk[k].to_bytes();
            let ghost old_out = out@;
            let ghost piece = p@;
            out.append(&mut p);
            proof {
                assert forall|j: int| 0 <= j < k implies #[trigger] out@.subrange(public_key_at(j), public_key_at(j + 1))
                    == old_out.subrange(public_key_at(j), public_key_at(j + 1)) by {
                    assert(out@.subrange(public_key_at(j), public_key_at(j + 1)) =~= old_out.subrange(
                        public_key_at(j),
                        public_key_at(j + 1),
                    ));
                }
                assert(out@.subrange(public_key_at(k as int), public_key_at(k + 1)) =~= piece);
                assert(out@.subrange(0, 8) =~= old_out.subrange(0, 8));
            }
            k = k + 1;
            assert(out@ =~= le_bytes(self.pk@.len(), 8) + public_keys_bytes(self.pk@, k as nat));
        }
        let mut a = self.ask.to_bytes();
        let mut z = self.z_g2.to_bytes();
        let ghost body = out@;
        let ghost a_bytes = a@;
        let ghost z_bytes = z@;
        out.append(&mut a);
        out.append(&mut z);
        proof {
            let b = out@;
            let n = self.pk@.len();
            let end = public_key_at(n as int);
            assert(b =~= aggregate_key_bytes(*self));
            lemma_u64_round_trip(n as nat);
            assert(b.subrange(0, 8) =~= body.subrange(0, 8));
            assert(announced_keys(b) == n);
            assert forall|j: int| 0 <= j < n implies #[trigger] b.subrange(public_key_at(j), public_key_at(j + 1))
                == body.subrange(public_key_at(j), public_key_at(j + 1)) by {
                assert(b.subrange(public_key_at(j), public_key_at(j + 1)) =~= body.subrange(
                    public_key_at(j),
                    public_key_at(j + 1),
                ));
            }
            assert(b.subrange(end, end + 48) =~= a_bytes);
            assert(b.subrange(end + 48, end + 144) =~= z_bytes);
            assert forall|j: int| 0 <= j < n implies #[trigger] public_key_decodes(
                b.subrange(public_key_at(j), public_key_at(j + 1)),
            ) by {
                assert(public_key_round_trips(body.subrange(public_key_at(j), public_key_at(j + 1))));
            }
            assert(aggregate_key_decodes(b));
            assert forall|ak: AggregateKey| #[trigger] decodes_to_aggregate_key(b, ak) implies aggregate_key_bytes(ak)
                == b by {
                assert(ak.pk@.len() == n);
                assert forall|j: int| 0 <= j < n implies #[trigger] public_key_bytes(ak.pk@[j]) == b.subrange(
                    public_key_at(j),
                    public_key_at(j + 1),
                ) by {
                    let piece = b.subrange(public_key_at(j), public_key_at(j + 1));
                    assert(decodes_to_public_key(piece, ak.pk@[j]));
                    assert(public_key_round_trips(body.subrange(public_key_at(j), public_key_at(j + 1))));
                }
                lemma_public_keys_bytes(ak.pk@, b, n);
                lemma_public_keys_bytes(self.pk@, b, n);
                assert(aggregate_key_bytes(ak) =~= b);
            }
        }
        out
    }

    /// The aggregate key that `b` encodes, if it encodes one.
    pub fn from_bytes(b: &[u8]) -> (r: Option<AggregateKey>)
        ensures
            r is Some <==> aggregate_key_decodes(b@),
            r matches Some(ak) ==> decodes_to_aggregate_key(b@, ak),
    {
        if b.len() < AGGREGATE_KEY_FIXED_BYTES {
            return None;
        }
        let count_bytes = vstd::slice::slice_subrange(b, 0, 8);
        assert(count_bytes@.subrange(0, 8) =~= count_bytes@);
        assert(count_bytes@ =~= b@.subrange(0, 8));
        let count = match u64_decode(count_bytes) {
            Some(x) => x,
            None => return None,
        };
        let body = b.len() - AGGREGATE_KEY_FIXED_BYTES;
        if body % PUBLIC_KEY_BYTES != 0 || count != (body / PUBLIC_KEY_BYTES) as u64 {
            proof {
                if aggregate_key_decodes(b@) {
                    let c = count as int;
                    assert(b@.len() == 8 + 104 * c + 144);
                    assert(body == 104 * c);
                    assert(body % 104 == 0 && body / 104 == c) by (nonlinear_arith)
                        requires
                            body == 104 * c,
                            c >= 0,
                    ;
                }
            }
            return None;
        }
        let n = body / PUBLIC_KEY_BYTES;
        assert(body == PUBLIC_KEY_BYTES * n) by (nonlinear_arith)
            requires
                body % 104 == 0,
                n == body / 104,
        ;
        let mut pk: Vec<PublicKey> = Vec::new();
        let mut k: usize = 0;
        while k < n
            invariant
                k <= n,
                n == count,
                count as nat == announced_keys(b@),
                b@.len() == 8 + PUBLIC_KEY_BYTES * n + 144,
                b@.len() <= usize::MAX,
                pk@.len() == k,
                forall|j: int| 0 <= j < k ==> #[trigger] public_key_decodes(b@.subrange(public_key_at(j), public_key_at(j + 1))),
                forall|j: int| 0 <= j < k ==>
                    #[trigger] decodes_to_public_key(b@.subrange(public_key_at(j), public_key_at(j + 1)), pk@[j]),
            decreases n - k,
        {
            assert(PUBLIC_KEY_BYTES * (k + 1) <= PUBLIC_KEY_BYTES * n) by (nonlinear_arith)
                requires
                    k < n,
            ;
            let start = 8 + PUBLIC_KEY_BYTES * k;
            let piece = vstd::slice::slice_subrange(b, start, start + PUBLIC_KEY_BYTES);
            assert(piece@ =~= b@.subrange(public_key_at(k as int), public_key_at(k + 1)));
            let p = match PublicKey::from_bytes(piece) {
                Some(p) => p,
                None => return None,
            };
            pk.push(p);
            k = k + 1;
        }
        let end = 8 + body;
        let ask = match G1::from_bytes(vstd::slice::slice_subrange(b, end, end + G1_BYTES)) {
            Some(p) => p,
            None => return None,
        };
        let z_g2 = match G2::from_bytes(vstd::slice::slice_subrange(b, end + G1_BYTES, end + G1_BYTES + G2_BYTES)) {
            Some(p) => p,
            None => return None,
        };
        Some(AggregateKey { pk, ask, z_g2 })
    }
}

} // verus!
