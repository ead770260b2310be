//! Little-endian integers, the building block of the canonical encodings.
use vstd::prelude::*;

verus! {

/// 256 to the power `k`.
pub open spec fn pow256(k: nat) -> nat
    decreases k,
{
    if k == 0 {
        1
    } else {
        256 * pow256((k - 1) as nat)
    }
}

/// The `len` low bytes of `x`, least significant first.
pub open spec fn le_bytes(x: nat, len: nat) -> Seq<u8> {
    Seq::new(len, |k: int| ((x / pow256(k as nat)) % 256) as u8)
}

/// The number that the bytes `b` spell, least significant first.
pub open spec fn le_value(b: Seq<u8>) -> nat
    decreases b.len(),
{
    if b.len() == 0 {
        0
    } else {
        le_value(b.drop_last()) + pow256((b.len() - 1) as nat) * (b.last() as nat)
    }
}

proof fn lemma_pow256_positive(k: nat)
    ensures
        pow256(k) > 0,
    decreases k,
{
    if k > 0 {
        lemma_pow256_positive((k - 1) as nat);
    }
}

/// Reading back the `len` low bytes of `x` gives `x` modulo `256^len`.
pub proof fn lemma_le_round_trip(x: nat, len: nat)
    ensures
        le_value(le_bytes(x, len)) == x % pow256(len),
    decreases len,
{
    if len == 0 {
        assert(le_bytes(x, 0) =~= Seq::<u8>::empty());
    } else {
        let p = pow256((len - 1) as nat);
        lemma_pow256_positive((len - 1) as nat);
        assert(le_bytes(x, len).drop_last() =~= le_bytes(x, (len - 1) as nat));
        lemma_le_round_trip(x, (len - 1) as nat);
        vstd::arithmetic::div_mod::lemma_mod_breakdown(x as int, p as int, 256);
        assert(p * 256 == pow256(len)) by (nonlinear_arith)
            requires
                pow256(len) == 256 * p,
        ;
    }
}

/// Reading back the eight bytes of a `u64` gives it again.
pub proof fn lemma_u64_round_trip(x: nat)
    requires
        x <= u64::MAX,
    ensures
        le_value(le_bytes(x, 8)) == x,
        le_bytes(x, 8).len() == 8,
{
    lemma_le_round_trip(x, 8);
    reveal_with_fuel(pow256, 9);
    vstd::arithmetic::div_mod::lemma_small_mod(x, pow256(8));
}

proof fn lemma_pow256_monotone(a: nat, b: nat)
    requires
        a <= b,
    ensures
        pow256(a) <= pow256(b),
    decreases b,
{
    if a < b {
        lemma_pow256_monotone(a, (b - 1) as nat);
    }
}

/// The bytes of a number, read from the front: the first byte, then 256 times
/// the rest.
proof fn lemma_le_value_first(s: Seq<u8>)
    requires
        s.len() >= 1,
    ensures
        le_value(s) == s[0] as nat + 256 * le_value(s.drop_first()),
    decreases s.len(),
{
    if s.len() == 1 {
        assert(s.drop_last() =~= Seq::<u8>::empty());
        assert(s.drop_first() =~= Seq::<u8>::empty());
        assert(pow256(0) == 1);
        assert(le_value(s) == le_value(s.drop_last()) + pow256(0) * (s.last() as nat));
    } else {
        let dl = s.drop_last();
        let df = s.drop_first();
        lemma_le_value_first(dl);
        assert(dl.drop_first() =~= df.drop_last());
        let p = pow256((s.len() - 2) as nat);
        let a = le_value(df.drop_last());
        let l = s.last() as nat;
        assert(df.last() == s.last());
        assert(dl[0] == s[0]);
        assert(le_value(df) == a + p * l);
        assert(pow256((s.len() - 1) as nat) == 256 * p);
        assert(le_value(s) == le_value(dl) + (256 * p) * l);
        assert(256 * (a + p * l) == 256 * a + (256 * p) * l) by (nonlinear_arith);
    }
}

/// The eight bytes of `x`, least significant first.
pub fn u64_encode(x: u64) -> (r: Vec<u8>)
    ensures
        r@ == le_bytes(x as nat, 8),
{
    let mut out: Vec<u8> = Vec::new();
    let mut y: u64 = x;
    let mut k: usize = 0;
    assert(pow256(0) == 1);
    assert(out@ =~= le_bytes(x as nat, 0));
    while k < 8
        invariant
            k <= 8,
            out@ == le_bytes(x as nat, k as nat),
            y as nat == x as nat / pow256(k as nat),
        decreases 8 - k,
    {
        out.push((y % 256) as u8);
        proof {
            lemma_pow256_positive(k as nat);
            vstd::arithmetic::div_mod::lemma_div_denominator(x as int, pow256(k as nat) as int, 256);
            assert(pow256((k + 1) as nat) == pow256(k as nat) * 256);
        }
        y = y / 256;
        k = k + 1;
        assert(out@ =~= le_bytes(x as nat, k as nat));
    }
    out
}

/// The number that the first eight bytes of `b` spell, least significant first.
pub fn u64_decode(b: &[u8]) -> (r: Option<u64>)
    ensures
        r is Some <==> b@.len() >= 8,
        r matches Some(x) ==> x as nat == le_value(b@.subrange(0, 8)),
{
    if b.len() < 8 {
        return None;
    }
    let ghost s = b@.subrange(0, 8);
    let mut acc: u64 = 0;
    let mut k: usize = 8;
    proof {
        assert(s.subrange(8, 8) =~= Seq::<u8>::empty());
        reveal_with_fuel(pow256, 9);
    }
    while k > 0
        invariant
            k <= 8 <= b@.len(),
            s == b@.subrange(0, 8),
            acc as nat == le_value(s.subrange(k as int, 8)),
            (acc as nat) < pow256((8 - k) as nat),
            pow256(7) == 0x100_0000_0000_0000,
        decreases k,
    {
        k = k - 1;
        proof {
            let t = s.subrange(k as int, 8);
            lemma_le_value_first(t);
            assert(t.drop_first() =~= s.subrange(k + 1, 8));
            lemma_pow256_monotone((7 - k) as nat, 7);
        }
        acc = acc * 256 + b[k] as u64;
    }
    assert(s.subrange(0, 8) =~= s);
    Some(acc)
}

} // verus!
