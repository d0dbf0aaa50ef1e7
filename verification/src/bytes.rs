//! Little-endian byte sequences as integers.
use vstd::prelude::*;
use vstd::arithmetic::power2::*;
use vstd::arithmetic::mul::*;

verus! {

/// The little-endian value of a byte sequence: byte `k` weighted by `2^(8k)`.
pub open spec fn le_value(s: Seq<u8>) -> nat
    decreases s.len(),
{
    if s.len() == 0 {
        0
    } else {
        le_value(s.drop_last()) + (s.last() as nat) * pow2((8 * (s.len() - 1)) as nat)
    }
}

/// The little-endian value of `n` bytes is below `2^(8n)`.
pub proof fn lemma_le_value_bound(s: Seq<u8>)
    ensures
        le_value(s) < pow2((8 * s.len()) as nat),
    decreases s.len(),
{
    lemma2_to64();
    if s.len() > 0 {
        let n = s.len();
        lemma_le_value_bound(s.drop_last());
        let big = pow2((8 * (n - 1)) as nat);
        let d = s.last() as int;
        lemma_pow2_adds((8 * (n - 1)) as nat, 8);
        assert((8 * (n - 1)) as nat + 8 == (8 * n) as nat);
        lemma_mul_inequality(d + 1, 256, big as int);
        assert((d + 1) * big == d * big + big) by (nonlinear_arith);
    }
}

/// The little-endian value of at most 16 bytes.
pub fn le_bytes(s: &[u8]) -> (r: u128)
    requires
        s.len() <= 16,
    ensures
        r == le_value(s@),
        r < pow2((8 * s.len()) as nat),
{
    let mut acc: u128 = 0;
    let mut mult: u128 = 1;
    let mut i: usize = 0;
    proof {
        lemma2_to64();
        assert(s@.take(0) =~= Seq::<u8>::empty());
    }
    while i < s.len()
        invariant
            s.len() <= 16,
            i <= s.len(),
            acc == le_value(s@.take(i as int)),
            i < s.len() ==> mult == pow2((8 * i) as nat) && acc < mult && mult
                <= 0x0100_0000_0000_0000_0000_0000_0000_0000u128,
        decreases s.len() - i,
    {
        let d = s[i] as u128;
        assert(d * mult + acc < 256 * mult) by (nonlinear_arith)
            requires
                d <= 255,
                acc < mult,
        ;
        proof {
            let t = s@.take(i + 1);
            assert(t.drop_last() =~= s@.take(i as int));
            assert(t.last() == s[i as int]);
            lemma2_to64();
            lemma2_to64_rest();
            lemma_pow2_adds((8 * i) as nat, 8);
            assert((8 * i) as nat + 8 == (8 * (i + 1)) as nat);
            lemma_le_value_bound(t);
            assert(t.len() == i + 1);
            if i + 1 < 16 {
                if i + 1 < 15 {
                    lemma_pow2_strictly_increases((8 * (i + 1)) as nat, 120);
                }
                lemma_pow2_adds(64, 56);
                assert(pow2(120) == 0x1_0000_0000_0000_0000u128 * 0x100_0000_0000_0000u128);
            }
        }
        acc = acc + d * mult;
        i = i + 1;
        if i < s.len() {
            mult = mult * 256;
        }
    }
    proof {
        lemma_le_value_bound(s@);
    }
    assert(s@.take(s.len() as int) =~= s@);
    acc
}

/// A fresh vector holding the given bytes.
pub fn copy_bytes(a: &[u8]) -> (r: Vec<u8>)
    ensures
        r@ == a@,
{
    let mut out: Vec<u8> = Vec::new();
    let mut i: usize = 0;
    while i < a.len()
        invariant
            i <= a.len(),
            out@ == a@.take(i as int),
        decreases a.len() - i,
    {
        out.push(a[i]);
        i = i + 1;
        assert(out@ =~= a@.take(i as int));
    }
    assert(a@.take(a.len() as int) =~= a@);
    out
}


/// The `w` little-endian bytes of `v` (bits beyond `8w` are dropped).
pub open spec fn le_seq(v: nat, w: nat) -> Seq<u8> {
    Seq::new(w, |k: int| ((v / pow2((8 * k) as nat)) % 256) as u8)
}

/// Reading back the little-endian bytes of `v` gives `v` modulo `2^(8w)`.
pub proof fn lemma_le_roundtrip(v: nat, w: nat)
    ensures
        le_value(le_seq(v, w)) == v % pow2((8 * w) as nat),
    decreases w,
{
    let s = le_seq(v, w);
    if w == 0 {
        lemma2_to64();
        assert(v % 1 == 0);
    } else {
        let b = pow2((8 * (w - 1)) as nat);
        assert(s.drop_last() =~= le_seq(v, (w - 1) as nat));
        lemma_le_roundtrip(v, (w - 1) as nat);
        lemma_pow2_pos((8 * (w - 1)) as nat);
        lemma_pow2_adds((8 * (w - 1)) as nat, 8);
        lemma2_to64();
        assert((8 * (w - 1)) as nat + 8 == (8 * w) as nat);
        assert(pow2((8 * w) as nat) == b * 256);
        vstd::arithmetic::div_mod::lemma_mod_breakdown(v as int, b as int, 256);
        assert(s.last() == ((v / b) % 256) as u8);
        vstd::arithmetic::mul::lemma_mul_is_commutative(b as int, ((v / b) % 256) as int);
    }
}

/// `data` with the bytes `b` written at `at`.
pub open spec fn written(data: Seq<u8>, at: int, b: Seq<u8>) -> Seq<u8> {
    data.take(at) + b + data.skip(at + b.len())
}

/// Writing bytes and reading the same range back gives those bytes.
pub proof fn lemma_written_read(data: Seq<u8>, at: int, b: Seq<u8>)
    requires
        0 <= at,
        at + b.len() <= data.len(),
    ensures
        written(data, at, b).len() == data.len(),
        written(data, at, b).subrange(at, at + b.len()) == b,
        forall|i: int| 0 <= i < data.len() && !(at <= i < at + b.len()) ==> #[trigger] written(data, at, b)[i] == data[i],
{
    assert(written(data, at, b).subrange(at, at + b.len()) =~= b);
}

/// The little-endian value of `w` bytes of `data` at `at`.
pub fn read_le(data: &Vec<u8>, at: usize, w: usize) -> (r: u128)
    requires
        w <= 16,
        at + w <= data@.len(),
    ensures
        r == le_value(data@.subrange(at as int, at + w)),
{
    let mut tmp: Vec<u8> = Vec::new();
    let mut k: usize = 0;
    let n = data.len();
    while k < w
        invariant
            k <= w,
            n == data@.len(),
            at + w <= data@.len(),
            tmp@ == data@.subrange(at as int, at + k),
        decreases w - k,
    {
        tmp.push(data[at + k]);
        k = k + 1;
        assert(tmp@ =~= data@.subrange(at as int, at + k));
    }
    le_bytes(tmp.as_slice())
}

/// Writes the `w` little-endian bytes of `v` into `data` at `at`.
pub fn write_le(data: &mut Vec<u8>, at: usize, v: u128, w: usize)
    requires
        w <= 16,
        at + w <= old(data)@.len(),
    ensures
        final(data)@ == written(old(data)@, at as int, le_seq(v as nat, w as nat)),
{
    let ghost orig = data@;
    let mut cur: u128 = v;
    let mut k: usize = 0;
    let n = data.len();
    proof {
        lemma2_to64();
        assert(v as nat / 1 == v as nat);
    }
    while k < w
        invariant
            k <= w,
            n == orig.len(),
            at + w <= orig.len(),
            data@.len() == orig.len(),
            cur == v as nat / pow2((8 * k) as nat),
            forall|i: int| 0 <= i < orig.len() && !(at <= i < at + k) ==> #[trigger] data@[i] == orig[i],
            forall|i: int| 0 <= i < k ==> #[trigger] data@[at + i] == le_seq(v as nat, w as nat)[i],
        decreases w - k,
    {
        let byte = (cur % 256) as u8;
        data.set(at + k, byte);
        proof {
            lemma_pow2_pos((8 * k) as nat);
            vstd::arithmetic::div_mod::lemma_div_denominator(v as int, pow2((8 * k) as nat) as int, 256);
            lemma_pow2_adds((8 * k) as nat, 8);
            assert((8 * k) as nat + 8 == (8 * (k + 1)) as nat);
            lemma2_to64();
        }
        cur = cur / 256;
        k = k + 1;
    }
    let ghost target = written(orig, at as int, le_seq(v as nat, w as nat));
    assert forall|i: int| 0 <= i < orig.len() implies #[trigger] data@[i] == target[i] by {
        if at <= i < at + w {
            assert(data@[at + (i - at)] == le_seq(v as nat, w as nat)[i - at]);
        }
    }
    assert(data@ =~= target);
}


/// Byte `k` of a little-endian value is recovered by shifting and masking.
pub proof fn lemma_le_byte(s: Seq<u8>, k: int)
    requires
        0 <= k < s.len(),
    ensures
        (le_value(s) / pow2((8 * k) as nat)) % 256 == s[k] as nat,
    decreases s.len(),
{
    let n = s.len();
    let t = s.drop_last();
    let l = le_value(t);
    let d = s.last() as nat;
    let p = pow2((8 * (n - 1)) as nat);
    lemma_le_value_bound(t);
    lemma_pow2_pos((8 * (n - 1)) as nat);
    lemma_pow2_pos((8 * k) as nat);
    lemma2_to64();
    if k == n - 1 {
        vstd::arithmetic::div_mod::lemma_fundamental_div_mod_converse_div(le_value(s) as int, p as int, d as int, l as int);
    } else {
        let q = pow2((8 * k) as nat);
        let r = pow2((8 * (n - 1 - k)) as nat);
        let r2 = pow2((8 * (n - 2 - k)) as nat);
        lemma_pow2_adds((8 * k) as nat, (8 * (n - 1 - k)) as nat);
        assert((8 * k) as nat + (8 * (n - 1 - k)) as nat == (8 * (n - 1)) as nat);
        assert(p == q * r);
        lemma_pow2_adds(8, (8 * (n - 2 - k)) as nat);
        assert(8 + (8 * (n - 2 - k)) as nat == (8 * (n - 1 - k)) as nat);
        assert(r == 256 * r2);
        vstd::arithmetic::div_mod::lemma_fundamental_div_mod(l as int, q as int);
        assert(d * p == (d * r) * q) by (nonlinear_arith)
            requires p == q * r;
        assert(le_value(s) == (l / q + d * r) * q + l % q) by (nonlinear_arith)
            requires le_value(s) == l + d * p, d * p == (d * r) * q, l == q * (l / q) + l % q;
        vstd::arithmetic::div_mod::lemma_mod_pos_bound(l as int, q as int);
        vstd::arithmetic::div_mod::lemma_fundamental_div_mod_converse_div(le_value(s) as int, q as int, (l / q + d * r) as int, (l % q) as int);
        assert(d * r == 256 * (d * r2)) by (nonlinear_arith)
            requires r == 256 * r2;
        vstd::arithmetic::div_mod::lemma_mod_multiples_vanish((d * r2) as int, (l / q) as int, 256);
        lemma_le_byte(t, k);
    }
}

/// The little-endian bytes of the value of a byte sequence are that sequence.
pub proof fn lemma_le_seq_value(s: Seq<u8>)
    ensures
        le_seq(le_value(s), s.len()) == s,
{
    assert forall|k: int| 0 <= k < s.len() implies #[trigger] le_seq(le_value(s), s.len())[k] == s[k] by {
        lemma_le_byte(s, k);
    }
    assert(le_seq(le_value(s), s.len()) =~= s);
}

} // verus!
