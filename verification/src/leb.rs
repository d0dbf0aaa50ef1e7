//! LEB128 integers as the binary format encodes them: value, length limit
//! and the rules on the last permitted byte.
use vstd::prelude::*;
use vstd::arithmetic::power2::*;
use vstd::arithmetic::mul::*;

verus! {

/// The seven payload bits of an encoded byte.
pub open spec fn digit(b: u8) -> nat {
    (b % 128) as nat
}

/// Whether the continuation bit of a byte is set.
pub open spec fn continues(b: u8) -> bool {
    b >= 0x80
}

/// The unsigned value of a sequence of LEB128 bytes: the sum of the
/// payloads, the `k`-th byte weighted by `2^(7k)`.
pub open spec fn leb_value(s: Seq<u8>) -> nat
    decreases s.len(),
{
    if s.len() == 0 {
        0
    } else {
        leb_value(s.drop_last()) + digit(s.last()) * pow2((7 * (s.len() - 1)) as nat)
    }
}

/// The signed value of a sequence of LEB128 bytes: the unsigned value,
/// minus `2^(7n)` when bit 6 of the last byte (the sign) is set.
pub open spec fn sleb_value(s: Seq<u8>) -> int {
    if s.len() > 0 && digit(s.last()) >= 64 {
        leb_value(s) - pow2((7 * s.len()) as nat)
    } else {
        leb_value(s) as int
    }
}

/// Most bytes a `bits`-bit integer may take: `ceil(bits / 7)`.
pub open spec fn max_len(bits: nat) -> nat {
    ((bits + 6) / 7) as nat
}

/// Significant bits left for the last permitted byte.
pub open spec fn top_bits(bits: nat) -> nat {
    (bits - 7 * (max_len(bits) - 1)) as nat
}

/// Unsigned: the unused high bits of the last permitted byte are zero.
pub open spec fn ulast_ok(b: u8, used: nat) -> bool {
    digit(b) < pow2(used)
}

/// Signed: the unused high bits of the last permitted byte repeat its sign bit.
pub open spec fn slast_ok(b: u8, used: nat) -> bool {
    used >= 7 || digit(b) < pow2((used - 1) as nat) || digit(b) >= 128 - pow2((used - 1) as nat)
}

/// How reading a LEB128 integer ends.
pub enum LebScan {
    /// A well-formed encoding of this many bytes.
    Done(nat),
    /// The bytes ran out before the last byte.
    Eof,
    /// The last permitted byte still has its continuation bit set.
    TooLong,
    /// The last permitted byte has unused bits that are not a zero (or sign) extension.
    TooLarge,
}

/// Reading a `bits`-bit LEB128 integer from `s`, from byte `i` on.
pub open spec fn leb_scan(s: Seq<u8>, bits: nat, signed: bool, i: nat) -> LebScan
    decreases max_len(bits) - i,
{
    if i >= s.len() {
        LebScan::Eof
    } else if i + 1 >= max_len(bits) {
        if continues(s[i as int]) {
            LebScan::TooLong
        } else if !(if signed {
            slast_ok(s[i as int], top_bits(bits))
        } else {
            ulast_ok(s[i as int], top_bits(bits))
        }) {
            LebScan::TooLarge
        } else {
            LebScan::Done(i + 1)
        }
    } else if !continues(s[i as int]) {
        LebScan::Done(i + 1)
    } else {
        leb_scan(s, bits, signed, i + 1)
    }
}

/// Why a LEB128 read failed.
#[derive(Clone, Copy, Debug, PartialEq, Eq, Structural)]
pub enum LebError {
    Eof,
    TooLong,
    TooLarge,
}

/// The error that matches a failing scan.
pub open spec fn scan_error(s: LebScan) -> LebError {
    match s {
        LebScan::Eof => LebError::Eof,
        LebScan::TooLong => LebError::TooLong,
        _ => LebError::TooLarge,
    }
}

/// The value of `n` LEB128 bytes is below `2^(7n)`.
pub proof fn lemma_leb_value_bound(s: Seq<u8>)
    ensures
        leb_value(s) < pow2((7 * s.len()) as nat),
    decreases s.len(),
{
    if s.len() == 0 {
        lemma2_to64();
    } else {
        let p = s.drop_last();
        let n = s.len();
        lemma_leb_value_bound(p);
        let big = pow2((7 * (n - 1)) as nat);
        let d = digit(s.last());
        lemma_pow2_adds((7 * (n - 1)) as nat, 7);
        lemma2_to64();
        assert((7 * (n - 1)) as nat + 7 == (7 * n) as nat);
        lemma_mul_inequality((d + 1) as int, 128, big as int);
        assert((d + 1) * big == d * big + big) by (nonlinear_arith);
    }
}

/// When the last byte's payload is below `2^u`, the value of `n` bytes is
/// below `2^(7(n-1) + u)`.
pub proof fn lemma_leb_value_top(s: Seq<u8>, u: nat)
    requires
        s.len() > 0,
        digit(s.last()) < pow2(u),
    ensures
        leb_value(s) < pow2((7 * (s.len() - 1) + u) as nat),
{
    let p = s.drop_last();
    let n = s.len();
    lemma_leb_value_bound(p);
    let big = pow2((7 * (n - 1)) as nat);
    let d = digit(s.last());
    lemma_pow2_adds((7 * (n - 1)) as nat, u);
    lemma_mul_inequality((d + 1) as int, pow2(u) as int, big as int);
    assert((d + 1) * big == d * big + big) by (nonlinear_arith);
    assert(pow2(u) * big == big * pow2(u)) by (nonlinear_arith);
}

/// A completed scan has read a prefix of `s` whose bytes all continue
/// except the last, and that is no longer than the limit.
pub proof fn lemma_scan_done(s: Seq<u8>, bits: nat, signed: bool, i: nat)
    requires
        1 <= bits,
        i < max_len(bits),
        leb_scan(s, bits, signed, i) matches LebScan::Done(_),
    ensures
        leb_scan(s, bits, signed, i) matches LebScan::Done(n) && i < n <= max_len(bits) && n
            <= s.len() && !continues(s[n - 1]) && (n == max_len(bits) ==> if signed {
            slast_ok(s[n - 1], top_bits(bits))
        } else {
            ulast_ok(s[n - 1], top_bits(bits))
        }),
    decreases max_len(bits) - i,
{
    if i + 1 < max_len(bits) && i < s.len() && continues(s[i as int]) {
        lemma_scan_done(s, bits, signed, i + 1);
    }
}

/// A failing scan that did not run out of bytes stopped at the last
/// permitted byte, which lies inside `s`.
pub proof fn lemma_scan_fail_len(s: Seq<u8>, bits: nat, signed: bool, i: nat)
    requires
        1 <= bits,
        i < max_len(bits),
        !(leb_scan(s, bits, signed, i) is Done),
        !(leb_scan(s, bits, signed, i) is Eof),
    ensures
        max_len(bits) <= s.len(),
    decreases max_len(bits) - i,
{
    if i + 1 < max_len(bits) && i < s.len() && continues(s[i as int]) {
        lemma_scan_fail_len(s, bits, signed, i + 1);
    }
}

/// A well-formed unsigned `bits`-bit LEB128 encoding denotes a value below `2^bits`.
pub proof fn lemma_uleb_fits(s: Seq<u8>, bits: nat)
    requires
        1 <= bits,
        leb_scan(s, bits, false, 0) matches LebScan::Done(_),
    ensures
        leb_scan(s, bits, false, 0) matches LebScan::Done(n) && leb_value(s.take(n as int))
            < pow2(bits),
{
    lemma_scan_done(s, bits, false, 0);
    let n = leb_scan(s, bits, false, 0)->Done_0;
    let t = s.take(n as int);
    assert(t.last() == s[n - 1]);
    if n < max_len(bits) {
        lemma_leb_value_bound(t);
        if 7 * n < bits {
            lemma_pow2_strictly_increases((7 * n) as nat, bits);
        }
    } else {
        lemma_leb_value_top(t, top_bits(bits));
        assert((7 * (n - 1) + top_bits(bits)) as nat == bits);
    }
}

/// A well-formed signed `bits`-bit LEB128 encoding denotes a value in
/// `[-2^(bits-1), 2^(bits-1))`.
pub proof fn lemma_sleb_fits(s: Seq<u8>, bits: nat)
    requires
        1 <= bits,
        leb_scan(s, bits, true, 0) matches LebScan::Done(_),
    ensures
        leb_scan(s, bits, true, 0) matches LebScan::Done(n) && -pow2((bits - 1) as nat)
            <= sleb_value(s.take(n as int)) < pow2((bits - 1) as nat),
{
    lemma_scan_done(s, bits, true, 0);
    let n = leb_scan(s, bits, true, 0)->Done_0;
    let t = s.take(n as int);
    assert(t.last() == s[n - 1]);
    let d = digit(t.last());
    let p = t.drop_last();
    let big = pow2((7 * (n - 1)) as nat);
    let h = (bits - 1) as nat;
    assert(leb_value(t) == leb_value(p) + d * big);
    lemma_leb_value_bound(p);
    lemma_pow2_adds((7 * (n - 1)) as nat, 7);
    lemma_pow2_adds((7 * (n - 1)) as nat, 6);
    lemma2_to64();
    assert((7 * (n - 1)) as nat + 7 == (7 * n) as nat);
    assert(pow2((7 * n) as nat) == 128 * big) by (nonlinear_arith)
        requires pow2((7 * n) as nat) == big * 128;
    assert(pow2(((7 * (n - 1)) + 6) as nat) == 64 * big) by (nonlinear_arith)
        requires pow2(((7 * (n - 1)) + 6) as nat) == big * 64;
    assert(0 <= leb_value(p) < big);
    if n < max_len(bits) || top_bits(bits) >= 7 {
        // The whole last byte is payload: the value spans 7n bits, of
        // which the top one is the sign.
        assert(7 * n <= bits);
        assert(((7 * (n - 1)) + 6) as nat == (7 * n - 1) as nat);
        let half = pow2((7 * n - 1) as nat);
        assert(half == 64 * big);
        if ((7 * n - 1) as nat) < h {
            lemma_pow2_strictly_increases((7 * n - 1) as nat, h);
        }
        assert(half <= pow2(h));
        if d >= 64 {
            assert(d * big >= 64 * big) by (nonlinear_arith) requires d >= 64, big >= 0;
            assert(d * big <= 127 * big) by (nonlinear_arith) requires d <= 127, big >= 0;
            assert(sleb_value(t) == leb_value(t) - 128 * big);
            assert(sleb_value(t) >= -half);
        } else {
            assert(d * big <= 63 * big) by (nonlinear_arith) requires d <= 63, big >= 0;
            assert(sleb_value(t) == leb_value(t));
            assert(sleb_value(t) < half);
        }
    } else {
        // The last byte carries u = top_bits payload bits; the rest repeat the sign.
        let u = top_bits(bits);
        assert(1 <= u < 7);
        let hu = (u - 1) as nat;
        lemma_pow2_adds((7 * (n - 1)) as nat, hu);
        assert((7 * (n - 1) + hu) as nat == h);
        lemma_pow2_strictly_increases(hu, 6);
        assert(pow2(h) == big * pow2(hu));
        assert(pow2(hu) * big == big * pow2(hu)) by (nonlinear_arith);
        assert(slast_ok(t.last(), u));
        if d < pow2(hu) {
            assert(d * big + big <= pow2(hu) * big) by (nonlinear_arith)
                requires d < pow2(hu), big >= 0;
            assert(d < 64);
            assert(sleb_value(t) == leb_value(t));
        } else {
            assert(d >= 128 - pow2(hu));
            assert(d * big >= (128 - pow2(hu)) * big) by (nonlinear_arith)
                requires d >= 128 - pow2(hu), big >= 0;
            assert((128 - pow2(hu)) * big == 128 * big - big * pow2(hu)) by (nonlinear_arith);
            assert(d * big <= 127 * big) by (nonlinear_arith) requires d <= 127, big >= 0;
            assert(sleb_value(t) == leb_value(t) - 128 * big);
        }
    }
}

/// `2^k` for `k <= 7`.
fn small_pow2(k: u32) -> (r: u8)
    requires
        k <= 7,
    ensures
        r == pow2(k as nat),
{
    proof {
        lemma2_to64();
    }
    let mut r: u8 = 1;
    let mut j: u32 = 0;
    while j < k
        invariant
            j <= k <= 7,
            r == pow2(j as nat),
        decreases k - j,
    {
        proof {
            lemma2_to64();
            lemma_pow2_unfold((j + 1) as nat);
            lemma_pow2_strictly_increases((j + 1) as nat, 8);
        }
        r = r * 2;
        j = j + 1;
    }
    r
}

/// Reads a `bits`-bit LEB128 integer from `b` at `start`, returning the
/// unsigned value of its bytes and their number.
pub fn read_leb(b: &[u8], start: usize, bits: u32, signed: bool) -> (r: Result<(u128, usize), LebError>)
    requires
        start <= b.len(),
        1 <= bits <= 64,
    ensures
        ({
            let s = b@.subrange(start as int, b@.len() as int);
            let scan = leb_scan(s, bits as nat, signed, 0);
            match r {
                Ok((v, n)) => scan == LebScan::Done(n as nat) && v == leb_value(
                    s.take(n as int),
                ) && 1 <= n <= max_len(bits as nat) && start + n <= b.len(),
                Err(e) => !(scan is Done) && e == scan_error(scan),
            }
        }),
{
    let ghost s = b@.subrange(start as int, b@.len() as int);
    let max: usize = ((bits + 6) / 7) as usize;
    let mut i: usize = 0;
    let mut acc: u128 = 0;
    let mut mult: u128 = 1;
    proof {
        lemma2_to64();
        lemma2_to64_rest();
        assert(s.take(0) =~= Seq::<u8>::empty());
    }
    loop
        invariant
            start <= b.len(),
            1 <= bits <= 64,
            s == b@.subrange(start as int, b@.len() as int),
            max == max_len(bits as nat),
            1 <= max <= 10,
            i < max,
            leb_scan(s, bits as nat, signed, 0) == leb_scan(s, bits as nat, signed, i as nat),
            i <= s.len(),
            acc == leb_value(s.take(i as int)),
            mult == pow2((7 * i) as nat),
            acc < mult,
            mult <= 0x8000_0000_0000_0000u128,
        decreases max - i,
    {
        if i >= b.len() - start {
            return Err(LebError::Eof);
        }
        let byte = b[start + i];
        assert(byte == s[i as int]);
        if i + 1 == max {
            if byte >= 0x80 {
                return Err(LebError::TooLong);
            }
            let used: u32 = bits - 7 * (max as u32 - 1);
            proof {
                assert(used == top_bits(bits as nat));
            }
            let ok = if signed {
                if used >= 7 {
                    true
                } else {
                    let half = small_pow2(used - 1);
                    (byte % 128) < half || (byte % 128) >= 128 - half
                }
            } else {
                (byte % 128) < small_pow2(used)
            };
            if !ok {
                return Err(LebError::TooLarge);
            }
        }
        let d: u128 = (byte % 128) as u128;
        assert(d * mult <= 127 * 0x8000_0000_0000_0000u128) by (nonlinear_arith)
            requires
                d <= 127,
                mult <= 0x8000_0000_0000_0000u128,
        ;
        let ghost old_acc = acc;
        acc = acc + d * mult;
        proof {
            let t = s.take(i + 1);
            assert(t.drop_last() =~= s.take(i as int));
            assert(t.last() == byte);
            assert(acc == leb_value(t));
        }
        if byte < 0x80 {
            return Ok((acc, i + 1));
        }
        proof {
            lemma2_to64();
            lemma2_to64_rest();
            lemma_pow2_adds((7 * i) as nat, 7);
            assert((7 * i) as nat + 7 == (7 * (i + 1)) as nat);
            assert(pow2((7 * (i + 1)) as nat) == mult * 128);
            lemma_leb_value_bound(s.take(i + 1));
            assert(s.take(i + 1).len() == i + 1);
            if i + 1 < 9 {
                lemma_pow2_strictly_increases((7 * (i + 1)) as nat, 63);
            }
            assert(i + 1 <= 9);
        }
        mult = mult * 128;
        i = i + 1;
    }
}

} // verus!
