//! Message text: literal strings, concatenation, and number formatting.
use vstd::prelude::*;
use vstd::string::*;

verus! {

/// The lower-case hexadecimal digit for `d < 16`.
pub open spec fn hex_digit(d: nat) -> char {
    if d < 10 {
        ('0' as nat + d) as char
    } else {
        ('a' as nat + (d - 10)) as char
    }
}

/// The digits of `v` in lower-case hexadecimal, most significant first,
/// without leading zeros (zero is the single digit `0`).
pub open spec fn hex_digits(v: nat) -> Seq<char>
    decreases v,
{
    if v < 16 {
        seq![hex_digit(v)]
    } else {
        hex_digits(v / 16) + seq![hex_digit(v % 16)]
    }
}

/// `v` as an alternate-form hexadecimal literal (`0x` prefix).
pub open spec fn hex_lit(v: nat) -> Seq<char> {
    seq!['0', 'x'] + hex_digits(v)
}

/// The digits of `v` in decimal, most significant first, without leading
/// zeros.
pub open spec fn dec_digits(v: nat) -> Seq<char>
    decreases v,
{
    if v < 10 {
        seq![('0' as nat + v) as char]
    } else {
        dec_digits(v / 10) + seq![('0' as nat + v % 10) as char]
    }
}

/// `prefix` followed by `v` in alternate-form hexadecimal (`{:#x}`).
///
/// Trusted: relies on `format!` printing `{:#x}` as `0x` and the
/// lower-case digits of the value without leading zeros.
#[verifier::external_body]
pub(crate) fn with_hex(prefix: &str, v: u64) -> (r: String)
    ensures
        r@ == prefix@ + hex_lit(v as nat),
{
    format!("{prefix}{v:#x}")
}

/// `prefix` followed by `v` in decimal (`{}`).
///
/// Trusted: relies on `format!` printing an unsigned integer with `{}` as
/// its decimal digits without leading zeros.
#[verifier::external_body]
pub(crate) fn with_dec(prefix: &str, v: u64) -> (r: String)
    ensures
        r@ == prefix@ + dec_digits(v as nat),
{
    format!("{prefix}{v}")
}

/// An owned copy of a string slice.
pub fn text(s: &str) -> (r: String)
    ensures
        r@ == s@,
{
    String::from_str(s)
}

/// The concatenation of two strings.
pub fn join(a: &str, b: &str) -> (r: String)
    ensures
        r@ == a@ + b@,
{
    String::from_str(a).concat(b)
}

/// The concatenation of three strings.
pub fn join3(a: &str, b: &str, c: &str) -> (r: String)
    ensures
        r@ == a@ + b@ + c@,
{
    String::from_str(a).concat(b).concat(c)
}

} // verus!
