//! Arithmetic on the language's numbers.
//!
//! The language's numeric values are IEEE 754 double-precision numbers,
//! carried everywhere as their 64-bit patterns. Every operation on them is
//! done in software by `rustc_apfloat` (and, for square roots,
//! `ieee-apsqrt`), which implement the IEEE 754 operations on raw bit
//! patterns, with the same rounding that Rust's native double operations
//! use. Each operation's result is named by an uninterpreted spec function
//! of the operand bits: IEEE 754 arithmetic is a pure function of the
//! operand bit patterns, so the names let contracts relate results across
//! calls while the numeric behaviour itself stays with the outside crate.

use vstd::prelude::*;

use rustc_apfloat::Float;

verus! {

/// Bit pattern of the IEEE 754 sum of two doubles given by bit pattern.
pub uninterp spec fn add_bits(a: u64, b: u64) -> u64;

/// Bit pattern of the IEEE 754 difference of two doubles.
pub uninterp spec fn sub_bits(a: u64, b: u64) -> u64;

/// Bit pattern of the IEEE 754 product of two doubles.
pub uninterp spec fn mul_bits(a: u64, b: u64) -> u64;

/// Bit pattern of the IEEE 754 quotient of two doubles.
pub uninterp spec fn div_bits(a: u64, b: u64) -> u64;

/// Bit pattern of the remainder (C `fmod`) of two doubles.
pub uninterp spec fn rem_bits(a: u64, b: u64) -> u64;

/// Bit pattern of a double with its sign flipped: the sign bit toggled.
pub open spec fn neg_bits(a: u64) -> u64 {
    a ^ 0x8000_0000_0000_0000
}

/// Bit pattern of the absolute value of a double: the sign bit cleared.
pub open spec fn abs_bits(a: u64) -> u64 {
    a & 0x7FFF_FFFF_FFFF_FFFF
}

/// Bit pattern of the correctly rounded square root of a double.
pub uninterp spec fn sqrt_bits(a: u64) -> u64;

/// Bit pattern of a double rounded to the nearest integer, ties away
/// from zero.
pub uninterp spec fn round_bits(a: u64) -> u64;

/// Whether the first double compares IEEE-less than the second.
pub uninterp spec fn lt_bits(a: u64, b: u64) -> bool;

/// Whether the first double compares IEEE-less-or-equal to the second.
pub uninterp spec fn le_bits(a: u64, b: u64) -> bool;

/// Whether the first double compares IEEE-greater than the second.
pub uninterp spec fn gt_bits(a: u64, b: u64) -> bool;

/// Whether the first double compares IEEE-greater-or-equal to the second.
pub uninterp spec fn ge_bits(a: u64, b: u64) -> bool;

/// The double given by bit pattern, truncated toward zero and clamped to
/// `usize` range (0 for NaN).
pub uninterp spec fn trunc_bits(a: u64) -> usize;

/// Bit pattern of the double nearest to the given integer.
pub uninterp spec fn bits_of_usize(n: usize) -> u64;

/// The double that a decimal numeral denotes, by bit pattern, or `None`
/// where the text is not a valid numeral.
pub uninterp spec fn parsed_bits(s: Seq<char>) -> Option<u64>;

/// Decimal rendering of the double given by bit pattern.
pub uninterp spec fn display_bits(a: u64) -> Seq<char>;

/// Relies on rustc_apfloat's `Double::add_r` with round-to-nearest-even:
/// the IEEE 754 sum, as Rust's native `+` on doubles computes it.
#[verifier::external_body]
pub fn num_add(a: u64, b: u64) -> (r: u64)
    ensures
        r == add_bits(a, b),
{
    let x = rustc_apfloat::ieee::Double::from_bits(a as u128);
    let y = rustc_apfloat::ieee::Double::from_bits(b as u128);
    x.add_r(y, rustc_apfloat::Round::NearestTiesToEven).value.to_bits() as u64
}

/// Relies on rustc_apfloat's `Double::sub_r` with round-to-nearest-even:
/// the IEEE 754 difference, as Rust's native `-` on doubles computes it.
#[verifier::external_body]
pub fn num_sub(a: u64, b: u64) -> (r: u64)
    ensures
        r == sub_bits(a, b),
{
    let x = rustc_apfloat::ieee::Double::from_bits(a as u128);
    let y = rustc_apfloat::ieee::Double::from_bits(b as u128);
    x.sub_r(y, rustc_apfloat::Round::NearestTiesToEven).value.to_bits() as u64
}

/// Relies on rustc_apfloat's `Double::mul_r` with round-to-nearest-even:
/// the IEEE 754 product, as Rust's native `*` on doubles computes it.
#[verifier::external_body]
pub fn num_mul(a: u64, b: u64) -> (r: u64)
    ensures
        r == mul_bits(a, b),
{
    let x = rustc_apfloat::ieee::Double::from_bits(a as u128);
    let y = rustc_apfloat::ieee::Double::from_bits(b as u128);
    x.mul_r(y, rustc_apfloat::Round::NearestTiesToEven).value.to_bits() as u64
}

/// Relies on rustc_apfloat's `Double::div_r` with round-to-nearest-even:
/// the IEEE 754 quotient, as Rust's native `/` on doubles computes it.
#[verifier::external_body]
pub fn num_div(a: u64, b: u64) -> (r: u64)
    ensures
        r == div_bits(a, b),
{
    let x = rustc_apfloat::ieee::Double::from_bits(a as u128);
    let y = rustc_apfloat::ieee::Double::from_bits(b as u128);
    x.div_r(y, rustc_apfloat::Round::NearestTiesToEven).value.to_bits() as u64
}

/// Relies on rustc_apfloat's `Double::c_fmod`: the C `fmod` remainder,
/// as Rust's native `%` on doubles computes it.
#[verifier::external_body]
pub fn num_rem(a: u64, b: u64) -> (r: u64)
    ensures
        r == rem_bits(a, b),
{
    let x = rustc_apfloat::ieee::Double::from_bits(a as u128);
    let y = rustc_apfloat::ieee::Double::from_bits(b as u128);
    x.c_fmod(y).value.to_bits() as u64
}

/// Flips a double's sign bit, all IEEE 754 negation is.
pub fn num_neg(a: u64) -> (r: u64)
    ensures
        r == neg_bits(a),
{
    a ^ 0x8000_0000_0000_0000
}

/// Clears a double's sign bit, all IEEE 754 absolute value is.
pub fn num_abs(a: u64) -> (r: u64)
    ensures
        r == abs_bits(a),
{
    a & 0x7FFF_FFFF_FFFF_FFFF
}

/// Relies on ieee-apsqrt's `sqrt_accurate` with round-to-nearest-even:
/// the correctly rounded IEEE 754 square root of the double.
#[verifier::external_body]
pub fn num_sqrt(a: u64) -> (r: u64)
    ensures
        r == sqrt_bits(a),
{
    ieee_apsqrt::sqrt_accurate(a, rustc_apfloat::Round::NearestTiesToEven).0.value
}

/// Relies on rustc_apfloat's `Double::round_to_integral` with ties rounded
/// away from zero, the rounding Rust's native `round` on doubles uses.
#[verifier::external_body]
pub fn num_round(a: u64) -> (r: u64)
    ensures
        r == round_bits(a),
{
    let x = rustc_apfloat::ieee::Double::from_bits(a as u128);
    x.round_to_integral(rustc_apfloat::Round::NearestTiesToAway).value.to_bits() as u64
}

/// Relies on rustc_apfloat's `PartialOrd` impl for `Double`, which orders
/// by IEEE 754 comparison, NaN unordered.
#[verifier::external_body]
pub fn num_lt(a: u64, b: u64) -> (r: bool)
    ensures
        r == lt_bits(a, b),
{
    let x = rustc_apfloat::ieee::Double::from_bits(a as u128);
    let y = rustc_apfloat::ieee::Double::from_bits(b as u128);
    x < y
}

/// Relies on rustc_apfloat's `PartialOrd` impl for `Double`, which orders
/// by IEEE 754 comparison, NaN unordered.
#[verifier::external_body]
pub fn num_le(a: u64, b: u64) -> (r: bool)
    ensures
        r == le_bits(a, b),
{
    let x = rustc_apfloat::ieee::Double::from_bits(a as u128);
    let y = rustc_apfloat::ieee::Double::from_bits(b as u128);
    x <= y
}

/// Relies on rustc_apfloat's `PartialOrd` impl for `Double`, which orders
/// by IEEE 754 comparison, NaN unordered.
#[verifier::external_body]
pub fn num_gt(a: u64, b: u64) -> (r: bool)
    ensures
        r == gt_bits(a, b),
{
    let x = rustc_apfloat::ieee::Double::from_bits(a as u128);
    let y = rustc_apfloat::ieee::Double::from_bits(b as u128);
    x > y
}

/// Relies on rustc_apfloat's `PartialOrd` impl for `Double`, which orders
/// by IEEE 754 comparison, NaN unordered.
#[verifier::external_body]
pub fn num_ge(a: u64, b: u64) -> (r: bool)
    ensures
        r == ge_bits(a, b),
{
    let x = rustc_apfloat::ieee::Double::from_bits(a as u128);
    let y = rustc_apfloat::ieee::Double::from_bits(b as u128);
    x >= y
}

/// Relies on rustc_apfloat's `Double::to_u128_r` truncating toward zero,
/// which returns 0 for NaN and clamps out-of-range values to the integer
/// range, as Rust's native `as usize` on doubles does.
#[verifier::external_body]
pub fn num_to_usize(a: u64) -> (r: usize)
    ensures
        r == trunc_bits(a),
{
    let x = rustc_apfloat::ieee::Double::from_bits(a as u128);
    let wide = x.to_u128_r(usize::BITS as usize, rustc_apfloat::Round::TowardZero, &mut false);
    wide.value as usize
}

/// Relies on rustc_apfloat's `Double::from_u128_r` with round-to-nearest-
/// even, the rounding Rust's native `as f64` on integers uses.
#[verifier::external_body]
pub fn num_from_usize(n: usize) -> (r: u64)
    ensures
        r == bits_of_usize(n),
{
    let x = rustc_apfloat::ieee::Double::from_u128_r(
        n as u128,
        rustc_apfloat::Round::NearestTiesToEven,
    );
    x.value.to_bits() as u64
}

/// Whether every character of the text is a decimal digit or a dot, with a
/// digit first: the only shapes of numeral the scanner collects.
pub open spec fn numeral_shaped(s: Seq<char>) -> bool {
    s.len() > 0 && ('0' <= s[0] && s[0] <= '9') && forall|i: int|
        0 <= i < s.len() ==> (('0' <= #[trigger] s[i] && s[i] <= '9') || s[i] == '.')
}

/// How many characters of the text are dots.
pub open spec fn dot_count(s: Seq<char>) -> int
    decreases s.len(),
{
    if s.len() == 0 {
        0
    } else {
        (if s[0] == '.' {
            1int
        } else {
            0int
        }) + dot_count(s.drop_first())
    }
}

/// Relies on rustc_apfloat's `FromStr` impl for `Double`, which converts a
/// decimal numeral to the nearest double (ties to even) and rejects a
/// numeral with more than one dot, as Rust's native double parsing does.
#[verifier::external_body]
pub fn num_parse(s: &str) -> (r: Option<u64>)
    ensures
        r == parsed_bits(s@),
        numeral_shaped(s@) ==> (r is Some <==> dot_count(s@) <= 1),
{
    match s.parse::<rustc_apfloat::ieee::Double>() {
        Ok(v) => Some(v.to_bits() as u64),
        Err(_) => None,
    }
}

/// Relies on rustc_apfloat's `Display` impl for `Double`, which renders
/// the double in decimal; the rendering depends on the bits alone.
#[verifier::external_body]
pub fn num_display(a: u64) -> (r: String)
    ensures
        r@ == display_bits(a),
{
    let x = rustc_apfloat::ieee::Double::from_bits(a as u128);
    format!("{}", x)
}


/// Relies on rustc_apfloat's `FromStr` impl for `Double`, reached through
/// core::str::from_utf8: parses the numeral the ASCII bytes spell, as
/// `num_parse` does for text.
#[verifier::external_body]
pub fn num_parse_bytes(v: &Vec<u8>) -> (r: Option<u64>)
    requires
        forall|i: int| 0 <= i < v@.len() ==> v@[i] < 0x80,
    ensures
        r == parsed_bits(v@.map_values(|b: u8| b as char)),
{
    match core::str::from_utf8(v.as_slice()) {
        Ok(s) => match s.parse::<rustc_apfloat::ieee::Double>() {
            Ok(d) => Some(d.to_bits() as u64),
            Err(_) => None,
        },
        Err(_) => None,
    }
}

} // verus!
