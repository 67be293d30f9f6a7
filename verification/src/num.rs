//! Numbers of the language: IEEE-754 double-precision values, carried as
//! their 64-bit representation (`u64`).
//!
//! The arithmetic on them (rounding included) is delegated to
//! `rustc_apfloat`, a software implementation of IEEE-754, through trusted
//! wrappers; each operation's result is a function of the operand bit
//! patterns alone, and is given a name here. Comparisons and the zero test
//! are implemented directly on the bit patterns and fully verified.

use vstd::prelude::*;
use rustc_apfloat::Float;
use rustc_apfloat::ieee::Double;

verus! {

/// Sign-and-magnitude mask: everything but the sign bit.
pub const MAGNITUDE_MASK: u64 = 0x7FFF_FFFF_FFFF_FFFF;

/// Fraction (significand) bits of a double.
pub const FRACTION_MASK: u64 = 0x000F_FFFF_FFFF_FFFF;

/// Exponent bits of a double.
pub const EXPONENT_MASK: u64 = 0x7FF0_0000_0000_0000;

/// The bit pattern of `1.0`.
pub const ONE_BITS: u64 = 0x3FF0_0000_0000_0000;

/// The bit pattern of `0.0`.
pub const ZERO_BITS: u64 = 0;

/// A double is NaN when its exponent bits are all ones and its fraction is
/// not zero.
pub open spec fn is_nan_bits(b: u64) -> bool {
    b & EXPONENT_MASK == EXPONENT_MASK && b & FRACTION_MASK != 0
}

/// A double equals zero exactly when its magnitude bits are zero (`0.0`
/// and `-0.0`).
pub open spec fn is_zero_bits(b: u64) -> bool {
    b & MAGNITUDE_MASK == 0
}

/// Rank of a finite-or-infinite double on the number line: magnitude bits,
/// negated when the sign bit is set. Both zeroes rank 0; NaN has no rank.
pub open spec fn rank_bits(b: u64) -> int {
    if b >> 63 == 1 {
        -((b & MAGNITUDE_MASK) as int)
    } else {
        (b & MAGNITUDE_MASK) as int
    }
}

/// IEEE-754 equality of two doubles: false when either is NaN, otherwise
/// equal ranks (so `0.0 == -0.0`).
pub open spec fn num_eq_bits(a: u64, b: u64) -> bool {
    !is_nan_bits(a) && !is_nan_bits(b) && rank_bits(a) == rank_bits(b)
}

/// IEEE-754 `<` on two doubles: false when either is NaN.
pub open spec fn num_lt_bits(a: u64, b: u64) -> bool {
    !is_nan_bits(a) && !is_nan_bits(b) && rank_bits(a) < rank_bits(b)
}

/// Decides `is_zero_bits`.
pub(crate) fn num_is_zero(b: u64) -> (r: bool)
    ensures
        r == is_zero_bits(b),
{
    b & MAGNITUDE_MASK == 0
}

/// Decides `num_eq_bits`.
pub(crate) fn num_eq(a: u64, b: u64) -> (r: bool)
    ensures
        r == num_eq_bits(a, b),
{
    if a & EXPONENT_MASK == EXPONENT_MASK && a & FRACTION_MASK != 0 {
        false
    } else if b & EXPONENT_MASK == EXPONENT_MASK && b & FRACTION_MASK != 0 {
        false
    } else {
        num_rank(a) == num_rank(b)
    }
}

/// Decides `num_lt_bits`.
pub(crate) fn num_lt(a: u64, b: u64) -> (r: bool)
    ensures
        r == num_lt_bits(a, b),
{
    if a & EXPONENT_MASK == EXPONENT_MASK && a & FRACTION_MASK != 0 {
        false
    } else if b & EXPONENT_MASK == EXPONENT_MASK && b & FRACTION_MASK != 0 {
        false
    } else {
        num_rank(a) < num_rank(b)
    }
}

/// Rank of a double as a signed integer; magnitudes fit in 63 bits, so the
/// value is exact.
fn num_rank(b: u64) -> (r: i128)
    ensures
        r as int == rank_bits(b),
{
    let mag = b & MAGNITUDE_MASK;
    proof {
        assert(b & MAGNITUDE_MASK < 0x8000_0000_0000_0000) by (bit_vector);
    }
    if b >> 63 == 1 {
        -(mag as i128)
    } else {
        mag as i128
    }
}

/// The IEEE-754 double sum of two bit patterns, rounded to nearest even.
pub uninterp spec fn add_bits(a: u64, b: u64) -> u64;

/// The IEEE-754 double difference of two bit patterns.
pub uninterp spec fn sub_bits(a: u64, b: u64) -> u64;

/// The IEEE-754 double product of two bit patterns.
pub uninterp spec fn mul_bits(a: u64, b: u64) -> u64;

/// The IEEE-754 double quotient of two bit patterns.
pub uninterp spec fn div_bits(a: u64, b: u64) -> u64;

/// The value of a double truncated toward zero, saturated to the `i64`
/// range, with NaN taken to zero.
pub uninterp spec fn int_of_num(b: u64) -> int;

/// The double nearest to a given `i64` value.
pub uninterp spec fn bits_of_int(i: i64) -> u64;

/// The textual form of a double.
pub uninterp spec fn chars_of_num(b: u64) -> Seq<char>;

/// The double a numeric text denotes, or `None` when the text is not
/// numeric.
pub uninterp spec fn num_of_chars(s: Seq<char>) -> Option<u64>;

/// Relies on `rustc_apfloat`'s IEEE-754 double addition (`Add` on
/// `ieee::Double`, round to nearest even): the result depends on the two
/// operand bit patterns alone.
#[verifier::external_body]
pub(crate) fn num_add(a: u64, b: u64) -> (r: u64)
    ensures
        r == add_bits(a, b),
{
    (Double::from_bits(a as u128) + Double::from_bits(b as u128)).value.to_bits() as u64
}

/// Relies on `rustc_apfloat`'s IEEE-754 double subtraction (`Sub` on
/// `ieee::Double`): the result depends on the operand bit patterns alone.
#[verifier::external_body]
pub(crate) fn num_sub(a: u64, b: u64) -> (r: u64)
    ensures
        r == sub_bits(a, b),
{
    (Double::from_bits(a as u128) - Double::from_bits(b as u128)).value.to_bits() as u64
}

/// Relies on `rustc_apfloat`'s IEEE-754 double multiplication (`Mul` on
/// `ieee::Double`): the result depends on the operand bit patterns alone.
#[verifier::external_body]
pub(crate) fn num_mul(a: u64, b: u64) -> (r: u64)
    ensures
        r == mul_bits(a, b),
{
    (Double::from_bits(a as u128) * Double::from_bits(b as u128)).value.to_bits() as u64
}

/// Relies on `rustc_apfloat`'s IEEE-754 double division (`Div` on
/// `ieee::Double`): the result depends on the operand bit patterns alone.
#[verifier::external_body]
pub(crate) fn num_div(a: u64, b: u64) -> (r: u64)
    ensures
        r == div_bits(a, b),
{
    (Double::from_bits(a as u128) / Double::from_bits(b as u128)).value.to_bits() as u64
}

/// Relies on `rustc_apfloat`'s `Float::to_i128` (round toward zero), which
/// saturates out-of-range values and takes NaN to zero; the result depends
/// on the bit pattern alone.
#[verifier::external_body]
pub(crate) fn num_trunc(b: u64) -> (r: i64)
    ensures
        r as int == int_of_num(b),
{
    Double::from_bits(b as u128).to_i128(64).value as i64
}

/// Relies on `rustc_apfloat`'s `Float::from_i128` (round to nearest even);
/// the result depends on the integer alone.
#[verifier::external_body]
pub(crate) fn num_from_int(i: i64) -> (r: u64)
    ensures
        r == bits_of_int(i),
{
    Double::from_i128(i as i128).value.to_bits() as u64
}

/// Relies on `rustc_apfloat`'s `Display` for `ieee::Double`; the text
/// depends on the bit pattern alone.
#[verifier::external_body]
pub(crate) fn num_display(b: u64) -> (r: Vec<char>)
    ensures
        r@ == chars_of_num(b),
{
    format!("{}", Double::from_bits(b as u128)).chars().collect()
}

/// Relies on `rustc_apfloat`'s `FromStr` for `ieee::Double`, which accepts
/// or rejects a candidate numeric text; the outcome depends on the text
/// alone. The length bound keeps the call away from inputs whose exponent
/// bookkeeping could overflow inside the outside crate.
#[verifier::external_body]
pub(crate) fn num_parse(s: &Vec<char>) -> (r: Option<u64>)
    requires
        s@.len() < 0x1000_0000,
    ensures
        r == num_of_chars(s@),
{
    let text: String = s.iter().collect();
    match text.parse::<Double>() {
        Ok(d) => Some(d.to_bits() as u64),
        Err(_) => None,
    }
}

} // verus!
