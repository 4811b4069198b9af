//! Guest numbers are IEEE-754 binary64 values, carried everywhere as their
//! 64-bit patterns. Classification and ordering are defined here directly on
//! the bits; the four rounding arithmetic operations and the remainder go
//! through software floating point.

use rustc_apfloat::Float;
use vstd::prelude::*;

verus! {

/// Sign bit of a binary64 pattern.
pub const SIGN_MASK: u64 = 0x8000_0000_0000_0000;
/// Everything but the sign bit.
pub const MAG_MASK: u64 = 0x7FFF_FFFF_FFFF_FFFF;
/// Exponent field.
pub const EXP_MASK: u64 = 0x7FF0_0000_0000_0000;
/// Fraction field.
pub const FRAC_MASK: u64 = 0x000F_FFFF_FFFF_FFFF;

/// Bit pattern of positive zero.
pub const ZERO_BITS: u64 = 0;

/// A pattern is a NaN when the exponent field is saturated and the fraction
/// field is not zero.
pub open spec fn is_nan_bits(b: u64) -> bool {
    b & EXP_MASK == EXP_MASK && b & FRAC_MASK != 0
}

/// A pattern is a zero (of either sign) when all bits below the sign are zero.
pub open spec fn is_zero_bits(b: u64) -> bool {
    b & MAG_MASK == 0
}

/// IEEE-754 equality on bit patterns: NaN equals nothing, the two zeros are
/// equal to each other, and every other value only to its own pattern.
pub open spec fn ieee_eq(a: u64, b: u64) -> bool {
    if is_nan_bits(a) || is_nan_bits(b) {
        false
    } else if is_zero_bits(a) && is_zero_bits(b) {
        true
    } else {
        a == b
    }
}

/// IEEE-754 ordering on bit patterns: NaN compares under nothing; otherwise
/// the patterns order as sign-magnitude integers, with the two zeros equal.
pub open spec fn ieee_lt(a: u64, b: u64) -> bool {
    if is_nan_bits(a) || is_nan_bits(b) {
        false
    } else if is_zero_bits(a) && is_zero_bits(b) {
        false
    } else {
        let neg_a = a & SIGN_MASK != 0;
        let neg_b = b & SIGN_MASK != 0;
        if neg_a != neg_b {
            neg_a
        } else if !neg_a {
            a & MAG_MASK < b & MAG_MASK
        } else {
            a & MAG_MASK > b & MAG_MASK
        }
    }
}

pub open spec fn ieee_gt(a: u64, b: u64) -> bool {
    ieee_lt(b, a)
}

pub open spec fn ieee_lte(a: u64, b: u64) -> bool {
    ieee_eq(a, b) || ieee_lt(a, b)
}

pub open spec fn ieee_gte(a: u64, b: u64) -> bool {
    ieee_eq(a, b) || ieee_gt(a, b)
}

/// Negation flips the sign bit and nothing else.
pub open spec fn neg_bits_spec(b: u64) -> u64 {
    b ^ SIGN_MASK
}

pub fn eq_bits(a: u64, b: u64) -> (r: bool)
    ensures
        r == ieee_eq(a, b),
{
    if a & EXP_MASK == EXP_MASK && a & FRAC_MASK != 0 {
        false
    } else if b & EXP_MASK == EXP_MASK && b & FRAC_MASK != 0 {
        false
    } else if a & MAG_MASK == 0 && b & MAG_MASK == 0 {
        true
    } else {
        a == b
    }
}

pub fn lt_bits(a: u64, b: u64) -> (r: bool)
    ensures
        r == ieee_lt(a, b),
{
    if a & EXP_MASK == EXP_MASK && a & FRAC_MASK != 0 {
        false
    } else if b & EXP_MASK == EXP_MASK && b & FRAC_MASK != 0 {
        false
    } else if a & MAG_MASK == 0 && b & MAG_MASK == 0 {
        false
    } else {
        let neg_a = a & SIGN_MASK != 0;
        let neg_b = b & SIGN_MASK != 0;
        if neg_a != neg_b {
            neg_a
        } else if !neg_a {
            a & MAG_MASK < b & MAG_MASK
        } else {
            a & MAG_MASK > b & MAG_MASK
        }
    }
}

pub fn gt_bits(a: u64, b: u64) -> (r: bool)
    ensures
        r == ieee_gt(a, b),
{
    lt_bits(b, a)
}

pub fn lte_bits(a: u64, b: u64) -> (r: bool)
    ensures
        r == ieee_lte(a, b),
{
    if eq_bits(a, b) {
        true
    } else {
        lt_bits(a, b)
    }
}

pub fn gte_bits(a: u64, b: u64) -> (r: bool)
    ensures
        r == ieee_gte(a, b),
{
    if eq_bits(a, b) {
        true
    } else {
        gt_bits(a, b)
    }
}

pub fn neg_bits(b: u64) -> (r: u64)
    ensures
        r == neg_bits_spec(b),
{
    b ^ SIGN_MASK
}

/// Binary64 sum of the two patterns, rounded to nearest even.
pub uninterp spec fn num_add(a: u64, b: u64) -> u64;

/// Binary64 difference of the two patterns, rounded to nearest even.
pub uninterp spec fn num_sub(a: u64, b: u64) -> u64;

/// Binary64 product of the two patterns, rounded to nearest even.
pub uninterp spec fn num_mul(a: u64, b: u64) -> u64;

/// Binary64 quotient of the two patterns, rounded to nearest even.
pub uninterp spec fn num_div(a: u64, b: u64) -> u64;

/// Binary64 remainder of the two patterns.
pub uninterp spec fn num_rem(a: u64, b: u64) -> u64;

/// Relies on rustc_apfloat's `ieee::Double` addition: software IEEE-754
/// binary64, round to nearest even, a function of the two patterns alone.
#[verifier::external_body]
pub(crate) fn add_bits(a: u64, b: u64) -> (r: u64)
    ensures
        r == num_add(a, b),
{
    let x = rustc_apfloat::ieee::Double::from_bits(a as u128);
    let y = rustc_apfloat::ieee::Double::from_bits(b as u128);
    (x + y).value.to_bits() as u64
}

/// Relies on rustc_apfloat's `ieee::Double` subtraction: software IEEE-754
/// binary64, round to nearest even, a function of the two patterns alone.
#[verifier::external_body]
pub(crate) fn sub_bits(a: u64, b: u64) -> (r: u64)
    ensures
        r == num_sub(a, b),
{
    let x = rustc_apfloat::ieee::Double::from_bits(a as u128);
    let y = rustc_apfloat::ieee::Double::from_bits(b as u128);
    (x - y).value.to_bits() as u64
}

/// Relies on rustc_apfloat's `ieee::Double` multiplication: software IEEE-754
/// binary64, round to nearest even, a function of the two patterns alone.
#[verifier::external_body]
pub(crate) fn mul_bits(a: u64, b: u64) -> (r: u64)
    ensures
        r == num_mul(a, b),
{
    let x = rustc_apfloat::ieee::Double::from_bits(a as u128);
    let y = rustc_apfloat::ieee::Double::from_bits(b as u128);
    (x * y).value.to_bits() as u64
}

/// Relies on rustc_apfloat's `ieee::Double` division: software IEEE-754
/// binary64, round to nearest even, a function of the two patterns alone.
/// Division by zero yields an infinity or NaN pattern, never a fault.
#[verifier::external_body]
pub(crate) fn div_bits(a: u64, b: u64) -> (r: u64)
    ensures
        r == num_div(a, b),
{
    let x = rustc_apfloat::ieee::Double::from_bits(a as u128);
    let y = rustc_apfloat::ieee::Double::from_bits(b as u128);
    (x / y).value.to_bits() as u64
}

/// Relies on rustc_apfloat's `ieee::Double` remainder: software IEEE-754
/// binary64, a function of the two patterns alone.
#[verifier::external_body]
pub(crate) fn rem_bits(a: u64, b: u64) -> (r: u64)
    ensures
        r == num_rem(a, b),
{
    let x = rustc_apfloat::ieee::Double::from_bits(a as u128);
    let y = rustc_apfloat::ieee::Double::from_bits(b as u128);
    (x % y).value.to_bits() as u64
}

} // verus!

verus! {

/// Binary64 value nearest to the unsigned integer, as its bit pattern.
pub uninterp spec fn num_of_u64(n: u64) -> u64;

/// Relies on rustc_apfloat's `ieee::Double` conversion from an unsigned
/// integer: round to nearest even, a function of the argument alone.
#[verifier::external_body]
pub(crate) fn u64_to_bits(n: u64) -> (r: u64)
    ensures
        r == num_of_u64(n),
{
    rustc_apfloat::ieee::Double::from_u128(n as u128).value.to_bits() as u64
}

/// The pattern's value truncated toward zero and saturated to an unsigned
/// integer: zero for anything negative or not a number, the maximum for
/// anything at or beyond two to the sixty-fourth.
pub open spec fn trunc_bits(b: u64) -> u64 {
    let exp = (b >> 52) & 0x7FF;
    let frac = b & FRAC_MASK;
    if b & SIGN_MASK != 0 {
        0
    } else if exp == 0x7FF {
        if frac != 0 {
            0
        } else {
            u64::MAX
        }
    } else if exp < 1023 {
        0
    } else if exp >= 1087 {
        u64::MAX
    } else if exp <= 1075 {
        (0x0010_0000_0000_0000u64 | frac) >> ((1075 - exp) as u64)
    } else {
        (0x0010_0000_0000_0000u64 | frac) << ((exp - 1075) as u64)
    }
}

pub fn trunc_index(b: u64) -> (r: u64)
    ensures
        r == trunc_bits(b),
{
    let exp = (b >> 52) & 0x7FF;
    let frac = b & FRAC_MASK;
    if b & SIGN_MASK != 0 {
        0
    } else if exp == 0x7FF {
        if frac != 0 {
            0
        } else {
            u64::MAX
        }
    } else if exp < 1023 {
        0
    } else if exp >= 1087 {
        u64::MAX
    } else if exp <= 1075 {
        (0x0010_0000_0000_0000u64 | frac) >> (1075 - exp)
    } else {
        (0x0010_0000_0000_0000u64 | frac) << (exp - 1075)
    }
}

} // verus!
