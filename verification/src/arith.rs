//! IEEE-754 binary64 values, handled through their bit patterns.
//!
//! The neuron's weights, bias and learning rate are binary64 values. This
//! crate stores each one as the `u64` holding its bit pattern, states the
//! arithmetic over uninterpreted functions of those patterns, and performs
//! it through a software implementation of the same rounding arithmetic.
//! Comparisons against zero and magnitude bounds are decided directly on
//! the bit patterns, where the encoding makes them plain integer questions.

use vstd::prelude::*;
use rustc_apfloat::Float;

verus! {

/// Bit pattern of the binary64 value +0.0.
pub const POS_ZERO_BITS: u64 = 0;

/// Bit pattern of the binary64 value 1.0.
pub const ONE_BITS: u64 = 0x3FF0_0000_0000_0000;

/// Mask that clears the sign bit of a binary64 bit pattern.
pub const MAGNITUDE_MASK: u64 = 0x7FFF_FFFF_FFFF_FFFF;

/// Bit pattern of the binary64 value 0.3: the largest admissible magnitude
/// of a freshly drawn weight.
pub const THREE_TENTHS_BITS: u64 = 0x3FD3_3333_3333_3333;

/// Bit pattern of the binary64 sum of the two values whose bit patterns are
/// given, rounded to nearest, ties to even.
pub uninterp spec fn f64_add_bits(a: u64, b: u64) -> u64;

/// Bit pattern of the binary64 difference of the two values whose bit
/// patterns are given, rounded to nearest, ties to even.
pub uninterp spec fn f64_sub_bits(a: u64, b: u64) -> u64;

/// Bit pattern of the binary64 product of the two values whose bit patterns
/// are given, rounded to nearest, ties to even.
pub uninterp spec fn f64_mul_bits(a: u64, b: u64) -> u64;

/// Relies on rustc_apfloat's binary64 addition (`Double` + `Double`,
/// rounding to nearest, ties to even): the result's bits are a function of
/// the operand bits alone.
#[verifier::external_body]
pub(crate) fn add_bits(a: u64, b: u64) -> (r: u64)
    ensures
        r == f64_add_bits(a, b),
{
    let x = rustc_apfloat::ieee::Double::from_bits(a as u128);
    let y = rustc_apfloat::ieee::Double::from_bits(b as u128);
    (x + y).value.to_bits() as u64
}

/// Relies on rustc_apfloat's binary64 subtraction (`Double` - `Double`,
/// rounding to nearest, ties to even): the result's bits are a function of
/// the operand bits alone.
#[verifier::external_body]
pub(crate) fn sub_bits(a: u64, b: u64) -> (r: u64)
    ensures
        r == f64_sub_bits(a, b),
{
    let x = rustc_apfloat::ieee::Double::from_bits(a as u128);
    let y = rustc_apfloat::ieee::Double::from_bits(b as u128);
    (x - y).value.to_bits() as u64
}

/// Relies on rustc_apfloat's binary64 multiplication (`Double` * `Double`,
/// rounding to nearest, ties to even): the result's bits are a function of
/// the operand bits alone.
#[verifier::external_body]
pub(crate) fn mul_bits(a: u64, b: u64) -> (r: u64)
    ensures
        r == f64_mul_bits(a, b),
{
    let x = rustc_apfloat::ieee::Double::from_bits(a as u128);
    let y = rustc_apfloat::ieee::Double::from_bits(b as u128);
    (x * y).value.to_bits() as u64
}

/// Whether a binary64 bit pattern encodes a NaN: exponent field all ones
/// and a non-zero fraction field.
pub open spec fn is_nan_bits(b: u64) -> bool {
    (b >> 52) & 0x7FF == 0x7FF && b & 0x000F_FFFF_FFFF_FFFF != 0
}

/// Whether the encoded value compares `>= 0.0`: a zero of either sign, or a
/// non-NaN pattern whose sign bit is clear.
pub open spec fn spec_ge_zero_bits(b: u64) -> bool {
    b & MAGNITUDE_MASK == 0 || (b >> 63 == 0 && !is_nan_bits(b))
}

/// Decides `>= 0.0` on the bit pattern. The binary64 encoding makes this an
/// integer question: both zeros compare equal to zero, every NaN compares
/// false, and otherwise the sign bit decides.
pub fn ge_zero_bits(b: u64) -> (r: bool)
    ensures
        r == spec_ge_zero_bits(b),
{
    b & MAGNITUDE_MASK == 0 || (b >> 63 == 0 && !((b >> 52) & 0x7FF == 0x7FF
        && b & 0x000F_FFFF_FFFF_FFFF != 0))
}

/// Whether the encoded value lies in the closed interval [-0.3, 0.3]. On
/// non-negative binary64 values the order agrees with the order on bit
/// patterns, every NaN pattern's magnitude field exceeds that of 0.3, and
/// clearing the sign bit takes the magnitude.
pub open spec fn spec_weight_in_range(b: u64) -> bool {
    b & MAGNITUDE_MASK <= THREE_TENTHS_BITS
}

} // verus!
