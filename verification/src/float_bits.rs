//! IEEE-754 binary64 arithmetic on bit patterns.
//!
//! Every value of the field is carried as the 64-bit IEEE-754 bit pattern
//! of a double-precision number. The four arithmetic operations and the
//! integer-to-double conversion are delegated to `rustc_apfloat`, a
//! software implementation of IEEE-754 arithmetic; each operation rounds
//! to nearest, ties to even, which is the rounding mode of hardware
//! doubles. The results are named by uninterpreted spec functions: each
//! operation is a pure function of its operand bit patterns, and that is
//! all the engine's contracts rely on.

use vstd::prelude::*;
use rustc_apfloat::Float;
use rustc_apfloat::ieee::Double;

verus! {

/// Bit pattern of the double 1.0.
pub const BITS_ONE: u64 = 0x3FF0_0000_0000_0000;

/// Bit pattern of the double 2.0.
pub const BITS_TWO: u64 = 0x4000_0000_0000_0000;

/// Bit pattern of the double 4.0.
pub const BITS_FOUR: u64 = 0x4010_0000_0000_0000;

/// Bit pattern of the double 0.25.
pub const BITS_QUARTER: u64 = 0x3FD0_0000_0000_0000;

/// Bit pattern of the IEEE-754 double sum `a + b`.
pub uninterp spec fn f_add(a: u64, b: u64) -> u64;

/// Bit pattern of the IEEE-754 double difference `a - b`.
pub uninterp spec fn f_sub(a: u64, b: u64) -> u64;

/// Bit pattern of the IEEE-754 double product `a * b`.
pub uninterp spec fn f_mul(a: u64, b: u64) -> u64;

/// Bit pattern of the IEEE-754 double quotient `a / b`.
pub uninterp spec fn f_div(a: u64, b: u64) -> u64;

/// Bit pattern of the IEEE-754 double nearest to the unsigned integer `x`.
pub uninterp spec fn f_of_u64(x: u64) -> u64;

/// Relies on `rustc_apfloat::ieee::Double`'s `Add` impl: IEEE-754 binary64
/// addition, round to nearest, ties to even, a pure function of the two
/// operand bit patterns.
#[verifier::external_body]
pub(crate) fn add_bits(a: u64, b: u64) -> (r: u64)
    ensures
        r == f_add(a, b),
{
    (Double::from_bits(a as u128) + Double::from_bits(b as u128)).value.to_bits() as u64
}

/// Relies on `rustc_apfloat::ieee::Double`'s `Sub` impl: IEEE-754 binary64
/// subtraction, round to nearest, ties to even, a pure function of the two
/// operand bit patterns.
#[verifier::external_body]
pub(crate) fn sub_bits(a: u64, b: u64) -> (r: u64)
    ensures
        r == f_sub(a, b),
{
    (Double::from_bits(a as u128) - Double::from_bits(b as u128)).value.to_bits() as u64
}

/// Relies on `rustc_apfloat::ieee::Double`'s `Mul` impl: IEEE-754 binary64
/// multiplication, round to nearest, ties to even, a pure function of the
/// two operand bit patterns.
#[verifier::external_body]
pub(crate) fn mul_bits(a: u64, b: u64) -> (r: u64)
    ensures
        r == f_mul(a, b),
{
    (Double::from_bits(a as u128) * Double::from_bits(b as u128)).value.to_bits() as u64
}

/// Relies on `rustc_apfloat::ieee::Double`'s `Div` impl: IEEE-754 binary64
/// division, round to nearest, ties to even, a pure function of the two
/// operand bit patterns.
#[verifier::external_body]
pub(crate) fn div_bits(a: u64, b: u64) -> (r: u64)
    ensures
        r == f_div(a, b),
{
    (Double::from_bits(a as u128) / Double::from_bits(b as u128)).value.to_bits() as u64
}

/// Relies on `rustc_apfloat::Float::from_u128`: conversion of an unsigned
/// integer to the nearest IEEE-754 binary64 value (ties to even), a pure
/// function of the integer.
#[verifier::external_body]
pub(crate) fn u64_to_double_bits(x: u64) -> (r: u64)
    ensures
        r == f_of_u64(x),
{
    Double::from_u128(x as u128).value.to_bits() as u64
}

} // verus!
