//! Double-precision arithmetic primitives of the calculator.  Each operation
//! is performed by an outside software floating-point routine working on bit
//! patterns; its result is given a name here, and the engine's contracts are
//! stated over those names.

use vstd::prelude::*;
use crate::value::Value;
use crate::value::HALF_BITS;
use const_soft_float::soft_f64::SoftF64;

verus! {

/// Bit pattern of the IEEE-754 double-precision sum of the two encoded values.
pub uninterp spec fn add_bits(a: u64, b: u64) -> u64;

/// Bit pattern of the IEEE-754 double-precision difference of the two encoded values.
pub uninterp spec fn sub_bits(a: u64, b: u64) -> u64;

/// Bit pattern of the IEEE-754 double-precision product of the two encoded values.
pub uninterp spec fn mul_bits(a: u64, b: u64) -> u64;

/// Bit pattern of the IEEE-754 double-precision quotient of the two encoded values.
pub uninterp spec fn div_bits(a: u64, b: u64) -> u64;

/// Bit pattern of the IEEE-754 double-precision square root of the encoded value.
pub uninterp spec fn sqrt_bits(a: u64) -> u64;

/// Bit pattern of the largest integral double at or below the encoded value.
pub uninterp spec fn floor_bits(a: u64) -> u64;

/// Bit pattern of the smallest integral double at or above the encoded value.
pub uninterp spec fn ceil_bits(a: u64) -> u64;

/// Bit pattern of the encoded value with its fractional part discarded.
pub uninterp spec fn trunc_bits(a: u64) -> u64;

/// Bit pattern of the encoded base raised to the encoded exponent.
pub uninterp spec fn pow_bits(a: u64, b: u64) -> u64;

/// Bit pattern of the natural logarithm of the encoded value.
pub uninterp spec fn ln_bits(a: u64) -> u64;

/// Bit pattern of the base-10 logarithm of the encoded value.
pub uninterp spec fn log10_bits(a: u64) -> u64;

/// Relies on const_soft_float's SoftF64::add: IEEE-754 double-precision
/// addition of the values the two bit patterns encode.
#[verifier::external_body]
pub(crate) fn add_values(a: Value, b: Value) -> (r: Value)
    ensures
        r.bits == add_bits(a.bits, b.bits),
{
    Value { bits: SoftF64::from_bits(a.bits).add(SoftF64::from_bits(b.bits)).to_bits() }
}

/// Relies on const_soft_float's SoftF64::sub: IEEE-754 double-precision
/// subtraction of the values the two bit patterns encode.
#[verifier::external_body]
pub(crate) fn sub_values(a: Value, b: Value) -> (r: Value)
    ensures
        r.bits == sub_bits(a.bits, b.bits),
{
    Value { bits: SoftF64::from_bits(a.bits).sub(SoftF64::from_bits(b.bits)).to_bits() }
}

/// Relies on const_soft_float's SoftF64::mul: IEEE-754 double-precision
/// multiplication of the values the two bit patterns encode.
#[verifier::external_body]
pub(crate) fn mul_values(a: Value, b: Value) -> (r: Value)
    ensures
        r.bits == mul_bits(a.bits, b.bits),
{
    Value { bits: SoftF64::from_bits(a.bits).mul(SoftF64::from_bits(b.bits)).to_bits() }
}

/// Relies on const_soft_float's SoftF64::div: IEEE-754 double-precision
/// division of the values the two bit patterns encode.
#[verifier::external_body]
pub(crate) fn div_values(a: Value, b: Value) -> (r: Value)
    ensures
        r.bits == div_bits(a.bits, b.bits),
{
    Value { bits: SoftF64::from_bits(a.bits).div(SoftF64::from_bits(b.bits)).to_bits() }
}

/// Relies on const_soft_float's SoftF64::sqrt: IEEE-754 double-precision
/// square root of the value the bit pattern encodes.
#[verifier::external_body]
pub(crate) fn sqrt_value(a: Value) -> (r: Value)
    ensures
        r.bits == sqrt_bits(a.bits),
{
    Value { bits: SoftF64::from_bits(a.bits).sqrt().to_bits() }
}

/// Relies on const_soft_float's SoftF64::floor: the largest integral double
/// at or below the value the bit pattern encodes.
#[verifier::external_body]
pub(crate) fn floor_value(a: Value) -> (r: Value)
    ensures
        r.bits == floor_bits(a.bits),
{
    Value { bits: SoftF64::from_bits(a.bits).floor().to_bits() }
}

/// Relies on libm::ceil: the smallest integral double at or above the value
/// the bit pattern encodes.
#[verifier::external_body]
pub(crate) fn ceil_value(a: Value) -> (r: Value)
    ensures
        r.bits == ceil_bits(a.bits),
{
    Value { bits: SoftF64::from_f64(libm::ceil(SoftF64::from_bits(a.bits).to_f64())).to_bits() }
}

/// Relies on const_soft_float's SoftF64::trunc: the value the bit pattern
/// encodes with its fractional part discarded.
#[verifier::external_body]
pub(crate) fn trunc_value(a: Value) -> (r: Value)
    ensures
        r.bits == trunc_bits(a.bits),
{
    Value { bits: SoftF64::from_bits(a.bits).trunc().to_bits() }
}

/// Relies on libm::pow: the encoded base raised to the encoded exponent.
#[verifier::external_body]
pub(crate) fn pow_values(a: Value, b: Value) -> (r: Value)
    ensures
        r.bits == pow_bits(a.bits, b.bits),
{
    Value {
        bits: SoftF64::from_f64(
            libm::pow(SoftF64::from_bits(a.bits).to_f64(), SoftF64::from_bits(b.bits).to_f64()),
        ).to_bits(),
    }
}

/// Relies on libm::log: the natural logarithm of the encoded value.
#[verifier::external_body]
pub(crate) fn ln_value(a: Value) -> (r: Value)
    ensures
        r.bits == ln_bits(a.bits),
{
    Value { bits: SoftF64::from_f64(libm::log(SoftF64::from_bits(a.bits).to_f64())).to_bits() }
}

/// Relies on libm::log10: the base-10 logarithm of the encoded value.
#[verifier::external_body]
pub(crate) fn log10_value(a: Value) -> (r: Value)
    ensures
        r.bits == log10_bits(a.bits),
{
    Value { bits: SoftF64::from_f64(libm::log10(SoftF64::from_bits(a.bits).to_f64())).to_bits() }
}

/// Bit pattern of the encoded value rounded to the nearest integer, ties
/// toward positive infinity: the floor of the value plus one half.
pub open spec fn round_bits(a: u64) -> u64 {
    floor_bits(add_bits(a, HALF_BITS))
}

/// Rounds to the nearest integer, ties toward positive infinity, by adding
/// one half and taking the floor.
pub(crate) fn round_value(a: Value) -> (r: Value)
    ensures
        r.bits == round_bits(a.bits),
{
    floor_value(add_values(a, Value { bits: HALF_BITS }))
}

} // verus!
