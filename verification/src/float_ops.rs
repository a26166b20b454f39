//! IEEE binary64 arithmetic on bit patterns.
//!
//! The variance accumulator works on double-precision values. The library
//! carries such a value as the `u64` holding its IEEE 754 bit pattern and
//! performs the arithmetic through `rustc_apfloat`, whose `Double` type
//! implements IEEE 754 binary64 with round-to-nearest-even, the same
//! semantics as the hardware double. Each operation's result is named by an
//! uninterpreted spec function of the operand bit patterns, which is sound
//! because every operation below is a pure function of its operands.
use rustc_apfloat::Float;
use vstd::prelude::*;

verus! {

/// The bit pattern of the IEEE binary64 sum of two bit patterns.
pub uninterp spec fn add_bits(a: u64, b: u64) -> u64;

/// The bit pattern of the IEEE binary64 difference of two bit patterns.
pub uninterp spec fn sub_bits(a: u64, b: u64) -> u64;

/// The bit pattern of the IEEE binary64 product of two bit patterns.
pub uninterp spec fn mul_bits(a: u64, b: u64) -> u64;

/// The bit pattern of the IEEE binary64 quotient of two bit patterns.
pub uninterp spec fn div_bits(a: u64, b: u64) -> u64;

/// The bit pattern of the IEEE binary64 value nearest to an unsigned count.
pub uninterp spec fn f64_of_u64(c: u64) -> u64;

/// Relies on rustc_apfloat's `Double` addition (IEEE binary64,
/// round-to-nearest-even): the result is a function of the operand bits alone.
#[verifier::external_body]
pub(crate) fn ieee_add(a: u64, b: u64) -> (r: u64)
    ensures
        r == add_bits(a, b),
{
    let x = rustc_apfloat::ieee::Double::from_bits(a as u128);
    let y = rustc_apfloat::ieee::Double::from_bits(b as u128);
    (x + y).value.to_bits() as u64
}

/// Relies on rustc_apfloat's `Double` subtraction (IEEE binary64,
/// round-to-nearest-even): the result is a function of the operand bits alone.
#[verifier::external_body]
pub(crate) fn ieee_sub(a: u64, b: u64) -> (r: u64)
    ensures
        r == sub_bits(a, b),
{
    let x = rustc_apfloat::ieee::Double::from_bits(a as u128);
    let y = rustc_apfloat::ieee::Double::from_bits(b as u128);
    (x - y).value.to_bits() as u64
}

/// Relies on rustc_apfloat's `Double` multiplication (IEEE binary64,
/// round-to-nearest-even): the result is a function of the operand bits alone.
#[verifier::external_body]
pub(crate) fn ieee_mul(a: u64, b: u64) -> (r: u64)
    ensures
        r == mul_bits(a, b),
{
    let x = rustc_apfloat::ieee::Double::from_bits(a as u128);
    let y = rustc_apfloat::ieee::Double::from_bits(b as u128);
    (x * y).value.to_bits() as u64
}

/// Relies on rustc_apfloat's `Double` division (IEEE binary64,
/// round-to-nearest-even): the result is a function of the operand bits alone.
#[verifier::external_body]
pub(crate) fn ieee_div(a: u64, b: u64) -> (r: u64)
    ensures
        r == div_bits(a, b),
{
    let x = rustc_apfloat::ieee::Double::from_bits(a as u128);
    let y = rustc_apfloat::ieee::Double::from_bits(b as u128);
    (x / y).value.to_bits() as u64
}

/// Relies on rustc_apfloat's `Double::from_u128` (round-to-nearest-even):
/// the conversion of a count to a double is a function of the count alone.
#[verifier::external_body]
pub(crate) fn ieee_from_u64(c: u64) -> (r: u64)
    ensures
        r == f64_of_u64(c),
{
    rustc_apfloat::ieee::Double::from_u128(c as u128).value.to_bits() as u64
}

} // verus!
