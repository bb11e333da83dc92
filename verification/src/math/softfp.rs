use vstd::prelude::*;
use rustc_apfloat::Float;

verus! {

// IEEE-754 single-precision arithmetic, carried out on bit patterns by
// rustc_apfloat's software implementation of the IEEE operations, with the
// default round-to-nearest-even mode — the same operations hardware
// performs on `f32`. Each result is a function of the operand patterns
// alone, so each operation gets a name that the callers' contracts build on.

/// The bit pattern that IEEE-754 single addition gives for two operand patterns.
pub uninterp spec fn add_bits(a: u32, b: u32) -> u32;

/// The bit pattern that IEEE-754 single subtraction gives for two operand patterns.
pub uninterp spec fn sub_bits(a: u32, b: u32) -> u32;

/// The bit pattern that IEEE-754 single multiplication gives for two operand patterns.
pub uninterp spec fn mul_bits(a: u32, b: u32) -> u32;

/// The bit pattern that IEEE-754 single division gives for two operand patterns.
pub uninterp spec fn div_bits(a: u32, b: u32) -> u32;

/// Relies on rustc_apfloat: `IeeeFloat::add_r` with round-to-nearest-even is
/// the IEEE-754 addition on single-precision bit patterns.
#[verifier::external_body]
pub(crate) fn f_add(a: u32, b: u32) -> (r: u32)
    ensures
        r == add_bits(a, b),
{
    let x = rustc_apfloat::ieee::Single::from_bits(a as u128);
    let y = rustc_apfloat::ieee::Single::from_bits(b as u128);
    x.add_r(y, rustc_apfloat::Round::NearestTiesToEven).value.to_bits() as u32
}

/// Relies on rustc_apfloat: `IeeeFloat::sub_r` with round-to-nearest-even is
/// the IEEE-754 subtraction on single-precision bit patterns.
#[verifier::external_body]
pub(crate) fn f_sub(a: u32, b: u32) -> (r: u32)
    ensures
        r == sub_bits(a, b),
{
    let x = rustc_apfloat::ieee::Single::from_bits(a as u128);
    let y = rustc_apfloat::ieee::Single::from_bits(b as u128);
    x.sub_r(y, rustc_apfloat::Round::NearestTiesToEven).value.to_bits() as u32
}

/// Relies on rustc_apfloat: `IeeeFloat::mul_r` with round-to-nearest-even is
/// the IEEE-754 multiplication on single-precision bit patterns.
#[verifier::external_body]
pub(crate) fn f_mul(a: u32, b: u32) -> (r: u32)
    ensures
        r == mul_bits(a, b),
{
    let x = rustc_apfloat::ieee::Single::from_bits(a as u128);
    let y = rustc_apfloat::ieee::Single::from_bits(b as u128);
    x.mul_r(y, rustc_apfloat::Round::NearestTiesToEven).value.to_bits() as u32
}

/// Relies on rustc_apfloat: `IeeeFloat::div_r` with round-to-nearest-even is
/// the IEEE-754 division on single-precision bit patterns.
#[verifier::external_body]
pub(crate) fn f_div(a: u32, b: u32) -> (r: u32)
    ensures
        r == div_bits(a, b),
{
    let x = rustc_apfloat::ieee::Single::from_bits(a as u128);
    let y = rustc_apfloat::ieee::Single::from_bits(b as u128);
    x.div_r(y, rustc_apfloat::Round::NearestTiesToEven).value.to_bits() as u32
}

} // verus!
