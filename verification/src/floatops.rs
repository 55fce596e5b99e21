//! IEEE-754 single-precision arithmetic on 32-bit bit patterns. The ALU holds
//! every lane as a raw 32-bit word; the float operations are carried out by
//! `rustc_apfloat` on those bit patterns, and each result is given a name that
//! the datapath contracts speak of. Each operation is a pure function of its
//! operand bit patterns.
use vstd::prelude::*;

verus! {

use rustc_apfloat::Float;

/// The bit pattern of the IEEE single-precision sum of two bit patterns,
/// rounded to nearest even.
pub uninterp spec fn spec_fadd(a: u32, b: u32) -> u32;

/// The bit pattern of the IEEE single-precision difference of two bit patterns.
pub uninterp spec fn spec_fsub(a: u32, b: u32) -> u32;

/// The bit pattern of the IEEE single-precision product of two bit patterns.
pub uninterp spec fn spec_fmul(a: u32, b: u32) -> u32;

/// The bit pattern of IEEE minNum of two bit patterns: the smaller argument,
/// or the other argument where one is NaN.
pub uninterp spec fn spec_fmin(a: u32, b: u32) -> u32;

/// The bit pattern of IEEE maxNum of two bit patterns.
pub uninterp spec fn spec_fmax(a: u32, b: u32) -> u32;

/// The signed 32-bit integer (as a bit pattern) that an IEEE single rounds to
/// toward zero, saturating at the type's bounds.
pub uninterp spec fn spec_ftoi(a: u32) -> u32;

/// The bit pattern of the IEEE single nearest to a signed 32-bit integer.
pub uninterp spec fn spec_itof(a: u32) -> u32;

/// Relies on rustc_apfloat's `ieee::Single` addition (round to nearest even):
/// the result depends on the operand bit patterns alone.
#[verifier::external_body]
pub(crate) fn fadd_bits(a: u32, b: u32) -> (r: u32)
    ensures
        r == spec_fadd(a, b),
{
    let x = rustc_apfloat::ieee::Single::from_bits(a as u128);
    let y = rustc_apfloat::ieee::Single::from_bits(b as u128);
    (x + y).value.to_bits() as u32
}

/// Relies on rustc_apfloat's `ieee::Single` subtraction (round to nearest
/// even): the result depends on the operand bit patterns alone.
#[verifier::external_body]
pub(crate) fn fsub_bits(a: u32, b: u32) -> (r: u32)
    ensures
        r == spec_fsub(a, b),
{
    let x = rustc_apfloat::ieee::Single::from_bits(a as u128);
    let y = rustc_apfloat::ieee::Single::from_bits(b as u128);
    (x - y).value.to_bits() as u32
}

/// Relies on rustc_apfloat's `ieee::Single` multiplication (round to nearest
/// even): the result depends on the operand bit patterns alone.
#[verifier::external_body]
pub(crate) fn fmul_bits(a: u32, b: u32) -> (r: u32)
    ensures
        r == spec_fmul(a, b),
{
    let x = rustc_apfloat::ieee::Single::from_bits(a as u128);
    let y = rustc_apfloat::ieee::Single::from_bits(b as u128);
    (x * y).value.to_bits() as u32
}

/// Relies on rustc_apfloat's `Float::min` (IEEE minNum): the result depends on
/// the operand bit patterns alone.
#[verifier::external_body]
pub(crate) fn fmin_bits(a: u32, b: u32) -> (r: u32)
    ensures
        r == spec_fmin(a, b),
{
    let x = rustc_apfloat::ieee::Single::from_bits(a as u128);
    let y = rustc_apfloat::ieee::Single::from_bits(b as u128);
    x.min(y).to_bits() as u32
}

/// Relies on rustc_apfloat's `Float::max` (IEEE maxNum): the result depends on
/// the operand bit patterns alone.
#[verifier::external_body]
pub(crate) fn fmax_bits(a: u32, b: u32) -> (r: u32)
    ensures
        r == spec_fmax(a, b),
{
    let x = rustc_apfloat::ieee::Single::from_bits(a as u128);
    let y = rustc_apfloat::ieee::Single::from_bits(b as u128);
    x.max(y).to_bits() as u32
}

/// Relies on rustc_apfloat's `Float::to_i128` with a 32-bit width (round
/// toward zero, saturating): the result depends on the operand bit pattern
/// alone.
#[verifier::external_body]
pub(crate) fn ftoi_bits(a: u32) -> (r: u32)
    ensures
        r == spec_ftoi(a),
{
    let x = rustc_apfloat::ieee::Single::from_bits(a as u128);
    x.to_i128(32).value as i32 as u32
}

/// Relies on rustc_apfloat's `Float::from_i128` (round to nearest even): the
/// result depends on the operand bit pattern alone.
#[verifier::external_body]
pub(crate) fn itof_bits(a: u32) -> (r: u32)
    ensures
        r == spec_itof(a),
{
    let v = a as i32;
    rustc_apfloat::ieee::Single::from_i128(v as i128).value.to_bits() as u32
}

} // verus!
