//! The two outside reliances of the library, behind trusted wrappers:
//! reading a decimal literal off the front of the input (nom), and IEEE
//! single-precision arithmetic on bit patterns (rustc_apfloat).

use rustc_apfloat::Float;
use vstd::prelude::*;

verus! {

/// What `nom::number::complete::float` returns on a byte string: `None` if
/// no decimal literal starts the input, otherwise the number of bytes the
/// literal occupies and the bit pattern of its single-precision value.
pub uninterp spec fn spec_parse_float(s: Seq<u8>) -> Option<(int, u32)>;

/// Relies on `nom::number::complete::float`: it recognizes a decimal
/// literal (optional sign, digits, optional fraction, optional exponent, or
/// an infinity/NaN word) at the front of the input and returns its value
/// together with the input left over. What it recognizes and returns
/// depends on the input bytes alone, and it consumes at least one byte when
/// it succeeds, so the leftover is strictly shorter than the input.
#[verifier::external_body]
pub(crate) fn parse_float_prefix(i: &[u8]) -> (r: Option<(usize, u32)>)
    ensures
        match r {
            Some((rem, b)) => rem < i@.len() && spec_parse_float(i@) == Some(
                (i@.len() - rem, b),
            ),
            None => spec_parse_float(i@) is None,
        },
{
    match nom::number::complete::float::<&[u8], nom::error::Error<&[u8]>>(i) {
        Ok((rest, v)) => Some((rest.len(), v.to_bits())),
        Err(_) => None,
    }
}

/// The bit pattern of the IEEE single-precision sum of the values whose bit
/// patterns are `a` and `b`, rounded to nearest, ties to even.
pub uninterp spec fn add_bits_of(a: u32, b: u32) -> u32;

/// The bit pattern of the IEEE single-precision difference, rounded to
/// nearest, ties to even.
pub uninterp spec fn sub_bits_of(a: u32, b: u32) -> u32;

/// The bit pattern of the IEEE single-precision product, rounded to
/// nearest, ties to even.
pub uninterp spec fn mul_bits_of(a: u32, b: u32) -> u32;

/// The bit pattern of the IEEE single-precision quotient, rounded to
/// nearest, ties to even; division by zero gives an infinity or NaN per
/// IEEE rules, never a failure.
pub uninterp spec fn div_bits_of(a: u32, b: u32) -> u32;

/// Relies on `core::ops::Add for rustc_apfloat::ieee::Single`: IEEE
/// single-precision addition on bit patterns, rounded to nearest, ties to
/// even, a function of the two operands alone.
#[verifier::external_body]
pub(crate) fn add_bits(a: u32, b: u32) -> (r: u32)
    ensures
        r == add_bits_of(a, b),
{
    let x = rustc_apfloat::ieee::Single::from_bits(a as u128);
    let y = rustc_apfloat::ieee::Single::from_bits(b as u128);
    (x + y).value.to_bits() as u32
}

/// Relies on `core::ops::Sub for rustc_apfloat::ieee::Single`: IEEE
/// single-precision subtraction on bit patterns, rounded to nearest, ties
/// to even, a function of the two operands alone.
#[verifier::external_body]
pub(crate) fn sub_bits(a: u32, b: u32) -> (r: u32)
    ensures
        r == sub_bits_of(a, b),
{
    let x = rustc_apfloat::ieee::Single::from_bits(a as u128);
    let y = rustc_apfloat::ieee::Single::from_bits(b as u128);
    (x - y).value.to_bits() as u32
}

/// Relies on `core::ops::Mul for rustc_apfloat::ieee::Single`: IEEE
/// single-precision multiplication on bit patterns, rounded to nearest,
/// ties to even, a function of the two operands alone.
#[verifier::external_body]
pub(crate) fn mul_bits(a: u32, b: u32) -> (r: u32)
    ensures
        r == mul_bits_of(a, b),
{
    let x = rustc_apfloat::ieee::Single::from_bits(a as u128);
    let y = rustc_apfloat::ieee::Single::from_bits(b as u128);
    (x * y).value.to_bits() as u32
}

/// Relies on `core::ops::Div for rustc_apfloat::ieee::Single`: IEEE
/// single-precision division on bit patterns, rounded to nearest, ties to
/// even, a function of the two operands alone.
#[verifier::external_body]
pub(crate) fn div_bits(a: u32, b: u32) -> (r: u32)
    ensures
        r == div_bits_of(a, b),
{
    let x = rustc_apfloat::ieee::Single::from_bits(a as u128);
    let y = rustc_apfloat::ieee::Single::from_bits(b as u128);
    (x / y).value.to_bits() as u32
}

} // verus!
