//! The arithmetic backend: every arithmetic step of the interpreter is
//! one call into the `rust_decimal` crate, made through the trusted
//! wrappers of this module. A wrapper converts a well-formed [`Number`]
//! to a backend decimal, makes one call, and converts the outcome back.
//!
//! What a call returns is named by an uninterpreted function
//! (`add_of`, `mul_of`, ...), since the backend's rounding behaviour
//! on overflow takes pages to state. Beside each name stand only the
//! facts that the backend's source plainly shows: the checked
//! operations return `None` rather than panic, results stay within the
//! 96-bit mantissa range, equal-scale sums and differences that fit
//! are exact, fitting products are exact, and comparison is numeric.

use vstd::prelude::*;

use crate::number::{spec_lt, Number, MAX_MANTISSA, MAX_SCALE};
use rust_decimal::Decimal;
use rust_decimal::MathematicalOps;

verus! {

/// What the backend returns for a checked addition.
pub uninterp spec fn add_of(a: Number, b: Number) -> Option<Number>;

/// What the backend returns for a checked subtraction.
pub uninterp spec fn sub_of(a: Number, b: Number) -> Option<Number>;

/// What the backend returns for a checked multiplication.
pub uninterp spec fn mul_of(a: Number, b: Number) -> Option<Number>;

/// What the backend returns for a checked division.
pub uninterp spec fn div_of(a: Number, b: Number) -> Option<Number>;

/// What the backend returns for a checked remainder.
pub uninterp spec fn rem_of(a: Number, b: Number) -> Option<Number>;

/// What the backend returns for a checked power.
pub uninterp spec fn pow_of(a: Number, b: Number) -> Option<Number>;

/// Relies on `rust_decimal::Decimal::checked_add`: `None` instead of a
/// panic on overflow; any result has a 96-bit mantissa and a scale of
/// at most 28; when the scales are equal and the mantissa sum fits,
/// the sum is exact at that scale.
#[verifier::external_body]
pub(crate) fn dec_add(a: &Number, b: &Number) -> (r: Option<Number>)
    requires
        a.wf(),
        b.wf(),
    ensures
        r == add_of(*a, *b),
        (r matches Some(n) ==> n.wf()),
        a.scale == b.scale && -MAX_MANTISSA <= a.mantissa + b.mantissa <= MAX_MANTISSA ==> r
            == Some(Number { mantissa: (a.mantissa + b.mantissa) as i128, scale: a.scale }),
{
    let x = Decimal::from_i128_with_scale(a.mantissa, a.scale);
    let y = Decimal::from_i128_with_scale(b.mantissa, b.scale);
    match x.checked_add(y) {
        Some(d) => Some(Number { mantissa: d.mantissa(), scale: d.scale() }),
        None => None,
    }
}

/// Relies on `rust_decimal::Decimal::checked_sub`: `None` instead of a
/// panic on overflow; any result has a 96-bit mantissa and a scale of
/// at most 28; when the scales are equal and the mantissa difference
/// fits, the difference is exact at that scale.
#[verifier::external_body]
pub(crate) fn dec_sub(a: &Number, b: &Number) -> (r: Option<Number>)
    requires
        a.wf(),
        b.wf(),
    ensures
        r == sub_of(*a, *b),
        (r matches Some(n) ==> n.wf()),
        a.scale == b.scale && -MAX_MANTISSA <= a.mantissa - b.mantissa <= MAX_MANTISSA ==> r
            == Some(Number { mantissa: (a.mantissa - b.mantissa) as i128, scale: a.scale }),
{
    let x = Decimal::from_i128_with_scale(a.mantissa, a.scale);
    let y = Decimal::from_i128_with_scale(b.mantissa, b.scale);
    match x.checked_sub(y) {
        Some(d) => Some(Number { mantissa: d.mantissa(), scale: d.scale() }),
        None => None,
    }
}

/// Relies on `rust_decimal::Decimal::checked_mul`: `None` instead of a
/// panic on overflow; any result has a 96-bit mantissa and a scale of
/// at most 28; a zero factor gives zero at scale zero; when both
/// factors are nonzero, the mantissa product fits, and the scales sum
/// to at most 28, the product is exact at the summed scale.
#[verifier::external_body]
pub(crate) fn dec_mul(a: &Number, b: &Number) -> (r: Option<Number>)
    requires
        a.wf(),
        b.wf(),
    ensures
        r == mul_of(*a, *b),
        (r matches Some(n) ==> n.wf()),
        a.mantissa == 0 || b.mantissa == 0 ==> r == Some(Number { mantissa: 0i128, scale: 0u32 }),
        a.mantissa != 0 && b.mantissa != 0 && -MAX_MANTISSA <= a.mantissa * b.mantissa
            <= MAX_MANTISSA && a.scale + b.scale <= MAX_SCALE ==> r == Some(
            Number {
                mantissa: (a.mantissa * b.mantissa) as i128,
                scale: (a.scale + b.scale) as u32,
            },
        ),
{
    let x = Decimal::from_i128_with_scale(a.mantissa, a.scale);
    let y = Decimal::from_i128_with_scale(b.mantissa, b.scale);
    match x.checked_mul(y) {
        Some(d) => Some(Number { mantissa: d.mantissa(), scale: d.scale() }),
        None => None,
    }
}

/// Relies on `rust_decimal::Decimal::checked_div`: `None` on division
/// by zero or overflow, never a panic; any result has a 96-bit
/// mantissa and a scale of at most 28; a zero dividend over a nonzero
/// divisor gives zero at scale zero.
#[verifier::external_body]
pub(crate) fn dec_div(a: &Number, b: &Number) -> (r: Option<Number>)
    requires
        a.wf(),
        b.wf(),
    ensures
        r == div_of(*a, *b),
        (r matches Some(n) ==> n.wf()),
        b.mantissa == 0 ==> r is None,
        b.mantissa != 0 && a.mantissa == 0 ==> r == Some(Number { mantissa: 0i128, scale: 0u32 }),
{
    let x = Decimal::from_i128_with_scale(a.mantissa, a.scale);
    let y = Decimal::from_i128_with_scale(b.mantissa, b.scale);
    match x.checked_div(y) {
        Some(d) => Some(Number { mantissa: d.mantissa(), scale: d.scale() }),
        None => None,
    }
}

/// Relies on `rust_decimal::Decimal::checked_rem`: `None` on a zero
/// divisor or overflow, never a panic; any result has a 96-bit
/// mantissa and a scale of at most 28; a zero dividend over a nonzero
/// divisor gives zero at scale zero.
#[verifier::external_body]
pub(crate) fn dec_rem(a: &Number, b: &Number) -> (r: Option<Number>)
    requires
        a.wf(),
        b.wf(),
    ensures
        r == rem_of(*a, *b),
        (r matches Some(n) ==> n.wf()),
        b.mantissa == 0 ==> r is None,
        b.mantissa != 0 && a.mantissa == 0 ==> r == Some(Number { mantissa: 0i128, scale: 0u32 }),
{
    let x = Decimal::from_i128_with_scale(a.mantissa, a.scale);
    let y = Decimal::from_i128_with_scale(b.mantissa, b.scale);
    match x.checked_rem(y) {
        Some(d) => Some(Number { mantissa: d.mantissa(), scale: d.scale() }),
        None => None,
    }
}

/// Relies on `rust_decimal::MathematicalOps::checked_powd`: `None` on
/// overflow; any result has a 96-bit mantissa and a scale of at most
/// 28; a zero exponent gives one, and a zero base with a nonzero
/// exponent gives zero. A fractional exponent goes through the
/// backend's exponential and logarithm approximations.
#[verifier::external_body]
pub(crate) fn dec_pow(a: &Number, b: &Number) -> (r: Option<Number>)
    requires
        a.wf(),
        b.wf(),
    ensures
        r == pow_of(*a, *b),
        (r matches Some(n) ==> n.wf()),
        b.mantissa == 0 ==> r == Some(Number { mantissa: 1i128, scale: 0u32 }),
        b.mantissa != 0 && a.mantissa == 0 ==> r == Some(Number { mantissa: 0i128, scale: 0u32 }),
{
    let x = Decimal::from_i128_with_scale(a.mantissa, a.scale);
    let y = Decimal::from_i128_with_scale(b.mantissa, b.scale);
    match x.checked_powd(y) {
        Some(d) => Some(Number { mantissa: d.mantissa(), scale: d.scale() }),
        None => None,
    }
}

/// Relies on `rust_decimal::Decimal`'s `Ord`: the order of decimals is
/// the numeric order of their values, which cross multiplication
/// states exactly.
#[verifier::external_body]
pub(crate) fn dec_lt(a: &Number, b: &Number) -> (r: bool)
    requires
        a.wf(),
        b.wf(),
    ensures
        r == spec_lt(*a, *b),
{
    let x = Decimal::from_i128_with_scale(a.mantissa, a.scale);
    let y = Decimal::from_i128_with_scale(b.mantissa, b.scale);
    x < y
}

} // verus!
