//! Fixed-point arithmetic at seven decimal digits of precision.
//!
//! Every multiply rounds in a stated direction: value-direction computations
//! round down (`floor`), fee-direction computations round up (`ceil`). The
//! executable operations call into the `soroban_fixed_point_math` crate and
//! are proved against the exact mathematical `floor`/`ceil` quotients.

use vstd::prelude::*;

verus! {

/// Fixed-point scale: a value of `SCALAR_7` denotes 1.0.
pub const SCALAR_7: i128 = 10_000_000;

/// Quotient rounded toward negative infinity. For a positive divisor this is
/// exactly Verus's Euclidean `/` on `int`.
pub open spec fn floor_div(n: int, d: int) -> int {
    n / d
}

/// Quotient rounded toward positive infinity, for a positive divisor.
pub open spec fn ceil_div(n: int, d: int) -> int {
    if n % d == 0 {
        n / d
    } else {
        n / d + 1
    }
}

/// `floor(x * y / d)`: scaled product, rounded down.
pub open spec fn mul_floor(x: int, y: int, d: int) -> int {
    floor_div(x * y, d)
}

/// `ceil(x * y / d)`: scaled product, rounded up.
pub open spec fn mul_ceil(x: int, y: int, d: int) -> int {
    ceil_div(x * y, d)
}

/// `floor(x * d / y)`: scaled quotient, rounded down.
pub open spec fn div_floor(x: int, y: int, d: int) -> int {
    floor_div(x * d, y)
}

/// `ceil(x * d / y)`: scaled quotient, rounded up.
pub open spec fn div_ceil(x: int, y: int, d: int) -> int {
    ceil_div(x * d, y)
}

/// Whether a mathematical integer is representable as an `i128`.
pub open spec fn fits_i128(n: int) -> bool {
    i128::MIN <= n <= i128::MAX
}

/// Relies on `soroban_fixed_point_math::FixedPoint::fixed_mul_floor` for
/// `i128`: returns `floor(x * y / d)`, or `None` when `x * y` overflows
/// `i128` or `d` is zero.
#[verifier::external_body]
fn raw_mul_floor(x: i128, y: i128, d: i128) -> (r: Option<i128>)
    ensures
        fits_i128(x * y) && d > 0 ==> r is Some && r->Some_0 == mul_floor(x as int, y as int, d as int),
        !fits_i128(x * y) ==> r is None,
        d == 0 ==> r is None,
{
    soroban_fixed_point_math::FixedPoint::fixed_mul_floor(x, y, d)
}

/// Relies on `soroban_fixed_point_math::FixedPoint::fixed_mul_ceil` for
/// `i128`: returns `ceil(x * y / d)`, or `None` when `x * y` overflows
/// `i128` or `d` is zero.
#[verifier::external_body]
fn raw_mul_ceil(x: i128, y: i128, d: i128) -> (r: Option<i128>)
    ensures
        fits_i128(x * y) && d > 0 ==> r is Some && r->Some_0 == mul_ceil(x as int, y as int, d as int),
        !fits_i128(x * y) ==> r is None,
        d == 0 ==> r is None,
{
    soroban_fixed_point_math::FixedPoint::fixed_mul_ceil(x, y, d)
}

/// Relies on `soroban_fixed_point_math::FixedPoint::fixed_div_floor` for
/// `i128`: returns `floor(x * d / y)`, or `None` when `x * d` overflows
/// `i128` or `y` is zero.
#[verifier::external_body]
fn raw_div_floor(x: i128, y: i128, d: i128) -> (r: Option<i128>)
    ensures
        fits_i128(x * d) && y > 0 ==> r is Some && r->Some_0 == div_floor(x as int, y as int, d as int),
        !fits_i128(x * d) ==> r is None,
        y == 0 ==> r is None,
{
    soroban_fixed_point_math::FixedPoint::fixed_div_floor(x, y, d)
}

/// Relies on `soroban_fixed_point_math::FixedPoint::fixed_div_ceil` for
/// `i128`: returns `ceil(x * d / y)`, or `None` when `x * d` overflows
/// `i128` or `y` is zero.
#[verifier::external_body]
fn raw_div_ceil(x: i128, y: i128, d: i128) -> (r: Option<i128>)
    ensures
        fits_i128(x * d) && y > 0 ==> r is Some && r->Some_0 == div_ceil(x as int, y as int, d as int),
        !fits_i128(x * d) ==> r is None,
        y == 0 ==> r is None,
{
    soroban_fixed_point_math::FixedPoint::fixed_div_ceil(x, y, d)
}

/// For a positive divisor, a floored quotient lies between the dividend's
/// magnitudes, so it always fits in `i128` when the dividend does.
pub proof fn lemma_floor_div_in_range(n: int, d: int)
    requires
        d > 0,
    ensures
        n >= 0 ==> 0 <= floor_div(n, d) <= n,
        n < 0 ==> n <= floor_div(n, d) <= 0,
{
    assert(n >= 0 ==> 0 <= n / d <= n) by (nonlinear_arith)
        requires d > 0;
    assert(n < 0 ==> n <= n / d <= 0) by (nonlinear_arith)
        requires d > 0;
}

/// The ceiling quotient is the floored quotient plus at most one, and shares
/// its range bounds.
pub proof fn lemma_ceil_div_in_range(n: int, d: int)
    requires
        d > 0,
    ensures
        floor_div(n, d) <= ceil_div(n, d) <= floor_div(n, d) + 1,
        n >= 0 ==> 0 <= ceil_div(n, d) <= n,
        n < 0 ==> n <= ceil_div(n, d) <= 0,
{
    lemma_floor_div_in_range(n, d);
    if n % d == 0 {
    } else {
        assert(n % d > 0) by (nonlinear_arith)
            requires d > 0, n % d != 0;
        if n >= 0 {
            assert(n / d + 1 <= n) by (nonlinear_arith)
                requires d > 0, n >= 0, n % d != 0;
        } else {
            assert(n / d + 1 <= 0) by (nonlinear_arith)
                requires d > 0, n < 0, n % d != 0;
        }
    }
}

/// A floored quotient of at most `b * d` is at most `b`.
pub proof fn lemma_floor_div_le(n: int, d: int, b: int)
    requires
        d > 0,
        n <= b * d,
    ensures
        floor_div(n, d) <= b,
{
    vstd::arithmetic::div_mod::lemma_div_is_ordered(n, b * d, d);
    vstd::arithmetic::div_mod::lemma_div_multiples_vanish(b, d);
    assert(b * d == d * b) by (nonlinear_arith);
}

/// Multiplication of nonnegative values is monotone in both arguments.
pub proof fn lemma_mul_le(a: int, b: int, c: int, d: int)
    requires
        0 <= a <= b,
        0 <= c <= d,
    ensures
        a * c <= b * d,
{
    assert(a * c <= b * d) by (nonlinear_arith)
        requires
            0 <= a <= b,
            0 <= c <= d,
    ;
}

/// The product of two nonnegative integers is nonnegative.
pub proof fn lemma_mul_nonneg(x: int, y: int)
    requires
        x >= 0,
        y >= 0,
    ensures
        x * y >= 0,
{
    assert(x * y >= 0) by (nonlinear_arith)
        requires
            x >= 0,
            y >= 0,
    ;
}

/// The absolute value of an `i128` above the minimum.
pub fn abs_i128(x: i128) -> (r: i128)
    requires
        x > i128::MIN,
    ensures
        r == vstd::math::abs(x as int),
{
    if x >= 0 {
        x
    } else {
        -x
    }
}

/// `floor(x * y / d)` for a positive denominator; the product must fit.
pub fn fixed_mul_floor(x: i128, y: i128, d: i128) -> (r: i128)
    requires
        d > 0,
        fits_i128(x * y),
    ensures
        r == mul_floor(x as int, y as int, d as int),
{
    match raw_mul_floor(x, y, d) {
        Some(v) => v,
        None => vstd::pervasive::unreached(),
    }
}

/// `ceil(x * y / d)` for a positive denominator; the product must fit.
pub fn fixed_mul_ceil(x: i128, y: i128, d: i128) -> (r: i128)
    requires
        d > 0,
        fits_i128(x * y),
    ensures
        r == mul_ceil(x as int, y as int, d as int),
{
    match raw_mul_ceil(x, y, d) {
        Some(v) => v,
        None => vstd::pervasive::unreached(),
    }
}

/// `floor(x * d / y)` for a positive divisor; the product must fit.
pub fn fixed_div_floor(x: i128, y: i128, d: i128) -> (r: i128)
    requires
        y > 0,
        fits_i128(x * d),
    ensures
        r == div_floor(x as int, y as int, d as int),
{
    match raw_div_floor(x, y, d) {
        Some(v) => v,
        None => vstd::pervasive::unreached(),
    }
}

/// `ceil(x * d / y)` for a positive divisor; the product must fit.
pub fn fixed_div_ceil(x: i128, y: i128, d: i128) -> (r: i128)
    requires
        y > 0,
        fits_i128(x * d),
    ensures
        r == div_ceil(x as int, y as int, d as int),
{
    match raw_div_ceil(x, y, d) {
        Some(v) => v,
        None => vstd::pervasive::unreached(),
    }
}

} // verus!
