//! Fixed-point arithmetic for the real-valued quantities of the game.
//!
//! A quantity is a signed count of millionths. Products are rounded toward
//! zero and results that leave the range of `i64` stop at its ends.

use vstd::prelude::*;

verus! {

/// One whole, counted in millionths.
pub const UNIT: i64 = 1_000_000;

/// `x` held to the range of `i64`.
pub open spec fn saturated(x: int) -> int {
    if x > i64::MAX {
        i64::MAX as int
    } else if x < i64::MIN {
        i64::MIN as int
    } else {
        x
    }
}

/// The quotient of `n` by a positive `d`, rounded toward zero.
pub open spec fn quotient_toward_zero(n: int, d: int) -> int {
    if n >= 0 {
        n / d
    } else {
        -((-n) / d)
    }
}

/// The product of two quantities, as a quantity.
pub open spec fn scaled_product(a: int, b: int) -> int {
    quotient_toward_zero(a * b, UNIT as int)
}

/// The point between `min` and `max` that the roll selects; a roll is a
/// quantity in `[0, UNIT)`.
pub open spec fn interpolated(min: int, max: int, roll: int) -> int {
    min + scaled_product(roll, max - min)
}

/// The points one skill earns for a roll: the interpolated value weighted by
/// the skill's modifier.
pub open spec fn awarded(modifier: int, min: int, max: int, roll: int) -> int {
    saturated(scaled_product(modifier, interpolated(min, max, roll)))
}

/// The product of two numbers of 64 bits fits 128 bits.
pub proof fn lemma_product_bounds(a: int, b: int)
    requires
        -0x8000_0000_0000_0000 <= a <= 0x8000_0000_0000_0000,
        -0x8000_0000_0000_0000 <= b <= 0x8000_0000_0000_0000,
    ensures
        -0x4000_0000_0000_0000_0000_0000_0000_0000 <= a * b
            <= 0x4000_0000_0000_0000_0000_0000_0000_0000,
{
    assert(-0x4000_0000_0000_0000_0000_0000_0000_0000 <= a * b
        <= 0x4000_0000_0000_0000_0000_0000_0000_0000) by (nonlinear_arith)
        requires
            -0x8000_0000_0000_0000 <= a <= 0x8000_0000_0000_0000,
            -0x8000_0000_0000_0000 <= b <= 0x8000_0000_0000_0000,
    ;
}

/// The interpolated value lies between the two ends, whichever is larger.
pub proof fn lemma_interpolated_between(min: int, max: int, roll: int)
    requires
        0 <= roll < UNIT,
    ensures
        min <= max ==> min <= interpolated(min, max, roll) <= max,
        max <= min ==> max <= interpolated(min, max, roll) <= min,
{
    let d = max - min;
    if d >= 0 {
        assert(0 <= roll * d <= UNIT * d) by (nonlinear_arith)
            requires
                0 <= roll < UNIT,
                d >= 0,
        ;
        assert((roll * d) / (UNIT as int) <= d) by (nonlinear_arith)
            requires
                0 <= roll * d <= UNIT * d,
        ;
    } else {
        assert(0 <= -(roll * d) <= UNIT * (-d)) by (nonlinear_arith)
            requires
                0 <= roll < UNIT,
                d < 0,
        ;
        assert((-(roll * d)) / (UNIT as int) <= -d) by (nonlinear_arith)
            requires
                0 <= -(roll * d) <= UNIT * (-d),
        ;
    }
}

/// Sum of two quantities.
pub fn add_quantities(a: i64, b: i64) -> (r: i64)
    ensures
        r == saturated(a + b),
{
    let wide: i128 = a as i128 + b as i128;
    if wide > i64::MAX as i128 {
        i64::MAX
    } else if wide < i64::MIN as i128 {
        i64::MIN
    } else {
        wide as i64
    }
}

/// Product of two quantities, before it is held to the range of `i64`.
fn wide_product(a: i128, b: i128) -> (r: i128)
    requires
        i128::MIN <= a * b <= i128::MAX,
    ensures
        r == scaled_product(a as int, b as int),
{
    let product: i128 = a * b;
    product / (UNIT as i128)
}

/// Product of two quantities.
pub fn multiply_quantities(a: i64, b: i64) -> (r: i64)
    ensures
        r == saturated(scaled_product(a as int, b as int)),
{
    proof {
        lemma_product_bounds(a as int, b as int);
    }
    let wide: i128 = wide_product(a as i128, b as i128);
    if wide > i64::MAX as i128 {
        i64::MAX
    } else if wide < i64::MIN as i128 {
        i64::MIN
    } else {
        wide as i64
    }
}

/// The point between `min` and `max` that `roll` selects.
pub fn interpolate(min: i64, max: i64, roll: i64) -> (r: i64)
    requires
        0 <= roll < UNIT,
    ensures
        r == interpolated(min as int, max as int, roll as int),
{
    proof {
        lemma_interpolated_between(min as int, max as int, roll as int);
    }
    let span: i128 = max as i128 - min as i128;
    assert(-0x10_0000_0000_0000_0000_0000 <= roll * span <= 0x10_0000_0000_0000_0000_0000)
        by (nonlinear_arith)
        requires
            0 <= roll < 0x10_0000,
            -0x1_0000_0000_0000_0000 <= span <= 0x1_0000_0000_0000_0000,
    ;
    let part: i128 = wide_product(roll as i128, span);
    (min as i128 + part) as i64
}

/// The points a skill earns: `modifier * (roll * (max - min) + min)`.
pub fn award(modifier: i64, min: i64, max: i64, roll: i64) -> (r: i64)
    requires
        0 <= roll < UNIT,
    ensures
        r == awarded(modifier as int, min as int, max as int, roll as int),
{
    multiply_quantities(modifier, interpolate(min, max, roll))
}

} // verus!
