//! Fixed-point scalars.
//!
//! A coordinate on the complex plane is a binary fixed-point number: a raw
//! `i64` holding the value scaled by `FIX_ONE` (56 fractional bits).  All
//! arithmetic on raw values is exact integer arithmetic, so every step of the
//! evaluation pipeline has a precise mathematical description.

use vstd::prelude::*;

verus! {

/// One unit on the coordinate axis, as a raw fixed-point value
/// (2 to the 56th; 56 fractional bits).
pub const FIX_ONE: i64 = 0x100_0000_0000_0000;

/// Largest raw magnitude a coordinate may carry (value 64).  Raw values
/// beyond it are saturated when a sample is formed or an operation
/// overshoots; anything that large is far outside every escape radius,
/// so saturation never changes whether a point escapes.
pub const FIX_MAX: i64 = 0x4000_0000_0000_0000;

/// Saturation of a raw value into the representable coordinate range.
pub open spec fn spec_sat(x: int) -> int {
    if x > FIX_MAX as int {
        FIX_MAX as int
    } else if x < -(FIX_MAX as int) {
        -(FIX_MAX as int)
    } else {
        x
    }
}

/// A raw value that saturation leaves unchanged.
pub open spec fn fix_valid(x: int) -> bool {
    -(FIX_MAX as int) <= x <= FIX_MAX as int
}

/// Division by a positive divisor that truncates toward zero, as Rust's
/// integer division does.
pub open spec fn spec_tdiv(x: int, d: int) -> int
    recommends
        d > 0,
{
    if x >= 0 {
        x / d
    } else {
        -((-x) / d)
    }
}

/// Saturate a raw coordinate into the representable range.
pub fn sat64(x: i64) -> (r: i64)
    ensures
        r as int == spec_sat(x as int),
        fix_valid(r as int),
{
    if x > FIX_MAX {
        FIX_MAX
    } else if x < -FIX_MAX {
        -FIX_MAX
    } else {
        x
    }
}

/// Saturate a wide intermediate into the representable range.
pub fn sat128(x: i128) -> (r: i64)
    ensures
        r as int == spec_sat(x as int),
        fix_valid(r as int),
{
    if x > FIX_MAX as i128 {
        FIX_MAX
    } else if x < -(FIX_MAX as i128) {
        -FIX_MAX
    } else {
        x as i64
    }
}

/// Scale a wide product back down by one fixed-point unit, truncating
/// toward zero.
pub fn tdiv_unit(x: i128) -> (r: i128)
    requires
        x != i128::MIN,
    ensures
        r as int == spec_tdiv(x as int, FIX_ONE as int),
{
    if x >= 0 {
        ((x as u128) / (FIX_ONE as u128)) as i128
    } else {
        let m = (-x) as u128;
        -((m / (FIX_ONE as u128)) as i128)
    }
}

/// Truncating division of a wide value by an arbitrary positive divisor.
pub fn tdiv128(x: i128, d: i128) -> (r: i128)
    requires
        d > 0,
        x != i128::MIN,
    ensures
        r as int == spec_tdiv(x as int, d as int),
{
    if x >= 0 {
        ((x as u128) / (d as u128)) as i128
    } else {
        let m = (-x) as u128;
        -((m / (d as u128)) as i128)
    }
}

/// The product of two values is bounded by the product of their bounds.
pub proof fn lemma_mul_bound(a: int, b: int, ba: int, bb: int)
    by (nonlinear_arith)
    requires
        -ba <= a <= ba,
        -bb <= b <= bb,
    ensures
        -(ba * bb) <= a * b <= ba * bb,
{
}

/// Truncating division never increases magnitude: the square of the scaled
/// quotient stays within the square of the dividend.
pub proof fn lemma_tdiv_sq(x: int, d: int)
    by (nonlinear_arith)
    requires
        d > 0,
    ensures
        (spec_tdiv(x, d) * d) * (spec_tdiv(x, d) * d) <= x * x,
{
}

/// Twice a product lies between the negated and the plain sum of squares
/// (the squares of the difference and of the sum are nonnegative).
pub proof fn lemma_product_vs_squares(a: int, b: int)
    by (nonlinear_arith)
    ensures
        -(a * a + b * b) <= 2 * (a * b) <= a * a + b * b,
{
}

/// Truncating division keeps the quotient's magnitude within the bound
/// given by a bound on the dividend.
pub proof fn lemma_tdiv_bound(x: int, d: int, b: int)
    by (nonlinear_arith)
    requires
        d > 0,
        b >= 0,
        -(b * d) <= x <= b * d,
    ensures
        -b <= spec_tdiv(x, d) <= b,
{
}

} // verus!
