//! Complex samples on the fixed-point plane.
//!
//! A product is scaled back by one fixed-point unit with a single truncation
//! toward zero per component, so the magnitude of a computed product never
//! exceeds the magnitude of the exact product.  That exactness is what the
//! interior-region law in `laws` rests on.

use vstd::prelude::*;
use crate::fixed::{
    spec_sat, spec_tdiv, fix_valid, sat128, tdiv_unit, lemma_mul_bound, FIX_MAX, FIX_ONE,
};

verus! {

/// One point of the complex plane, both coordinates raw fixed-point values.
#[derive(Clone, Copy, Debug, PartialEq, Eq, Structural)]
pub struct Complex {
    pub re: i64,
    pub im: i64,
}

/// Both coordinates within the saturation range.
pub open spec fn complex_valid(z: Complex) -> bool {
    fix_valid(z.re as int) && fix_valid(z.im as int)
}

/// Real part of the saturated fixed-point product of two samples.
pub open spec fn spec_mul_re(a: Complex, b: Complex) -> int {
    spec_sat(spec_tdiv(a.re * b.re - a.im * b.im, FIX_ONE as int))
}

/// Imaginary part of the saturated fixed-point product of two samples.
pub open spec fn spec_mul_im(a: Complex, b: Complex) -> int {
    spec_sat(spec_tdiv(a.re * b.im + a.im * b.re, FIX_ONE as int))
}

/// The saturated fixed-point product of two samples.
pub open spec fn spec_mul(a: Complex, b: Complex) -> Complex {
    Complex { re: spec_mul_re(a, b) as i64, im: spec_mul_im(a, b) as i64 }
}

/// The saturated sum of two samples.
pub open spec fn spec_add(a: Complex, b: Complex) -> Complex {
    Complex {
        re: spec_sat(a.re as int + b.re as int) as i64,
        im: spec_sat(a.im as int + b.im as int) as i64,
    }
}

/// The squared norm of a sample, as an exact integer at twice the
/// fixed-point scale.
pub open spec fn spec_norm_sqr(z: Complex) -> int {
    z.re * z.re + z.im * z.im
}

/// `z` raised to the power `p` by repeated saturated multiplication,
/// with `z^0` and `z^1` both `z` itself (the power loop starts from `z`).
pub open spec fn spec_pow(z: Complex, p: nat) -> Complex
    decreases p,
{
    if p <= 1 {
        z
    } else {
        spec_mul(spec_pow(z, (p - 1) as nat), z)
    }
}

impl Complex {
    /// Form a sample, saturating both raw coordinates.
    pub fn new(re: i64, im: i64) -> (z: Complex)
        ensures
            z.re as int == spec_sat(re as int),
            z.im as int == spec_sat(im as int),
            complex_valid(z),
    {
        Complex { re: crate::fixed::sat64(re), im: crate::fixed::sat64(im) }
    }

    /// Saturated fixed-point product.
    pub fn mul(self, b: Complex) -> (r: Complex)
        requires
            complex_valid(self),
            complex_valid(b),
        ensures
            r == spec_mul(self, b),
            complex_valid(r),
    {
        proof {
            lemma_mul_bound(self.re as int, b.re as int, FIX_MAX as int, FIX_MAX as int);
            lemma_mul_bound(self.im as int, b.im as int, FIX_MAX as int, FIX_MAX as int);
            lemma_mul_bound(self.re as int, b.im as int, FIX_MAX as int, FIX_MAX as int);
            lemma_mul_bound(self.im as int, b.re as int, FIX_MAX as int, FIX_MAX as int);
        }
        let pr = (self.re as i128) * (b.re as i128) - (self.im as i128) * (b.im as i128);
        let pi = (self.re as i128) * (b.im as i128) + (self.im as i128) * (b.re as i128);
        let re = sat128(tdiv_unit(pr));
        let im = sat128(tdiv_unit(pi));
        Complex { re, im }
    }

    /// Saturated sum.
    pub fn add(self, b: Complex) -> (r: Complex)
        ensures
            r == spec_add(self, b),
            complex_valid(r),
    {
        let re = sat128(self.re as i128 + b.re as i128);
        let im = sat128(self.im as i128 + b.im as i128);
        Complex { re, im }
    }

    /// Exact squared norm (scale: twice the fixed-point scale).
    pub fn norm_sqr(self) -> (n: u128)
        requires
            complex_valid(self),
        ensures
            n as int == spec_norm_sqr(self),
    {
        proof {
            lemma_mul_bound(self.re as int, self.re as int, FIX_MAX as int, FIX_MAX as int);
            lemma_mul_bound(self.im as int, self.im as int, FIX_MAX as int, FIX_MAX as int);
            assert(self.re * self.re >= 0) by (nonlinear_arith);
            assert(self.im * self.im >= 0) by (nonlinear_arith);
        }
        let rr = (self.re as i128) * (self.re as i128);
        let ii = (self.im as i128) * (self.im as i128);
        (rr as u128) + (ii as u128)
    }

    /// Saturated power by repeated multiplication.
    pub fn pow(self, p: u32) -> (r: Complex)
        requires
            complex_valid(self),
        ensures
            r == spec_pow(self, p as nat),
            complex_valid(r),
    {
        let mut w = self;
        let mut k: u32 = 1;
        while k < p
            invariant
                1 <= k,
                k <= p || k == 1,
                complex_valid(self),
                complex_valid(w),
                w == spec_pow(self, k as nat),
            decreases p - k,
        {
            w = w.mul(self);
            k = k + 1;
        }
        w
    }
}

} // verus!
