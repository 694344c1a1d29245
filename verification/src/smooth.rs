//! Smooth escape values.
//!
//! The raw iteration count colors in visible bands.  The smooth value
//! subtracts the base-`exponent` logarithm of the relative overshoot,
//! `log2(log2|z| / log2 R) / log2 p`, from the count, which spreads the
//! fractional part continuously.  All logarithms are the fixed-point
//! base-two logarithm from `log2`; ratios of logarithms do not depend on
//! the base, so this matches the classical natural-logarithm form.

use vstd::prelude::*;
use crate::complex::{complex_valid, spec_norm_sqr, Complex};
use crate::fixed::{spec_tdiv, tdiv128, FIX_ONE};
use crate::log2::{log2fix, spec_log2fix};

verus! {

/// The smooth escape value, as a raw fixed-point number on the iteration
/// axis.  Whenever a logarithm would leave its domain (tiny norm, a
/// degenerate radius or exponent), the plain iteration count is returned:
/// the calculation is total and never panics.
pub open spec fn spec_smooth(
    iterations: nat,
    z: Complex,
    exponent: nat,
    escape_radius: int,
    smoothing: bool,
) -> int {
    let base = iterations * (FIX_ONE as int);
    let nsq = spec_norm_sqr(z);
    if !smoothing || nsq < 1 || escape_radius < 1 || exponent < 1 {
        base
    } else {
        let l2r = spec_log2fix(escape_radius) - 56 * (FIX_ONE as int);
        if l2r < 1 {
            base
        } else {
            let l2z2 = spec_log2fix(nsq) - 112 * (FIX_ONE as int);
            let x = spec_tdiv(l2z2 * (FIX_ONE as int), 2 * l2r);
            if x < 1 {
                base
            } else {
                let l2p = spec_log2fix(exponent * (FIX_ONE as int)) - 56 * (FIX_ONE as int);
                if l2p < 1 {
                    base
                } else {
                    base - spec_tdiv(
                        (spec_log2fix(x) - 56 * (FIX_ONE as int)) * (FIX_ONE as int),
                        l2p,
                    )
                }
            }
        }
    }
}

/// Compute the smooth escape value for an escape result.  With smoothing
/// off this is the iteration count itself (scaled to the fixed point).
pub fn smooth_value(
    iterations: u32,
    z: Complex,
    exponent: u32,
    escape_radius: i64,
    smooth_coloring: bool,
) -> (v: i128)
    requires
        complex_valid(z),
    ensures
        v as int == spec_smooth(
            iterations as nat,
            z,
            exponent as nat,
            escape_radius as int,
            smooth_coloring,
        ),
        !smooth_coloring ==> v as int == iterations * (FIX_ONE as int),
{
    let base: i128 = (iterations as i128) * (FIX_ONE as i128);
    if !smooth_coloring {
        return base;
    }
    let nsq: u128 = z.norm_sqr();
    if nsq < 1 || escape_radius < 1 || exponent < 1 {
        return base;
    }
    let l2r: i128 = (log2fix(escape_radius as u128) as i128) - 56 * (FIX_ONE as i128);
    if l2r < 1 {
        return base;
    }
    let l2z2: i128 = (log2fix(nsq) as i128) - 112 * (FIX_ONE as i128);
    let x: i128 = tdiv128(l2z2 * (FIX_ONE as i128), 2 * l2r);
    if x < 1 {
        return base;
    }
    let scaled_exponent: u128 = (exponent as u128) * (FIX_ONE as u128);
    let l2p: i128 = (log2fix(scaled_exponent) as i128) - 56 * (FIX_ONE as i128);
    if l2p < 1 {
        return base;
    }
    let outer: i128 = (log2fix(x as u128) as i128) - 56 * (FIX_ONE as i128);
    base - tdiv128(outer * (FIX_ONE as i128), l2p)
}

} // verus!
