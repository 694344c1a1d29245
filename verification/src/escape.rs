//! Escape-time evaluation.
//!
//! The orbit of a point `c` is `z_0 = c`, `z_{k+1} = z_k^p + c` in saturated
//! fixed-point arithmetic.  A point escapes as soon as its squared norm
//! reaches a threshold; the evaluator returns how many steps ran before the
//! escape (or the iteration budget, which signals "assumed inside the set")
//! together with the final sample.

use vstd::prelude::*;
use crate::complex::{complex_valid, spec_add, spec_norm_sqr, spec_pow, Complex};
use crate::fixed::{lemma_mul_bound, spec_sat, FIX_ONE};

verus! {

/// Squared escape threshold (scale: twice the fixed-point scale) used by
/// the canonical evaluator: the fixed escape radius 3, squared.
pub open spec fn spec_canon_threshold() -> int {
    9 * (FIX_ONE as int) * (FIX_ONE as int)
}

/// Has the orbit point left the disk whose squared norm is `t`?
pub open spec fn spec_escaped(z: Complex, t: int) -> bool {
    spec_norm_sqr(z) >= t
}

/// One orbit step: `z^p + c` in saturated fixed-point arithmetic.
pub open spec fn spec_step(z: Complex, c: Complex, p: nat) -> Complex {
    spec_add(spec_pow(z, p), c)
}

/// Number of orbit steps, at most `fuel`, before the orbit starting at `z`
/// escapes the squared-norm threshold `t`.
pub open spec fn spec_iters(z: Complex, c: Complex, t: int, p: nat, fuel: nat) -> nat
    decreases fuel,
{
    if fuel == 0 || spec_escaped(z, t) {
        0
    } else {
        1 + spec_iters(spec_step(z, c, p), c, t, p, (fuel - 1) as nat)
    }
}

/// The orbit point at which the evaluation with budget `fuel` stops:
/// the first escaped point, or the point reached when the budget runs out.
pub open spec fn spec_stop(z: Complex, c: Complex, t: int, p: nat, fuel: nat) -> Complex
    decreases fuel,
{
    if fuel == 0 || spec_escaped(z, t) {
        z
    } else {
        spec_stop(spec_step(z, c, p), c, t, p, (fuel - 1) as nat)
    }
}

/// Taking one more unescaped step extends the count by one.
pub proof fn lemma_iters_snoc(z: Complex, c: Complex, t: int, p: nat, k: nat)
    requires
        spec_iters(z, c, t, p, k) == k,
        !spec_escaped(spec_stop(z, c, t, p, k), t),
    ensures
        spec_iters(z, c, t, p, k + 1) == k + 1,
        spec_stop(z, c, t, p, k + 1) == spec_step(spec_stop(z, c, t, p, k), c, p),
    decreases k,
{
    if k == 0 {
        assert(!spec_escaped(z, t));
        assert(spec_iters(z, c, t, p, 1) == 1 + spec_iters(spec_step(z, c, p), c, t, p, 0));
        assert(spec_iters(spec_step(z, c, p), c, t, p, 0) == 0);
        assert(spec_stop(z, c, t, p, 1) == spec_stop(spec_step(z, c, p), c, t, p, 0));
    } else {
        assert(!spec_escaped(z, t));
        lemma_iters_snoc(spec_step(z, c, p), c, t, p, (k - 1) as nat);
        assert(spec_iters(z, c, t, p, k + 1) == 1 + spec_iters(spec_step(z, c, p), c, t, p, k));
        assert(spec_stop(z, c, t, p, k + 1) == spec_stop(spec_step(z, c, p), c, t, p, k));
        assert(spec_stop(z, c, t, p, k) == spec_stop(spec_step(z, c, p), c, t, p, (k - 1) as nat));
    }
}

/// Once the orbit has escaped after `k` steps, a larger budget changes
/// neither the count nor the stopping point.
pub proof fn lemma_iters_extend(z: Complex, c: Complex, t: int, p: nat, k: nat, m: nat)
    requires
        spec_iters(z, c, t, p, k) == k,
        spec_escaped(spec_stop(z, c, t, p, k), t),
        k <= m,
    ensures
        spec_iters(z, c, t, p, m) == k,
        spec_stop(z, c, t, p, m) == spec_stop(z, c, t, p, k),
    decreases k,
{
    if k == 0 {
    } else {
        lemma_iters_extend(spec_step(z, c, p), c, t, p, (k - 1) as nat, (m - 1) as nat);
    }
}

/// The count never exceeds the budget.
pub proof fn lemma_iters_le_fuel(z: Complex, c: Complex, t: int, p: nat, fuel: nat)
    ensures
        spec_iters(z, c, t, p, fuel) <= fuel,
    decreases fuel,
{
    if fuel == 0 || spec_escaped(z, t) {
    } else {
        lemma_iters_le_fuel(spec_step(z, c, p), c, t, p, (fuel - 1) as nat);
    }
}

/// Core evaluation loop: iterate `z <- z^p + c` from `z = c` while the
/// squared norm stays under `t_sq` and the budget allows.
fn escape_loop(c: Complex, max_iterations: u32, t_sq: u128, exponent: u32) -> (r: (u32, Complex))
    requires
        complex_valid(c),
        exponent >= 1,
    ensures
        r.0 as nat == spec_iters(c, c, t_sq as int, exponent as nat, max_iterations as nat),
        r.1 == spec_stop(c, c, t_sq as int, exponent as nat, max_iterations as nat),
        r.0 <= max_iterations,
        complex_valid(r.1),
{
    let mut z = c;
    let mut iter: u32 = 0;
    let ghost t = t_sq as int;
    let ghost p = exponent as nat;
    loop
        invariant
            complex_valid(c),
            complex_valid(z),
            exponent >= 1,
            p == exponent as nat,
            t == t_sq as int,
            iter <= max_iterations,
            spec_iters(c, c, t, p, iter as nat) == iter as nat,
            z == spec_stop(c, c, t, p, iter as nat),
        decreases max_iterations - iter,
    {
        if z.norm_sqr() >= t_sq {
            proof {
                lemma_iters_extend(c, c, t, p, iter as nat, max_iterations as nat);
            }
            return (iter, z);
        }
        if iter >= max_iterations {
            return (iter, z);
        }
        proof {
            lemma_iters_snoc(c, c, t, p, iter as nat);
        }
        z = z.pow(exponent).add(c);
        iter = iter + 1;
    }
}

/// Escape-time evaluation for the quadratic set (exponent 2), against the
/// squared escape radius `escape_radius_sq` (a raw fixed-point value).
///
/// Returns the number of iterations before the squared norm of the orbit
/// reached `escape_radius_sq` (the full budget when it never did) and the
/// final orbit sample.
pub fn calculate_escape_iterations_quadratic(c: Complex, max_iterations: u32, escape_radius_sq: i64)
    -> (r: (u32, Complex))
    requires
        complex_valid(c),
    ensures
        ({
            let t = if escape_radius_sq >= 0 {
                escape_radius_sq * FIX_ONE
            } else {
                0
            };
            r.0 as nat == spec_iters(c, c, t, 2, max_iterations as nat)
                && r.1 == spec_stop(c, c, t, 2, max_iterations as nat)
        }),
        r.0 <= max_iterations,
        complex_valid(r.1),
{
    let t_sq: u128 = if escape_radius_sq >= 0 {
        proof {
            lemma_mul_bound(
                escape_radius_sq as int,
                FIX_ONE as int,
                0x8000_0000_0000_0000,
                0x100_0000_0000_0000,
            );
        }
        (escape_radius_sq as u128) * (FIX_ONE as u128)
    } else {
        0
    };
    escape_loop(c, max_iterations, t_sq, 2)
}

/// Escape-time evaluation for a general exponent, against the escape
/// radius `escape_radius` (a raw fixed-point value).
pub fn calculate_escape_iterations_general(
    c: Complex,
    max_iterations: u32,
    escape_radius: i64,
    exponent: u32,
) -> (r: (u32, Complex))
    requires
        complex_valid(c),
        exponent >= 1,
    ensures
        ({
            let t = if escape_radius >= 0 {
                escape_radius * escape_radius
            } else {
                0
            };
            r.0 as nat == spec_iters(c, c, t, exponent as nat, max_iterations as nat)
                && r.1 == spec_stop(c, c, t, exponent as nat, max_iterations as nat)
        }),
        r.0 <= max_iterations,
        complex_valid(r.1),
{
    let t_sq: u128 = if escape_radius >= 0 {
        proof {
            lemma_mul_bound(
                escape_radius as int,
                escape_radius as int,
                0x8000_0000_0000_0000,
                0x8000_0000_0000_0000,
            );
        }
        (escape_radius as u128) * (escape_radius as u128)
    } else {
        0
    };
    escape_loop(c, max_iterations, t_sq, exponent)
}

/// Iteration count of the canonical evaluation (escape radius 3) of the
/// point whose raw coordinates saturate to `(x, y)`.
pub open spec fn spec_escape_count(x: int, y: int, max_iterations: nat, exponent: nat) -> nat {
    let c = Complex { re: spec_sat(x) as i64, im: spec_sat(y) as i64 };
    spec_iters(c, c, spec_canon_threshold(), exponent, max_iterations)
}

/// Final sample of the canonical evaluation of the point whose raw
/// coordinates saturate to `(x, y)`.
pub open spec fn spec_escape_stop(x: int, y: int, max_iterations: nat, exponent: nat) -> Complex {
    let c = Complex { re: spec_sat(x) as i64, im: spec_sat(y) as i64 };
    spec_stop(c, c, spec_canon_threshold(), exponent, max_iterations)
}

/// Canonical escape-time evaluation at the fixed escape radius 3: saturate
/// the raw coordinates, then run the quadratic evaluator for exponent 2 and
/// the general one otherwise (the two agree on the threshold, norm-squared
/// at least 9).
pub fn calculate_escape_iterations(x: i64, y: i64, max_iterations: u32, exponent: u32) -> (r: (
    u32,
    Complex,
))
    requires
        exponent >= 1,
    ensures
        r.0 as nat == spec_escape_count(x as int, y as int, max_iterations as nat, exponent as nat),
        r.1 == spec_escape_stop(x as int, y as int, max_iterations as nat, exponent as nat),
        r.0 <= max_iterations,
        complex_valid(r.1),
{
    let c = Complex::new(x, y);
    if exponent == 2 {
        let rsq: i64 = 9 * FIX_ONE;
        assert(rsq * (FIX_ONE as int) == 9 * (FIX_ONE as int) * (FIX_ONE as int))
            by (nonlinear_arith)
            requires
                rsq == 9 * (FIX_ONE as int),
        ;
        calculate_escape_iterations_quadratic(c, max_iterations, rsq)
    } else {
        let radius: i64 = 3 * FIX_ONE;
        assert(radius * radius == 9 * (FIX_ONE as int) * (FIX_ONE as int)) by (nonlinear_arith)
            requires
                radius == 3 * (FIX_ONE as int),
        ;
        calculate_escape_iterations_general(c, max_iterations, radius, exponent)
    }
}

/// Does the canonical evaluation of `(x, y)` exhaust the full budget?
pub open spec fn spec_in_set(x: int, y: int, max_iterations: nat, exponent: nat) -> bool {
    spec_escape_count(x, y, max_iterations, exponent) == max_iterations
}

/// A point is taken as inside the set when its evaluation exhausts the
/// whole iteration budget.
pub fn point_in_set(re: i64, im: i64, max_iterations: u32, exponent: u32) -> (r: bool)
    requires
        exponent >= 1,
    ensures
        r == spec_in_set(re as int, im as int, max_iterations as nat, exponent as nat),
{
    let (iterations, _z) = calculate_escape_iterations(re, im, max_iterations, exponent);
    iterations == max_iterations
}

} // verus!
