//! Laws of the evaluation pipeline, stated and proved over the spec
//! functions that the public contracts use.
//!
//! The raw scale: a plane coordinate `x` is stored as `x * FIX_ONE`
//! (`FIX_ONE` is two to the 56th), so a squared norm lives at scale
//! `FIX_ONE * FIX_ONE` (two to the 112th).  The literals below are the
//! squared-norm bounds `(1/4)^2` (two to the 108th), `(1/2)^2` (two to
//! the 110th) and component bounds at two to the 54th.

use vstd::prelude::*;
use crate::complex::{
    complex_valid, spec_add, spec_mul, spec_norm_sqr, spec_pow, Complex,
};
use crate::escape::{
    spec_canon_threshold, spec_escape_count, spec_in_set, spec_iters, spec_step,
};
use crate::fixed::{lemma_tdiv_sq, spec_sat, spec_tdiv, FIX_MAX, FIX_ONE};
use crate::grid::{spec_lin, spec_rect_in_set};
use crate::palette::{spec_position, spec_scaled_position, spec_val_sat, POS_STEPS};

verus! {

/// One saturated fixed-point squaring step keeps the orbit inside the
/// half-unit disk when the parameter lies in the quarter-unit disk: the
/// truncation toward zero never increases the square's norm, and
/// `|z^2 + c| <= |z|^2 + |c| <= 1/4 + 1/4 = 1/2`.
pub proof fn lemma_bulb_step(z: Complex, c: Complex)
    requires
        complex_valid(z),
        complex_valid(c),
        spec_norm_sqr(z) <= 0x4000_0000_0000_0000_0000_0000_0000,
        spec_norm_sqr(c) <= 0x1000_0000_0000_0000_0000_0000_0000,
    ensures
        spec_norm_sqr(spec_step(z, c, 2)) <= 0x4000_0000_0000_0000_0000_0000_0000,
        complex_valid(spec_step(z, c, 2)),
{
    let n = FIX_ONE as int;
    let zr = z.re as int;
    let zi = z.im as int;
    let cr = c.re as int;
    let ci = c.im as int;
    let d1 = zr * zr - zi * zi;
    let d2 = zr * zi + zi * zr;
    let a = zr * zr + zi * zi;

    // The norm of a complex square is the squared norm.
    assert(a >= 0 && d1 * d1 + d2 * d2 == a * a) by (nonlinear_arith)
        requires
            d1 == zr * zr - zi * zi,
            d2 == zr * zi + zi * zr,
            a == zr * zr + zi * zi,
    ;
    assert(a * a <= 0x4000_0000_0000_0000_0000_0000_0000 * 0x4000_0000_0000_0000_0000_0000_0000)
        by (nonlinear_arith)
        requires
            0 <= a,
            a <= 0x4000_0000_0000_0000_0000_0000_0000,
    ;

    // Truncation toward zero never grows either component's square.
    let sr = spec_tdiv(d1, n);
    let si = spec_tdiv(d2, n);
    lemma_tdiv_sq(d1, n);
    lemma_tdiv_sq(d2, n);
    let bq = 0x1000_0000_0000_0000_0000_0000_0000int;
    assert(0 <= sr * sr + si * si <= bq) by (nonlinear_arith)
        requires
            (sr * n) * (sr * n) <= d1 * d1,
            (si * n) * (si * n) <= d2 * d2,
            d1 * d1 + d2 * d2 == a * a,
            a * a <= 0x4000_0000_0000_0000_0000_0000_0000 * 0x4000_0000_0000_0000_0000_0000_0000,
            n == 0x100_0000_0000_0000,
            bq == 0x1000_0000_0000_0000_0000_0000_0000,
    ;

    // Components of both the truncated square and the parameter stay
    // within a quarter unit, so no saturation fires anywhere.
    assert(-0x40_0000_0000_0000 <= sr <= 0x40_0000_0000_0000 && -0x40_0000_0000_0000 <= si
        <= 0x40_0000_0000_0000) by (nonlinear_arith)
        requires
            0 <= sr * sr + si * si,
            sr * sr + si * si <= 0x1000_0000_0000_0000_0000_0000_0000,
    ;
    assert(0 <= cr * cr + ci * ci && -0x40_0000_0000_0000 <= cr <= 0x40_0000_0000_0000
        && -0x40_0000_0000_0000 <= ci <= 0x40_0000_0000_0000) by (nonlinear_arith)
        requires
            cr * cr + ci * ci <= 0x1000_0000_0000_0000_0000_0000_0000,
    ;
    assert(spec_sat(sr) == sr && spec_sat(si) == si);
    assert(spec_pow(z, 1) == z);
    assert(spec_pow(z, 2) == spec_mul(z, z));
    let sq = spec_mul(z, z);
    assert(sq.re as int == sr && sq.im as int == si);
    let w = spec_add(sq, c);
    assert(w.re as int == sr + cr && w.im as int == si + ci);

    // Each cross term lies between the negated and the plain sum of the
    // squares involved, so the whole cross contribution stays within the
    // two quarter-unit norms; the three parts then add up to at most the
    // half-unit disk's squared norm.
    let cross = sr * cr + si * ci;
    crate::fixed::lemma_product_vs_squares(sr, cr);
    crate::fixed::lemma_product_vs_squares(si, ci);
    assert(-2 * bq <= 2 * cross <= 2 * bq);
    assert((sr + cr) * (sr + cr) + (si + ci) * (si + ci) == sr * sr + si * si + 2 * cross + cr * cr
        + ci * ci) by (nonlinear_arith)
        requires
            cross == sr * cr + si * ci,
    ;
}

/// The orbit of a parameter in the quarter-unit disk, started anywhere in
/// the half-unit disk, never escapes: the whole iteration budget is spent.
pub proof fn lemma_bulb_orbit(z: Complex, c: Complex, fuel: nat)
    requires
        complex_valid(z),
        complex_valid(c),
        spec_norm_sqr(z) <= 0x4000_0000_0000_0000_0000_0000_0000,
        spec_norm_sqr(c) <= 0x1000_0000_0000_0000_0000_0000_0000,
    ensures
        spec_iters(z, c, spec_canon_threshold(), 2, fuel) == fuel,
    decreases fuel,
{
    assert(9 * (FIX_ONE as int) * (FIX_ONE as int) == 0x9_0000_0000_0000_0000_0000_0000_0000)
        by (nonlinear_arith)
        requires
            FIX_ONE as int == 0x100_0000_0000_0000,
    ;
    if fuel > 0 {
        lemma_bulb_step(z, c);
        lemma_bulb_orbit(spec_step(z, c, 2), c, (fuel - 1) as nat);
    }
}

/// Main-bulb interior law: every point whose raw squared norm is at most
/// `(FIX_ONE / 4)^2` (the plane disk `x^2 + y^2 <= 1/16`) exhausts any
/// iteration budget under the canonical quadratic evaluation.
pub proof fn lemma_main_bulb_interior(x: int, y: int, max_iterations: nat)
    requires
        x * x + y * y <= 0x1000_0000_0000_0000_0000_0000_0000,
    ensures
        spec_in_set(x, y, max_iterations, 2),
{
    assert(-0x40_0000_0000_0000 <= x <= 0x40_0000_0000_0000 && -0x40_0000_0000_0000 <= y
        <= 0x40_0000_0000_0000) by (nonlinear_arith)
        requires
            x * x + y * y <= 0x1000_0000_0000_0000_0000_0000_0000,
    ;
    assert(spec_sat(x) == x && spec_sat(y) == y);
    let c = Complex { re: x as i64, im: y as i64 };
    assert(spec_norm_sqr(c) == x * x + y * y);
    lemma_bulb_orbit(c, c, max_iterations);
}

/// Far-escape law: a point whose raw squared norm reaches the canonical
/// threshold (on the plane, `x^2 + y^2 >= 9`) escapes before the first
/// iteration, for every budget and exponent.  Saturation cannot pull such
/// a point back inside the threshold.
pub proof fn lemma_far_point_escapes_at_once(x: int, y: int, max_iterations: nat, exponent: nat)
    requires
        x * x + y * y >= spec_canon_threshold(),
    ensures
        spec_escape_count(x, y, max_iterations, exponent) == 0,
{
    let m = FIX_MAX as int;
    let sx = spec_sat(x);
    let sy = spec_sat(y);
    assert(9 * (FIX_ONE as int) * (FIX_ONE as int) == 0x9_0000_0000_0000_0000_0000_0000_0000)
        by (nonlinear_arith)
        requires
            FIX_ONE as int == 0x100_0000_0000_0000,
    ;
    if x > m || x < -m || y > m || y < -m {
        // One coordinate saturates; its square alone reaches the threshold.
        assert(m * m == 0x1000_0000_0000_0000_0000_0000_0000_0000) by (nonlinear_arith)
            requires
                m == 0x4000_0000_0000_0000,
        ;
        assert(sx * sx >= 0 && sy * sy >= 0) by (nonlinear_arith);
        if x > m || x < -m {
            assert(sx * sx == m * m) by (nonlinear_arith)
                requires
                    sx == m || sx == -m,
            ;
        } else {
            assert(sy * sy == m * m) by (nonlinear_arith)
                requires
                    sy == m || sy == -m,
            ;
        }
    } else {
        assert(sx == x && sy == y);
    }
    let c = Complex { re: sx as i64, im: sy as i64 };
    assert(spec_norm_sqr(c) >= spec_canon_threshold());
}

/// Palette monotonicity law: for a fixed window, a larger escape value
/// never maps to an earlier gradient position.
pub proof fn lemma_position_monotone(v1: int, v2: int, lo: int, hi: int)
    requires
        v1 <= v2,
    ensures
        spec_position(v1, lo, hi) <= spec_position(v2, lo, hi),
{
    let a = spec_val_sat(lo);
    let top = if spec_val_sat(hi) <= a {
        a + 1
    } else {
        spec_val_sat(hi)
    };
    let d = top - a;
    let n1 = spec_val_sat(v1) - a;
    let n2 = spec_val_sat(v2) - a;
    let s = POS_STEPS as int;
    if n1 > 0 {
        vstd::arithmetic::div_mod::lemma_div_is_ordered(n1 * s, n2 * s, d);
        assert(n1 * s <= n2 * s) by (nonlinear_arith)
            requires
                n1 <= n2,
                s >= 0,
        ;
    } else if n2 > 0 {
        assert(n2 * s >= 0) by (nonlinear_arith)
            requires
                n2 >= 0,
                s >= 0,
        ;
        vstd::arithmetic::div_mod::lemma_div_pos_is_pos(n2 * s, d);
    }
}

/// Reversal law: the reverse flag mirrors the gradient position across
/// the axis, so an escaping value that maps to position `p` without the
/// flag maps to `POS_STEPS - p` with it.
pub proof fn lemma_reverse_mirrors_position(v: int, lo: int, hi: int)
    ensures
        spec_scaled_position(v, lo, hi, true) == POS_STEPS as int - spec_scaled_position(
            v,
            lo,
            hi,
            false,
        ),
{
}

/// Reversal law at the pixel level: for an escaping point, rendering with
/// the reverse flag set yields the gradient color at the mirror image of
/// the position used without it, all other parameters held constant.
pub proof fn lemma_reverse_mirrors_pixel(
    re: int,
    im: int,
    max_iterations: nat,
    exponent: nat,
    palette: crate::palette::Palette,
    smooth_coloring: bool,
    palette_min: int,
    palette_max: int,
)
    requires
        !spec_in_set(re, im, max_iterations, exponent),
    ensures
        ({
            let v = crate::smooth::spec_smooth(
                spec_escape_count(re, im, max_iterations, exponent),
                crate::escape::spec_escape_stop(re, im, max_iterations, exponent),
                exponent,
                3 * (FIX_ONE as int),
                smooth_coloring,
            );
            let p = spec_position(v, palette_min, palette_max);
            let straight = crate::palette::gradient_sample(
                crate::palette::spec_palette_index(palette),
                p,
                POS_STEPS as int + 1,
            );
            let mirrored = crate::palette::gradient_sample(
                crate::palette::spec_palette_index(palette),
                POS_STEPS as int - p,
                POS_STEPS as int + 1,
            );
            crate::render::spec_pixel_color(
                re,
                im,
                max_iterations,
                exponent,
                palette,
                false,
                smooth_coloring,
                palette_min,
                palette_max,
            ) == (crate::palette::Rgb { r: straight.0, g: straight.1, b: straight.2 })
                && crate::render::spec_pixel_color(
                re,
                im,
                max_iterations,
                exponent,
                palette,
                true,
                smooth_coloring,
                palette_min,
                palette_max,
            ) == (crate::palette::Rgb { r: mirrored.0, g: mirrored.1, b: mirrored.2 })
        }),
{
}

/// Every sample of a grid lies between the grid's endpoints.
pub proof fn lemma_lin_between(a: int, b: int, n: int, i: int)
    requires
        0 <= i < n,
        crate::fixed::fix_valid(a),
        crate::fixed::fix_valid(b),
    ensures
        a <= b ==> a <= spec_lin(a, b, n, i) <= b,
        b <= a ==> b <= spec_lin(a, b, n, i) <= a,
{
    if n <= 1 {
        assert(spec_sat(a) == a);
    } else {
        let x = (b - a) * i;
        let d = n - 1;
        let t = spec_tdiv(x, d);
        if b >= a {
            assert(0 <= x <= (b - a) * d) by (nonlinear_arith)
                requires
                    x == (b - a) * i,
                    0 <= i <= d,
                    b - a >= 0,
            ;
            vstd::arithmetic::div_mod::lemma_div_pos_is_pos(x, d);
            crate::fixed::lemma_tdiv_bound(x, d, b - a);
            assert(spec_sat(a + t) == a + t);
        } else {
            assert((a - b) * d >= -x >= 0) by (nonlinear_arith)
                requires
                    x == (b - a) * i,
                    0 <= i <= d,
                    b - a <= 0,
            ;
            vstd::arithmetic::div_mod::lemma_div_pos_is_pos(-x, d);
            crate::fixed::lemma_tdiv_bound(x, d, a - b);
            assert(t <= 0);
            assert(spec_sat(a + t) == a + t);
        }
    }
}

/// Solid-black tile law: when all four bounds of a tile lie within the
/// disk of radius one quarter around the origin (each raw bound squared
/// at most two to the 106th, a twentieth of a unit each way, say), every
/// sampled border point of the tile exhausts the budget, so the renderer
/// returns the uniform black tile.
pub proof fn lemma_small_tile_fully_interior(
    re_min: int,
    re_max: int,
    re_n: int,
    im_min: int,
    im_max: int,
    im_n: int,
    max_iterations: nat,
)
    requires
        1 <= re_n,
        1 <= im_n,
        re_min * re_min <= 0x400_0000_0000_0000_0000_0000_0000,
        re_max * re_max <= 0x400_0000_0000_0000_0000_0000_0000,
        im_min * im_min <= 0x400_0000_0000_0000_0000_0000_0000,
        im_max * im_max <= 0x400_0000_0000_0000_0000_0000_0000,
    ensures
        spec_rect_in_set(re_min, re_max, re_n, im_min, im_max, im_n, max_iterations, 2),
{
    let hb = 0x20_0000_0000_0000int;
    assert(-hb <= re_min <= hb && -hb <= re_max <= hb && -hb <= im_min <= hb && -hb <= im_max
        <= hb) by (nonlinear_arith)
        requires
            re_min * re_min <= 0x400_0000_0000_0000_0000_0000_0000,
            re_max * re_max <= 0x400_0000_0000_0000_0000_0000_0000,
            im_min * im_min <= 0x400_0000_0000_0000_0000_0000_0000,
            im_max * im_max <= 0x400_0000_0000_0000_0000_0000_0000,
            hb == 0x20_0000_0000_0000,
    ;
    assert forall|i: int, j: int| 0 <= i < re_n && 0 <= j < im_n implies spec_in_set(
        #[trigger] spec_lin(re_min, re_max, re_n, i),
        #[trigger] spec_lin(im_min, im_max, im_n, j),
        max_iterations,
        2,
    ) by {
        lemma_lin_between(re_min, re_max, re_n, i);
        lemma_lin_between(im_min, im_max, im_n, j);
        let x = spec_lin(re_min, re_max, re_n, i);
        let y = spec_lin(im_min, im_max, im_n, j);
        assert(x * x + y * y <= 0x1000_0000_0000_0000_0000_0000_0000) by (nonlinear_arith)
            requires
                -hb <= x <= hb,
                -hb <= y <= hb,
                hb == 0x20_0000_0000_0000,
        ;
        lemma_main_bulb_interior(x, y, max_iterations);
    }
}

} // verus!
