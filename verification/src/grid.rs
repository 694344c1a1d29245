//! Linear sample grids and the border-only interior test.
//!
//! A grid of `n` samples spans `[a, b]` with sample `i` at
//! `a + (b - a) * i / (n - 1)` (truncating division), so the first and last
//! samples hit the endpoints exactly.  The set is simply connected for
//! exponents of at least 2, so a rectangle whose whole sampled border is
//! taken as interior may be treated as interior throughout.

use vstd::prelude::*;
use crate::escape::{point_in_set, spec_in_set};
use crate::fixed::{sat128, spec_sat, spec_tdiv, tdiv128};

verus! {

/// Largest sample count a grid accepts (keeps all index arithmetic exact).
pub const GRID_MAX: usize = 0x4000_0000;

/// Sample `i` of the `n`-point grid spanning raw coordinates `a` to `b`,
/// saturated into the representable range.  A one-point grid samples `a`.
pub open spec fn spec_lin(a: int, b: int, n: int, i: int) -> int {
    if n <= 1 {
        spec_sat(a)
    } else {
        spec_sat(a + spec_tdiv((b - a) * i, n - 1))
    }
}

/// Compute one grid sample.
pub fn lin_sample(a: i64, b: i64, n: usize, i: usize) -> (r: i64)
    requires
        i < n,
        n <= GRID_MAX,
    ensures
        r as int == spec_lin(a as int, b as int, n as int, i as int),
{
    if n <= 1 {
        crate::fixed::sat64(a)
    } else {
        let diff = (b as i128) - (a as i128);
        proof {
            crate::fixed::lemma_mul_bound(
                diff as int,
                i as int,
                0x1_0000_0000_0000_0000,
                (n - 1) as int,
            );
        }
        let num = diff * (i as i128);
        let q = tdiv128(num, (n - 1) as i128);
        proof {
            crate::fixed::lemma_tdiv_bound(num as int, (n - 1) as int, 0x1_0000_0000_0000_0000);
        }
        sat128((a as i128) + q)
    }
}

/// Every sampled point of the rectangle's border is taken as interior:
/// the top and bottom sampled rows and the left and right sampled columns
/// all exhaust the iteration budget.
pub open spec fn spec_rect_in_set(
    re_min: int,
    re_max: int,
    re_n: int,
    im_min: int,
    im_max: int,
    im_n: int,
    max_iterations: nat,
    exponent: nat,
) -> bool {
    &&& (forall|i: int|
        0 <= i < re_n ==> spec_in_set(
            #[trigger] spec_lin(re_min, re_max, re_n, i),
            spec_lin(im_min, im_max, im_n, 0),
            max_iterations,
            exponent,
        ) && spec_in_set(
            spec_lin(re_min, re_max, re_n, i),
            spec_lin(im_min, im_max, im_n, im_n - 1),
            max_iterations,
            exponent,
        ))
    &&& (forall|j: int|
        0 <= j < im_n ==> spec_in_set(
            spec_lin(re_min, re_max, re_n, 0),
            #[trigger] spec_lin(im_min, im_max, im_n, j),
            max_iterations,
            exponent,
        ) && spec_in_set(
            spec_lin(re_min, re_max, re_n, re_n - 1),
            spec_lin(im_min, im_max, im_n, j),
            max_iterations,
            exponent,
        ))
}

/// Border-only interior test: true exactly when every sampled border point
/// of the rectangle exhausts the iteration budget.  The four corners are
/// evaluated first as a cheap rejection test.
pub fn rect_in_set(
    re_min: i64,
    re_max: i64,
    re_count: usize,
    im_min: i64,
    im_max: i64,
    im_count: usize,
    max_iterations: u32,
    exponent: u32,
) -> (r: bool)
    requires
        1 <= re_count <= GRID_MAX,
        1 <= im_count <= GRID_MAX,
        exponent >= 1,
    ensures
        r == spec_rect_in_set(
            re_min as int,
            re_max as int,
            re_count as int,
            im_min as int,
            im_max as int,
            im_count as int,
            max_iterations as nat,
            exponent as nat,
        ),
{
    let re_first = lin_sample(re_min, re_max, re_count, 0);
    let re_last = lin_sample(re_min, re_max, re_count, re_count - 1);
    let im_first = lin_sample(im_min, im_max, im_count, 0);
    let im_last = lin_sample(im_min, im_max, im_count, im_count - 1);

    // Corners: each is a border sample, so one escaping corner refutes the
    // border predicate outright.
    if !point_in_set(re_first, im_first, max_iterations, exponent)
        || !point_in_set(re_first, im_last, max_iterations, exponent)
        || !point_in_set(re_last, im_first, max_iterations, exponent)
        || !point_in_set(re_last, im_last, max_iterations, exponent) {
        return false;
    }

    let mut i: usize = 0;
    while i < re_count
        invariant
            re_count <= GRID_MAX,
            im_count <= GRID_MAX,
            1 <= re_count,
            1 <= im_count,
            exponent >= 1,
            i <= re_count,
            im_first as int == spec_lin(im_min as int, im_max as int, im_count as int, 0),
            im_last as int == spec_lin(
                im_min as int,
                im_max as int,
                im_count as int,
                im_count as int - 1,
            ),
            forall|k: int|
                0 <= k < i ==> spec_in_set(
                    #[trigger] spec_lin(re_min as int, re_max as int, re_count as int, k),
                    im_first as int,
                    max_iterations as nat,
                    exponent as nat,
                ) && spec_in_set(
                    spec_lin(re_min as int, re_max as int, re_count as int, k),
                    im_last as int,
                    max_iterations as nat,
                    exponent as nat,
                ),
        decreases re_count - i,
    {
        let re = lin_sample(re_min, re_max, re_count, i);
        if !point_in_set(re, im_first, max_iterations, exponent)
            || !point_in_set(re, im_last, max_iterations, exponent) {
            return false;
        }
        i = i + 1;
    }

    let mut j: usize = 0;
    while j < im_count
        invariant
            re_count <= GRID_MAX,
            im_count <= GRID_MAX,
            1 <= re_count,
            1 <= im_count,
            exponent >= 1,
            j <= im_count,
            re_first as int == spec_lin(re_min as int, re_max as int, re_count as int, 0),
            re_last as int == spec_lin(
                re_min as int,
                re_max as int,
                re_count as int,
                re_count as int - 1,
            ),
            forall|k: int|
                0 <= k < re_count ==> spec_in_set(
                    #[trigger] spec_lin(re_min as int, re_max as int, re_count as int, k),
                    spec_lin(im_min as int, im_max as int, im_count as int, 0),
                    max_iterations as nat,
                    exponent as nat,
                ) && spec_in_set(
                    spec_lin(re_min as int, re_max as int, re_count as int, k),
                    spec_lin(im_min as int, im_max as int, im_count as int, im_count as int - 1),
                    max_iterations as nat,
                    exponent as nat,
                ),
            forall|k: int|
                0 <= k < j ==> spec_in_set(
                    re_first as int,
                    #[trigger] spec_lin(im_min as int, im_max as int, im_count as int, k),
                    max_iterations as nat,
                    exponent as nat,
                ) && spec_in_set(
                    re_last as int,
                    spec_lin(im_min as int, im_max as int, im_count as int, k),
                    max_iterations as nat,
                    exponent as nat,
                ),
        decreases im_count - j,
    {
        let im = lin_sample(im_min, im_max, im_count, j);
        if !point_in_set(re_first, im, max_iterations, exponent)
            || !point_in_set(re_last, im, max_iterations, exponent) {
            return false;
        }
        j = j + 1;
    }

    true
}

} // verus!
