//! The tile renderer: the full pipeline from plane bounds to an RGBA
//! pixel buffer.
//!
//! Every pixel's color is pinned by `spec_pixel_color`: evaluate the
//! escape time, take the smooth value, map it into the palette window and
//! sample the gradient; a point that exhausts the budget is pure black.
//! A tile whose whole sampled border exhausts the budget is filled black
//! without per-pixel work: the set is simply connected, so a rectangle
//! with an interior border is interior throughout.

use vstd::prelude::*;
use crate::complex::Complex;
use crate::escape::{
    calculate_escape_iterations, spec_escape_count, spec_escape_stop, spec_in_set,
};
use crate::fixed::FIX_ONE;
use crate::grid::{lin_sample, rect_in_set, spec_lin, spec_rect_in_set, GRID_MAX};
use crate::palette::{
    get_color_palette, gradient_sample, palette_position, palette_sample, spec_get_color_palette,
    spec_palette_index, spec_scaled_position, Palette, Rgb, POS_STEPS,
};
use crate::smooth::{smooth_value, spec_smooth};

verus! {

/// Bytes per pixel in the output buffer: red, green, blue, alpha.
pub const NUM_COLOR_CHANNELS: usize = 4;

/// A color space in which hue, saturation and lightness adjustments can
/// be applied to a rendered color.  The adjustments themselves run in
/// floating point outside the verified numeric core; the core renders
/// plain sRGB bytes.
#[derive(Clone, Copy, Debug)]
pub enum ValidColorSpace {
    Hsl,
    Hsluv,
    Lch,
    Okhsl,
}

/// The color of the pixel at plane coordinates `(re, im)`: black when the
/// point exhausts the iteration budget, otherwise the palette sample at
/// the position of its smooth escape value within the palette window.
pub open spec fn spec_pixel_color(
    re: int,
    im: int,
    max_iterations: nat,
    exponent: nat,
    palette: Palette,
    should_reverse_colors: bool,
    smooth_coloring: bool,
    palette_min: int,
    palette_max: int,
) -> Rgb {
    if spec_in_set(re, im, max_iterations, exponent) {
        Rgb { r: 0, g: 0, b: 0 }
    } else {
        let v = spec_smooth(
            spec_escape_count(re, im, max_iterations, exponent),
            spec_escape_stop(re, im, max_iterations, exponent),
            exponent,
            3 * (FIX_ONE as int),
            smooth_coloring,
        );
        let pos = spec_scaled_position(v, palette_min, palette_max, should_reverse_colors);
        let s = gradient_sample(spec_palette_index(palette), pos, POS_STEPS as int + 1);
        Rgb { r: s.0, g: s.1, b: s.2 }
    }
}

/// Compute one pixel's color.
pub fn compute_pixel_color(
    re: i64,
    im: i64,
    max_iterations: u32,
    exponent: u32,
    palette: Palette,
    should_reverse_colors: bool,
    smooth_coloring: bool,
    palette_min: i128,
    palette_max: i128,
) -> (rgb: Rgb)
    requires
        exponent >= 1,
    ensures
        rgb == spec_pixel_color(
            re as int,
            im as int,
            max_iterations as nat,
            exponent as nat,
            palette,
            should_reverse_colors,
            smooth_coloring,
            palette_min as int,
            palette_max as int,
        ),
{
    let (escape_iterations, z) = calculate_escape_iterations(re, im, max_iterations, exponent);
    if escape_iterations == max_iterations {
        Rgb { r: 0, g: 0, b: 0 }
    } else {
        let v = smooth_value(escape_iterations, z, exponent, 3 * FIX_ONE, smooth_coloring);
        let pos = palette_position(v, palette_min, palette_max, should_reverse_colors);
        palette_sample(palette, pos)
    }
}

/// First byte of the pixel at `(row, col)` in a row-major RGBA buffer of
/// width `w`.
pub open spec fn pix_base(w: int, row: int, col: int) -> int {
    (row * w + col) * (NUM_COLOR_CHANNELS as int)
}

/// Pixels earlier in row-major order occupy earlier, disjoint quadruples.
pub proof fn lemma_pix_base_mono(w: int, r1: int, c1: int, r2: int, c2: int)
    by (nonlinear_arith)
    requires
        0 <= c1 < w,
        0 <= r1,
        0 <= c2,
        r1 < r2 || (r1 == r2 && c1 < c2),
    ensures
        0 <= pix_base(w, r1, c1),
        pix_base(w, r1, c1) + 4 <= pix_base(w, r2, c2),
{
}

/// The buffer holds, at every pixel of the `w` by `h` grid over the given
/// bounds, the pipeline's color for that sample and an opaque alpha.
pub open spec fn spec_rendered(
    img: Seq<u8>,
    re_min: int,
    re_max: int,
    im_min: int,
    im_max: int,
    max_iterations: nat,
    exponent: nat,
    w: int,
    h: int,
    palette: Palette,
    should_reverse_colors: bool,
    smooth_coloring: bool,
    palette_min: int,
    palette_max: int,
) -> bool {
    forall|row: int, col: int|
        0 <= row < h && 0 <= col < w ==> {
            let px = spec_pixel_color(
                spec_lin(re_min, re_max, w, col),
                spec_lin(im_min, im_max, h, row),
                max_iterations,
                exponent,
                palette,
                should_reverse_colors,
                smooth_coloring,
                palette_min,
                palette_max,
            );
            &&& img[#[trigger] pix_base(w, row, col)] == px.r
            &&& img[pix_base(w, row, col) + 1] == px.g
            &&& img[pix_base(w, row, col) + 2] == px.b
            &&& img[pix_base(w, row, col) + 3] == 255u8
        }
}

/// Render every pixel of the tile, row-major, top row first.
pub fn render_mandelbrot_set(
    re_min: i64,
    re_max: i64,
    im_min: i64,
    im_max: i64,
    max_iterations: u32,
    exponent: u32,
    image_width: usize,
    image_height: usize,
    palette: Palette,
    should_reverse_colors: bool,
    smooth_coloring: bool,
    palette_min: i128,
    palette_max: i128,
) -> (img: Vec<u8>)
    requires
        exponent >= 1,
        image_width <= GRID_MAX,
        image_height <= GRID_MAX,
        image_width * image_height * (NUM_COLOR_CHANNELS as int) <= usize::MAX as int,
    ensures
        img@.len() == image_width * image_height * (NUM_COLOR_CHANNELS as int),
        spec_rendered(
            img@,
            re_min as int,
            re_max as int,
            im_min as int,
            im_max as int,
            max_iterations as nat,
            exponent as nat,
            image_width as int,
            image_height as int,
            palette,
            should_reverse_colors,
            smooth_coloring,
            palette_min as int,
            palette_max as int,
        ),
{
    let mut img: Vec<u8> = Vec::new();
    let mut row: usize = 0;
    while row < image_height
        invariant
            exponent >= 1,
            image_width <= GRID_MAX,
            image_height <= GRID_MAX,
            image_width * image_height * (NUM_COLOR_CHANNELS as int) <= usize::MAX as int,
            row <= image_height,
            img@.len() == row * image_width * (NUM_COLOR_CHANNELS as int),
            forall|r: int, c: int|
                0 <= r < row && 0 <= c < image_width ==> {
                    let px = spec_pixel_color(
                        spec_lin(re_min as int, re_max as int, image_width as int, c),
                        spec_lin(im_min as int, im_max as int, image_height as int, r),
                        max_iterations as nat,
                        exponent as nat,
                        palette,
                        should_reverse_colors,
                        smooth_coloring,
                        palette_min as int,
                        palette_max as int,
                    );
                    &&& img@[#[trigger] pix_base(image_width as int, r, c)] == px.r
                    &&& img@[pix_base(image_width as int, r, c) + 1] == px.g
                    &&& img@[pix_base(image_width as int, r, c) + 2] == px.b
                    &&& img@[pix_base(image_width as int, r, c) + 3] == 255u8
                },
        decreases image_height - row,
    {
        let im = lin_sample(im_min, im_max, image_height, row);
        let mut col: usize = 0;
        proof {
            assert(row * image_width * (NUM_COLOR_CHANNELS as int) == pix_base(
                image_width as int,
                row as int,
                0,
            )) by (nonlinear_arith);
        }
        while col < image_width
            invariant
                exponent >= 1,
                image_width <= GRID_MAX,
                image_height <= GRID_MAX,
                image_width * image_height * (NUM_COLOR_CHANNELS as int) <= usize::MAX as int,
                row < image_height,
                col <= image_width,
                im as int == spec_lin(im_min as int, im_max as int, image_height as int, row as int),
                img@.len() == pix_base(image_width as int, row as int, col as int),
                forall|r: int, c: int|
                    (0 <= r < row && 0 <= c < image_width) || (r == row && 0 <= c < col) ==> {
                        let px = spec_pixel_color(
                            spec_lin(re_min as int, re_max as int, image_width as int, c),
                            spec_lin(im_min as int, im_max as int, image_height as int, r),
                            max_iterations as nat,
                            exponent as nat,
                            palette,
                            should_reverse_colors,
                            smooth_coloring,
                            palette_min as int,
                            palette_max as int,
                        );
                        &&& img@[#[trigger] pix_base(image_width as int, r, c)] == px.r
                        &&& img@[pix_base(image_width as int, r, c) + 1] == px.g
                        &&& img@[pix_base(image_width as int, r, c) + 2] == px.b
                        &&& img@[pix_base(image_width as int, r, c) + 3] == 255u8
                    },
            decreases image_width - col,
        {
            proof {
                assert(0 <= pix_base(image_width as int, row as int, col as int)
                    && pix_base(image_width as int, row as int, col as int) + 4 <= image_width
                    * image_height * (NUM_COLOR_CHANNELS as int)) by (nonlinear_arith)
                    requires
                        0 <= (row as int) < (image_height as int),
                        0 <= (col as int) < (image_width as int),
                ;
            }
            let re = lin_sample(re_min, re_max, image_width, col);
            let pixel = compute_pixel_color(
                re,
                im,
                max_iterations,
                exponent,
                palette,
                should_reverse_colors,
                smooth_coloring,
                palette_min,
                palette_max,
            );
            let ghost w = image_width as int;
            let ghost prev = img@;
            img.push(pixel.r);
            img.push(pixel.g);
            img.push(pixel.b);
            img.push(255);
            proof {
                assert(img@[pix_base(w, row as int, col as int)] == pixel.r);
                assert(img@[pix_base(w, row as int, col as int) + 1] == pixel.g);
                assert(img@[pix_base(w, row as int, col as int) + 2] == pixel.b);
                assert(img@[pix_base(w, row as int, col as int) + 3] == 255u8);
                assert forall|r: int, c: int|
                    (0 <= r < row && 0 <= c < w) || (r == row && 0 <= c < col) implies 0 <= pix_base(
                    w,
                    r,
                    c,
                ) && pix_base(w, r, c) + 4 <= pix_base(w, row as int, col as int) by {
                    lemma_pix_base_mono(w, r, c, row as int, col as int);
                }
            }
            col = col + 1;
            proof {
                assert(pix_base(image_width as int, row as int, col as int) == pix_base(
                    image_width as int,
                    row as int,
                    col as int - 1,
                ) + 4) by (nonlinear_arith);
            }
        }
        row = row + 1;
        proof {
            assert(pix_base(image_width as int, row as int, 0) == row as int * image_width
                * (NUM_COLOR_CHANNELS as int)) by (nonlinear_arith);
            assert(pix_base(image_width as int, row as int - 1, image_width as int) == row as int
                * image_width * (NUM_COLOR_CHANNELS as int)) by (nonlinear_arith);
        }
    }
    proof {
        assert(image_height as int * (image_width as int) * (NUM_COLOR_CHANNELS as int)
            == image_width as int * (image_height as int) * (NUM_COLOR_CHANNELS as int))
            by (nonlinear_arith);
    }
    img
}

/// A buffer of `w * h` black, fully opaque pixels.
pub open spec fn spec_solid_black(img: Seq<u8>, w: int, h: int) -> bool {
    &&& img.len() == w * h * (NUM_COLOR_CHANNELS as int)
    &&& forall|i: int| 0 <= i < img.len() ==> img[i] == (if i % 4 == 3 {
        255u8
    } else {
        0u8
    })
}

/// Fill a buffer with black, fully opaque pixels.
pub fn create_solid_black_image(image_width: usize, image_height: usize) -> (img: Vec<u8>)
    requires
        image_width * image_height * (NUM_COLOR_CHANNELS as int) <= usize::MAX as int,
    ensures
        spec_solid_black(img@, image_width as int, image_height as int),
        img@.len() == image_width * image_height * (NUM_COLOR_CHANNELS as int),
{
    proof {
        assert(image_width * image_height >= 0) by (nonlinear_arith);
    }
    let pixels: usize = image_width * image_height;
    let total: usize = pixels * NUM_COLOR_CHANNELS;
    let mut img: Vec<u8> = Vec::new();
    let mut i: usize = 0;
    while i < total
        invariant
            i <= total,
            img@.len() == i,
            forall|j: int| 0 <= j < i ==> img@[j] == (if j % 4 == 3 {
                255u8
            } else {
                0u8
            }),
        decreases total - i,
    {
        if i % 4 == 3 {
            img.push(255);
        } else {
            img.push(0);
        }
        i = i + 1;
    }
    img
}

/// Render a tile: select the palette by name, and either fill black when
/// the whole sampled border of the tile exhausts the iteration budget, or
/// run the pixel pipeline over the full grid.  The palette window is
/// given in whole iterations and widens degenerate windows by one raw
/// unit.
pub fn get_mandelbrot_set_image(
    re_min: i64,
    re_max: i64,
    im_min: i64,
    im_max: i64,
    max_iterations: u32,
    exponent: u32,
    image_width: usize,
    image_height: usize,
    color_scheme: String,
    reverse_colors: bool,
    smooth_coloring: bool,
    palette_min: i32,
    palette_max: i32,
) -> (img: Vec<u8>)
    requires
        exponent >= 1,
        1 <= image_width <= GRID_MAX,
        1 <= image_height <= GRID_MAX,
        image_width * image_height * (NUM_COLOR_CHANNELS as int) <= usize::MAX as int,
    ensures
        img@.len() == image_width * image_height * (NUM_COLOR_CHANNELS as int),
        spec_rect_in_set(
            re_min as int,
            re_max as int,
            image_width as int,
            im_min as int,
            im_max as int,
            image_height as int,
            max_iterations as nat,
            exponent as nat,
        ) ==> spec_solid_black(img@, image_width as int, image_height as int),
        !spec_rect_in_set(
            re_min as int,
            re_max as int,
            image_width as int,
            im_min as int,
            im_max as int,
            image_height as int,
            max_iterations as nat,
            exponent as nat,
        ) ==> spec_rendered(
            img@,
            re_min as int,
            re_max as int,
            im_min as int,
            im_max as int,
            max_iterations as nat,
            exponent as nat,
            image_width as int,
            image_height as int,
            spec_get_color_palette(color_scheme@, reverse_colors).0,
            spec_get_color_palette(color_scheme@, reverse_colors).1,
            smooth_coloring,
            palette_min * (FIX_ONE as int),
            palette_max * (FIX_ONE as int),
        ),
{
    let (palette, should_reverse_colors) = get_color_palette(color_scheme.as_str(), reverse_colors);

    if rect_in_set(
        re_min,
        re_max,
        image_width,
        im_min,
        im_max,
        image_height,
        max_iterations,
        exponent,
    ) {
        return create_solid_black_image(image_width, image_height);
    }

    render_mandelbrot_set(
        re_min,
        re_max,
        im_min,
        im_max,
        max_iterations,
        exponent,
        image_width,
        image_height,
        palette,
        should_reverse_colors,
        smooth_coloring,
        (palette_min as i128) * (FIX_ONE as i128),
        (palette_max as i128) * (FIX_ONE as i128),
    )
}

} // verus!
