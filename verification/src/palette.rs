//! The palette registry and the mapping from escape values to gradient
//! positions.
//!
//! Gradients come from the colorous crate and are sampled at integer
//! positions on a grid of `POS_STEPS + 1` points; what a sample looks like
//! is named by the uninterpreted function `gradient_sample` and pinned by
//! the single trusted wrapper around `Gradient::eval_rational`.  Some
//! gradients run from light to dark, so looking one of those up toggles
//! the effective reverse flag.

use vstd::prelude::*;

verus! {

/// Number of position steps on the gradient axis (the grid has one more
/// sample point than steps).
pub const POS_STEPS: usize = 0x100_0000;

/// Saturation bound for values on the iteration axis (two to the 90th):
/// generous enough for every iteration count and sub-range bound, small
/// enough that position arithmetic stays exact.
pub const VAL_MAX: i128 = 0x4_0000_0000_0000_0000_0000_0000;

/// One color, a byte per channel.
#[derive(Clone, Copy, Debug, PartialEq, Eq, Structural)]
pub struct Rgb {
    pub r: u8,
    pub g: u8,
    pub b: u8,
}

/// The named gradients of the registry.  The first twenty run from dark
/// to light; the rest are the light-to-dark family whose lookup implies a
/// reversal.
#[derive(Clone, Copy, Debug, PartialEq, Eq, Structural)]
pub enum Palette {
    BrownGreen,
    Cividis,
    Cool,
    Cubehelix,
    Inferno,
    Magma,
    Plasma,
    PurpleGreen,
    PurpleOrange,
    Rainbow,
    RedBlue,
    RedGrey,
    RedYellowBlue,
    RedYellowGreen,
    Sinebow,
    Spectral,
    Turbo,
    Viridis,
    Warm,
    YellowOrangeBrown,
    Blues,
    GreenBlue,
    Greens,
    Greys,
    OrangeRed,
    Oranges,
    PinkGreen,
    PurpleBlueGreen,
    PurpleRed,
    Purples,
    RedPurple,
    Reds,
    YellowGreen,
    YellowGreenBlue,
    YellowOrangeRed,
}

/// The color that the gradient with index `k` yields when sampled at
/// position `i` of an `n`-point grid.  Named, not stated: the gradient
/// tables and their interpolation live in the colorous crate.
pub uninterp spec fn gradient_sample(k: int, i: int, n: int) -> (u8, u8, u8);

/// Index of a palette in the gradient table.
pub open spec fn spec_palette_index(p: Palette) -> int {
    match p {
        Palette::BrownGreen => 0,
        Palette::Cividis => 1,
        Palette::Cool => 2,
        Palette::Cubehelix => 3,
        Palette::Inferno => 4,
        Palette::Magma => 5,
        Palette::Plasma => 6,
        Palette::PurpleGreen => 7,
        Palette::PurpleOrange => 8,
        Palette::Rainbow => 9,
        Palette::RedBlue => 10,
        Palette::RedGrey => 11,
        Palette::RedYellowBlue => 12,
        Palette::RedYellowGreen => 13,
        Palette::Sinebow => 14,
        Palette::Spectral => 15,
        Palette::Turbo => 16,
        Palette::Viridis => 17,
        Palette::Warm => 18,
        Palette::YellowOrangeBrown => 19,
        Palette::Blues => 20,
        Palette::GreenBlue => 21,
        Palette::Greens => 22,
        Palette::Greys => 23,
        Palette::OrangeRed => 24,
        Palette::Oranges => 25,
        Palette::PinkGreen => 26,
        Palette::PurpleBlueGreen => 27,
        Palette::PurpleRed => 28,
        Palette::Purples => 29,
        Palette::RedPurple => 30,
        Palette::Reds => 31,
        Palette::YellowGreen => 32,
        Palette::YellowGreenBlue => 33,
        Palette::YellowOrangeRed => 34,
    }
}

/// Does looking this palette up imply a reversal of the color axis?
pub open spec fn spec_reversal_implied(p: Palette) -> bool {
    spec_palette_index(p) >= 20
}

/// Index of a palette in the gradient table.
pub fn palette_index(p: Palette) -> (k: u8)
    ensures
        k as int == spec_palette_index(p),
        k < 35,
{
    match p {
        Palette::BrownGreen => 0,
        Palette::Cividis => 1,
        Palette::Cool => 2,
        Palette::Cubehelix => 3,
        Palette::Inferno => 4,
        Palette::Magma => 5,
        Palette::Plasma => 6,
        Palette::PurpleGreen => 7,
        Palette::PurpleOrange => 8,
        Palette::Rainbow => 9,
        Palette::RedBlue => 10,
        Palette::RedGrey => 11,
        Palette::RedYellowBlue => 12,
        Palette::RedYellowGreen => 13,
        Palette::Sinebow => 14,
        Palette::Spectral => 15,
        Palette::Turbo => 16,
        Palette::Viridis => 17,
        Palette::Warm => 18,
        Palette::YellowOrangeBrown => 19,
        Palette::Blues => 20,
        Palette::GreenBlue => 21,
        Palette::Greens => 22,
        Palette::Greys => 23,
        Palette::OrangeRed => 24,
        Palette::Oranges => 25,
        Palette::PinkGreen => 26,
        Palette::PurpleBlueGreen => 27,
        Palette::PurpleRed => 28,
        Palette::Purples => 29,
        Palette::RedPurple => 30,
        Palette::Reds => 31,
        Palette::YellowGreen => 32,
        Palette::YellowGreenBlue => 33,
        Palette::YellowOrangeRed => 34,
    }
}

/// Relies on colorous's `Gradient::eval_rational`: for `2 <= n` and
/// `i < n` it samples the gradient at position `i / (n - 1)`, a pure
/// function of its integer arguments; the gradient is picked from the
/// table below in the order of `spec_palette_index`.
#[verifier::external_body]
fn gradient_eval(k: u8, i: usize, n: usize) -> (r: (u8, u8, u8))
    requires
        k < 35,
        2 <= n,
        i < n,
    ensures
        r == gradient_sample(k as int, i as int, n as int),
{
    let g = [
        colorous::BROWN_GREEN, colorous::CIVIDIS, colorous::COOL, colorous::CUBEHELIX,
        colorous::INFERNO, colorous::MAGMA, colorous::PLASMA, colorous::PURPLE_GREEN,
        colorous::PURPLE_ORANGE, colorous::RAINBOW, colorous::RED_BLUE, colorous::RED_GREY,
        colorous::RED_YELLOW_BLUE, colorous::RED_YELLOW_GREEN, colorous::SINEBOW,
        colorous::SPECTRAL, colorous::TURBO, colorous::VIRIDIS, colorous::WARM,
        colorous::YELLOW_ORANGE_BROWN, colorous::BLUES, colorous::GREEN_BLUE, colorous::GREENS,
        colorous::GREYS, colorous::ORANGE_RED, colorous::ORANGES, colorous::PINK_GREEN,
        colorous::PURPLE_BLUE_GREEN, colorous::PURPLE_RED, colorous::PURPLES,
        colorous::RED_PURPLE, colorous::REDS, colorous::YELLOW_GREEN,
        colorous::YELLOW_GREEN_BLUE, colorous::YELLOW_ORANGE_RED];
    let c = g[k as usize].eval_rational(i, n);
    (c.r, c.g, c.b)
}

/// Sample a palette's gradient at position `i` of the standard grid of
/// `POS_STEPS + 1` points.
pub fn palette_sample(p: Palette, i: usize) -> (rgb: Rgb)
    requires
        i <= POS_STEPS,
    ensures
        ({
            let s = gradient_sample(spec_palette_index(p), i as int, POS_STEPS as int + 1);
            rgb == (Rgb { r: s.0, g: s.1, b: s.2 })
        }),
{
    let k = palette_index(p);
    let (r, g, b) = gradient_eval(k, i, POS_STEPS + 1);
    Rgb { r, g, b }
}

/// Relies on str's equality: two string slices are equal exactly when
/// their character sequences are.
#[verifier::external_body]
fn str_eq(a: &str, b: &str) -> (r: bool)
    ensures
        r == (a@ == b@),
{
    a == b
}

/// The palette registered under a name, if any.
pub open spec fn spec_palette_from_name(s: Seq<char>) -> Option<Palette> {
    if s == "brownGreen"@ {
        Some(Palette::BrownGreen)
    } else if s == "cividis"@ {
        Some(Palette::Cividis)
    } else if s == "cool"@ {
        Some(Palette::Cool)
    } else if s == "cubehelix"@ {
        Some(Palette::Cubehelix)
    } else if s == "inferno"@ {
        Some(Palette::Inferno)
    } else if s == "magma"@ {
        Some(Palette::Magma)
    } else if s == "plasma"@ {
        Some(Palette::Plasma)
    } else if s == "purpleGreen"@ {
        Some(Palette::PurpleGreen)
    } else if s == "purpleOrange"@ {
        Some(Palette::PurpleOrange)
    } else if s == "rainbow"@ {
        Some(Palette::Rainbow)
    } else if s == "redBlue"@ {
        Some(Palette::RedBlue)
    } else if s == "redGrey"@ {
        Some(Palette::RedGrey)
    } else if s == "redYellowBlue"@ {
        Some(Palette::RedYellowBlue)
    } else if s == "redYellowGreen"@ {
        Some(Palette::RedYellowGreen)
    } else if s == "sinebow"@ {
        Some(Palette::Sinebow)
    } else if s == "spectral"@ {
        Some(Palette::Spectral)
    } else if s == "turbo"@ {
        Some(Palette::Turbo)
    } else if s == "viridis"@ {
        Some(Palette::Viridis)
    } else if s == "warm"@ {
        Some(Palette::Warm)
    } else if s == "yellowOrangeBrown"@ {
        Some(Palette::YellowOrangeBrown)
    } else if s == "blues"@ {
        Some(Palette::Blues)
    } else if s == "greenBlue"@ {
        Some(Palette::GreenBlue)
    } else if s == "greens"@ {
        Some(Palette::Greens)
    } else if s == "greys"@ {
        Some(Palette::Greys)
    } else if s == "orangeRed"@ {
        Some(Palette::OrangeRed)
    } else if s == "oranges"@ {
        Some(Palette::Oranges)
    } else if s == "pinkGreen"@ {
        Some(Palette::PinkGreen)
    } else if s == "purpleBlueGreen"@ {
        Some(Palette::PurpleBlueGreen)
    } else if s == "purpleRed"@ {
        Some(Palette::PurpleRed)
    } else if s == "purples"@ {
        Some(Palette::Purples)
    } else if s == "redPurple"@ {
        Some(Palette::RedPurple)
    } else if s == "reds"@ {
        Some(Palette::Reds)
    } else if s == "yellowGreen"@ {
        Some(Palette::YellowGreen)
    } else if s == "yellowGreenBlue"@ {
        Some(Palette::YellowGreenBlue)
    } else if s == "yellowOrangeRed"@ {
        Some(Palette::YellowOrangeRed)
    } else {
        None
    }
}

/// Look a palette up by name.
pub fn palette_from_name(name: &str) -> (r: Option<Palette>)
    ensures
        r == spec_palette_from_name(name@),
{
    if str_eq(name, "brownGreen") {
        Some(Palette::BrownGreen)
    } else if str_eq(name, "cividis") {
        Some(Palette::Cividis)
    } else if str_eq(name, "cool") {
        Some(Palette::Cool)
    } else if str_eq(name, "cubehelix") {
        Some(Palette::Cubehelix)
    } else if str_eq(name, "inferno") {
        Some(Palette::Inferno)
    } else if str_eq(name, "magma") {
        Some(Palette::Magma)
    } else if str_eq(name, "plasma") {
        Some(Palette::Plasma)
    } else if str_eq(name, "purpleGreen") {
        Some(Palette::PurpleGreen)
    } else if str_eq(name, "purpleOrange") {
        Some(Palette::PurpleOrange)
    } else if str_eq(name, "rainbow") {
        Some(Palette::Rainbow)
    } else if str_eq(name, "redBlue") {
        Some(Palette::RedBlue)
    } else if str_eq(name, "redGrey") {
        Some(Palette::RedGrey)
    } else if str_eq(name, "redYellowBlue") {
        Some(Palette::RedYellowBlue)
    } else if str_eq(name, "redYellowGreen") {
        Some(Palette::RedYellowGreen)
    } else if str_eq(name, "sinebow") {
        Some(Palette::Sinebow)
    } else if str_eq(name, "spectral") {
        Some(Palette::Spectral)
    } else if str_eq(name, "turbo") {
        Some(Palette::Turbo)
    } else if str_eq(name, "viridis") {
        Some(Palette::Viridis)
    } else if str_eq(name, "warm") {
        Some(Palette::Warm)
    } else if str_eq(name, "yellowOrangeBrown") {
        Some(Palette::YellowOrangeBrown)
    } else if str_eq(name, "blues") {
        Some(Palette::Blues)
    } else if str_eq(name, "greenBlue") {
        Some(Palette::GreenBlue)
    } else if str_eq(name, "greens") {
        Some(Palette::Greens)
    } else if str_eq(name, "greys") {
        Some(Palette::Greys)
    } else if str_eq(name, "orangeRed") {
        Some(Palette::OrangeRed)
    } else if str_eq(name, "oranges") {
        Some(Palette::Oranges)
    } else if str_eq(name, "pinkGreen") {
        Some(Palette::PinkGreen)
    } else if str_eq(name, "purpleBlueGreen") {
        Some(Palette::PurpleBlueGreen)
    } else if str_eq(name, "purpleRed") {
        Some(Palette::PurpleRed)
    } else if str_eq(name, "purples") {
        Some(Palette::Purples)
    } else if str_eq(name, "redPurple") {
        Some(Palette::RedPurple)
    } else if str_eq(name, "reds") {
        Some(Palette::Reds)
    } else if str_eq(name, "yellowGreen") {
        Some(Palette::YellowGreen)
    } else if str_eq(name, "yellowGreenBlue") {
        Some(Palette::YellowGreenBlue)
    } else if str_eq(name, "yellowOrangeRed") {
        Some(Palette::YellowOrangeRed)
    } else {
        None
    }
}

/// The palette a color scheme selects and the effective reverse flag:
/// unknown names fall back to turbo, and a light-to-dark gradient toggles
/// the caller's reverse wish.
pub open spec fn spec_get_color_palette(s: Seq<char>, reverse_colors: bool) -> (Palette, bool) {
    match spec_palette_from_name(s) {
        Some(p) => (p, if spec_reversal_implied(p) {
            !reverse_colors
        } else {
            reverse_colors
        }),
        None => (Palette::Turbo, reverse_colors),
    }
}

/// Select the palette for a color scheme name, with the effective
/// reverse flag.
pub fn get_color_palette(color_scheme: &str, reverse_colors: bool) -> (r: (Palette, bool))
    ensures
        r == spec_get_color_palette(color_scheme@, reverse_colors),
{
    match palette_from_name(color_scheme) {
        Some(p) => {
            let k = palette_index(p);
            if k >= 20 {
                (p, !reverse_colors)
            } else {
                (p, reverse_colors)
            }
        },
        None => (Palette::Turbo, reverse_colors),
    }
}

/// Saturation of an iteration-axis value into the range the position
/// arithmetic handles exactly.
pub open spec fn spec_val_sat(x: int) -> int {
    if x > VAL_MAX as int {
        VAL_MAX as int
    } else if x < -(VAL_MAX as int) {
        -(VAL_MAX as int)
    } else {
        x
    }
}

/// Gradient position of a value within the window `[lo, hi]`, on the grid
/// of `POS_STEPS + 1` points, after saturating all three onto the
/// iteration axis.  A window of no width is widened to one raw unit at
/// the top, so values above the lower end map to the extreme position.
pub open spec fn spec_position(value: int, lo: int, hi: int) -> int {
    let v = spec_val_sat(value);
    let a = spec_val_sat(lo);
    let top = if spec_val_sat(hi) <= a {
        a + 1
    } else {
        spec_val_sat(hi)
    };
    let num = v - a;
    if num <= 0 {
        0
    } else {
        let q = (num * (POS_STEPS as int)) / (top - a);
        if q > POS_STEPS as int {
            POS_STEPS as int
        } else {
            q
        }
    }
}

/// Gradient position with the reverse flag applied: reversal mirrors the
/// position across the grid.
pub open spec fn spec_scaled_position(value: int, lo: int, hi: int, reverse: bool) -> int {
    if reverse {
        POS_STEPS as int - spec_position(value, lo, hi)
    } else {
        spec_position(value, lo, hi)
    }
}

/// Saturate an iteration-axis value.
pub fn val_sat(x: i128) -> (r: i128)
    ensures
        r as int == spec_val_sat(x as int),
{
    if x > VAL_MAX {
        VAL_MAX
    } else if x < -VAL_MAX {
        -VAL_MAX
    } else {
        x
    }
}

/// Map a smooth escape value into the palette window `[palette_min,
/// palette_max]` and yield its gradient position.
pub fn palette_position(value: i128, palette_min: i128, palette_max: i128, reverse: bool) -> (i:
    usize)
    ensures
        i as int == spec_scaled_position(
            value as int,
            palette_min as int,
            palette_max as int,
            reverse,
        ),
        i <= POS_STEPS,
{
    let v = val_sat(value);
    let a = val_sat(palette_min);
    let b = val_sat(palette_max);
    let top = if b <= a {
        a + 1
    } else {
        b
    };
    let num = v - a;
    let forward: usize = if num <= 0 {
        0
    } else {
        let q = ((num as u128) * (POS_STEPS as u128)) / ((top - a) as u128);
        if q > POS_STEPS as u128 {
            POS_STEPS
        } else {
            q as usize
        }
    };
    if reverse {
        POS_STEPS - forward
    } else {
        forward
    }
}

} // verus!
