use mandelbrot::escape::calculate_escape_iterations;
use mandelbrot::palette::{get_color_palette, palette_sample, Palette, POS_STEPS};
use mandelbrot::render::{
    compute_pixel_color, create_solid_black_image, get_mandelbrot_set_image,
    render_mandelbrot_set, NUM_COLOR_CHANNELS,
};

const MAX_ITERATIONS: u32 = 200;

const SQUARES: [(f64, f64, f64, f64); 6] = [
    (-0.75, -0.25, 0.25, 0.75),
    (-1.5, 0.0, -0.5, 0.5),
    (-2.0, -1.0, 0.0, 1.0),
    (-2.0, 0.5, -1.0, 1.0),
    (0.0, 1.5, 0.0, 1.0),
    (
        -0.38239270518262103,
        -0.38239196302361966,
        0.6251400899330468,
        0.6251408320920477,
    ),
];

/// One fixed-point unit (56 fractional bits).
const FIX_ONE_F: f64 = 72057594037927936.0;

/// Raw saturation bound of the coordinate representation.
const FIX_MAX_RAW: i64 = 0x4000_0000_0000_0000;

/// Convert a plane coordinate to its raw fixed-point representation.
/// Out-of-range and NaN coordinates saturate: they are far outside every
/// escape radius and escape immediately.
fn fix(x: f64) -> i64 {
    let scaled = x * FIX_ONE_F;
    if scaled.is_nan() {
        FIX_MAX_RAW
    } else if scaled >= FIX_MAX_RAW as f64 {
        FIX_MAX_RAW
    } else if scaled <= -(FIX_MAX_RAW as f64) {
        -FIX_MAX_RAW
    } else {
        scaled as i64
    }
}

/// Convert an iteration-axis value (a palette window bound) to its raw
/// fixed-point representation.
fn fixv(x: f64) -> i128 {
    (x * FIX_ONE_F) as i128
}

#[test]
fn test_compute_pixel_color() {
    let palette = Palette::Turbo;

    // Test point in set
    let color = compute_pixel_color(
        fix(0.0),
        fix(0.0),
        100,
        2,
        palette,
        false,
        true,
        fixv(0.0),
        fixv(f64::from(100)),
    );
    assert_eq!((color.r, color.g, color.b), (0, 0, 0));

    // Test point out of set
    let color = compute_pixel_color(
        fix(2.0),
        fix(2.0),
        100,
        2,
        palette,
        false,
        true,
        fixv(0.0),
        fixv(f64::from(100)),
    );
    assert_eq!(color.r, 34); // Red component
    assert_eq!(color.g, 23); // Green component
    assert_eq!(color.b, 27); // Blue component
}

#[test]
fn test_render_mandelbrot_set() {
    let max_iterations = 100;
    let exponent = 2;
    let image_width = 10;
    let image_height = 10;
    let palette = Palette::Turbo;
    let should_reverse_colors = false;
    let smooth_coloring = true;
    let palette_start = 0;
    let palette_end = 100;

    let image = render_mandelbrot_set(
        fix(-2.0),
        fix(1.0),
        fix(-1.0),
        fix(1.0),
        max_iterations,
        exponent,
        image_width,
        image_height,
        palette,
        should_reverse_colors,
        smooth_coloring,
        fixv(f64::from(palette_start)),
        fixv(f64::from(palette_end)),
    );

    assert_eq!(image.len(), image_width * image_height * NUM_COLOR_CHANNELS);

    assert_eq!(image[0..4], [44, 28, 55, 255]); // Top-left pixel
    assert_eq!(image[396..400], [44, 28, 55, 255]); // Bottom-right pixel
}

#[test]
fn test_create_solid_black_image() {
    let image = create_solid_black_image(10, 10);
    assert_eq!(image.len(), 10 * 10 * NUM_COLOR_CHANNELS);
    assert!(image.chunks(4).all(|chunk| chunk == [0, 0, 0, 255]));
}

#[test]
fn test_create_solid_black_image_size_zero() {
    // Test with zero dimensions (should produce empty vector)
    let image = create_solid_black_image(0, 0);
    assert_eq!(image.len(), 0);

    // Test with zero width
    let image = create_solid_black_image(0, 10);
    assert_eq!(image.len(), 0);

    // Test with zero height
    let image = create_solid_black_image(10, 0);
    assert_eq!(image.len(), 0);
}

#[test]
fn get_mandelbrot_set_image_outputs_correct_length() {
    for &(x_min, x_max, y_min, y_max) in SQUARES.iter() {
        let response = get_mandelbrot_set_image(
            fix(x_min),
            fix(x_max),
            fix(y_min),
            fix(y_max),
            MAX_ITERATIONS,
            2,
            256,
            256,
            "turbo".to_string(),
            false,
            true,
            0,
            MAX_ITERATIONS as i32,
        );

        assert_eq!(
            response.len(),
            256 * 256 * 4,
            "Failed at tile: ({}, {}, {}, {})",
            x_min,
            x_max,
            y_min,
            y_max
        );
    }
}

#[test]
fn get_mandelbrot_set_image_outputs_valid_colors() {
    for &(x_min, x_max, y_min, y_max) in SQUARES.iter() {
        let response = get_mandelbrot_set_image(
            fix(x_min),
            fix(x_max),
            fix(y_min),
            fix(y_max),
            MAX_ITERATIONS,
            2,
            256,
            256,
            "turbo".to_string(),
            false,
            true,
            0,
            MAX_ITERATIONS as i32,
        );
        for n in response.iter() {
            assert!(
                *n <= u8::MAX,
                "Invalid color value: {} at tile: ({}, {}, {}, {})",
                n,
                x_min,
                x_max,
                y_min,
                y_max
            );
        }
    }
}

#[test]
fn test_palette_min_iter() {
    let palette = Palette::Turbo;
    let max_iterations = 100;
    let exponent = 2;

    // Use a point that we know escapes from the existing test case
    let c = (1.0, -1.5);

    // Verify it escapes
    let escape_iters = calculate_escape_iterations(fix(c.0), fix(c.1), max_iterations, exponent).0;
    assert!(escape_iters < max_iterations, "Test point should escape");

    // Get color with standard settings (min_iter = 0)
    let color1 = compute_pixel_color(
        fix(c.0),
        fix(c.1),
        max_iterations,
        exponent,
        palette,
        false,
        false,
        fixv(0.0),
        fixv(f64::from(max_iterations)),
    );

    // Get color with min_iter = escape_iters (should shift color mapping)
    let color2 = compute_pixel_color(
        fix(c.0),
        fix(c.1),
        max_iterations,
        exponent,
        palette,
        false,
        false,
        fixv(f64::from(escape_iters)),
        fixv(f64::from(max_iterations)),
    );

    // The colors should differ because we've shifted the palette mapping
    assert_ne!(
        color1, color2,
        "Colors should be different with different palette_min_iter values"
    );

    // With min_iter = escape iterations, the color should be at the start of the palette
    let min_palette_color = palette_sample(palette, 0);
    assert_eq!(color2, min_palette_color);
}

#[test]
fn test_palette_max_iter() {
    let palette = Palette::Turbo;
    let max_iterations = 100;
    let exponent = 2;

    // Use a point that we know escapes from the existing test case
    let c = (0.5, 0.5);

    // Verify it escapes
    let escape_iters = calculate_escape_iterations(fix(c.0), fix(c.1), max_iterations, exponent).0;
    assert!(escape_iters < max_iterations, "Test point should escape");

    // Normal case (full palette range)
    let color1 = compute_pixel_color(
        fix(c.0),
        fix(c.1),
        max_iterations,
        exponent,
        palette,
        false,
        false,
        fixv(0.0),
        fixv(f64::from(max_iterations)),
    );

    // Compressed palette range (max set to half of escape_iters)
    let palette_max = escape_iters / 2;
    assert!(
        palette_max > 0,
        "Test point should escape after several iterations"
    );

    let color2 = compute_pixel_color(
        fix(c.0),
        fix(c.1),
        max_iterations,
        exponent,
        palette,
        false,
        false,
        fixv(0.0),
        fixv(f64::from(palette_max)),
    );

    // The colors should be different
    assert_ne!(
        color1, color2,
        "Colors should differ with different palette_max values"
    );

    // With escape_iters > palette_max, we should get the max color
    let max_palette_color = palette_sample(palette, POS_STEPS);
    assert_eq!(color2, max_palette_color);
}

#[test]
fn test_equal_min_max_iter() {
    let palette = Palette::Turbo;
    let max_iterations = 100;
    let exponent = 2;

    // Use a point deeper in the complex plane that takes several iterations to escape
    let c = (-0.7, 0.3);

    // Verify it escapes and takes multiple iterations
    let (escape_iters, _) = calculate_escape_iterations(fix(c.0), fix(c.1), max_iterations, exponent);
    assert!(escape_iters < max_iterations, "Test point should escape");
    println!(
        "Point ({}, {}) escapes after {} iterations",
        c.0, c.1, escape_iters
    );
    assert!(
        escape_iters > 2,
        "Test point should take multiple iterations to escape"
    );

    // Set both min and max to half of escape iterations
    let threshold = escape_iters / 2;
    assert!(
        threshold > 0,
        "Escape iterations should be high enough to divide"
    );

    let color = compute_pixel_color(
        fix(c.0),
        fix(c.1),
        max_iterations,
        exponent,
        palette,
        false,
        false,
        fixv(f64::from(threshold)),
        fixv(f64::from(threshold).max(f64::from(threshold) + f64::EPSILON)),
    );

    // When min equals max, the window is widened at the top by one raw unit.
    // Since escape_iters > threshold, we should get max color
    let max_palette_color = palette_sample(palette, POS_STEPS);

    println!("Actual color with equal min/max: {:?}", color);
    println!("Expected max_palette_color: {:?}", max_palette_color);

    assert_eq!(
        color, max_palette_color,
        "When min==max and escape_iters > threshold, should get max palette color"
    );
}

#[test]
fn test_palette_range() {
    let palette = Palette::Turbo;
    let max_iterations = 100;
    let exponent = 2;

    // Generate several points that escape at different iteration counts
    let test_points = [(0.3, 0.5), (0.1, 0.8), (-0.5, 0.6), (-1.0, 0.3)];

    for &(re, im) in &test_points {
        let escape_iters = calculate_escape_iterations(fix(re), fix(im), max_iterations, exponent).0;
        if escape_iters == max_iterations {
            continue; // Skip points in the set
        }

        // Standard color (full range)
        let standard_color = compute_pixel_color(
            fix(re),
            fix(im),
            max_iterations,
            exponent,
            palette,
            false,
            true,
            fixv(0.0),
            fixv(f64::from(max_iterations)),
        );

        // Narrow range around the escape value
        let min_iter = escape_iters.saturating_sub(2);
        let max_iter = escape_iters + 2;

        let narrow_range_color = compute_pixel_color(
            fix(re),
            fix(im),
            max_iterations,
            exponent,
            palette,
            false,
            true,
            fixv(f64::from(min_iter)),
            fixv(f64::from(max_iter)),
        );

        // Colors should be different with different ranges
        assert!(standard_color != narrow_range_color,
                "Colors should differ for point ({}, {}) with escape iters {} when using different palette ranges",
                re, im, escape_iters);
    }
}

#[test]
fn test_integration_min_max_iter() {
    // Integration test to verify min/max iter in full image generation
    let max_iterations = 100;
    let image_width = 50;
    let image_height = 50;

    // Generate an image with standard palette range
    let standard_image = get_mandelbrot_set_image(
        fix(-2.0),
        fix(1.0),
        fix(-1.0),
        fix(1.0),
        max_iterations,
        2,
        image_width,
        image_height,
        "turbo".to_string(),
        false,
        true,
        0,
        max_iterations as i32,
    );

    // Generate an image with limited palette range
    let limited_range_image = get_mandelbrot_set_image(
        fix(-2.0),
        fix(1.0),
        fix(-1.0),
        fix(1.0),
        max_iterations,
        2,
        image_width,
        image_height,
        "turbo".to_string(),
        false,
        true,
        20,
        60, // Only iterations between 20-60 get full color range
    );

    // Images should be different
    assert_ne!(standard_image, limited_range_image);

    // Both should be the right size
    assert_eq!(
        standard_image.len(),
        image_width * image_height * NUM_COLOR_CHANNELS
    );
    assert_eq!(
        limited_range_image.len(),
        image_width * image_height * NUM_COLOR_CHANNELS
    );
}

#[test]
fn test_palette_range_ordering() {
    let palette = Palette::Turbo;
    let max_iterations = 100;
    let exponent = 2;

    // Use a point that's known to escape
    let c = (-0.7, 0.3);
    let escape_iters = calculate_escape_iterations(fix(c.0), fix(c.1), max_iterations, exponent).0;
    assert!(escape_iters < max_iterations, "Test point should escape");

    // Ensure the escape iterations are between our test values
    assert!(
        escape_iters > 20 && escape_iters < 50,
        "Test point should escape between iterations 20 and 50"
    );

    // When min > max, the implementation should ensure max >= min
    // We expect this to be equivalent to min=max=50
    let color1 = compute_pixel_color(
        fix(c.0),
        fix(c.1),
        max_iterations,
        exponent,
        palette,
        false,
        false,
        fixv(50.0),
        fixv((50.0f64).max(50.0 + f64::EPSILON)),
    );

    // When parameters are correctly ordered
    let color2 = compute_pixel_color(
        fix(c.0),
        fix(c.1),
        max_iterations,
        exponent,
        palette,
        false,
        false,
        fixv(10.0),
        fixv(80.0),
    );

    // These colors should differ due to different parameter ranges
    assert_ne!(
        color1, color2,
        "Different parameters should produce different colors"
    );
}

#[test]
fn test_palette_min_max_with_smooth_coloring() {
    let palette = Palette::Turbo;
    let max_iterations = 100;
    let exponent = 2;

    // Use a point that produces visible smooth coloring differences
    let c = (-1.2, -0.2);

    // Get actual iterations (need a point that doesn't escape too quickly)
    let (escape_iters, _z_final) =
        calculate_escape_iterations(fix(c.0), fix(c.1), max_iterations, exponent);
    assert!(escape_iters < max_iterations, "Test point should escape");
    assert!(
        escape_iters > 5,
        "Test point should take several iterations to escape"
    );

    // Get color with smooth coloring
    let color_smooth = compute_pixel_color(
        fix(c.0),
        fix(c.1),
        max_iterations,
        exponent,
        palette,
        false,
        true,
        fixv(f64::from(escape_iters - 5)),
        fixv(f64::from(escape_iters + 5)),
    );

    // Get color without smooth coloring
    let color_non_smooth = compute_pixel_color(
        fix(c.0),
        fix(c.1),
        max_iterations,
        exponent,
        palette,
        false,
        false,
        fixv(f64::from(escape_iters - 5)),
        fixv(f64::from(escape_iters + 5)),
    );

    println!(
        "Point ({}, {}) escapes after {} iterations",
        c.0, c.1, escape_iters
    );
    println!("With smooth coloring: {:?}", color_smooth);
    println!("Without smooth coloring: {:?}", color_non_smooth);

    // Smooth coloring should affect the result
    assert_ne!(
        color_smooth, color_non_smooth,
        "Smooth and non-smooth coloring should produce different colors"
    );
}

#[test]
fn test_varying_palette_min_max() {
    let palette = Palette::Turbo;
    let max_iterations = 100;
    let exponent = 2;

    // Test point that escapes after several iterations
    let c = (-0.7, 0.3);
    let escape_iters = calculate_escape_iterations(fix(c.0), fix(c.1), max_iterations, exponent).0;
    assert!(escape_iters < max_iterations, "Test point should escape");

    // Generate several colors with different palette ranges
    let color_standard = compute_pixel_color(
        fix(c.0),
        fix(c.1),
        max_iterations,
        exponent,
        palette,
        false,
        false,
        fixv(0.0),
        fixv(f64::from(max_iterations)),
    );

    let color_narrow_range = compute_pixel_color(
        fix(c.0),
        fix(c.1),
        max_iterations,
        exponent,
        palette,
        false,
        false,
        fixv(f64::from(escape_iters - 5)),
        fixv(f64::from(escape_iters + 5)),
    );

    let color_high_min = compute_pixel_color(
        fix(c.0),
        fix(c.1),
        max_iterations,
        exponent,
        palette,
        false,
        false,
        fixv(f64::from(escape_iters - 2)),
        fixv(f64::from(max_iterations)),
    );

    let color_low_max = compute_pixel_color(
        fix(c.0),
        fix(c.1),
        max_iterations,
        exponent,
        palette,
        false,
        false,
        fixv(0.0),
        fixv(f64::from(escape_iters + 2)),
    );

    // Check that different parameter values produce different colors
    assert_ne!(
        color_standard, color_narrow_range,
        "Standard and narrow range should produce different colors"
    );
    assert_ne!(
        color_standard, color_high_min,
        "Standard and high min should produce different colors"
    );
    assert_ne!(
        color_standard, color_low_max,
        "Standard and low max should produce different colors"
    );
}

#[test]
fn test_get_mandelbrot_set_image_with_different_exponents() {
    // Test the main function with different exponents
    let max_iterations = 100;
    let width = 30;
    let height = 30;

    // Generate images with different exponents
    let image2 = get_mandelbrot_set_image(
        fix(-2.0),
        fix(1.0),
        fix(-1.0),
        fix(1.0),
        max_iterations,
        2,
        width,
        height,
        "turbo".to_string(),
        false,
        true,
        0,
        max_iterations as i32,
    );

    let image3 = get_mandelbrot_set_image(
        fix(-2.0),
        fix(1.0),
        fix(-1.0),
        fix(1.0),
        max_iterations,
        3,
        width,
        height,
        "turbo".to_string(),
        false,
        true,
        0,
        max_iterations as i32,
    );

    let image4 = get_mandelbrot_set_image(
        fix(-2.0),
        fix(1.0),
        fix(-1.0),
        fix(1.0),
        max_iterations,
        4,
        width,
        height,
        "turbo".to_string(),
        false,
        true,
        0,
        max_iterations as i32,
    );

    // All images should be the correct size
    assert_eq!(image2.len(), width * height * NUM_COLOR_CHANNELS);
    assert_eq!(image3.len(), width * height * NUM_COLOR_CHANNELS);
    assert_eq!(image4.len(), width * height * NUM_COLOR_CHANNELS);

    // Images should be different (shapes of Mandelbrot set change with exponent)
    assert_ne!(image2, image3);
    assert_ne!(image3, image4);
    assert_ne!(image2, image4);
}

#[test]
fn test_negative_palette_min_iter() {
    let palette = Palette::Turbo;
    let max_iterations = 100;
    let exponent = 2;

    // Use a point that escapes
    let c = (0.4, 0.5);
    let (escape_iters, _) = calculate_escape_iterations(fix(c.0), fix(c.1), max_iterations, exponent);
    assert!(escape_iters < max_iterations, "Test point should escape");

    // Get color with negative min_iter
    let negative_min = -20;
    let color_neg_min = compute_pixel_color(
        fix(c.0),
        fix(c.1),
        max_iterations,
        exponent,
        palette,
        false,
        false,
        fixv(f64::from(negative_min)),
        fixv(f64::from(max_iterations)),
    );

    // Get color with zero min_iter
    let color_zero_min = compute_pixel_color(
        fix(c.0),
        fix(c.1),
        max_iterations,
        exponent,
        palette,
        false,
        false,
        fixv(0.0),
        fixv(f64::from(max_iterations)),
    );

    // Colors should be different because negative min shifts the palette mapping
    assert_ne!(
        color_neg_min, color_zero_min,
        "Negative min_iter should produce different color than zero min_iter"
    );

    // Verify the calculation is as expected
    // With negative min_iter, the normalized position should be:
    // (escape_iters - negative_min) / (max_iterations - negative_min)
    // which will be greater than the standard (escape_iters / max_iterations)
    let expected_norm_standard = f64::from(escape_iters) / f64::from(max_iterations);
    let expected_norm_negative = (f64::from(escape_iters) - f64::from(negative_min))
        / (f64::from(max_iterations as i32) - f64::from(negative_min));

    assert!(
        expected_norm_negative > expected_norm_standard,
        "Negative min_iter should increase the normalized position in the palette"
    );
}

#[test]
fn test_negative_palette_max_iter() {
    let palette = Palette::Turbo;
    let max_iterations = 100;
    let exponent = 2;

    // Use a point with negative escape value
    let c = (0.3, 0.6);
    let (escape_iters, _) = calculate_escape_iterations(fix(c.0), fix(c.1), max_iterations, exponent);
    assert!(escape_iters < max_iterations, "Test point should escape");

    // Test with negative max_iter but positive min_iter
    // This shouldn't crash, and since max is forced to be >= min plus one
    // raw unit, we should get a reasonable result
    let positive_min = 10;
    let negative_max = -5;

    let color = compute_pixel_color(
        fix(c.0),
        fix(c.1),
        max_iterations,
        exponent,
        palette,
        false,
        false,
        fixv(f64::from(positive_min)),
        fixv(f64::from(negative_max).max(f64::from(positive_min) + f64::EPSILON)),
    );

    // The code should correct negative_max to be at least positive_min plus
    // one raw unit, so we should get the max color from the palette
    let max_palette_color = palette_sample(palette, POS_STEPS);
    assert_eq!(
        color, max_palette_color,
        "When max < min, max should be adjusted upward and we should get max color"
    );
}

#[test]
fn test_zero_palette_values() {
    let palette = Palette::Turbo;
    let max_iterations = 100;
    let exponent = 2;

    // Use a point that escapes
    let c = (0.5, 0.5);
    let (escape_iters, _) = calculate_escape_iterations(fix(c.0), fix(c.1), max_iterations, exponent);
    assert!(escape_iters < max_iterations, "Test point should escape");
    assert!(
        escape_iters > 0,
        "Test point should take >0 iterations to escape"
    );

    // Test with zero min and zero max
    let color_zero_both = compute_pixel_color(
        fix(c.0),
        fix(c.1),
        max_iterations,
        exponent,
        palette,
        false,
        false,
        fixv(0.0),
        fixv((0.0f64).max(0.0 + f64::EPSILON)),
    );

    // When min equals max, the window is widened at the top.
    // Since escape_iters > 0, we should get max color
    let max_palette_color = palette_sample(palette, POS_STEPS);

    println!("Actual color_zero_both: {:?}", color_zero_both);
    println!("Expected max_palette_color: {:?}", max_palette_color);

    assert_eq!(
        color_zero_both, max_palette_color,
        "When min==max==0 and escape_iters > 0, should get max palette color"
    );

    // Test with zero min and positive max
    let color_zero_min = compute_pixel_color(
        fix(c.0),
        fix(c.1),
        max_iterations,
        exponent,
        palette,
        false,
        false,
        fixv(0.0),
        fixv(f64::from(max_iterations)),
    );

    // Should be different from zero min, zero max case
    assert_ne!(
        color_zero_min, color_zero_both,
        "Zero min, positive max should differ from zero min, zero max"
    );
}

#[test]
fn test_compute_pixel_color_edge_cases() {
    let palette = Palette::Turbo;

    // Test NaN inputs (must not panic): a NaN coordinate saturates and
    // escapes immediately, so it gets the color of an instant escape.
    let color = compute_pixel_color(
        fix(f64::NAN),
        fix(0.0),
        100,
        2,
        palette,
        false,
        false,
        fixv(0.0),
        fixv(100.0),
    );
    assert_eq!((color.r, color.g, color.b), (34, 23, 27));

    // An escaping point always yields a valid byte triple.
    let color = compute_pixel_color(
        fix(2.0),
        fix(2.0),
        100,
        2,
        palette,
        false,
        false,
        fixv(0.0),
        fixv(100.0),
    );
    assert!(color.r <= u8::MAX && color.g <= u8::MAX && color.b <= u8::MAX);
}

#[test]
fn get_color_palette_feeds_renderer() {
    // The tuple that get_color_palette hands back plugs straight into the
    // per-pixel pipeline.
    let (palette, reverse) = get_color_palette("blues", false);
    assert!(reverse);
    let escape_iters = calculate_escape_iterations(fix(2.0), fix(2.0), 100, 2).0;
    assert!(escape_iters < 100);
    // With the window starting at the escape count, the forward position is
    // zero; the implied reversal mirrors it to the far end of blues.
    let color = compute_pixel_color(
        fix(2.0),
        fix(2.0),
        100,
        2,
        palette,
        reverse,
        false,
        fixv(f64::from(escape_iters)),
        fixv(100.0),
    );
    assert_eq!(color, palette_sample(palette, POS_STEPS));
}
