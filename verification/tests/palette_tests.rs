use mandelbrot::palette::{
    get_color_palette, palette_from_name, palette_sample, Palette, POS_STEPS,
};

#[test]
fn test_get_color_palette() {
    // Test standard palette
    let (palette, should_reverse) = get_color_palette("turbo", false);
    assert!(!should_reverse);
    let start = palette_sample(palette, 0);
    assert_eq!((start.r, start.g, start.b), (34, 23, 27));

    // Test reverse palette
    let (_palette, should_reverse) = get_color_palette("turbo", true);
    assert!(should_reverse);

    // Test palette from reverse set: blues is in the light-to-dark family,
    // so its lookup toggles the flag.
    let (_palette, should_reverse) = get_color_palette("blues", false);
    assert!(should_reverse);

    // Test reverse palette from reverse set
    let (_palette, should_reverse) = get_color_palette("blues", true);
    assert!(!should_reverse);

    // Test fallback to default palette
    let (palette, should_reverse) = get_color_palette("nonexistent", false);
    assert!(!should_reverse);
    let start = palette_sample(palette, 0);
    assert_eq!((start.r, start.g, start.b), (34, 23, 27)); // turbo start color
}

#[test]
fn test_color_palettes_initialization() {
    // Test that all palettes are properly registered
    assert!(palette_from_name("turbo").is_some());
    assert!(palette_from_name("viridis").is_some());
    assert!(palette_from_name("inferno").is_some());
    assert!(palette_from_name("plasma").is_some());
    assert!(palette_from_name("magma").is_some());

    // Check a few specific palette colors
    let turbo = palette_from_name("turbo").unwrap();
    let start = palette_sample(turbo, 0);
    assert_eq!((start.r, start.g, start.b), (34, 23, 27));
    // Check end color of palette
    let end = palette_sample(turbo, POS_STEPS);
    assert_eq!((end.r, end.g, end.b), (144, 12, 0));

    // Test reverse palettes
    assert!(palette_from_name("blues").is_some());
    assert!(palette_from_name("greens").is_some());
    assert!(palette_from_name("reds").is_some());
}

#[test]
fn test_get_color_palette_with_all_palettes() {
    // Test each dark-to-light palette
    for name in &[
        "brownGreen",
        "cividis",
        "cool",
        "cubehelix",
        "inferno",
        "magma",
        "plasma",
        "purpleGreen",
        "purpleOrange",
        "rainbow",
        "redBlue",
        "redGrey",
        "redYellowBlue",
        "redYellowGreen",
        "sinebow",
        "spectral",
        "turbo",
        "viridis",
        "warm",
        "yellowOrangeBrown",
    ] {
        let (palette, should_reverse) = get_color_palette(name, false);
        assert!(!should_reverse);
        let c = palette_sample(palette, 0);
        assert!(c.r <= u8::MAX && c.g <= u8::MAX && c.b <= u8::MAX);
    }

    // Test each palette of the light-to-dark family
    for name in &[
        "blues",
        "greenBlue",
        "greens",
        "greys",
        "orangeRed",
        "oranges",
        "pinkGreen",
        "purpleBlueGreen",
        "purpleRed",
        "purples",
        "redPurple",
        "reds",
        "yellowGreen",
        "yellowGreenBlue",
        "yellowOrangeRed",
    ] {
        let (palette, should_reverse) = get_color_palette(name, false);
        assert!(should_reverse);
        let c = palette_sample(palette, 0);
        assert!(c.r <= u8::MAX && c.g <= u8::MAX && c.b <= u8::MAX);
    }
}

#[test]
fn palette_sample_matches_colorous() {
    // The gradient wrapper hands back exactly what colorous computes: a
    // sample that ignored its position arguments would fail here.
    let positions = [0usize, 1, 12345, POS_STEPS / 3, POS_STEPS / 2, POS_STEPS - 1, POS_STEPS];
    for &i in positions.iter() {
        let ours = palette_sample(Palette::Turbo, i);
        let theirs = colorous::TURBO.eval_rational(i, POS_STEPS + 1);
        assert_eq!((ours.r, ours.g, ours.b), (theirs.r, theirs.g, theirs.b));

        let ours = palette_sample(Palette::Viridis, i);
        let theirs = colorous::VIRIDIS.eval_rational(i, POS_STEPS + 1);
        assert_eq!((ours.r, ours.g, ours.b), (theirs.r, theirs.g, theirs.b));

        let ours = palette_sample(Palette::Blues, i);
        let theirs = colorous::BLUES.eval_rational(i, POS_STEPS + 1);
        assert_eq!((ours.r, ours.g, ours.b), (theirs.r, theirs.g, theirs.b));
    }
}

#[test]
fn palette_registry_is_exhaustive() {
    // Every registered name maps to a distinct palette.
    let names = [
        "brownGreen",
        "cividis",
        "cool",
        "cubehelix",
        "inferno",
        "magma",
        "plasma",
        "purpleGreen",
        "purpleOrange",
        "rainbow",
        "redBlue",
        "redGrey",
        "redYellowBlue",
        "redYellowGreen",
        "sinebow",
        "spectral",
        "turbo",
        "viridis",
        "warm",
        "yellowOrangeBrown",
        "blues",
        "greenBlue",
        "greens",
        "greys",
        "orangeRed",
        "oranges",
        "pinkGreen",
        "purpleBlueGreen",
        "purpleRed",
        "purples",
        "redPurple",
        "reds",
        "yellowGreen",
        "yellowGreenBlue",
        "yellowOrangeRed",
    ];
    let mut seen: Vec<Palette> = Vec::new();
    for name in names.iter() {
        let p = palette_from_name(name).unwrap();
        assert!(!seen.contains(&p), "palette registered twice: {}", name);
        seen.push(p);
    }
    assert_eq!(seen.len(), 35);
    // Unknown and case-mismatched names are not registered.
    assert!(palette_from_name("Turbo").is_none());
    assert!(palette_from_name("").is_none());
    assert!(palette_from_name("turbo ").is_none());
}
