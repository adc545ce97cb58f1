use soft_ratatui::colors::{
    blend_rgba, color_index, color_to_rgb, dim_rgb, palette_color, Color, Rgb, Rgba,
};

fn rgb(r: u8, g: u8, b: u8) -> Rgb {
    Rgb { r, g, b }
}

fn opaque(c: Rgb) -> Rgba {
    c.with_alpha(255)
}

#[test]
fn reset_resolves_by_role() {
    assert_eq!(color_to_rgb(Color::Reset, true), rgb(229, 229, 229));
    assert_eq!(color_to_rgb(Color::Reset, false), rgb(0, 0, 0));
}

#[test]
fn direct_rgb_is_kept() {
    assert_eq!(color_to_rgb(Color::Rgb(12, 34, 56), true), rgb(12, 34, 56));
    assert_eq!(color_to_rgb(Color::Rgb(12, 34, 56), false), rgb(12, 34, 56));
}

#[test]
fn indexed_goes_through_the_palette() {
    assert_eq!(color_to_rgb(Color::Indexed(1), true), rgb(205, 0, 0));
    assert_eq!(color_to_rgb(Color::Indexed(1), false), rgb(205, 0, 0));
    assert_eq!(color_to_rgb(Color::Indexed(244), false), rgb(128, 128, 128));
}

#[test]
fn named_colours_are_the_first_sixteen_palette_entries() {
    let named = [
        Color::Black,
        Color::Red,
        Color::Green,
        Color::Yellow,
        Color::Blue,
        Color::Magenta,
        Color::Cyan,
        Color::Gray,
        Color::DarkGray,
        Color::LightRed,
        Color::LightGreen,
        Color::LightYellow,
        Color::LightBlue,
        Color::LightMagenta,
        Color::LightCyan,
        Color::White,
    ];
    for (i, color) in named.iter().enumerate() {
        assert_eq!(color_index(*color), Some(i as u8));
        assert_eq!(color_to_rgb(*color, true), palette_color(i as u8));
        assert_eq!(color_to_rgb(*color, false), palette_color(i as u8));
    }
    assert_eq!(color_to_rgb(Color::Red, true), rgb(205, 0, 0));
    assert_eq!(color_to_rgb(Color::LightBlue, false), rgb(92, 92, 255));
    assert_eq!(color_index(Color::Reset), None);
    assert_eq!(color_index(Color::Rgb(1, 2, 3)), None);
    assert_eq!(color_index(Color::Indexed(200)), Some(200));
}

#[test]
fn palette_base_colours() {
    let expected = [
        (0, 0, 0),
        (205, 0, 0),
        (0, 205, 0),
        (205, 205, 0),
        (0, 0, 238),
        (205, 0, 205),
        (0, 205, 205),
        (229, 229, 229),
        (127, 127, 127),
        (255, 0, 0),
        (0, 255, 0),
        (255, 255, 0),
        (92, 92, 255),
        (255, 0, 255),
        (0, 255, 255),
        (255, 255, 255),
    ];
    for (i, (r, g, b)) in expected.iter().enumerate() {
        assert_eq!(palette_color(i as u8), rgb(*r, *g, *b));
    }
}

#[test]
fn palette_colour_cube() {
    assert_eq!(palette_color(16), rgb(0, 0, 0));
    assert_eq!(palette_color(21), rgb(0, 0, 255));
    assert_eq!(palette_color(46), rgb(0, 255, 0));
    assert_eq!(palette_color(59), rgb(95, 95, 95));
    assert_eq!(palette_color(196), rgb(255, 0, 0));
    assert_eq!(palette_color(110), rgb(135, 175, 215));
    assert_eq!(palette_color(231), rgb(255, 255, 255));
}

#[test]
fn palette_grey_ramp() {
    assert_eq!(palette_color(232), rgb(8, 8, 8));
    assert_eq!(palette_color(244), rgb(128, 128, 128));
    assert_eq!(palette_color(255), rgb(238, 238, 238));
}

#[test]
fn dim_scales_by_77_over_255_rounding_down() {
    assert_eq!(dim_rgb(rgb(255, 100, 0)), rgb(77, 30, 0));
    assert_eq!(dim_rgb(rgb(1, 128, 3)), rgb(0, 38, 0));
    assert_eq!(dim_rgb(rgb(4, 254, 200)), rgb(1, 76, 60));
}

#[test]
fn dim_never_brightens() {
    for c in 0..=255u8 {
        let out = dim_rgb(rgb(c, c, c));
        assert!(out.r <= c);
        assert_eq!(out.r as u32, c as u32 * 77 / 255);
    }
}

#[test]
fn blend_formula() {
    let out = blend_rgba(rgb(200, 255, 0).with_alpha(64), opaque(rgb(100, 0, 255)));
    assert_eq!(out, rgb(125, 64, 191));
    let half = blend_rgba(rgb(255, 255, 255).with_alpha(128), opaque(rgb(0, 0, 0)));
    assert_eq!(half, rgb(128, 128, 128));
}

#[test]
fn blend_full_coverage_is_foreground() {
    let out = blend_rgba(rgb(10, 20, 30).with_alpha(255), opaque(rgb(200, 100, 50)));
    assert_eq!(out, rgb(10, 20, 30));
}

#[test]
fn blend_no_coverage_is_background() {
    let out = blend_rgba(rgb(10, 20, 30).with_alpha(0), opaque(rgb(200, 100, 50)));
    assert_eq!(out, rgb(200, 100, 50));
}

#[test]
fn blend_ignores_background_alpha() {
    let fg = rgb(10, 20, 30).with_alpha(77);
    let a = blend_rgba(fg, rgb(200, 100, 50).with_alpha(255));
    let b = blend_rgba(fg, rgb(200, 100, 50).with_alpha(0));
    assert_eq!(a, b);
}

#[test]
fn blend_of_a_colour_over_itself_is_that_colour() {
    for alpha in 0..=255u8 {
        for c in [0u8, 1, 77, 128, 254, 255] {
            let out = blend_rgba(rgb(c, c, c).with_alpha(alpha), opaque(rgb(c, c, c)));
            assert_eq!(out, rgb(c, c, c));
        }
    }
}

#[test]
fn blend_stays_between_its_inputs() {
    for alpha in 0..=255u8 {
        let out = blend_rgba(rgb(250, 10, 60).with_alpha(alpha), opaque(rgb(20, 240, 60)));
        assert!(20 <= out.r && out.r <= 250);
        assert!(10 <= out.g && out.g <= 240);
        assert_eq!(out.b, 60);
    }
}
