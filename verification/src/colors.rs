//! Colour model: abstract cell colours, the 256-entry palette, dimming and
//! alpha blending.

use vstd::prelude::*;

verus! {

/// A concrete 24-bit colour.
#[derive(Clone, Copy, Debug, PartialEq, Eq, Structural)]
pub struct Rgb {
    pub r: u8,
    pub g: u8,
    pub b: u8,
}

/// A colour with an 8-bit alpha channel; `a == 255` is fully opaque.
#[derive(Clone, Copy, Debug, PartialEq, Eq, Structural)]
pub struct Rgba {
    pub r: u8,
    pub g: u8,
    pub b: u8,
    pub a: u8,
}

/// The colour a cell asks for, before it is resolved to pixels: the surface
/// default, one of the sixteen named colours, a palette entry or a direct
/// colour. The named colours are the first sixteen entries of the palette.
#[derive(Clone, Copy, Debug, PartialEq, Eq, Structural)]
pub enum Color {
    /// The surface default; which colour that is depends on the role.
    Reset,
    Black,
    Red,
    Green,
    Yellow,
    Blue,
    Magenta,
    Cyan,
    Gray,
    DarkGray,
    LightRed,
    LightGreen,
    LightYellow,
    LightBlue,
    LightMagenta,
    LightCyan,
    White,
    /// A direct 24-bit colour.
    Rgb(u8, u8, u8),
    /// An entry of the 256-colour palette.
    Indexed(u8),
}

/// Numerator of the dimming factor `DIM_NUMERATOR / DIM_DENOMINATOR`.
pub const DIM_NUMERATOR: u32 = 77;

/// Denominator of the dimming factor.
pub const DIM_DENOMINATOR: u32 = 255;

/// Colour used for `Color::Reset` in the foreground role.
pub open spec fn default_foreground() -> Rgb {
    Rgb { r: 229, g: 229, b: 229 }
}

/// Colour used for `Color::Reset` in the background role.
pub open spec fn default_background() -> Rgb {
    Rgb { r: 0, g: 0, b: 0 }
}

/// The sixteen base colours of the palette.
pub open spec fn ansi_rgb(index: u8) -> Rgb {
    if index == 0 {
        Rgb { r: 0, g: 0, b: 0 }
    } else if index == 1 {
        Rgb { r: 205, g: 0, b: 0 }
    } else if index == 2 {
        Rgb { r: 0, g: 205, b: 0 }
    } else if index == 3 {
        Rgb { r: 205, g: 205, b: 0 }
    } else if index == 4 {
        Rgb { r: 0, g: 0, b: 238 }
    } else if index == 5 {
        Rgb { r: 205, g: 0, b: 205 }
    } else if index == 6 {
        Rgb { r: 0, g: 205, b: 205 }
    } else if index == 7 {
        Rgb { r: 229, g: 229, b: 229 }
    } else if index == 8 {
        Rgb { r: 127, g: 127, b: 127 }
    } else if index == 9 {
        Rgb { r: 255, g: 0, b: 0 }
    } else if index == 10 {
        Rgb { r: 0, g: 255, b: 0 }
    } else if index == 11 {
        Rgb { r: 255, g: 255, b: 0 }
    } else if index == 12 {
        Rgb { r: 92, g: 92, b: 255 }
    } else if index == 13 {
        Rgb { r: 255, g: 0, b: 255 }
    } else if index == 14 {
        Rgb { r: 0, g: 255, b: 255 }
    } else {
        Rgb { r: 255, g: 255, b: 255 }
    }
}

/// Intensity of one step of the 6x6x6 colour cube.
pub open spec fn cube_level(step: int) -> int {
    if step == 0 {
        0
    } else {
        55 + 40 * step
    }
}

/// The palette: 16 base colours, a 6x6x6 cube, then a 24-step grey ramp.
pub open spec fn palette_rgb(index: u8) -> Rgb {
    if index < 16 {
        ansi_rgb(index)
    } else if index < 232 {
        let n = index - 16;
        Rgb {
            r: cube_level(n / 36) as u8,
            g: cube_level((n / 6) % 6) as u8,
            b: cube_level(n % 6) as u8,
        }
    } else {
        let level = 8 + 10 * (index - 232);
        Rgb { r: level as u8, g: level as u8, b: level as u8 }
    }
}

/// The palette entry that a colour names, if it names one.
pub open spec fn palette_index(color: Color) -> Option<u8> {
    match color {
        Color::Reset => None,
        Color::Black => Some(0u8),
        Color::Red => Some(1u8),
        Color::Green => Some(2u8),
        Color::Yellow => Some(3u8),
        Color::Blue => Some(4u8),
        Color::Magenta => Some(5u8),
        Color::Cyan => Some(6u8),
        Color::Gray => Some(7u8),
        Color::DarkGray => Some(8u8),
        Color::LightRed => Some(9u8),
        Color::LightGreen => Some(10u8),
        Color::LightYellow => Some(11u8),
        Color::LightBlue => Some(12u8),
        Color::LightMagenta => Some(13u8),
        Color::LightCyan => Some(14u8),
        Color::White => Some(15u8),
        Color::Rgb(_, _, _) => None,
        Color::Indexed(index) => Some(index),
    }
}

/// The concrete colour of `color`; `foreground` picks the default that
/// `Color::Reset` stands for.
pub open spec fn resolve(color: Color, foreground: bool) -> Rgb {
    match color {
        Color::Reset => if foreground {
            default_foreground()
        } else {
            default_background()
        },
        Color::Rgb(r, g, b) => Rgb { r, g, b },
        _ => palette_rgb(palette_index(color).unwrap()),
    }
}

/// One channel attenuated by the dimming factor, rounded down.
pub open spec fn dim_channel(c: u8) -> u8 {
    (c as int * 77 / 255) as u8
}

/// A colour with every channel dimmed.
pub open spec fn dimmed(color: Rgb) -> Rgb {
    Rgb { r: dim_channel(color.r), g: dim_channel(color.g), b: dim_channel(color.b) }
}

/// `fg * alpha/255 + bg * (1 - alpha/255)`, rounded down.
pub open spec fn blend_channel(fg: u8, bg: u8, alpha: u8) -> u8 {
    ((fg as int * alpha as int + bg as int * (255 - alpha as int)) / 255) as u8
}

/// `fg` composited over `bg` with the coverage `fg.a`.
pub open spec fn blended(fg: Rgba, bg: Rgba) -> Rgb {
    Rgb {
        r: blend_channel(fg.r, bg.r, fg.a),
        g: blend_channel(fg.g, bg.g, fg.a),
        b: blend_channel(fg.b, bg.b, fg.a),
    }
}

impl Rgb {
    /// The same colour with an alpha channel attached.
    pub open spec fn spec_with_alpha(self, a: u8) -> Rgba {
        Rgba { r: self.r, g: self.g, b: self.b, a }
    }

    /// The same colour with an alpha channel attached.
    #[verifier::when_used_as_spec(spec_with_alpha)]
    pub fn with_alpha(self, a: u8) -> (out: Rgba)
        ensures
            out == self.spec_with_alpha(a),
    {
        Rgba { r: self.r, g: self.g, b: self.b, a }
    }
}

fn ansi_color(index: u8) -> (out: Rgb)
    requires
        index < 16,
    ensures
        out == ansi_rgb(index),
{
    match index {
        0 => Rgb { r: 0, g: 0, b: 0 },
        1 => Rgb { r: 205, g: 0, b: 0 },
        2 => Rgb { r: 0, g: 205, b: 0 },
        3 => Rgb { r: 205, g: 205, b: 0 },
        4 => Rgb { r: 0, g: 0, b: 238 },
        5 => Rgb { r: 205, g: 0, b: 205 },
        6 => Rgb { r: 0, g: 205, b: 205 },
        7 => Rgb { r: 229, g: 229, b: 229 },
        8 => Rgb { r: 127, g: 127, b: 127 },
        9 => Rgb { r: 255, g: 0, b: 0 },
        10 => Rgb { r: 0, g: 255, b: 0 },
        11 => Rgb { r: 255, g: 255, b: 0 },
        12 => Rgb { r: 92, g: 92, b: 255 },
        13 => Rgb { r: 255, g: 0, b: 255 },
        14 => Rgb { r: 0, g: 255, b: 255 },
        _ => Rgb { r: 255, g: 255, b: 255 },
    }
}

fn cube_intensity(step: u8) -> (out: u8)
    requires
        step < 6,
    ensures
        out == cube_level(step as int),
{
    if step == 0 {
        0
    } else {
        55 + 40 * step
    }
}

/// Looks up an entry of the 256-colour palette.
pub fn palette_color(index: u8) -> (out: Rgb)
    ensures
        out == palette_rgb(index),
{
    if index < 16 {
        ansi_color(index)
    } else if index < 232 {
        let n: u8 = index - 16;
        Rgb {
            r: cube_intensity(n / 36),
            g: cube_intensity((n / 6) % 6),
            b: cube_intensity(n % 6),
        }
    } else {
        let level: u8 = 8 + 10 * (index - 232);
        Rgb { r: level, g: level, b: level }
    }
}

/// The palette entry that a colour names, if it names one.
pub fn color_index(color: Color) -> (out: Option<u8>)
    ensures
        out == palette_index(color),
{
    match color {
        Color::Reset => None,
        Color::Black => Some(0),
        Color::Red => Some(1),
        Color::Green => Some(2),
        Color::Yellow => Some(3),
        Color::Blue => Some(4),
        Color::Magenta => Some(5),
        Color::Cyan => Some(6),
        Color::Gray => Some(7),
        Color::DarkGray => Some(8),
        Color::LightRed => Some(9),
        Color::LightGreen => Some(10),
        Color::LightYellow => Some(11),
        Color::LightBlue => Some(12),
        Color::LightMagenta => Some(13),
        Color::LightCyan => Some(14),
        Color::White => Some(15),
        Color::Rgb(_, _, _) => None,
        Color::Indexed(index) => Some(index),
    }
}

/// Resolves an abstract colour to RGB. `foreground` tells which default
/// `Color::Reset` stands for.
pub fn color_to_rgb(color: Color, foreground: bool) -> (out: Rgb)
    ensures
        out == resolve(color, foreground),
{
    match color {
        Color::Reset => {
            if foreground {
                Rgb { r: 229, g: 229, b: 229 }
            } else {
                Rgb { r: 0, g: 0, b: 0 }
            }
        },
        Color::Rgb(r, g, b) => Rgb { r, g, b },
        _ => {
            match color_index(color) {
                Some(index) => palette_color(index),
                None => Rgb { r: 0, g: 0, b: 0 },
            }
        },
    }
}

fn dim_one(c: u8) -> (out: u8)
    ensures
        out == dim_channel(c),
        out <= c,
{
    let scaled: u32 = c as u32 * DIM_NUMERATOR / DIM_DENOMINATOR;
    scaled as u8
}

/// Attenuates every channel by `DIM_NUMERATOR / DIM_DENOMINATOR`, rounding
/// down. No channel gets brighter.
pub fn dim_rgb(color: Rgb) -> (out: Rgb)
    ensures
        out == dimmed(color),
        out.r <= color.r,
        out.g <= color.g,
        out.b <= color.b,
{
    Rgb { r: dim_one(color.r), g: dim_one(color.g), b: dim_one(color.b) }
}

/// A blended channel lies between the two channels it mixes, and equals the
/// foreground at full coverage and the background at none.
pub proof fn lemma_blend_channel_bounds(fg: u8, bg: u8, alpha: u8)
    ensures
        0 <= fg as int * alpha as int + bg as int * (255 - alpha as int) <= 65025,
        fg <= bg ==> fg <= blend_channel(fg, bg, alpha) <= bg,
        bg <= fg ==> bg <= blend_channel(fg, bg, alpha) <= fg,
        alpha == 255 ==> blend_channel(fg, bg, alpha) == fg,
        alpha == 0 ==> blend_channel(fg, bg, alpha) == bg,
{
    let f = fg as int;
    let b = bg as int;
    let a = alpha as int;
    let mix = f * a + b * (255 - a);
    assert(0 <= mix <= 65025 && (f <= b ==> f * 255 <= mix <= b * 255) && (b <= f ==> b * 255
        <= mix <= f * 255)) by (nonlinear_arith)
        requires
            0 <= f <= 255,
            0 <= b <= 255,
            0 <= a <= 255,
            mix == f * a + b * (255 - a),
    ;
    assert(a == 255 ==> mix == f * 255) by (nonlinear_arith)
        requires
            mix == f * a + b * (255 - a),
    ;
    assert(a == 0 ==> mix == b * 255) by (nonlinear_arith)
        requires
            mix == f * a + b * (255 - a),
    ;
}

fn blend_one(fg: u8, bg: u8, alpha: u8) -> (out: u8)
    ensures
        out == blend_channel(fg, bg, alpha),
{
    proof {
        lemma_blend_channel_bounds(fg, bg, alpha);
        assert(0 <= (fg as int) * (alpha as int) <= 65025) by (nonlinear_arith)
            requires
                0 <= fg <= 255,
                0 <= alpha <= 255,
        ;
        assert(0 <= (bg as int) * (255 - alpha as int) <= 65025) by (nonlinear_arith)
            requires
                0 <= bg <= 255,
                0 <= alpha <= 255,
        ;
    }
    let inverse: u32 = 255 - alpha as u32;
    let mix: u32 = fg as u32 * alpha as u32 + bg as u32 * inverse;
    (mix / 255) as u8
}

/// Composites `fg` over `bg`: per channel `fg * a + bg * (1 - a)` with
/// `a = fg.a / 255`, rounded down. The alpha of `bg` is not consulted; the
/// background is taken as opaque.
pub fn blend_rgba(fg: Rgba, bg: Rgba) -> (out: Rgb)
    ensures
        out == blended(fg, bg),
{
    Rgb {
        r: blend_one(fg.r, bg.r, fg.a),
        g: blend_one(fg.g, bg.g, fg.a),
        b: blend_one(fg.b, bg.b, fg.a),
    }
}

/// Full coverage yields the foreground colour.
pub proof fn lemma_blend_opaque(fg: Rgb, bg: Rgba)
    ensures
        blended(fg.with_alpha(255), bg) == fg,
{
    lemma_blend_channel_bounds(fg.r, bg.r, 255);
    lemma_blend_channel_bounds(fg.g, bg.g, 255);
    lemma_blend_channel_bounds(fg.b, bg.b, 255);
}

/// Zero coverage yields the background colour.
pub proof fn lemma_blend_transparent(fg: Rgb, bg: Rgb, bg_alpha: u8)
    ensures
        blended(fg.with_alpha(0), bg.with_alpha(bg_alpha)) == bg,
{
    lemma_blend_channel_bounds(fg.r, bg.r, 0);
    lemma_blend_channel_bounds(fg.g, bg.g, 0);
    lemma_blend_channel_bounds(fg.b, bg.b, 0);
}

/// Blending a colour over itself yields that colour, whatever the coverage.
pub proof fn lemma_blend_same(color: Rgb, alpha: u8, bg_alpha: u8)
    ensures
        blended(color.with_alpha(alpha), color.with_alpha(bg_alpha)) == color,
{
    lemma_blend_channel_bounds(color.r, color.r, alpha);
    lemma_blend_channel_bounds(color.g, color.g, alpha);
    lemma_blend_channel_bounds(color.b, color.b, alpha);
}

} // verus!
