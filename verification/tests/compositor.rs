use soft_ratatui::blink::BlinkClock;
use soft_ratatui::cell::{Cell, Modifier};
use soft_ratatui::colors::{Color, Rgb};
use soft_ratatui::compositor::{
    draw_glyph, draw_glyphs, fill_rect, resolve_cell_colors, resolve_ink, CellColors,
};
use soft_ratatui::glyph::GlyphImage;
use soft_ratatui::pixmap::RgbPixmap;

const WHITE: Rgb = Rgb { r: 255, g: 255, b: 255 };
const BLACK: Rgb = Rgb { r: 0, g: 0, b: 0 };
const RED: Rgb = Rgb { r: 200, g: 10, b: 20 };

fn grey(level: u8) -> Rgb {
    Rgb { r: level, g: level, b: level }
}

fn glyph(x: i32, y: i32, line_y: i32, left: i32, top: i32, width: u32, height: u32, data: Vec<u8>) -> GlyphImage {
    GlyphImage { x, y, line_y, left, top, width, height, data }
}

fn painted(p: &RgbPixmap, background: Rgb) -> Vec<(usize, usize, Rgb)> {
    let mut out = Vec::new();
    for y in 0..p.height() {
        for x in 0..p.width() {
            let c = p.get_pixel(x, y).unwrap();
            if c != background {
                out.push((x, y, c));
            }
        }
    }
    out
}

fn clock_at(tick: u32) -> BlinkClock {
    let mut clock = BlinkClock::new();
    for _ in 0..tick {
        clock.tick();
    }
    clock
}

#[test]
fn fill_rect_paints_the_rectangle_only() {
    let mut p = RgbPixmap::new(6, 5);
    fill_rect(&mut p, 1, 2, 3, 2, RED);
    let expected: Vec<(usize, usize, Rgb)> = vec![
        (1, 2, RED),
        (2, 2, RED),
        (3, 2, RED),
        (1, 3, RED),
        (2, 3, RED),
        (3, 3, RED),
    ];
    assert_eq!(painted(&p, BLACK), expected);
}

#[test]
fn fill_rect_is_clipped_to_the_buffer() {
    let mut p = RgbPixmap::new(4, 3);
    fill_rect(&mut p, 2, 1, 10, 10, RED);
    let expected: Vec<(usize, usize, Rgb)> =
        vec![(2, 1, RED), (3, 1, RED), (2, 2, RED), (3, 2, RED)];
    assert_eq!(painted(&p, BLACK), expected);
    let mut q = RgbPixmap::new(4, 3);
    fill_rect(&mut q, 3, 2, usize::MAX, usize::MAX, RED);
    assert_eq!(painted(&q, BLACK), vec![(3, 2, RED)]);
}

#[test]
fn fill_rect_outside_or_empty_paints_nothing() {
    let mut p = RgbPixmap::new(4, 3);
    fill_rect(&mut p, 4, 0, 2, 2, RED);
    fill_rect(&mut p, 0, 3, 2, 2, RED);
    fill_rect(&mut p, 1, 1, 0, 2, RED);
    fill_rect(&mut p, 1, 1, 2, 0, RED);
    assert_eq!(painted(&p, BLACK), vec![]);
}

#[test]
fn glyph_is_placed_by_pen_position_line_and_placement() {
    let mut p = RgbPixmap::new(30, 30);
    let g = glyph(1, 0, 12, 2, 10, 2, 2, vec![255, 0, 128, 64]);
    draw_glyph(&mut p, 10, 20, &g, WHITE, BLACK);
    // left edge: 10 + 1 + 2 = 13; top edge: 20 + 12 + 0 - 10 = 22
    let expected: Vec<(usize, usize, Rgb)> =
        vec![(13, 22, grey(255)), (13, 23, grey(128)), (14, 23, grey(64))];
    assert_eq!(painted(&p, BLACK), expected);
}

#[test]
fn glyph_blends_ink_over_paper_not_over_the_pixel() {
    let mut p = RgbPixmap::new(4, 4);
    p.fill(RED);
    let g = glyph(0, 0, 0, 1, 0, 2, 1, vec![0, 51]);
    draw_glyph(&mut p, 0, 0, &g, WHITE, grey(100));
    // coverage 0 gives the paper colour; 51/255 gives 100 + 155 / 5 = 131
    assert_eq!(p.get_pixel(1, 0), Some(grey(100)));
    assert_eq!(p.get_pixel(2, 0), Some(grey(131)));
    assert_eq!(p.get_pixel(0, 0), Some(RED));
    assert_eq!(p.get_pixel(3, 0), Some(RED));
    assert_eq!(p.get_pixel(1, 1), Some(RED));
}

#[test]
fn glyph_may_reach_left_of_and_above_its_cell() {
    let mut p = RgbPixmap::new(20, 20);
    let g = glyph(-3, 0, 0, 0, 2, 2, 1, vec![255, 255]);
    draw_glyph(&mut p, 10, 10, &g, WHITE, BLACK);
    assert_eq!(painted(&p, BLACK), vec![(7, 8, WHITE), (8, 8, WHITE)]);
}

#[test]
fn glyph_is_clipped_to_the_buffer() {
    let mut p = RgbPixmap::new(4, 4);
    let g = glyph(-1, 0, 0, 0, 1, 3, 3, vec![255; 9]);
    draw_glyph(&mut p, 0, 0, &g, WHITE, BLACK);
    // columns -1..2 and rows -1..2: only (0..2, 0..2) is inside
    let expected: Vec<(usize, usize, Rgb)> =
        vec![(0, 0, WHITE), (1, 0, WHITE), (0, 1, WHITE), (1, 1, WHITE)];
    assert_eq!(painted(&p, BLACK), expected);

    let mut q = RgbPixmap::new(4, 4);
    let far = glyph(2, 0, 2, 0, 0, 5, 5, vec![255; 25]);
    draw_glyph(&mut q, 1, 1, &far, WHITE, BLACK);
    assert_eq!(painted(&q, BLACK), vec![(3, 3, WHITE)]);
}

#[test]
fn glyph_with_extreme_offsets_paints_nothing() {
    let mut p = RgbPixmap::new(4, 4);
    let g = glyph(i32::MAX, i32::MAX, i32::MAX, i32::MAX, i32::MIN, 2, 2, vec![255; 4]);
    draw_glyph(&mut p, usize::MAX, usize::MAX, &g, WHITE, BLACK);
    let h = glyph(i32::MIN, i32::MIN, i32::MIN, i32::MIN, i32::MAX, 2, 2, vec![255; 4]);
    draw_glyph(&mut p, 0, 0, &h, WHITE, BLACK);
    assert_eq!(painted(&p, BLACK), vec![]);
}

#[test]
fn glyph_with_too_little_data_is_left_out() {
    let mut p = RgbPixmap::new(4, 4);
    let g = glyph(0, 0, 0, 0, 0, 2, 2, vec![255, 255, 255]);
    draw_glyph(&mut p, 0, 0, &g, WHITE, BLACK);
    assert_eq!(painted(&p, BLACK), vec![]);
}

#[test]
fn glyph_with_surplus_data_uses_one_value_per_pixel() {
    let mut p = RgbPixmap::new(4, 4);
    let g = glyph(0, 0, 0, 0, 0, 2, 1, vec![255, 102, 255, 255, 255, 255, 255, 255]);
    draw_glyph(&mut p, 1, 1, &g, WHITE, BLACK);
    assert_eq!(painted(&p, BLACK), vec![(1, 1, grey(255)), (2, 1, grey(102))]);
}

#[test]
fn empty_glyph_paints_nothing() {
    let mut p = RgbPixmap::new(4, 4);
    draw_glyph(&mut p, 0, 0, &glyph(0, 0, 0, 0, 0, 0, 0, vec![]), WHITE, BLACK);
    draw_glyph(&mut p, 0, 0, &glyph(0, 0, 0, 0, 0, 3, 0, vec![]), WHITE, BLACK);
    draw_glyphs(&mut p, 0, 0, &vec![], WHITE, BLACK);
    assert_eq!(painted(&p, BLACK), vec![]);
}

#[test]
fn later_glyphs_are_drawn_over_earlier_ones() {
    let mut p = RgbPixmap::new(4, 1);
    let first = glyph(0, 0, 0, 0, 0, 3, 1, vec![255, 255, 255]);
    let second = glyph(1, 0, 0, 0, 0, 2, 1, vec![0, 51]);
    draw_glyphs(&mut p, 0, 0, &vec![first, second], WHITE, BLACK);
    assert_eq!(p.get_pixel(0, 0), Some(grey(255)));
    assert_eq!(p.get_pixel(1, 0), Some(grey(0)));
    assert_eq!(p.get_pixel(2, 0), Some(grey(51)));
    assert_eq!(p.get_pixel(3, 0), Some(grey(0)));
}

fn cell(fg: Color, bg: Color, modifier: Modifier) -> Cell {
    Cell { symbol: "x".to_string(), fg, bg, modifier }
}

#[test]
fn plain_cell_colours() {
    let c = cell(Color::Reset, Color::Reset, Modifier::empty());
    assert_eq!(resolve_cell_colors(&c), CellColors { fg: grey(229), bg: grey(0) });
    let d = cell(Color::Rgb(1, 2, 3), Color::Indexed(9), Modifier::empty());
    assert_eq!(
        resolve_cell_colors(&d),
        CellColors { fg: Rgb { r: 1, g: 2, b: 3 }, bg: Rgb { r: 255, g: 0, b: 0 } }
    );
}

#[test]
fn reversed_cell_swaps_colours_keeping_their_roles() {
    let c = cell(Color::Reset, Color::Reset, Modifier { reversed: true, ..Modifier::empty() });
    assert_eq!(resolve_cell_colors(&c), CellColors { fg: grey(0), bg: grey(229) });
    let d = cell(
        Color::Rgb(1, 2, 3),
        Color::Rgb(4, 5, 6),
        Modifier { reversed: true, ..Modifier::empty() },
    );
    assert_eq!(
        resolve_cell_colors(&d),
        CellColors { fg: Rgb { r: 4, g: 5, b: 6 }, bg: Rgb { r: 1, g: 2, b: 3 } }
    );
}

#[test]
fn hidden_cell_takes_the_background_for_its_foreground() {
    let c = cell(
        Color::Rgb(1, 2, 3),
        Color::Rgb(4, 5, 6),
        Modifier { hidden: true, ..Modifier::empty() },
    );
    assert_eq!(
        resolve_cell_colors(&c),
        CellColors { fg: Rgb { r: 4, g: 5, b: 6 }, bg: Rgb { r: 4, g: 5, b: 6 } }
    );
    // the substituted colour is still resolved in the foreground role
    let d = cell(Color::Rgb(1, 2, 3), Color::Reset, Modifier { hidden: true, ..Modifier::empty() });
    assert_eq!(resolve_cell_colors(&d), CellColors { fg: grey(229), bg: grey(0) });
}

#[test]
fn dim_cell_has_both_colours_attenuated() {
    let c = cell(
        Color::Rgb(255, 100, 0),
        Color::Rgb(10, 255, 128),
        Modifier { dim: true, ..Modifier::empty() },
    );
    assert_eq!(
        resolve_cell_colors(&c),
        CellColors { fg: Rgb { r: 77, g: 30, b: 0 }, bg: Rgb { r: 3, g: 77, b: 38 } }
    );
}

#[test]
fn ink_is_the_background_while_blinked_out() {
    let rapid = cell(
        Color::Rgb(1, 2, 3),
        Color::Rgb(4, 5, 6),
        Modifier { rapid_blink: true, ..Modifier::empty() },
    );
    let slow = cell(
        Color::Rgb(1, 2, 3),
        Color::Rgb(4, 5, 6),
        Modifier { slow_blink: true, ..Modifier::empty() },
    );
    let steady = cell(Color::Rgb(1, 2, 3), Color::Rgb(4, 5, 6), Modifier::empty());
    let fg = Rgb { r: 1, g: 2, b: 3 };
    let bg = Rgb { r: 4, g: 5, b: 6 };
    for tick in 0..200u32 {
        let clock = clock_at(tick);
        let fast_on = tick % 100 <= 5;
        let slow_on = (20..=25).contains(&tick);
        assert_eq!(resolve_ink(&rapid, clock), if fast_on { bg } else { fg });
        assert_eq!(resolve_ink(&slow, clock), if slow_on { bg } else { fg });
        assert_eq!(resolve_ink(&steady, clock), fg);
    }
}
