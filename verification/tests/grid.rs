use ratatui::layout::Rect;
use ratatui::style::{Color as RatColor, Modifier as RatModifier};
use soft_ratatui::cell::{Cell, Modifier};
use soft_ratatui::colors::Color;
use soft_ratatui::grid::{cell_at, empty, height, reset, resize, set_cell, width};

fn styled(text: &str, fg: Color, bg: Color, modifier: Modifier) -> Cell {
    Cell { symbol: text.to_string(), fg, bg, modifier }
}

#[test]
fn empty_buffer_holds_blank_cells() {
    let b = empty(3, 2);
    assert_eq!(width(&b), 3);
    assert_eq!(height(&b), 2);
    assert_eq!(b.area, Rect::new(0, 0, 3, 2));
    assert_eq!(b.content.len(), 6);
    for y in 0..2 {
        for x in 0..3 {
            assert_eq!(cell_at(&b, x, y), Some(Cell::empty()));
        }
    }
    let none = empty(0, 4);
    assert_eq!(width(&none), 0);
    assert_eq!(height(&none), 4);
    assert_eq!(none.content.len(), 0);
}

#[test]
fn blank_cell_is_a_space_in_default_colours() {
    let c = Cell::empty();
    assert_eq!(c.symbol, " ");
    assert_eq!(c.fg, Color::Reset);
    assert_eq!(c.bg, Color::Reset);
    assert_eq!(c.modifier, Modifier::empty());
    assert_eq!(c, Cell::new(" "));
}

#[test]
fn cell_outside_is_none() {
    let b = empty(3, 2);
    assert_eq!(cell_at(&b, 3, 0), None);
    assert_eq!(cell_at(&b, 0, 2), None);
    assert_eq!(cell_at(&b, u16::MAX, u16::MAX), None);
    assert_eq!(cell_at(&empty(0, 0), 0, 0), None);
}

#[test]
fn set_cell_replaces_one_cell() {
    let mut b = empty(3, 2);
    let given = styled(
        "z",
        Color::LightBlue,
        Color::Rgb(1, 2, 3),
        Modifier { bold: true, hidden: true, ..Modifier::empty() },
    );
    assert!(set_cell(&mut b, 2, 1, &given));
    assert_eq!(cell_at(&b, 2, 1), Some(given));
    for y in 0..2 {
        for x in 0..3 {
            if (x, y) != (2, 1) {
                assert_eq!(cell_at(&b, x, y), Some(Cell::empty()));
            }
        }
    }
    let held = &b[(2, 1)];
    assert_eq!(held.symbol(), "z");
    assert_eq!(held.fg, RatColor::LightBlue);
    assert_eq!(held.bg, RatColor::Rgb(1, 2, 3));
    assert_eq!(held.modifier, RatModifier::BOLD | RatModifier::HIDDEN);
}

#[test]
fn set_cell_overwrites_every_part() {
    let mut b = empty(2, 1);
    let all = Modifier {
        bold: true,
        dim: true,
        italic: true,
        underlined: true,
        slow_blink: true,
        rapid_blink: true,
        reversed: true,
        hidden: true,
        crossed_out: true,
    };
    set_cell(&mut b, 1, 0, &styled("long", Color::Red, Color::Indexed(200), all));
    assert_eq!(b[(1, 0)].modifier, RatModifier::all());
    assert_eq!(cell_at(&b, 1, 0), Some(styled("long", Color::Red, Color::Indexed(200), all)));
    set_cell(&mut b, 1, 0, &Cell::new("q"));
    assert_eq!(cell_at(&b, 1, 0), Some(Cell::new("q")));
    assert_eq!(b[(1, 0)].modifier, RatModifier::empty());
    assert_eq!(b[(1, 0)].fg, RatColor::Reset);
}

#[test]
fn colours_go_in_and_out_variant_for_variant() {
    let pairs = [
        (Color::Reset, RatColor::Reset),
        (Color::Black, RatColor::Black),
        (Color::Red, RatColor::Red),
        (Color::Green, RatColor::Green),
        (Color::Yellow, RatColor::Yellow),
        (Color::Blue, RatColor::Blue),
        (Color::Magenta, RatColor::Magenta),
        (Color::Cyan, RatColor::Cyan),
        (Color::Gray, RatColor::Gray),
        (Color::DarkGray, RatColor::DarkGray),
        (Color::LightRed, RatColor::LightRed),
        (Color::LightGreen, RatColor::LightGreen),
        (Color::LightYellow, RatColor::LightYellow),
        (Color::LightBlue, RatColor::LightBlue),
        (Color::LightMagenta, RatColor::LightMagenta),
        (Color::LightCyan, RatColor::LightCyan),
        (Color::White, RatColor::White),
        (Color::Rgb(9, 8, 7), RatColor::Rgb(9, 8, 7)),
        (Color::Indexed(77), RatColor::Indexed(77)),
    ];
    for (ours, theirs) in pairs {
        let mut b = empty(1, 1);
        set_cell(&mut b, 0, 0, &styled("c", ours, Color::Reset, Modifier::empty()));
        assert_eq!(b[(0, 0)].fg, theirs);
        assert_eq!(b[(0, 0)].bg, RatColor::Reset);
        assert_eq!(cell_at(&b, 0, 0).unwrap().fg, ours);
        set_cell(&mut b, 0, 0, &styled("c", Color::Reset, ours, Modifier::empty()));
        assert_eq!(b[(0, 0)].bg, theirs);
        assert_eq!(b[(0, 0)].fg, RatColor::Reset);
        assert_eq!(cell_at(&b, 0, 0).unwrap().bg, ours);
        // read what ratatui itself wrote
        let mut c = empty(1, 1);
        c[(0, 0)].set_fg(theirs).set_bg(theirs);
        assert_eq!(cell_at(&c, 0, 0).unwrap().fg, ours);
        assert_eq!(cell_at(&c, 0, 0).unwrap().bg, ours);
    }
}

#[test]
fn modifiers_go_in_and_out_flag_for_flag() {
    let none = Modifier::empty();
    let flags = [
        (Modifier { bold: true, ..none }, RatModifier::BOLD),
        (Modifier { dim: true, ..none }, RatModifier::DIM),
        (Modifier { italic: true, ..none }, RatModifier::ITALIC),
        (Modifier { underlined: true, ..none }, RatModifier::UNDERLINED),
        (Modifier { slow_blink: true, ..none }, RatModifier::SLOW_BLINK),
        (Modifier { rapid_blink: true, ..none }, RatModifier::RAPID_BLINK),
        (Modifier { reversed: true, ..none }, RatModifier::REVERSED),
        (Modifier { hidden: true, ..none }, RatModifier::HIDDEN),
        (Modifier { crossed_out: true, ..none }, RatModifier::CROSSED_OUT),
    ];
    for (ours, theirs) in flags {
        let mut b = empty(1, 1);
        set_cell(&mut b, 0, 0, &styled("m", Color::Reset, Color::Reset, ours));
        assert_eq!(b[(0, 0)].modifier, theirs);
        assert_eq!(cell_at(&b, 0, 0).unwrap().modifier, ours);
        let mut c = empty(1, 1);
        c[(0, 0)].modifier = theirs;
        assert_eq!(cell_at(&c, 0, 0).unwrap().modifier, ours);
    }
}

#[test]
fn set_cell_outside_is_ignored() {
    let mut b = empty(3, 2);
    assert!(!set_cell(&mut b, 3, 0, &Cell::new("z")));
    assert!(!set_cell(&mut b, 0, 2, &Cell::new("z")));
    for y in 0..2 {
        for x in 0..3 {
            assert_eq!(cell_at(&b, x, y), Some(Cell::empty()));
        }
    }
}

#[test]
fn reset_blanks_every_cell() {
    let mut b = empty(2, 2);
    set_cell(&mut b, 0, 0, &styled("a", Color::Red, Color::Blue, Modifier { dim: true, ..Modifier::empty() }));
    set_cell(&mut b, 1, 1, &Cell::new("b"));
    reset(&mut b);
    assert_eq!(width(&b), 2);
    assert_eq!(height(&b), 2);
    for y in 0..2 {
        for x in 0..2 {
            assert_eq!(cell_at(&b, x, y), Some(Cell::empty()));
        }
    }
}

#[test]
fn resize_keeps_cells_in_row_major_order() {
    let mut b = empty(2, 2);
    set_cell(&mut b, 1, 0, &Cell::new("a"));
    set_cell(&mut b, 0, 1, &Cell::new("b"));
    resize(&mut b, 3, 2);
    assert_eq!(width(&b), 3);
    assert_eq!(height(&b), 2);
    assert_eq!(b.area, Rect::new(0, 0, 3, 2));
    assert_eq!(cell_at(&b, 0, 0), Some(Cell::empty()));
    assert_eq!(cell_at(&b, 1, 0), Some(Cell::new("a")));
    assert_eq!(cell_at(&b, 2, 0), Some(Cell::new("b")));
    assert_eq!(cell_at(&b, 0, 1), Some(Cell::empty()));
    assert_eq!(cell_at(&b, 1, 1), Some(Cell::empty()));
    assert_eq!(cell_at(&b, 2, 1), Some(Cell::empty()));
}

#[test]
fn resize_drops_cells_from_the_end() {
    let mut b = empty(2, 2);
    set_cell(&mut b, 0, 0, &Cell::new("a"));
    set_cell(&mut b, 1, 1, &Cell::new("d"));
    resize(&mut b, 1, 2);
    assert_eq!(cell_at(&b, 0, 0), Some(Cell::new("a")));
    assert_eq!(cell_at(&b, 0, 1), Some(Cell::empty()));
    assert_eq!(cell_at(&b, 1, 0), None);
    resize(&mut b, 0, 0);
    assert_eq!(cell_at(&b, 0, 0), None);
    assert_eq!(b.content.len(), 0);
}
