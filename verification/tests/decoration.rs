use soft_ratatui::cell::{Cell, Modifier};
use soft_ratatui::compositor::text_run;
use soft_ratatui::decoration::{
    add_strikeout, add_underline, decorate, STRIKEOUT_MARK, UNDERLINE_MARK,
};

#[test]
fn marks_are_the_combining_overlays() {
    assert_eq!(STRIKEOUT_MARK, '\u{0336}');
    assert_eq!(UNDERLINE_MARK, '\u{0332}');
}

#[test]
fn strikeout_follows_every_character() {
    assert_eq!(add_strikeout(&"ab".to_string()), "a\u{0336}b\u{0336}");
    assert_eq!(add_strikeout(&"A".to_string()), "A\u{0336}");
}

#[test]
fn underline_follows_every_character() {
    assert_eq!(add_underline(&"ab".to_string()), "a\u{0332}b\u{0332}");
    assert_eq!(add_underline(&"é".to_string()), "é\u{0332}");
}

#[test]
fn empty_text_stays_empty() {
    assert_eq!(add_strikeout(&String::new()), "");
    assert_eq!(add_underline(&String::new()), "");
}

#[test]
fn decorate_applies_what_is_asked() {
    let s = "x".to_string();
    assert_eq!(decorate(&s, false, false), "x");
    assert_eq!(decorate(&s, true, false), "x\u{0336}");
    assert_eq!(decorate(&s, false, true), "x\u{0332}");
}

#[test]
fn decorate_underlines_the_struck_text() {
    assert_eq!(
        decorate(&"x".to_string(), true, true),
        "x\u{0332}\u{0336}\u{0332}"
    );
}

#[test]
fn text_run_carries_decoration_and_hints() {
    let mut cell = Cell::new("Q");
    cell.modifier = Modifier { bold: true, crossed_out: true, ..Modifier::empty() };
    let run = text_run(&cell);
    assert_eq!(run.text, "Q\u{0336}");
    assert!(run.bold);
    assert!(!run.italic);

    cell.modifier = Modifier { italic: true, underlined: true, ..Modifier::empty() };
    let run = text_run(&cell);
    assert_eq!(run.text, "Q\u{0332}");
    assert!(!run.bold);
    assert!(run.italic);
}
