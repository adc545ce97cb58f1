//! Cells: a symbol with its colours and style modifiers.

use crate::colors::Color;
use vstd::prelude::*;
use vstd::string::StringExecFns;

verus! {

/// The set of style modifiers of a cell, one flag each.
#[derive(Clone, Copy, Debug, PartialEq, Eq, Structural)]
pub struct Modifier {
    pub bold: bool,
    pub dim: bool,
    pub italic: bool,
    pub underlined: bool,
    pub slow_blink: bool,
    pub rapid_blink: bool,
    pub reversed: bool,
    pub hidden: bool,
    pub crossed_out: bool,
}

impl Modifier {
    /// The empty set.
    pub open spec fn none() -> Modifier {
        Modifier {
            bold: false,
            dim: false,
            italic: false,
            underlined: false,
            slow_blink: false,
            rapid_blink: false,
            reversed: false,
            hidden: false,
            crossed_out: false,
        }
    }

    /// The empty set.
    pub fn empty() -> (out: Modifier)
        ensures
            out == Modifier::none(),
    {
        Modifier {
            bold: false,
            dim: false,
            italic: false,
            underlined: false,
            slow_blink: false,
            rapid_blink: false,
            reversed: false,
            hidden: false,
            crossed_out: false,
        }
    }

    /// Whether the cell blinks, slowly or rapidly.
    pub open spec fn blinks(self) -> bool {
        self.slow_blink || self.rapid_blink
    }
}

/// What a cell shows, as a value: its symbol as a sequence of characters.
pub struct CellView {
    pub symbol: Seq<char>,
    pub fg: Color,
    pub bg: Color,
    pub modifier: Modifier,
}

impl CellView {
    /// The cell of an empty grid: one space, default colours, no modifier.
    pub open spec fn blank() -> CellView {
        CellView { symbol: seq![' '], fg: Color::Reset, bg: Color::Reset, modifier: Modifier::none() }
    }
}

/// One position of the grid: a grapheme with its colours and modifiers.
#[derive(Debug, PartialEq, Eq)]
pub struct Cell {
    pub symbol: String,
    pub fg: Color,
    pub bg: Color,
    pub modifier: Modifier,
}

impl View for Cell {
    type V = CellView;

    open spec fn view(&self) -> CellView {
        CellView { symbol: self.symbol@, fg: self.fg, bg: self.bg, modifier: self.modifier }
    }
}

impl Clone for Cell {
    fn clone(&self) -> (out: Cell)
        ensures
            out@ == self@,
    {
        Cell { symbol: self.symbol.clone(), fg: self.fg, bg: self.bg, modifier: self.modifier }
    }
}

impl Cell {
    /// A cell showing `symbol` in the default colours, without modifiers.
    pub fn new(symbol: &str) -> (out: Cell)
        ensures
            out@ == (CellView { symbol: symbol@, ..CellView::blank() }),
    {
        Cell {
            symbol: String::from_str(symbol),
            fg: Color::Reset,
            bg: Color::Reset,
            modifier: Modifier::empty(),
        }
    }

    /// The blank cell.
    pub fn empty() -> (out: Cell)
        ensures
            out@ == CellView::blank(),
    {
        proof {
            reveal_strlit(" ");
        }
        let out = Cell::new(" ");
        assert(out@.symbol =~= seq![' ']);
        out
    }
}

} // verus!
