//! The cell grid: ratatui's buffer, read and written through its model.

use crate::cell::{Cell, CellView, Modifier};
use crate::colors::Color;
use ratatui::layout::Rect;
use ratatui::style::{Color as RatColor, Modifier as RatModifier};
use vstd::prelude::*;

verus! {

/// A grid of cells as a value: row after row, `width` cells each.
pub struct Grid {
    pub width: nat,
    pub height: nat,
    pub cells: Seq<CellView>,
}

impl Grid {
    /// There is exactly one cell per position.
    pub open spec fn wf(self) -> bool {
        self.cells.len() == self.width * self.height
    }

    /// Whether `(x, y)` names a position of the grid.
    pub open spec fn contains(self, x: int, y: int) -> bool {
        0 <= x < self.width && 0 <= y < self.height
    }

    /// The cell in column `x` of row `y`.
    pub open spec fn cell(self, x: int, y: int) -> CellView {
        self.cells[y * self.width + x]
    }

    /// The grid of blank cells.
    pub open spec fn blank(width: nat, height: nat) -> Grid {
        Grid { width, height, cells: Seq::new(width * height, |i: int| CellView::blank()) }
    }

    /// Every cell of the grid is blank.
    pub open spec fn is_blank(self) -> bool {
        self == Grid::blank(self.width, self.height)
    }

    /// The grid with the cell at `(x, y)` replaced; unchanged when `(x, y)`
    /// lies outside.
    pub open spec fn set(self, x: int, y: int, cell: CellView) -> Grid {
        if self.contains(x, y) {
            Grid { cells: self.cells.update(y * self.width + x, cell), ..self }
        } else {
            self
        }
    }

    /// The grid given new dimensions. Cells keep their place in row-major
    /// order: the first `width * height` stay, and blank cells fill what is
    /// missing.
    pub open spec fn resized(self, width: nat, height: nat) -> Grid {
        Grid {
            width,
            height,
            cells: Seq::new(
                width * height,
                |i: int|
                    if i < self.cells.len() {
                        self.cells[i]
                    } else {
                        CellView::blank()
                    },
            ),
        }
    }

    /// A position inside a well-formed grid has a cell.
    pub proof fn lemma_index(self, x: int, y: int)
        requires
            self.wf(),
            self.contains(x, y),
        ensures
            0 <= y * self.width + x < self.cells.len(),
    {
        crate::pixmap::lemma_pixel_index(self.width as int, self.height as int, x, y);
    }
}

/// ratatui's `Buffer`: an area and the cells of that area, row after row.
#[verifier::external_type_specification]
#[verifier::external_body]
pub struct ExBuffer(ratatui::buffer::Buffer);

/// What the buffer's content holds, cell after cell: of each cell its symbol,
/// its two colours, variant for variant, and one flag for each modifier.
pub uninterp spec fn buffer_cells(buffer: ratatui::buffer::Buffer) -> Seq<CellView>;

/// The buffer's area: the column and row of its corner, its width and its
/// height.
pub uninterp spec fn buffer_area(buffer: ratatui::buffer::Buffer) -> (u16, u16, u16, u16);

/// The buffer as a grid.
pub open spec fn grid_of(buffer: ratatui::buffer::Buffer) -> Grid {
    Grid {
        width: buffer_area(buffer).2 as nat,
        height: buffer_area(buffer).3 as nat,
        cells: buffer_cells(buffer),
    }
}

/// The buffer's corner is the origin and it holds one cell for every position
/// of its area.
pub open spec fn grid_wf(buffer: ratatui::buffer::Buffer) -> bool {
    &&& buffer_area(buffer).0 == 0
    &&& buffer_area(buffer).1 == 0
    &&& grid_of(buffer).wf()
}

/// `Buffer::empty` over `Rect::new(0, 0, width, height)`: the rectangle is
/// taken as given, since nothing reaches beyond 65535, and the content is one
/// `Cell::EMPTY`, a space in default colours without modifier, per position.
#[verifier::external_body]
fn grid_new(width: u16, height: u16) -> (out: ratatui::buffer::Buffer)
    ensures
        buffer_area(out) == (0u16, 0u16, width, height),
        buffer_cells(out) == Grid::blank(width as nat, height as nat).cells,
{
    ratatui::buffer::Buffer::empty(Rect::new(0, 0, width, height))
}

/// The public field `area` of the buffer.
#[verifier::external_body]
fn grid_area(buffer: &ratatui::buffer::Buffer) -> (out: (u16, u16, u16, u16))
    ensures
        out == buffer_area(*buffer),
{
    (buffer.area.x, buffer.area.y, buffer.area.width, buffer.area.height)
}

/// `Buffer`'s `Index` and `Cell::symbol`: the symbol of the cell at
/// `(x, y)`. Indexing panics outside the area, which `requires` leaves out;
/// inside, the cell is the one at `y * width + x`.
#[verifier::external_body]
fn grid_symbol(buffer: &ratatui::buffer::Buffer, x: u16, y: u16) -> (out: String)
    requires
        grid_wf(*buffer),
        grid_of(*buffer).contains(x as int, y as int),
    ensures
        out@ == grid_of(*buffer).cell(x as int, y as int).symbol,
{
    buffer[(x, y)].symbol().to_string()
}

/// `Buffer`'s `Index` and the field `fg` of the cell at `(x, y)`, variant
/// for variant.
#[verifier::external_body]
fn grid_fg(buffer: &ratatui::buffer::Buffer, x: u16, y: u16) -> (out: Color)
    requires
        grid_wf(*buffer),
        grid_of(*buffer).contains(x as int, y as int),
    ensures
        out == grid_of(*buffer).cell(x as int, y as int).fg,
{
    match buffer[(x, y)].fg {
        RatColor::Reset => Color::Reset, RatColor::Black => Color::Black,
        RatColor::Red => Color::Red, RatColor::Green => Color::Green,
        RatColor::Yellow => Color::Yellow, RatColor::Blue => Color::Blue,
        RatColor::Magenta => Color::Magenta, RatColor::Cyan => Color::Cyan,
        RatColor::Gray => Color::Gray, RatColor::DarkGray => Color::DarkGray,
        RatColor::LightRed => Color::LightRed, RatColor::LightGreen => Color::LightGreen,
        RatColor::LightYellow => Color::LightYellow, RatColor::LightBlue => Color::LightBlue,
        RatColor::LightMagenta => Color::LightMagenta, RatColor::LightCyan => Color::LightCyan,
        RatColor::White => Color::White, RatColor::Rgb(r, g, b) => Color::Rgb(r, g, b),
        RatColor::Indexed(i) => Color::Indexed(i),
    }
}

/// `Buffer`'s `Index` and the field `bg` of the cell at `(x, y)`, variant
/// for variant.
#[verifier::external_body]
fn grid_bg(buffer: &ratatui::buffer::Buffer, x: u16, y: u16) -> (out: Color)
    requires
        grid_wf(*buffer),
        grid_of(*buffer).contains(x as int, y as int),
    ensures
        out == grid_of(*buffer).cell(x as int, y as int).bg,
{
    match buffer[(x, y)].bg {
        RatColor::Reset => Color::Reset, RatColor::Black => Color::Black,
        RatColor::Red => Color::Red, RatColor::Green => Color::Green,
        RatColor::Yellow => Color::Yellow, RatColor::Blue => Color::Blue,
        RatColor::Magenta => Color::Magenta, RatColor::Cyan => Color::Cyan,
        RatColor::Gray => Color::Gray, RatColor::DarkGray => Color::DarkGray,
        RatColor::LightRed => Color::LightRed, RatColor::LightGreen => Color::LightGreen,
        RatColor::LightYellow => Color::LightYellow, RatColor::LightBlue => Color::LightBlue,
        RatColor::LightMagenta => Color::LightMagenta, RatColor::LightCyan => Color::LightCyan,
        RatColor::White => Color::White, RatColor::Rgb(r, g, b) => Color::Rgb(r, g, b),
        RatColor::Indexed(i) => Color::Indexed(i),
    }
}

/// `Buffer`'s `Index` and `Modifier::contains` on the field `modifier` of
/// the cell at `(x, y)`: one flag for each of ratatui's nine modifiers.
#[verifier::external_body]
fn grid_modifier(buffer: &ratatui::buffer::Buffer, x: u16, y: u16) -> (out: Modifier)
    requires
        grid_wf(*buffer),
        grid_of(*buffer).contains(x as int, y as int),
    ensures
        out == grid_of(*buffer).cell(x as int, y as int).modifier,
{
    let held = buffer[(x, y)].modifier;
    Modifier {
        bold: held.contains(RatModifier::BOLD),
        dim: held.contains(RatModifier::DIM),
        italic: held.contains(RatModifier::ITALIC),
        underlined: held.contains(RatModifier::UNDERLINED),
        slow_blink: held.contains(RatModifier::SLOW_BLINK),
        rapid_blink: held.contains(RatModifier::RAPID_BLINK),
        reversed: held.contains(RatModifier::REVERSED),
        hidden: held.contains(RatModifier::HIDDEN),
        crossed_out: held.contains(RatModifier::CROSSED_OUT),
    }
}

/// `Buffer`'s `IndexMut` and `Cell::set_symbol`: the cell at `(x, y)` gets
/// the symbol, and nothing else changes.
#[verifier::external_body]
fn grid_put_symbol(buffer: &mut ratatui::buffer::Buffer, x: u16, y: u16, symbol: &str)
    requires
        grid_wf(*old(buffer)),
        grid_of(*old(buffer)).contains(x as int, y as int),
    ensures
        buffer_area(*final(buffer)) == buffer_area(*old(buffer)),
        buffer_cells(*final(buffer)) == buffer_cells(*old(buffer)).update(
            y * buffer_area(*old(buffer)).2 + x,
            (CellView { symbol: symbol@, ..grid_of(*old(buffer)).cell(x as int, y as int) }),
        ),
{
    buffer[(x, y)].set_symbol(symbol);
}

/// `Buffer`'s `IndexMut` and the field `fg`: the cell at `(x, y)` gets the
/// foreground colour, variant for variant, and nothing else changes.
#[verifier::external_body]
fn grid_put_fg(buffer: &mut ratatui::buffer::Buffer, x: u16, y: u16, color: Color)
    requires
        grid_wf(*old(buffer)),
        grid_of(*old(buffer)).contains(x as int, y as int),
    ensures
        buffer_area(*final(buffer)) == buffer_area(*old(buffer)),
        buffer_cells(*final(buffer)) == buffer_cells(*old(buffer)).update(
            y * buffer_area(*old(buffer)).2 + x,
            (CellView { fg: color, ..grid_of(*old(buffer)).cell(x as int, y as int) }),
        ),
{
    buffer[(x, y)].fg = match color {
        Color::Reset => RatColor::Reset, Color::Black => RatColor::Black,
        Color::Red => RatColor::Red, Color::Green => RatColor::Green,
        Color::Yellow => RatColor::Yellow, Color::Blue => RatColor::Blue,
        Color::Magenta => RatColor::Magenta, Color::Cyan => RatColor::Cyan,
        Color::Gray => RatColor::Gray, Color::DarkGray => RatColor::DarkGray,
        Color::LightRed => RatColor::LightRed, Color::LightGreen => RatColor::LightGreen,
        Color::LightYellow => RatColor::LightYellow, Color::LightBlue => RatColor::LightBlue,
        Color::LightMagenta => RatColor::LightMagenta, Color::LightCyan => RatColor::LightCyan,
        Color::White => RatColor::White, Color::Rgb(r, g, b) => RatColor::Rgb(r, g, b),
        Color::Indexed(i) => RatColor::Indexed(i),
    };
}

/// `Buffer`'s `IndexMut` and the field `bg`: the cell at `(x, y)` gets the
/// background colour, variant for variant, and nothing else changes.
#[verifier::external_body]
fn grid_put_bg(buffer: &mut ratatui::buffer::Buffer, x: u16, y: u16, color: Color)
    requires
        grid_wf(*old(buffer)),
        grid_of(*old(buffer)).contains(x as int, y as int),
    ensures
        buffer_area(*final(buffer)) == buffer_area(*old(buffer)),
        buffer_cells(*final(buffer)) == buffer_cells(*old(buffer)).update(
            y * buffer_area(*old(buffer)).2 + x,
            (CellView { bg: color, ..grid_of(*old(buffer)).cell(x as int, y as int) }),
        ),
{
    buffer[(x, y)].bg = match color {
        Color::Reset => RatColor::Reset, Color::Black => RatColor::Black,
        Color::Red => RatColor::Red, Color::Green => RatColor::Green,
        Color::Yellow => RatColor::Yellow, Color::Blue => RatColor::Blue,
        Color::Magenta => RatColor::Magenta, Color::Cyan => RatColor::Cyan,
        Color::Gray => RatColor::Gray, Color::DarkGray => RatColor::DarkGray,
        Color::LightRed => RatColor::LightRed, Color::LightGreen => RatColor::LightGreen,
        Color::LightYellow => RatColor::LightYellow, Color::LightBlue => RatColor::LightBlue,
        Color::LightMagenta => RatColor::LightMagenta, Color::LightCyan => RatColor::LightCyan,
        Color::White => RatColor::White, Color::Rgb(r, g, b) => RatColor::Rgb(r, g, b),
        Color::Indexed(i) => RatColor::Indexed(i),
    };
}

/// `Buffer`'s `IndexMut` and `Modifier::set` on the field `modifier`: the
/// cell at `(x, y)` gets each of the nine flags, and nothing else changes.
#[verifier::external_body]
fn grid_put_modifier(buffer: &mut ratatui::buffer::Buffer, x: u16, y: u16, modifier: Modifier)
    requires
        grid_wf(*old(buffer)),
        grid_of(*old(buffer)).contains(x as int, y as int),
    ensures
        buffer_area(*final(buffer)) == buffer_area(*old(buffer)),
        buffer_cells(*final(buffer)) == buffer_cells(*old(buffer)).update(
            y * buffer_area(*old(buffer)).2 + x,
            (CellView { modifier, ..grid_of(*old(buffer)).cell(x as int, y as int) }),
        ),
{
    let held = &mut buffer[(x, y)].modifier;
    held.set(RatModifier::BOLD, modifier.bold);
    held.set(RatModifier::DIM, modifier.dim);
    held.set(RatModifier::ITALIC, modifier.italic);
    held.set(RatModifier::UNDERLINED, modifier.underlined);
    held.set(RatModifier::SLOW_BLINK, modifier.slow_blink);
    held.set(RatModifier::RAPID_BLINK, modifier.rapid_blink);
    held.set(RatModifier::REVERSED, modifier.reversed);
    held.set(RatModifier::HIDDEN, modifier.hidden);
    held.set(RatModifier::CROSSED_OUT, modifier.crossed_out);
}

/// `Buffer::reset`: every cell of the content becomes `Cell::EMPTY`; the area
/// and the number of cells stay.
#[verifier::external_body]
fn grid_reset(buffer: &mut ratatui::buffer::Buffer)
    ensures
        buffer_area(*final(buffer)) == buffer_area(*old(buffer)),
        buffer_cells(*final(buffer)) == Seq::new(
            buffer_cells(*old(buffer)).len(),
            |i: int| CellView::blank(),
        ),
{
    buffer.reset();
}

/// `Buffer::resize` to `Rect::new(0, 0, width, height)`: the content is cut
/// or filled with `Cell::EMPTY` to `width * height` cells, each cell that
/// stays keeping its place in the content, and the area becomes the
/// rectangle.
#[verifier::external_body]
fn grid_resize(buffer: &mut ratatui::buffer::Buffer, width: u16, height: u16)
    ensures
        buffer_area(*final(buffer)) == (0u16, 0u16, width, height),
        buffer_cells(*final(buffer)) == (Grid {
            width: 0,
            height: 0,
            cells: buffer_cells(*old(buffer)),
        }).resized(width as nat, height as nat).cells,
{
    buffer.resize(Rect::new(0, 0, width, height));
}

/// A grid of blank cells.
pub fn empty(width: u16, height: u16) -> (out: ratatui::buffer::Buffer)
    ensures
        grid_wf(out),
        grid_of(out) == Grid::blank(width as nat, height as nat),
{
    grid_new(width, height)
}

/// Number of columns.
pub fn width(buffer: &ratatui::buffer::Buffer) -> (out: u16)
    ensures
        out == grid_of(*buffer).width,
{
    grid_area(buffer).2
}

/// Number of rows.
pub fn height(buffer: &ratatui::buffer::Buffer) -> (out: u16)
    ensures
        out == grid_of(*buffer).height,
{
    grid_area(buffer).3
}

/// The cell at `(x, y)`, or `None` outside the grid.
pub fn cell_at(buffer: &ratatui::buffer::Buffer, x: u16, y: u16) -> (out: Option<Cell>)
    requires
        grid_wf(*buffer),
    ensures
        out is Some <==> grid_of(*buffer).contains(x as int, y as int),
        out matches Some(cell) ==> cell@ == grid_of(*buffer).cell(x as int, y as int),
{
    let area = grid_area(buffer);
    if x < area.2 && y < area.3 {
        Some(
            Cell {
                symbol: grid_symbol(buffer, x, y),
                fg: grid_fg(buffer, x, y),
                bg: grid_bg(buffer, x, y),
                modifier: grid_modifier(buffer, x, y),
            },
        )
    } else {
        None
    }
}

/// Replaces the cell at `(x, y)` and reports whether the position exists. A
/// position outside the grid is ignored.
pub fn set_cell(buffer: &mut ratatui::buffer::Buffer, x: u16, y: u16, cell: &Cell) -> (stored: bool)
    requires
        grid_wf(*old(buffer)),
    ensures
        grid_wf(*final(buffer)),
        stored == grid_of(*old(buffer)).contains(x as int, y as int),
        grid_of(*final(buffer)) == grid_of(*old(buffer)).set(x as int, y as int, cell@),
{
    let area = grid_area(buffer);
    if x < area.2 && y < area.3 {
        proof {
            grid_of(*buffer).lemma_index(x as int, y as int);
        }
        grid_put_symbol(buffer, x, y, cell.symbol.as_str());
        grid_put_fg(buffer, x, y, cell.fg);
        grid_put_bg(buffer, x, y, cell.bg);
        grid_put_modifier(buffer, x, y, cell.modifier);
        assert(grid_of(*buffer).cells =~= grid_of(*old(buffer)).set(
            x as int,
            y as int,
            cell@,
        ).cells);
        true
    } else {
        false
    }
}

/// Makes every cell blank; the dimensions stay.
pub fn reset(buffer: &mut ratatui::buffer::Buffer)
    requires
        grid_wf(*old(buffer)),
    ensures
        grid_wf(*final(buffer)),
        grid_of(*final(buffer)) == Grid::blank(
            grid_of(*old(buffer)).width,
            grid_of(*old(buffer)).height,
        ),
{
    grid_reset(buffer);
    assert(grid_of(*buffer).cells =~= Grid::blank(
        grid_of(*old(buffer)).width,
        grid_of(*old(buffer)).height,
    ).cells);
}

/// Gives the grid new dimensions. Cells keep their place in row-major order:
/// surplus cells are dropped from the end, missing ones are blank.
pub fn resize(buffer: &mut ratatui::buffer::Buffer, width: u16, height: u16)
    requires
        grid_wf(*old(buffer)),
    ensures
        grid_wf(*final(buffer)),
        grid_of(*final(buffer)) == grid_of(*old(buffer)).resized(width as nat, height as nat),
{
    grid_resize(buffer, width, height);
}

} // verus!
