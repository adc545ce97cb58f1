//! Painting cells into the pixel buffer: backgrounds first, glyphs on top.

use crate::blink::BlinkClock;
use crate::grid::Grid;
use crate::cell::{Cell, CellView};
use crate::colors::{blend_rgba, blended, color_to_rgb, dim_rgb, dimmed, resolve, Rgb};
use crate::decoration::{decorate, decorated};
use crate::glyph::{EngineCall, GlyphImage};
use crate::pixmap::{Image, RgbPixmap};
use vstd::prelude::*;

verus! {

/// The two colours a cell is painted with.
#[derive(Clone, Copy, Debug, PartialEq, Eq, Structural)]
pub struct CellColors {
    /// Colour of the glyphs.
    pub fg: Rgb,
    /// Colour of the cell's rectangle.
    pub bg: Rgb,
}

/// The colours of a cell. A hidden cell takes its background colour for its
/// foreground; a reversed cell swaps the two, each still resolved in the role
/// it was written for; a dim cell has both attenuated.
pub open spec fn cell_colors(cell: CellView) -> CellColors {
    let fg = if cell.modifier.hidden {
        cell.bg
    } else {
        cell.fg
    };
    let base = if cell.modifier.reversed {
        CellColors { fg: resolve(cell.bg, false), bg: resolve(fg, true) }
    } else {
        CellColors { fg: resolve(fg, true), bg: resolve(cell.bg, false) }
    };
    if cell.modifier.dim {
        CellColors { fg: dimmed(base.fg), bg: dimmed(base.bg) }
    } else {
        base
    }
}

/// Whether the cell's glyphs are hidden at this tick of the clock.
pub open spec fn blinked_out(cell: CellView, blink: BlinkClock) -> bool {
    (cell.modifier.slow_blink && blink.spec_slow()) || (cell.modifier.rapid_blink
        && blink.spec_fast())
}

/// The colour the cell's glyphs are drawn in: the foreground, or the
/// background while the cell is blinked out.
pub open spec fn ink_color(cell: CellView, blink: BlinkClock) -> Rgb {
    if blinked_out(cell, blink) {
        cell_colors(cell).bg
    } else {
        cell_colors(cell).fg
    }
}

/// The raster with one glyph blended in. `(left, top)` is the top left corner
/// of the glyph's cell. Every pixel of the bitmap that falls inside the raster
/// becomes `ink` over `paper` at the bitmap's coverage; a bitmap with too
/// little data is left out as a whole.
pub open spec fn composite(
    img: Image,
    left: int,
    top: int,
    glyph: GlyphImage,
    ink: Rgb,
    paper: Rgb,
) -> Image {
    Image::from_fn(
        img.width,
        img.height,
        |x: int, y: int|
            if glyph.covers(x - left, y - top) {
                blended(
                    ink.with_alpha(glyph.coverage(x - left, y - top)),
                    paper.with_alpha(255),
                )
            } else {
                img.pixel(x, y)
            },
    )
}

/// Blending a glyph in keeps the raster's size and decides every pixel by
/// whether the bitmap covers it.
pub proof fn lemma_composite(
    img: Image,
    left: int,
    top: int,
    glyph: GlyphImage,
    ink: Rgb,
    paper: Rgb,
)
    ensures
        composite(img, left, top, glyph, ink, paper).wf(),
        composite(img, left, top, glyph, ink, paper).width == img.width,
        composite(img, left, top, glyph, ink, paper).height == img.height,
        forall|x: int, y: int|
            img.contains(x, y) ==> #[trigger] composite(img, left, top, glyph, ink, paper).pixel(
                x,
                y,
            ) == if glyph.covers(x - left, y - top) {
                blended(
                    ink.with_alpha(glyph.coverage(x - left, y - top)),
                    paper.with_alpha(255),
                )
            } else {
                img.pixel(x, y)
            },
{
}

/// The raster with the glyphs blended in, one after the other.
pub open spec fn composite_all(
    img: Image,
    left: int,
    top: int,
    glyphs: Seq<GlyphImage>,
    ink: Rgb,
    paper: Rgb,
) -> Image
    decreases glyphs.len(),
{
    if glyphs.len() == 0 {
        img
    } else {
        composite(
            composite_all(img, left, top, glyphs.drop_last(), ink, paper),
            left,
            top,
            glyphs.last(),
            ink,
            paper,
        )
    }
}

/// Resolves the colours of a cell.
pub fn resolve_cell_colors(cell: &Cell) -> (out: CellColors)
    ensures
        out == cell_colors(cell@),
{
    let fg = if cell.modifier.hidden {
        cell.bg
    } else {
        cell.fg
    };
    let base = if cell.modifier.reversed {
        CellColors { fg: color_to_rgb(cell.bg, false), bg: color_to_rgb(fg, true) }
    } else {
        CellColors { fg: color_to_rgb(fg, true), bg: color_to_rgb(cell.bg, false) }
    };
    if cell.modifier.dim {
        CellColors { fg: dim_rgb(base.fg), bg: dim_rgb(base.bg) }
    } else {
        base
    }
}

/// Paints the part of a rectangle that lies inside the buffer.
pub fn fill_rect(
    pixmap: &mut RgbPixmap,
    left: usize,
    top: usize,
    width: usize,
    height: usize,
    color: Rgb,
)
    requires
        old(pixmap).wf(),
    ensures
        final(pixmap).wf(),
        final(pixmap).spec_width() == old(pixmap).spec_width(),
        final(pixmap).spec_height() == old(pixmap).spec_height(),
        final(pixmap)@ == old(pixmap)@.fill_rect(
            left as int,
            top as int,
            width as int,
            height as int,
            color,
        ),
{
    let ghost target = old(pixmap)@.fill_rect(
        left as int,
        top as int,
        width as int,
        height as int,
        color,
    );
    if left < pixmap.width() && top < pixmap.height() {
        let right: usize = if width > pixmap.width() - left {
            pixmap.width()
        } else {
            left + width
        };
        let bottom: usize = if height > pixmap.height() - top {
            pixmap.height()
        } else {
            top + height
        };
        let mut y: usize = top;
        while y < bottom
            invariant
                top <= y <= bottom,
                left <= right,
                pixmap.wf(),
                pixmap.spec_width() == old(pixmap).spec_width(),
                pixmap.spec_height() == old(pixmap).spec_height(),
                right <= pixmap.spec_width(),
                bottom <= pixmap.spec_height(),
                forall|px: int, py: int|
                    pixmap@.contains(px, py) ==> #[trigger] pixmap@.pixel(px, py) == if left <= px
                        < right && top <= py < y {
                        color
                    } else {
                        old(pixmap)@.pixel(px, py)
                    },
            decreases bottom - y,
        {
            let mut x: usize = left;
            while x < right
                invariant
                    left <= x <= right,
                    top <= y < bottom,
                    pixmap.wf(),
                    pixmap.spec_width() == old(pixmap).spec_width(),
                    pixmap.spec_height() == old(pixmap).spec_height(),
                    right <= pixmap.spec_width(),
                    bottom <= pixmap.spec_height(),
                    forall|px: int, py: int|
                        pixmap@.contains(px, py) ==> #[trigger] pixmap@.pixel(px, py) == if left
                            <= px < right && (top <= py < y || (py == y && px < x)) {
                            color
                        } else {
                            old(pixmap)@.pixel(px, py)
                        },
                decreases right - x,
            {
                proof {
                    pixmap@.lemma_put(x as int, y as int, color);
                }
                pixmap.put_pixel(x, y, color);
                x += 1;
            }
            y += 1;
        }
    }
    proof {
        Image::lemma_ext(pixmap@, target);
    }
}

/// Blends one glyph into the buffer. `(left, top)` is the top left corner of
/// the glyph's cell; the bitmap is clipped to the buffer, not to the cell.
pub fn draw_glyph(
    pixmap: &mut RgbPixmap,
    left: usize,
    top: usize,
    glyph: &GlyphImage,
    ink: Rgb,
    paper: Rgb,
)
    requires
        old(pixmap).wf(),
    ensures
        final(pixmap).wf(),
        final(pixmap).spec_width() == old(pixmap).spec_width(),
        final(pixmap).spec_height() == old(pixmap).spec_height(),
        final(pixmap)@ == composite(old(pixmap)@, left as int, top as int, *glyph, ink, paper),
{
    let ghost target = composite(old(pixmap)@, left as int, top as int, *glyph, ink, paper);
    proof {
        lemma_composite(old(pixmap)@, left as int, top as int, *glyph, ink, paper);
    }
    assert(0 <= glyph.width * glyph.height <= 0xffff_ffff * 0xffff_ffff) by (nonlinear_arith)
        requires
            0 <= glyph.width <= 0xffff_ffff,
            0 <= glyph.height <= 0xffff_ffff,
    ;
    let needed: u64 = glyph.width as u64 * glyph.height as u64;
    if needed <= glyph.data.len() as u64 {
        let origin_x: i128 = left as i128 + glyph.x as i128 + glyph.left as i128;
        let origin_y: i128 = top as i128 + glyph.line_y as i128 + glyph.y as i128
            - glyph.top as i128;
        let width: i128 = pixmap.width() as i128;
        let height: i128 = pixmap.height() as i128;
        let mut row: u32 = 0;
        while row < glyph.height
            invariant
                row <= glyph.height,
                glyph.usable(),
                glyph.data@.len() <= usize::MAX,
                origin_x == left + glyph.origin_x(),
                origin_y == top + glyph.origin_y(),
                width == pixmap.spec_width(),
                height == pixmap.spec_height(),
                forall|x: int, y: int|
                    old(pixmap)@.contains(x, y) ==> #[trigger] target.pixel(x, y)
                        == if glyph.covers(x - left, y - top) {
                        blended(
                            ink.with_alpha(glyph.coverage(x - left, y - top)),
                            paper.with_alpha(255),
                        )
                    } else {
                        old(pixmap)@.pixel(x, y)
                    },
                pixmap.wf(),
                pixmap.spec_width() == old(pixmap).spec_width(),
                pixmap.spec_height() == old(pixmap).spec_height(),
                forall|px: int, py: int|
                    pixmap@.contains(px, py) ==> #[trigger] pixmap@.pixel(px, py) == if glyph.covers(
                        px - left,
                        py - top,
                    ) && py - origin_y < row {
                        target.pixel(px, py)
                    } else {
                        old(pixmap)@.pixel(px, py)
                    },
            decreases glyph.height - row,
        {
            let mut column: u32 = 0;
            while column < glyph.width
                invariant
                    column <= glyph.width,
                    row < glyph.height,
                    glyph.usable(),
                    glyph.data@.len() <= usize::MAX,
                    origin_x == left + glyph.origin_x(),
                    origin_y == top + glyph.origin_y(),
                    width == pixmap.spec_width(),
                    height == pixmap.spec_height(),
                    forall|x: int, y: int|
                        old(pixmap)@.contains(x, y) ==> #[trigger] target.pixel(x, y)
                            == if glyph.covers(x - left, y - top) {
                            blended(
                                ink.with_alpha(glyph.coverage(x - left, y - top)),
                                paper.with_alpha(255),
                            )
                        } else {
                            old(pixmap)@.pixel(x, y)
                        },
                    pixmap.wf(),
                    pixmap.spec_width() == old(pixmap).spec_width(),
                    pixmap.spec_height() == old(pixmap).spec_height(),
                    forall|px: int, py: int|
                        pixmap@.contains(px, py) ==> #[trigger] pixmap@.pixel(px, py)
                            == if glyph.covers(px - left, py - top) && (py - origin_y < row || (py
                            - origin_y == row && px - origin_x < column)) {
                            target.pixel(px, py)
                        } else {
                            old(pixmap)@.pixel(px, py)
                        },
                decreases glyph.width - column,
            {
                let px: i128 = origin_x + column as i128;
                let py: i128 = origin_y + row as i128;
                if 0 <= px && px < width && 0 <= py && py < height {
                    proof {
                        crate::pixmap::lemma_pixel_index(
                            glyph.width as int,
                            glyph.height as int,
                            column as int,
                            row as int,
                        );
                    }
                    let at: usize = row as usize * glyph.width as usize + column as usize;
                    let alpha: u8 = glyph.data[at];
                    let color = blend_rgba(ink.with_alpha(alpha), paper.with_alpha(255));
                    proof {
                        pixmap@.lemma_put(px as int, py as int, color);
                        assert(glyph.covers(px - left, py - top));
                        assert(glyph.coverage(px - left, py - top) == alpha);
                        assert(target.pixel(px as int, py as int) == color);
                    }
                    pixmap.put_pixel(px as usize, py as usize, color);
                }
                column += 1;
            }
            row += 1;
        }
    }
    proof {
        Image::lemma_ext(pixmap@, target);
    }
}

/// Blends the glyphs of one cell into the buffer, in order.
pub fn draw_glyphs(
    pixmap: &mut RgbPixmap,
    left: usize,
    top: usize,
    glyphs: &Vec<GlyphImage>,
    ink: Rgb,
    paper: Rgb,
)
    requires
        old(pixmap).wf(),
    ensures
        final(pixmap).wf(),
        final(pixmap).spec_width() == old(pixmap).spec_width(),
        final(pixmap).spec_height() == old(pixmap).spec_height(),
        final(pixmap)@ == composite_all(old(pixmap)@, left as int, top as int, glyphs@, ink, paper),
{
    let mut i: usize = 0;
    assert(glyphs@.take(0) =~= Seq::<GlyphImage>::empty());
    while i < glyphs.len()
        invariant
            i <= glyphs.len(),
            pixmap.wf(),
            pixmap.spec_width() == old(pixmap).spec_width(),
            pixmap.spec_height() == old(pixmap).spec_height(),
            pixmap@ == composite_all(
                old(pixmap)@,
                left as int,
                top as int,
                glyphs@.take(i as int),
                ink,
                paper,
            ),
        decreases glyphs.len() - i,
    {
        draw_glyph(pixmap, left, top, &glyphs[i], ink, paper);
        proof {
            let next = glyphs@.take(i + 1);
            assert(next.drop_last() =~= glyphs@.take(i as int));
            assert(next.last() == glyphs@[i as int]);
        }
        i += 1;
    }
    assert(glyphs@.take(glyphs.len() as int) =~= glyphs@);
}

/// The raster after the background phase of one cell: the cell's rectangle
/// in its background colour. A position outside the grid, or a rectangle
/// whose corner lies outside the raster, changes nothing.
pub open spec fn paint_cell_background(
    img: Image,
    grid: Grid,
    cell_px_w: nat,
    cell_px_h: nat,
    col: int,
    row: int,
) -> Image {
    if grid.contains(col, row) && col * cell_px_w < img.width && row * cell_px_h < img.height {
        img.fill_rect(
            col * cell_px_w,
            row * cell_px_h,
            cell_px_w as int,
            cell_px_h as int,
            cell_colors(grid.cell(col, row)).bg,
        )
    } else {
        img
    }
}

/// The raster after the foreground phase of one cell: its glyphs blended in
/// at the cell's corner, in the cell's ink over the cell's background. A
/// position outside the grid changes nothing.
pub open spec fn paint_cell_text(
    img: Image,
    grid: Grid,
    cell_px_w: nat,
    cell_px_h: nat,
    blink: BlinkClock,
    col: int,
    row: int,
    glyphs: Seq<GlyphImage>,
) -> Image {
    if grid.contains(col, row) {
        composite_all(
            img,
            col * cell_px_w,
            row * cell_px_h,
            glyphs,
            ink_color(grid.cell(col, row), blink),
            cell_colors(grid.cell(col, row)).bg,
        )
    } else {
        img
    }
}

/// The raster after the background phase of the cells, in order.
pub open spec fn paint_backgrounds(
    img: Image,
    grid: Grid,
    cell_px_w: nat,
    cell_px_h: nat,
    cells: Seq<(u16, u16)>,
) -> Image
    decreases cells.len(),
{
    if cells.len() == 0 {
        img
    } else {
        paint_cell_background(
            paint_backgrounds(img, grid, cell_px_w, cell_px_h, cells.drop_last()),
            grid,
            cell_px_w,
            cell_px_h,
            cells.last().0 as int,
            cells.last().1 as int,
        )
    }
}

/// The raster after the foreground phase of the cells, in order; `glyphs`
/// holds the glyphs of each cell, in the order of `cells`.
pub open spec fn paint_texts(
    img: Image,
    grid: Grid,
    cell_px_w: nat,
    cell_px_h: nat,
    blink: BlinkClock,
    cells: Seq<(u16, u16)>,
    glyphs: Seq<Seq<GlyphImage>>,
) -> Image
    decreases cells.len(),
{
    if cells.len() == 0 {
        img
    } else {
        paint_cell_text(
            paint_texts(
                img,
                grid,
                cell_px_w,
                cell_px_h,
                blink,
                cells.drop_last(),
                glyphs.drop_last(),
            ),
            grid,
            cell_px_w,
            cell_px_h,
            blink,
            cells.last().0 as int,
            cells.last().1 as int,
            glyphs.last(),
        )
    }
}

/// The raster after both phases: all backgrounds, then all glyphs, so that no
/// background covers a glyph that reaches into a neighbouring cell.
pub open spec fn paint(
    img: Image,
    grid: Grid,
    cell_px_w: nat,
    cell_px_h: nat,
    blink: BlinkClock,
    cells: Seq<(u16, u16)>,
    glyphs: Seq<Seq<GlyphImage>>,
) -> Image {
    paint_texts(
        paint_backgrounds(img, grid, cell_px_w, cell_px_h, cells),
        grid,
        cell_px_w,
        cell_px_h,
        blink,
        cells,
        glyphs,
    )
}

/// The redraw list after the foreground phase of one cell: a blinking cell of
/// the grid is appended unless the list has it.
pub open spec fn note_blinking(list: Seq<(u16, u16)>, grid: Grid, at: (u16, u16)) -> Seq<
    (u16, u16),
> {
    if grid.contains(at.0 as int, at.1 as int) && grid.cell(
        at.0 as int,
        at.1 as int,
    ).modifier.blinks() && !list.contains(at) {
        list.push(at)
    } else {
        list
    }
}

/// The redraw list after the foreground phase of the cells, in order.
pub open spec fn note_all_blinking(list: Seq<(u16, u16)>, grid: Grid, cells: Seq<(u16, u16)>) -> Seq<
    (u16, u16),
>
    decreases cells.len(),
{
    if cells.len() == 0 {
        list
    } else {
        note_blinking(note_all_blinking(list, grid, cells.drop_last()), grid, cells.last())
    }
}

/// The cells of one column, from top to bottom.
pub open spec fn column_cells(col: u16, rows: nat) -> Seq<(u16, u16)> {
    Seq::new(rows, |y: int| (col, y as u16))
}

/// All cells of a grid in the order of a full repaint: column after column,
/// each from top to bottom.
pub open spec fn all_cells(cols: nat, rows: nat) -> Seq<(u16, u16)>
    decreases cols,
{
    if cols == 0 {
        Seq::empty()
    } else {
        all_cells((cols - 1) as nat, rows) + column_cells((cols - 1) as u16, rows)
    }
}

/// What is handed to the text engine for one cell.
#[derive(Debug, PartialEq, Eq)]
pub struct TextRun {
    /// The symbol with its decoration overlays.
    pub text: String,
    /// Whether a bold weight is asked for.
    pub bold: bool,
    /// Whether a slanted style is asked for.
    pub italic: bool,
}

/// The text run of a cell: its symbol, struck through and underlined as the
/// modifiers say, with the weight and slant hints of the modifiers.
pub fn text_run(cell: &Cell) -> (out: TextRun)
    ensures
        out.text@ == decorated(cell@.symbol, cell@.modifier.crossed_out, cell@.modifier.underlined),
        out.bold == cell@.modifier.bold,
        out.italic == cell@.modifier.italic,
{
    TextRun {
        text: decorate(&cell.symbol, cell.modifier.crossed_out, cell.modifier.underlined),
        bold: cell.modifier.bold,
        italic: cell.modifier.italic,
    }
}

/// The colour a cell's glyphs are drawn in at this tick of the clock.
pub fn resolve_ink(cell: &Cell, blink: BlinkClock) -> (out: Rgb)
    ensures
        out == ink_color(cell@, blink),
{
    let colors = resolve_cell_colors(cell);
    if (cell.modifier.slow_blink && blink.slow()) || (cell.modifier.rapid_blink && blink.fast()) {
        colors.bg
    } else {
        colors.fg
    }
}

/// The background phase of a cell keeps the raster's size.
pub proof fn lemma_paint_cell_background_size(
    img: Image,
    grid: Grid,
    cell_px_w: nat,
    cell_px_h: nat,
    col: int,
    row: int,
)
    requires
        img.wf(),
    ensures
        paint_cell_background(img, grid, cell_px_w, cell_px_h, col, row).wf(),
        paint_cell_background(img, grid, cell_px_w, cell_px_h, col, row).width == img.width,
        paint_cell_background(img, grid, cell_px_w, cell_px_h, col, row).height == img.height,
{
}

/// Blending glyphs in keeps the raster's size.
pub proof fn lemma_composite_all_size(
    img: Image,
    left: int,
    top: int,
    glyphs: Seq<GlyphImage>,
    ink: Rgb,
    paper: Rgb,
)
    requires
        img.wf(),
    ensures
        composite_all(img, left, top, glyphs, ink, paper).wf(),
        composite_all(img, left, top, glyphs, ink, paper).width == img.width,
        composite_all(img, left, top, glyphs, ink, paper).height == img.height,
    decreases glyphs.len(),
{
    if glyphs.len() > 0 {
        lemma_composite_all_size(img, left, top, glyphs.drop_last(), ink, paper);
        lemma_composite(
            composite_all(img, left, top, glyphs.drop_last(), ink, paper),
            left,
            top,
            glyphs.last(),
            ink,
            paper,
        );
    }
}

/// The foreground phase of a cell keeps the raster's size.
pub proof fn lemma_paint_cell_text_size(
    img: Image,
    grid: Grid,
    cell_px_w: nat,
    cell_px_h: nat,
    blink: BlinkClock,
    col: int,
    row: int,
    glyphs: Seq<GlyphImage>,
)
    requires
        img.wf(),
    ensures
        paint_cell_text(img, grid, cell_px_w, cell_px_h, blink, col, row, glyphs).wf(),
        paint_cell_text(img, grid, cell_px_w, cell_px_h, blink, col, row, glyphs).width
            == img.width,
        paint_cell_text(img, grid, cell_px_w, cell_px_h, blink, col, row, glyphs).height
            == img.height,
{
    if grid.contains(col, row) {
        lemma_composite_all_size(
            img,
            col * cell_px_w,
            row * cell_px_h,
            glyphs,
            ink_color(grid.cell(col, row), blink),
            cell_colors(grid.cell(col, row)).bg,
        );
    }
}

/// The background phase of a list of cells keeps the raster's size.
pub proof fn lemma_paint_backgrounds_size(
    img: Image,
    grid: Grid,
    cell_px_w: nat,
    cell_px_h: nat,
    cells: Seq<(u16, u16)>,
)
    requires
        img.wf(),
    ensures
        paint_backgrounds(img, grid, cell_px_w, cell_px_h, cells).wf(),
        paint_backgrounds(img, grid, cell_px_w, cell_px_h, cells).width == img.width,
        paint_backgrounds(img, grid, cell_px_w, cell_px_h, cells).height == img.height,
    decreases cells.len(),
{
    if cells.len() > 0 {
        lemma_paint_backgrounds_size(img, grid, cell_px_w, cell_px_h, cells.drop_last());
    }
}

/// The foreground phase of a list of cells keeps the raster's size.
pub proof fn lemma_paint_texts_size(
    img: Image,
    grid: Grid,
    cell_px_w: nat,
    cell_px_h: nat,
    blink: BlinkClock,
    cells: Seq<(u16, u16)>,
    glyphs: Seq<Seq<GlyphImage>>,
)
    requires
        img.wf(),
    ensures
        paint_texts(img, grid, cell_px_w, cell_px_h, blink, cells, glyphs).wf(),
        paint_texts(img, grid, cell_px_w, cell_px_h, blink, cells, glyphs).width == img.width,
        paint_texts(img, grid, cell_px_w, cell_px_h, blink, cells, glyphs).height == img.height,
    decreases cells.len(),
{
    if cells.len() > 0 {
        lemma_paint_texts_size(
            img,
            grid,
            cell_px_w,
            cell_px_h,
            blink,
            cells.drop_last(),
            glyphs.drop_last(),
        );
        lemma_paint_cell_text_size(
            paint_texts(
                img,
                grid,
                cell_px_w,
                cell_px_h,
                blink,
                cells.drop_last(),
                glyphs.drop_last(),
            ),
            grid,
            cell_px_w,
            cell_px_h,
            blink,
            cells.last().0 as int,
            cells.last().1 as int,
            glyphs.last(),
        );
    }
}

/// Both phases together keep the raster's size.
pub proof fn lemma_paint_size(
    img: Image,
    grid: Grid,
    cell_px_w: nat,
    cell_px_h: nat,
    blink: BlinkClock,
    cells: Seq<(u16, u16)>,
    glyphs: Seq<Seq<GlyphImage>>,
)
    requires
        img.wf(),
    ensures
        paint(img, grid, cell_px_w, cell_px_h, blink, cells, glyphs).wf(),
        paint(img, grid, cell_px_w, cell_px_h, blink, cells, glyphs).width == img.width,
        paint(img, grid, cell_px_w, cell_px_h, blink, cells, glyphs).height == img.height,
{
    lemma_paint_backgrounds_size(img, grid, cell_px_w, cell_px_h, cells);
    lemma_paint_texts_size(
        paint_backgrounds(img, grid, cell_px_w, cell_px_h, cells),
        grid,
        cell_px_w,
        cell_px_h,
        blink,
        cells,
        glyphs,
    );
}

/// The background phase of a list with one more cell is the phase of the
/// list followed by that of the cell.
pub proof fn lemma_paint_backgrounds_push(
    img: Image,
    grid: Grid,
    cell_px_w: nat,
    cell_px_h: nat,
    cells: Seq<(u16, u16)>,
    at: (u16, u16),
)
    ensures
        paint_backgrounds(img, grid, cell_px_w, cell_px_h, cells.push(at))
            == paint_cell_background(
            paint_backgrounds(img, grid, cell_px_w, cell_px_h, cells),
            grid,
            cell_px_w,
            cell_px_h,
            at.0 as int,
            at.1 as int,
        ),
{
    assert(cells.push(at).drop_last() =~= cells);
}

/// The foreground phase of a list with one more cell is the phase of the
/// list followed by that of the cell.
pub proof fn lemma_paint_texts_push(
    img: Image,
    grid: Grid,
    cell_px_w: nat,
    cell_px_h: nat,
    blink: BlinkClock,
    cells: Seq<(u16, u16)>,
    glyphs: Seq<Seq<GlyphImage>>,
    at: (u16, u16),
    found: Seq<GlyphImage>,
)
    ensures
        paint_texts(img, grid, cell_px_w, cell_px_h, blink, cells.push(at), glyphs.push(found))
            == paint_cell_text(
            paint_texts(img, grid, cell_px_w, cell_px_h, blink, cells, glyphs),
            grid,
            cell_px_w,
            cell_px_h,
            blink,
            at.0 as int,
            at.1 as int,
            found,
        ),
{
    assert(cells.push(at).drop_last() =~= cells);
    assert(glyphs.push(found).drop_last() =~= glyphs);
}

/// The redraw list after one more cell.
pub proof fn lemma_note_all_blinking_push(
    list: Seq<(u16, u16)>,
    grid: Grid,
    cells: Seq<(u16, u16)>,
    at: (u16, u16),
)
    ensures
        note_all_blinking(list, grid, cells.push(at)) == note_blinking(
            note_all_blinking(list, grid, cells),
            grid,
            at,
        ),
{
    assert(cells.push(at).drop_last() =~= cells);
}

/// Noting a blinking cell keeps the redraw list free of duplicates.
pub proof fn lemma_note_blinking_no_duplicates(list: Seq<(u16, u16)>, grid: Grid, at: (u16, u16))
    requires
        list.no_duplicates(),
    ensures
        note_blinking(list, grid, at).no_duplicates(),
{
    let after = note_blinking(list, grid, at);
    if after != list {
        assert forall|i: int, j: int| 0 <= i < after.len() && 0 <= j < after.len() && i != j implies after[i]
            != after[j] by {
            if i == list.len() {
                assert(list[j] == after[j]);
            } else if j == list.len() {
                assert(list[i] == after[i]);
            }
        }
    }
}

/// Noting the blinking cells of a list keeps the redraw list free of
/// duplicates.
pub proof fn lemma_note_all_blinking_no_duplicates(
    list: Seq<(u16, u16)>,
    grid: Grid,
    cells: Seq<(u16, u16)>,
)
    requires
        list.no_duplicates(),
    ensures
        note_all_blinking(list, grid, cells).no_duplicates(),
    decreases cells.len(),
{
    if cells.len() > 0 {
        lemma_note_all_blinking_no_duplicates(list, grid, cells.drop_last());
        lemma_note_blinking_no_duplicates(
            note_all_blinking(list, grid, cells.drop_last()),
            grid,
            cells.last(),
        );
    }
}

/// The corner of a cell of the grid lies within the extent of the grid.
pub proof fn lemma_cell_corner(cell_px: int, cells: int, at: int)
    by (nonlinear_arith)
    requires
        0 <= cell_px,
        0 <= at < cells,
    ensures
        0 <= at * cell_px,
        at * cell_px + cell_px <= cell_px * cells,
{
}

/// The call that asks the text engine for the glyphs of a cell: the symbol,
/// struck through and underlined as the modifiers say, with the weight and
/// slant hints of the modifiers.
pub open spec fn shape_call(cell: CellView) -> EngineCall {
    EngineCall::Shape {
        text: decorated(cell.symbol, cell.modifier.crossed_out, cell.modifier.underlined),
        bold: cell.modifier.bold,
        italic: cell.modifier.italic,
    }
}

/// The calls made to the text engine in the foreground phase of the cells:
/// one for every cell of the grid, in order, and none for a position outside.
pub open spec fn shape_calls(grid: Grid, cells: Seq<(u16, u16)>) -> Seq<EngineCall>
    decreases cells.len(),
{
    if cells.len() == 0 {
        Seq::empty()
    } else {
        let before = shape_calls(grid, cells.drop_last());
        let at = cells.last();
        if grid.contains(at.0 as int, at.1 as int) {
            before.push(shape_call(grid.cell(at.0 as int, at.1 as int)))
        } else {
            before
        }
    }
}

/// The calls for a list with one more cell.
pub proof fn lemma_shape_calls_push(grid: Grid, cells: Seq<(u16, u16)>, at: (u16, u16))
    ensures
        shape_calls(grid, cells.push(at)) == if grid.contains(at.0 as int, at.1 as int) {
            shape_calls(grid, cells).push(shape_call(grid.cell(at.0 as int, at.1 as int)))
        } else {
            shape_calls(grid, cells)
        },
{
    assert(cells.push(at).drop_last() =~= cells);
}

} // verus!
