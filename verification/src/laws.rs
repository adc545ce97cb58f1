//! Laws of the render surface, proved over its model.

use crate::blink::BlinkClock;
use crate::grid::Grid;
use crate::cell::CellView;
use crate::colors::{default_background, lemma_blend_same, lemma_blend_transparent, Rgb};
use crate::compositor::{
    all_cells, cell_colors, column_cells, composite, composite_all, ink_color, lemma_cell_corner,
    lemma_composite, lemma_composite_all_size, lemma_note_all_blinking_no_duplicates,
    lemma_paint_backgrounds_size, lemma_paint_size, lemma_paint_texts_size, note_all_blinking,
    paint_backgrounds, paint_cell_background, paint_cell_text, paint_texts,
};
use crate::glyph::GlyphImage;
use crate::pixmap::{lemma_pixel_index, Image};
use crate::surface::{apply_changes, changed_cells, lemma_apply_changes_size, Surface};
use vstd::prelude::*;

verus! {

/// The backgrounds of a whole grid as a raster: every pixel has the
/// background colour of the cell it lies in.
pub open spec fn background_layer(grid: Grid, cell_px_w: nat, cell_px_h: nat) -> Image {
    Image::from_fn(
        cell_px_w * grid.width,
        cell_px_h * grid.height,
        |x: int, y: int| cell_colors(grid.cell(x / cell_px_w as int, y / cell_px_h as int)).bg,
    )
}

/// Every glyph of the table is without coverage.
pub open spec fn all_transparent(glyphs: Seq<Seq<GlyphImage>>) -> bool {
    forall|i: int, j: int|
        0 <= i < glyphs.len() && 0 <= j < glyphs[i].len() ==> (#[trigger] glyphs[i][j]).is_transparent()
}

/// A pixel lies in the cell whose index is the pixel's coordinate divided by
/// the cell's extent, and in no other.
pub proof fn lemma_cell_of_pixel(cell_px: int, at: int, x: int)
    requires
        0 < cell_px,
        0 <= x,
        0 <= at,
    ensures
        (at * cell_px <= x < at * cell_px + cell_px) <==> x / cell_px == at,
        0 <= x / cell_px,
{
    vstd::arithmetic::div_mod::lemma_fundamental_div_mod(x, cell_px);
    vstd::arithmetic::div_mod::lemma_mod_pos_bound(x, cell_px);
    let q = x / cell_px;
    let r = x % cell_px;
    assert(x == cell_px * q + r);
    assert((at * cell_px <= x < at * cell_px + cell_px) ==> q == at) by (nonlinear_arith)
        requires
            x == cell_px * q + r,
            0 <= r < cell_px,
            0 < cell_px,
    ;
    assert(q == at ==> (at * cell_px <= x < at * cell_px + cell_px)) by (nonlinear_arith)
        requires
            x == cell_px * q + r,
            0 <= r < cell_px,
            0 < cell_px,
    ;
    assert(0 <= q) by (nonlinear_arith)
        requires
            x == cell_px * q + r,
            0 <= r < cell_px,
            0 < cell_px,
            0 <= x,
    ;
}

/// A pixel of a raster that is `cells` cells wide lies in one of them.
pub proof fn lemma_pixel_in_grid(cell_px: int, cells: int, x: int)
    requires
        0 < cell_px,
        0 <= x < cell_px * cells,
    ensures
        0 <= x / cell_px < cells,
{
    vstd::arithmetic::div_mod::lemma_fundamental_div_mod(x, cell_px);
    vstd::arithmetic::div_mod::lemma_mod_pos_bound(x, cell_px);
    let q = x / cell_px;
    let r = x % cell_px;
    assert(0 <= q < cells) by (nonlinear_arith)
        requires
            x == cell_px * q + r,
            0 <= r < cell_px,
            0 < cell_px,
            0 <= x < cell_px * cells,
    ;
}

/// A list with one more cell contains what the list contains, and that cell.
pub proof fn lemma_contains_last(cells: Seq<(u16, u16)>, at: (u16, u16))
    requires
        cells.len() > 0,
    ensures
        cells.contains(at) <==> cells.drop_last().contains(at) || cells.last() == at,
{
    let front = cells.drop_last();
    if cells.contains(at) {
        let i = choose|i: int| 0 <= i < cells.len() && cells[i] == at;
        if i < cells.len() - 1 {
            assert(front[i] == at);
        }
    }
    if front.contains(at) {
        let i = choose|i: int| 0 <= i < front.len() && front[i] == at;
        assert(cells[i] == at);
    }
    if cells.last() == at {
        assert(cells[cells.len() - 1] == at);
    }
}

/// After the background phase of a list of cells, a pixel has the background
/// colour of its cell if the list names that cell, and is untouched if not.
pub proof fn lemma_backgrounds_pixel(
    img: Image,
    grid: Grid,
    cell_px_w: nat,
    cell_px_h: nat,
    cells: Seq<(u16, u16)>,
    x: int,
    y: int,
)
    requires
        img.wf(),
        grid.wf(),
        grid.width <= u16::MAX,
        grid.height <= u16::MAX,
        cell_px_w > 0,
        cell_px_h > 0,
        img.width == cell_px_w * grid.width,
        img.height == cell_px_h * grid.height,
        img.contains(x, y),
    ensures
        grid.contains(x / cell_px_w as int, y / cell_px_h as int),
        paint_backgrounds(img, grid, cell_px_w, cell_px_h, cells).pixel(x, y) == if cells.contains(
            ((x / cell_px_w as int) as u16, (y / cell_px_h as int) as u16),
        ) {
            cell_colors(grid.cell(x / cell_px_w as int, y / cell_px_h as int)).bg
        } else {
            img.pixel(x, y)
        },
    decreases cells.len(),
{
    let pw = cell_px_w as int;
    let ph = cell_px_h as int;
    lemma_pixel_in_grid(pw, grid.width as int, x);
    lemma_pixel_in_grid(ph, grid.height as int, y);
    let target = ((x / pw) as u16, (y / ph) as u16);
    if cells.len() == 0 {
    } else {
        let front = cells.drop_last();
        let at = cells.last();
        let before = paint_backgrounds(img, grid, cell_px_w, cell_px_h, front);
        lemma_backgrounds_pixel(img, grid, cell_px_w, cell_px_h, front, x, y);
        lemma_paint_backgrounds_size(img, grid, cell_px_w, cell_px_h, front);
        lemma_contains_last(cells, target);
        lemma_cell_of_pixel(pw, at.0 as int, x);
        lemma_cell_of_pixel(ph, at.1 as int, y);
        if grid.contains(at.0 as int, at.1 as int) {
            lemma_cell_corner(pw, grid.width as int, at.0 as int);
            lemma_cell_corner(ph, grid.height as int, at.1 as int);
            let after = before.fill_rect(
                at.0 * cell_px_w,
                at.1 * cell_px_h,
                pw,
                ph,
                cell_colors(grid.cell(at.0 as int, at.1 as int)).bg,
            );
            assert(paint_backgrounds(img, grid, cell_px_w, cell_px_h, cells) == after);
            assert(after.pixel(x, y) == if Image::in_rect(
                at.0 * cell_px_w,
                at.1 * cell_px_h,
                pw,
                ph,
                x,
                y,
            ) {
                cell_colors(grid.cell(at.0 as int, at.1 as int)).bg
            } else {
                before.pixel(x, y)
            });
        } else {
            assert(paint_backgrounds(img, grid, cell_px_w, cell_px_h, cells) == before);
        }
    }
}

/// The list of all cells names every cell of the grid.
pub proof fn lemma_all_cells_contains(cols: nat, rows: nat, col: u16, row: u16)
    requires
        col < cols,
        row < rows,
    ensures
        all_cells(cols, rows).contains((col, row)),
    decreases cols,
{
    let front = all_cells((cols - 1) as nat, rows);
    let column = column_cells((cols - 1) as u16, rows);
    let all = all_cells(cols, rows);
    assert(all == front + column);
    if col == cols - 1 {
        assert(column[row as int] == (col, row));
        assert(all[front.len() + row] == (col, row));
    } else {
        lemma_all_cells_contains((cols - 1) as nat, rows, col, row);
        let i = choose|i: int| 0 <= i < front.len() && front[i] == (col, row);
        assert(all[i] == (col, row));
    }
}

/// The background phase of a full repaint leaves nothing of what the raster
/// held: every pixel gets the background colour of its cell.
pub proof fn lemma_backgrounds_cover(img: Image, grid: Grid, cell_px_w: nat, cell_px_h: nat)
    requires
        img.wf(),
        grid.wf(),
        grid.width <= u16::MAX,
        grid.height <= u16::MAX,
        img.width == cell_px_w * grid.width,
        img.height == cell_px_h * grid.height,
    ensures
        paint_backgrounds(img, grid, cell_px_w, cell_px_h, all_cells(grid.width, grid.height))
            == background_layer(grid, cell_px_w, cell_px_h),
{
    let cells = all_cells(grid.width, grid.height);
    let painted = paint_backgrounds(img, grid, cell_px_w, cell_px_h, cells);
    let layer = background_layer(grid, cell_px_w, cell_px_h);
    lemma_paint_backgrounds_size(img, grid, cell_px_w, cell_px_h, cells);
    assert forall|x: int, y: int| painted.contains(x, y) implies #[trigger] painted.pixel(x, y)
        == layer.pixel(x, y) by {
        assert(cell_px_w > 0) by (nonlinear_arith)
            requires
                0 <= x < cell_px_w * grid.width,
        ;
        assert(cell_px_h > 0) by (nonlinear_arith)
            requires
                0 <= y < cell_px_h * grid.height,
        ;
        lemma_backgrounds_pixel(img, grid, cell_px_w, cell_px_h, cells, x, y);
        lemma_all_cells_contains(
            grid.width,
            grid.height,
            (x / cell_px_w as int) as u16,
            (y / cell_px_h as int) as u16,
        );
    }
    Image::lemma_ext(painted, layer);
}

/// A full repaint does not depend on what the pixel buffer held before: with
/// the same glyphs, a second repaint yields the same surface, pixel for
/// pixel.
pub proof fn lemma_redraw_idempotent(surface: Surface, glyphs: Seq<Seq<GlyphImage>>)
    requires
        surface.wf(),
    ensures
        surface.redrawn(glyphs).wf(),
        surface.redrawn(glyphs).redrawn(glyphs) == surface.redrawn(glyphs),
{
    let cells = all_cells(surface.grid.width, surface.grid.height);
    let pw = surface.metrics.cell_px_w as nat;
    let ph = surface.metrics.cell_px_h as nat;
    let once = surface.redrawn(glyphs);
    lemma_paint_size(surface.image, surface.grid, pw, ph, surface.blink, cells, glyphs);
    lemma_note_all_blinking_no_duplicates(
        Seq::<(u16, u16)>::empty(),
        surface.grid,
        cells,
    );
    lemma_backgrounds_cover(surface.image, surface.grid, pw, ph);
    lemma_backgrounds_cover(once.image, surface.grid, pw, ph);
}

/// A full repaint is decided by the cells, the metrics, the clock and the
/// glyphs: two surfaces that agree in these show the same pixels after it.
pub proof fn lemma_redraw_ignores_pixels(
    first: Surface,
    second: Surface,
    glyphs: Seq<Seq<GlyphImage>>,
)
    requires
        first.wf(),
        second.wf(),
        first.grid == second.grid,
        first.metrics == second.metrics,
        first.blink == second.blink,
    ensures
        first.redrawn(glyphs).image == second.redrawn(glyphs).image,
        first.redrawn(glyphs).redraw == second.redrawn(glyphs).redraw,
{
    let pw = first.metrics.cell_px_w as nat;
    let ph = first.metrics.cell_px_h as nat;
    lemma_backgrounds_cover(first.image, first.grid, pw, ph);
    lemma_backgrounds_cover(second.image, first.grid, pw, ph);
}

/// Glyphs without coverage, blended over their own background colour, leave
/// a raster of that colour as it is.
pub proof fn lemma_composite_all_uniform(
    img: Image,
    left: int,
    top: int,
    glyphs: Seq<GlyphImage>,
    ink: Rgb,
    paper: Rgb,
)
    requires
        img.wf(),
        img.is_uniform(paper),
        forall|j: int| 0 <= j < glyphs.len() ==> (#[trigger] glyphs[j]).is_transparent(),
    ensures
        composite_all(img, left, top, glyphs, ink, paper).is_uniform(paper),
    decreases glyphs.len(),
{
    if glyphs.len() > 0 {
        let front = glyphs.drop_last();
        let glyph = glyphs.last();
        let before = composite_all(img, left, top, front, ink, paper);
        assert forall|j: int| 0 <= j < front.len() implies (#[trigger] front[j]).is_transparent() by {
            assert(front[j] == glyphs[j]);
        }
        lemma_composite_all_uniform(img, left, top, front, ink, paper);
        lemma_composite_all_size(img, left, top, front, ink, paper);
        lemma_composite(before, left, top, glyph, ink, paper);
        let after = composite(before, left, top, glyph, ink, paper);
        assert(glyph == glyphs[glyphs.len() - 1]);
        assert forall|x: int, y: int| after.contains(x, y) implies #[trigger] after.pixel(x, y)
            == paper by {
            assert(before.contains(x, y));
            assert(before.pixel(x, y) == paper);
            if glyph.covers(x - left, y - top) {
                lemma_pixel_index(
                    glyph.width as int,
                    glyph.height as int,
                    x - left - glyph.origin_x(),
                    y - top - glyph.origin_y(),
                );
                assert(glyph.coverage(x - left, y - top) == 0);
                lemma_blend_transparent(ink, paper, 255);
            }
        }
    }
}

/// Over a raster of one colour, the foreground phase of cells that all have
/// that colour for their background changes nothing while the glyphs are
/// without coverage.
pub proof fn lemma_paint_texts_uniform(
    img: Image,
    grid: Grid,
    cell_px_w: nat,
    cell_px_h: nat,
    blink: BlinkClock,
    cells: Seq<(u16, u16)>,
    glyphs: Seq<Seq<GlyphImage>>,
    paper: Rgb,
)
    requires
        img.wf(),
        img.is_uniform(paper),
        glyphs.len() == cells.len(),
        all_transparent(glyphs),
        forall|col: int, row: int|
            grid.contains(col, row) ==> cell_colors(#[trigger] grid.cell(col, row)).bg == paper,
    ensures
        paint_texts(img, grid, cell_px_w, cell_px_h, blink, cells, glyphs).is_uniform(paper),
    decreases cells.len(),
{
    if cells.len() > 0 {
        let front = cells.drop_last();
        let at = cells.last();
        let found = glyphs.last();
        let before = paint_texts(img, grid, cell_px_w, cell_px_h, blink, front, glyphs.drop_last());
        assert forall|i: int, j: int|
            0 <= i < glyphs.drop_last().len() && 0 <= j < glyphs.drop_last()[i].len() implies (
        #[trigger] glyphs.drop_last()[i][j]).is_transparent() by {
            assert(glyphs.drop_last()[i] == glyphs[i]);
            assert(glyphs[i][j].is_transparent());
        }
        lemma_paint_texts_uniform(
            img,
            grid,
            cell_px_w,
            cell_px_h,
            blink,
            front,
            glyphs.drop_last(),
            paper,
        );
        lemma_paint_texts_size(img, grid, cell_px_w, cell_px_h, blink, front, glyphs.drop_last());
        if grid.contains(at.0 as int, at.1 as int) {
            assert(cell_colors(grid.cell(at.0 as int, at.1 as int)).bg == paper);
            assert forall|j: int| 0 <= j < found.len() implies (#[trigger] found[j]).is_transparent() by {
                assert(found == glyphs[glyphs.len() - 1]);
                assert(glyphs[glyphs.len() - 1][j].is_transparent());
            }
            lemma_composite_all_uniform(
                before,
                at.0 * cell_px_w,
                at.1 * cell_px_h,
                found,
                ink_color(grid.cell(at.0 as int, at.1 as int), blink),
                paper,
            );
        }
    }
}

/// In a blank grid no cell blinks, so a repaint enters nothing in an empty
/// redraw list.
pub proof fn lemma_blank_grid_notes_nothing(grid: Grid, cells: Seq<(u16, u16)>)
    requires
        grid.wf(),
        grid.is_blank(),
    ensures
        note_all_blinking(Seq::empty(), grid, cells) == Seq::<(u16, u16)>::empty(),
    decreases cells.len(),
{
    if cells.len() > 0 {
        lemma_blank_grid_notes_nothing(grid, cells.drop_last());
        let at = cells.last();
        if grid.contains(at.0 as int, at.1 as int) {
            grid.lemma_index(at.0 as int, at.1 as int);
            assert(grid.cell(at.0 as int, at.1 as int) == CellView::blank());
        }
    }
}

/// A full repaint of a blank grid leaves every pixel in the default
/// background colour, provided that the text engine gives blank cells no
/// coverage; and it leaves the redraw list empty.
pub proof fn lemma_blank_redraw(surface: Surface, glyphs: Seq<Seq<GlyphImage>>)
    requires
        surface.wf(),
        surface.grid.is_blank(),
        glyphs.len() == all_cells(surface.grid.width, surface.grid.height).len(),
        all_transparent(glyphs),
    ensures
        surface.redrawn(glyphs).image == Image::filled(
            surface.image.width,
            surface.image.height,
            default_background(),
        ),
        surface.redrawn(glyphs).redraw == Seq::<(u16, u16)>::empty(),
{
    let grid = surface.grid;
    let pw = surface.metrics.cell_px_w as nat;
    let ph = surface.metrics.cell_px_h as nat;
    let cells = all_cells(grid.width, grid.height);
    let paper = default_background();
    let blank = Image::filled(surface.image.width, surface.image.height, paper);
    assert(blank.wf());
    lemma_blank_grid_notes_nothing(grid, cells);
    lemma_backgrounds_cover(surface.image, grid, pw, ph);
    let layer = background_layer(grid, pw, ph);
    assert forall|col: int, row: int| grid.contains(col, row) implies cell_colors(
        #[trigger] grid.cell(col, row),
    ).bg == paper by {
        grid.lemma_index(col, row);
        assert(grid.cell(col, row) == CellView::blank());
    }
    assert forall|x: int, y: int| layer.contains(x, y) implies #[trigger] layer.pixel(x, y)
        == paper by {
        assert(pw > 0) by (nonlinear_arith)
            requires
                0 <= x < pw * grid.width,
        ;
        assert(ph > 0) by (nonlinear_arith)
            requires
                0 <= y < ph * grid.height,
        ;
        lemma_pixel_in_grid(pw as int, grid.width as int, x);
        lemma_pixel_in_grid(ph as int, grid.height as int, y);
        assert(grid.contains(x / pw as int, y / ph as int));
    }
    lemma_paint_texts_uniform(layer, grid, pw, ph, surface.blink, cells, glyphs, paper);
    let shown = paint_texts(layer, grid, pw, ph, surface.blink, cells, glyphs);
    lemma_paint_texts_size(layer, grid, pw, ph, surface.blink, cells, glyphs);
    Image::lemma_ext(shown, blank);
}

/// After a clear, a full repaint leaves every pixel in the default background
/// colour, provided that the text engine gives blank cells no coverage; and
/// it leaves the redraw list empty.
pub proof fn lemma_clear_then_redraw(surface: Surface, glyphs: Seq<Seq<GlyphImage>>)
    requires
        surface.wf(),
        glyphs.len() == all_cells(surface.grid.width, surface.grid.height).len(),
        all_transparent(glyphs),
    ensures
        surface.cleared().redrawn(glyphs).image == Image::filled(
            surface.image.width,
            surface.image.height,
            default_background(),
        ),
        surface.cleared().redrawn(glyphs).image == surface.cleared().image,
        surface.cleared().redrawn(glyphs).redraw == Seq::<(u16, u16)>::empty(),
{
    let cleared = surface.cleared();
    assert(cleared.grid.wf()) by {
        assert(cleared.grid.cells.len() == cleared.grid.width * cleared.grid.height);
    }
    assert(cleared.image.wf());
    lemma_blank_redraw(cleared, glyphs);
}

/// Glyphs drawn in the colour of their background show as background: every
/// pixel is left as it was or is set to that colour.
pub proof fn lemma_composite_all_same_ink(
    img: Image,
    left: int,
    top: int,
    glyphs: Seq<GlyphImage>,
    paper: Rgb,
    x: int,
    y: int,
)
    requires
        img.wf(),
        img.contains(x, y),
    ensures
        composite_all(img, left, top, glyphs, paper, paper).pixel(x, y) == img.pixel(x, y)
            || composite_all(img, left, top, glyphs, paper, paper).pixel(x, y) == paper,
    decreases glyphs.len(),
{
    if glyphs.len() > 0 {
        let front = glyphs.drop_last();
        let glyph = glyphs.last();
        let before = composite_all(img, left, top, front, paper, paper);
        lemma_composite_all_same_ink(img, left, top, front, paper, x, y);
        lemma_composite_all_size(img, left, top, front, paper, paper);
        lemma_composite(before, left, top, glyph, paper, paper);
        assert(before.contains(x, y));
        if glyph.covers(x - left, y - top) {
            lemma_blend_same(paper, glyph.coverage(x - left, y - top), 255);
        }
    }
}

/// While the clock's fast phase is on, which it is whenever the counter
/// modulo 100 lies in 0 to 5, a rapidly blinking cell is drawn in its own
/// background colour: its glyphs leave every pixel as it was or set it to the
/// cell's background colour.
pub proof fn lemma_rapid_blink_hides_text(
    img: Image,
    grid: Grid,
    cell_px_w: nat,
    cell_px_h: nat,
    blink: BlinkClock,
    col: int,
    row: int,
    glyphs: Seq<GlyphImage>,
    x: int,
    y: int,
)
    requires
        img.wf(),
        img.contains(x, y),
        grid.contains(col, row),
        grid.cell(col, row).modifier.rapid_blink,
        blink.spec_counter() % 100 <= 5,
    ensures
        ink_color(grid.cell(col, row), blink) == cell_colors(grid.cell(col, row)).bg,
        paint_cell_text(img, grid, cell_px_w, cell_px_h, blink, col, row, glyphs).pixel(x, y)
            == img.pixel(x, y) || paint_cell_text(
            img,
            grid,
            cell_px_w,
            cell_px_h,
            blink,
            col,
            row,
            glyphs,
        ).pixel(x, y) == cell_colors(grid.cell(col, row)).bg,
{
    lemma_composite_all_same_ink(
        img,
        col * cell_px_w,
        row * cell_px_h,
        glyphs,
        cell_colors(grid.cell(col, row)).bg,
        x,
        y,
    );
}

/// The same holds of a slowly blinking cell while the clock's slow phase is
/// on, at the ticks 20 to 25.
pub proof fn lemma_slow_blink_hides_text(
    img: Image,
    grid: Grid,
    cell_px_w: nat,
    cell_px_h: nat,
    blink: BlinkClock,
    col: int,
    row: int,
    glyphs: Seq<GlyphImage>,
    x: int,
    y: int,
)
    requires
        img.wf(),
        img.contains(x, y),
        grid.contains(col, row),
        grid.cell(col, row).modifier.slow_blink,
        20 <= blink.spec_counter() <= 25,
    ensures
        ink_color(grid.cell(col, row), blink) == cell_colors(grid.cell(col, row)).bg,
        paint_cell_text(img, grid, cell_px_w, cell_px_h, blink, col, row, glyphs).pixel(x, y)
            == img.pixel(x, y) || paint_cell_text(
            img,
            grid,
            cell_px_w,
            cell_px_h,
            blink,
            col,
            row,
            glyphs,
        ).pixel(x, y) == cell_colors(grid.cell(col, row)).bg,
{
    lemma_composite_all_same_ink(
        img,
        col * cell_px_w,
        row * cell_px_h,
        glyphs,
        cell_colors(grid.cell(col, row)).bg,
        x,
        y,
    );
}

/// A position outside the grid is skipped in every step of a draw: the cell
/// is not written, and neither phase touches a pixel or the redraw list.
pub proof fn lemma_outside_cell_is_skipped(
    surface: Surface,
    col: u16,
    row: u16,
    cell: CellView,
    glyphs: Seq<GlyphImage>,
)
    requires
        !surface.grid.contains(col as int, row as int),
    ensures
        surface.grid.set(col as int, row as int, cell) == surface.grid,
        paint_cell_background(
            surface.image,
            surface.grid,
            surface.metrics.cell_px_w as nat,
            surface.metrics.cell_px_h as nat,
            col as int,
            row as int,
        ) == surface.image,
        surface.cell_text_drawn(col, row, glyphs) == surface,
{
}

/// A draw keeps the surface well formed and the raster at its size, whatever
/// positions the changes name and whatever glyphs come back.
pub proof fn lemma_drawn_keeps_size(
    surface: Surface,
    changes: Seq<(u16, u16, CellView)>,
    glyphs: Seq<Seq<GlyphImage>>,
)
    requires
        surface.wf(),
    ensures
        surface.drawn(changes, glyphs).wf(),
        surface.drawn(changes, glyphs).image.width == surface.image.width,
        surface.drawn(changes, glyphs).image.height == surface.image.height,
        surface.drawn(changes, glyphs).grid.width == surface.grid.width,
        surface.drawn(changes, glyphs).grid.height == surface.grid.height,
{
    let grid = apply_changes(surface.grid, changes);
    lemma_apply_changes_size(surface.grid, changes);
    let cells = changed_cells(changes) + surface.redraw;
    surface.blink.lemma_ticked();
    lemma_paint_size(
        surface.image,
        grid,
        surface.metrics.cell_px_w as nat,
        surface.metrics.cell_px_h as nat,
        surface.blink.ticked(),
        cells,
        glyphs,
    );
    lemma_note_all_blinking_no_duplicates(surface.redraw, grid, cells);
}

/// The surface after a run of draws; each frame holds the changes of one
/// draw and the glyphs that came back during it.
pub open spec fn after_draws(
    surface: Surface,
    frames: Seq<(Seq<(u16, u16, CellView)>, Seq<Seq<GlyphImage>>)>,
) -> Surface
    decreases frames.len(),
{
    if frames.len() == 0 {
        surface
    } else {
        after_draws(surface, frames.drop_last()).drawn(frames.last().0, frames.last().1)
    }
}

/// Every draw advances the blink clock by exactly one tick, whatever is
/// drawn.
pub proof fn lemma_draws_tick_the_clock(
    surface: Surface,
    frames: Seq<(Seq<(u16, u16, CellView)>, Seq<Seq<GlyphImage>>)>,
)
    ensures
        after_draws(surface, frames).blink == surface.blink.ticked_n(frames.len()),
    decreases frames.len(),
{
    if frames.len() > 0 {
        lemma_draws_tick_the_clock(surface, frames.drop_last());
    }
}

/// After exactly 200 draws the blink clock is back at the tick it started
/// from, whatever that tick was and whatever was drawn.
pub proof fn lemma_two_hundred_draws_return_the_clock(
    surface: Surface,
    frames: Seq<(Seq<(u16, u16, CellView)>, Seq<Seq<GlyphImage>>)>,
)
    requires
        surface.blink.wf(),
        frames.len() == 200,
    ensures
        after_draws(surface, frames).blink == surface.blink,
{
    lemma_draws_tick_the_clock(surface, frames);
    surface.blink.lemma_period();
}

/// No cell of the list lies in the grid.
pub open spec fn all_outside(grid: Grid, cells: Seq<(u16, u16)>) -> bool {
    forall|i: int| 0 <= i < cells.len() ==> !grid.contains(cells[i].0 as int, cells[i].1 as int)
}

/// Changes that all lie outside the grid leave the grid as it is.
pub proof fn lemma_outside_changes_keep_grid(grid: Grid, changes: Seq<(u16, u16, CellView)>)
    requires
        all_outside(grid, changed_cells(changes)),
    ensures
        apply_changes(grid, changes) == grid,
    decreases changes.len(),
{
    if changes.len() > 0 {
        let front = changes.drop_last();
        assert forall|i: int| 0 <= i < changed_cells(front).len() implies !grid.contains(
            changed_cells(front)[i].0 as int,
            changed_cells(front)[i].1 as int,
        ) by {
            assert(changed_cells(front)[i] == changed_cells(changes)[i]);
        }
        lemma_outside_changes_keep_grid(grid, front);
        let last = changed_cells(changes)[changes.len() - 1];
        assert(!grid.contains(last.0 as int, last.1 as int));
    }
}

/// Cells outside the grid at the head of a list make no difference to the
/// background phase.
pub proof fn lemma_backgrounds_skip_outside(
    img: Image,
    grid: Grid,
    cell_px_w: nat,
    cell_px_h: nat,
    outside: Seq<(u16, u16)>,
    cells: Seq<(u16, u16)>,
)
    requires
        all_outside(grid, outside),
    ensures
        paint_backgrounds(img, grid, cell_px_w, cell_px_h, outside + cells) == paint_backgrounds(
            img,
            grid,
            cell_px_w,
            cell_px_h,
            cells,
        ),
    decreases cells.len(), outside.len(),
{
    let all = outside + cells;
    if cells.len() > 0 {
        assert(all.drop_last() =~= outside + cells.drop_last());
        assert(all.last() == cells.last());
        lemma_backgrounds_skip_outside(img, grid, cell_px_w, cell_px_h, outside, cells.drop_last());
    } else if outside.len() > 0 {
        assert(all =~= outside);
        assert(outside.drop_last() + cells =~= outside.drop_last());
        let last = outside[outside.len() - 1];
        assert(!grid.contains(last.0 as int, last.1 as int));
        assert forall|i: int| 0 <= i < outside.drop_last().len() implies !grid.contains(
            outside.drop_last()[i].0 as int,
            outside.drop_last()[i].1 as int,
        ) by {
            assert(outside.drop_last()[i] == outside[i]);
        }
        lemma_backgrounds_skip_outside(img, grid, cell_px_w, cell_px_h, outside.drop_last(), cells);
    } else {
        assert(all =~= cells);
    }
}

/// Cells outside the grid at the head of a list make no difference to the
/// foreground phase, whatever glyphs stand for them.
pub proof fn lemma_texts_skip_outside(
    img: Image,
    grid: Grid,
    cell_px_w: nat,
    cell_px_h: nat,
    blink: BlinkClock,
    outside: Seq<(u16, u16)>,
    cells: Seq<(u16, u16)>,
    glyphs: Seq<Seq<GlyphImage>>,
)
    requires
        all_outside(grid, outside),
        glyphs.len() == outside.len() + cells.len(),
    ensures
        paint_texts(img, grid, cell_px_w, cell_px_h, blink, outside + cells, glyphs) == paint_texts(
            img,
            grid,
            cell_px_w,
            cell_px_h,
            blink,
            cells,
            glyphs.subrange(outside.len() as int, glyphs.len() as int),
        ),
    decreases cells.len(), outside.len(),
{
    let all = outside + cells;
    let rest = glyphs.subrange(outside.len() as int, glyphs.len() as int);
    if cells.len() > 0 {
        assert(all.drop_last() =~= outside + cells.drop_last());
        assert(all.last() == cells.last());
        assert(glyphs.drop_last().subrange(outside.len() as int, glyphs.len() - 1)
            =~= rest.drop_last());
        assert(glyphs.last() == rest.last());
        lemma_texts_skip_outside(
            img,
            grid,
            cell_px_w,
            cell_px_h,
            blink,
            outside,
            cells.drop_last(),
            glyphs.drop_last(),
        );
    } else if outside.len() > 0 {
        assert(all =~= outside);
        assert(outside.drop_last() + cells =~= outside.drop_last());
        let last = outside[outside.len() - 1];
        assert(!grid.contains(last.0 as int, last.1 as int));
        assert forall|i: int| 0 <= i < outside.drop_last().len() implies !grid.contains(
            outside.drop_last()[i].0 as int,
            outside.drop_last()[i].1 as int,
        ) by {
            assert(outside.drop_last()[i] == outside[i]);
        }
        lemma_texts_skip_outside(
            img,
            grid,
            cell_px_w,
            cell_px_h,
            blink,
            outside.drop_last(),
            cells,
            glyphs.drop_last(),
        );
    } else {
        assert(all =~= cells);
    }
}

/// Cells outside the grid at the head of a list make no difference to the
/// redraw list.
pub proof fn lemma_blinking_skip_outside(
    list: Seq<(u16, u16)>,
    grid: Grid,
    outside: Seq<(u16, u16)>,
    cells: Seq<(u16, u16)>,
)
    requires
        all_outside(grid, outside),
    ensures
        note_all_blinking(list, grid, outside + cells) == note_all_blinking(list, grid, cells),
    decreases cells.len(), outside.len(),
{
    let all = outside + cells;
    if cells.len() > 0 {
        assert(all.drop_last() =~= outside + cells.drop_last());
        assert(all.last() == cells.last());
        lemma_blinking_skip_outside(list, grid, outside, cells.drop_last());
    } else if outside.len() > 0 {
        assert(all =~= outside);
        assert(outside.drop_last() + cells =~= outside.drop_last());
        let last = outside[outside.len() - 1];
        assert(!grid.contains(last.0 as int, last.1 as int));
        assert forall|i: int| 0 <= i < outside.drop_last().len() implies !grid.contains(
            outside.drop_last()[i].0 as int,
            outside.drop_last()[i].1 as int,
        ) by {
            assert(outside.drop_last()[i] == outside[i]);
        }
        lemma_blinking_skip_outside(list, grid, outside.drop_last(), cells);
    } else {
        assert(all =~= cells);
    }
}

/// A draw whose changes all lie outside the grid is a draw without changes:
/// no cell is written and no pixel is painted on their account.
pub proof fn lemma_outside_changes_are_dropped(
    surface: Surface,
    changes: Seq<(u16, u16, CellView)>,
    glyphs: Seq<Seq<GlyphImage>>,
)
    requires
        all_outside(surface.grid, changed_cells(changes)),
        glyphs.len() == changes.len() + surface.redraw.len(),
    ensures
        surface.drawn(changes, glyphs) == surface.drawn(
            Seq::empty(),
            glyphs.subrange(changes.len() as int, glyphs.len() as int),
        ),
{
    let outside = changed_cells(changes);
    let none = Seq::<(u16, u16, CellView)>::empty();
    let pw = surface.metrics.cell_px_w as nat;
    let ph = surface.metrics.cell_px_h as nat;
    let blink = surface.blink.ticked();
    lemma_outside_changes_keep_grid(surface.grid, changes);
    assert(changed_cells(none) + surface.redraw =~= surface.redraw);
    lemma_backgrounds_skip_outside(surface.image, surface.grid, pw, ph, outside, surface.redraw);
    lemma_texts_skip_outside(
        paint_backgrounds(surface.image, surface.grid, pw, ph, surface.redraw),
        surface.grid,
        pw,
        ph,
        blink,
        outside,
        surface.redraw,
        glyphs,
    );
    lemma_blinking_skip_outside(surface.redraw, surface.grid, outside, surface.redraw);
}

} // verus!
