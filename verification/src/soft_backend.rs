//! The software backend: a cell grid, a pixel buffer that shows it, and the
//! operations a terminal UI drives it with.

use crate::blink::BlinkClock;
use crate::grid;
use crate::grid::{grid_of, grid_wf};
use crate::cell::{Cell, CellView};
use crate::colors::{color_to_rgb, default_background, Color};
use crate::compositor::{
    all_cells, column_cells, draw_glyphs, fill_rect, lemma_cell_corner,
    lemma_note_all_blinking_push, lemma_note_blinking_no_duplicates, lemma_paint_backgrounds_push,
    lemma_paint_cell_background_size, lemma_paint_cell_text_size, lemma_paint_texts_push,
    note_all_blinking, note_blinking, paint_backgrounds, paint_cell_background, paint_texts,
    resolve_cell_colors, resolve_ink, shape_call, shape_calls, lemma_shape_calls_push, text_run,
    TextRun,
};
use crate::decoration::decorated;
use crate::glyph::{EngineCall, GlyphImage, GlyphSource, TextEngine};
use crate::laws::{
    all_transparent, lemma_blank_grid_notes_nothing, lemma_blank_redraw, lemma_drawn_keeps_size,
    lemma_redraw_idempotent,
};
use crate::pixmap::{is_opaque_copy, lemma_raster_determines_bytes, Image, RgbPixmap};
use crate::scale::{pixel_size, pixel_size_fits, CellMetrics, Scale};
use crate::surface::{
    apply_changes, changed_cells, changes_of, layout_outcome, plan_layout, Surface, SurfaceError,
};
use vstd::prelude::*;

verus! {

/// A position in the grid.
#[derive(Clone, Copy, Debug, PartialEq, Eq, Structural)]
pub struct Position {
    pub x: u16,
    pub y: u16,
}

/// A width and a height.
#[derive(Clone, Copy, Debug, PartialEq, Eq, Structural)]
pub struct Size {
    pub width: u16,
    pub height: u16,
}

/// The size of the surface in cells and in pixels.
#[derive(Clone, Copy, Debug, PartialEq, Eq, Structural)]
pub struct WindowSize {
    /// Columns and rows of the grid.
    pub columns_rows: Size,
    /// Width and height of the pixel buffer, each reduced modulo 65536.
    pub pixels: Size,
}

/// A software rendering backend. It keeps the cell grid and renders it into
/// an RGB pixel buffer, with glyphs from the text engine `G`.
pub struct SoftBackend<G> {
    buffer: ratatui::buffer::Buffer,
    cursor: bool,
    pos: (u16, u16),
    glyphs: TextEngine<G>,
    font_size: i32,
    scale: Scale,
    metrics: CellMetrics,
    blink: BlinkClock,
    rgb_pixmap: RgbPixmap,
    always_redraw_list: Vec<(u16, u16)>,
}

impl<G: GlyphSource> View for SoftBackend<G> {
    type V = Surface;

    closed spec fn view(&self) -> Surface {
        Surface {
            grid: grid_of(self.buffer),
            image: self.rgb_pixmap@,
            blink: self.blink,
            redraw: self.always_redraw_list@,
            metrics: self.metrics,
            scale: self.scale,
            font_size: self.font_size,
            cursor_visible: self.cursor,
            cursor: self.pos,
        }
    }
}

fn list_contains(list: &Vec<(u16, u16)>, at: (u16, u16)) -> (found: bool)
    ensures
        found == list@.contains(at),
{
    let mut i: usize = 0;
    while i < list.len()
        invariant
            i <= list.len(),
            forall|k: int| 0 <= k < i ==> list@[k] != at,
        decreases list.len() - i,
    {
        if list[i].0 == at.0 && list[i].1 == at.1 {
            return true;
        }
        i += 1;
    }
    false
}

impl<G: GlyphSource> SoftBackend<G> {
    /// The packed RGB bytes of the pixel buffer.
    pub closed spec fn pixel_bytes(&self) -> Seq<u8> {
        self.rgb_pixmap.bytes()
    }

    /// The calls made to the text engine since the backend was made, oldest
    /// first.
    pub closed spec fn engine_calls(&self) -> Seq<EngineCall> {
        self.glyphs.calls()
    }

    /// The pixel buffer holds three bytes for every pixel of the raster.
    pub closed spec fn storage_wf(&self) -> bool {
        &&& grid_wf(self.buffer)
        &&& self.rgb_pixmap.wf()
    }

    /// The surface is well formed, and so is what stores it.
    pub open spec fn wf(&self) -> bool {
        &&& self@.wf()
        &&& self.storage_wf()
        &&& self.pixel_bytes().len() == self@.image.width * self@.image.height * 3
        &&& self@.image == Image::from_bytes(
            self@.image.width,
            self@.image.height,
            self.pixel_bytes(),
        )
    }

    /// Backends that show the same raster hold the same bytes.
    pub proof fn lemma_same_image_same_bytes(&self, other: &SoftBackend<G>)
        requires
            self.wf(),
            other.wf(),
            self@.image == other@.image,
        ensures
            self.pixel_bytes() == other.pixel_bytes(),
    {
        lemma_raster_determines_bytes(
            self@.image.width,
            self@.image.height,
            self.pixel_bytes(),
            other.pixel_bytes(),
        );
    }

    /// Returns the raw RGB data of the pixel buffer: three bytes per pixel,
    /// row after row.
    pub fn get_pixmap_data(&self) -> (out: &[u8])
        ensures
            out@ == self.pixel_bytes(),
    {
        self.rgb_pixmap.data()
    }

    /// Returns the pixel buffer in RGBA format: the colour bytes of every
    /// pixel unchanged, each pixel followed by an alpha of 255.
    pub fn get_pixmap_data_as_rgba(&self) -> (out: Vec<u8>)
        requires
            self.wf(),
        ensures
            out@.len() == self@.image.width * self@.image.height * 4,
            forall|i: int|
                0 <= i < self@.image.width * self@.image.height
                    ==> #[trigger] is_opaque_copy(out@, self.pixel_bytes(), i),
    {
        self.rgb_pixmap.to_rgba()
    }

    /// Returns the width of the pixel buffer in pixels.
    pub fn get_pixmap_width(&self) -> (out: usize)
        ensures
            out == self@.image.width,
    {
        self.rgb_pixmap.width()
    }

    /// Returns the height of the pixel buffer in pixels.
    pub fn get_pixmap_height(&self) -> (out: usize)
        ensures
            out == self@.image.height,
    {
        self.rgb_pixmap.height()
    }

    /// Returns the cell grid.
    pub fn buffer(&self) -> (out: &ratatui::buffer::Buffer)
        ensures
            grid_of(*out) == self@.grid,
            self.wf() ==> grid_wf(*out),
    {
        &self.buffer
    }

    /// Returns the pixel buffer.
    pub fn pixmap(&self) -> (out: &RgbPixmap)
        ensures
            out@ == self@.image,
            self.wf() ==> out.wf(),
    {
        &self.rgb_pixmap
    }

    /// Returns the size of one cell.
    pub fn metrics(&self) -> (out: CellMetrics)
        ensures
            out == self@.metrics,
    {
        self.metrics
    }

    /// Returns the device scale.
    pub fn scale(&self) -> (out: Scale)
        ensures
            out == self@.scale,
    {
        self.scale
    }

    /// Returns the font size in logical pixels.
    pub fn font_size(&self) -> (out: i32)
        ensures
            out == self@.font_size,
    {
        self.font_size
    }

    /// Returns the blink clock.
    pub fn blink(&self) -> (out: BlinkClock)
        ensures
            out == self@.blink,
    {
        self.blink
    }

    /// Returns the cells that are repainted on every draw.
    pub fn always_redraw_list(&self) -> (out: &Vec<(u16, u16)>)
        ensures
            out@ == self@.redraw,
    {
        &self.always_redraw_list
    }

    /// Paints the background of one cell: its rectangle, clipped to the pixel
    /// buffer, in the cell's background colour. A position outside the grid
    /// is skipped.
    pub fn draw_cell_background(&mut self, col: u16, row: u16)
        requires
            old(self).wf(),
        ensures
            final(self).wf(),
            final(self)@ == (Surface {
                image: paint_cell_background(
                    old(self)@.image,
                    old(self)@.grid,
                    old(self)@.metrics.cell_px_w as nat,
                    old(self)@.metrics.cell_px_h as nat,
                    col as int,
                    row as int,
                ),
                ..old(self)@
            }),
            final(self).engine_calls() == old(self).engine_calls(),
    {
        let physical_char_width = self.metrics.cell_px_w;
        let physical_char_height = self.metrics.cell_px_h;
        proof {
            lemma_paint_cell_background_size(
                self@.image,
                self@.grid,
                physical_char_width as nat,
                physical_char_height as nat,
                col as int,
                row as int,
            );
        }
        let bg_color = match grid::cell_at(&self.buffer, col, row) {
            Some(cell) => resolve_cell_colors(&cell).bg,
            None => {
                return ;
            },
        };
        proof {
            lemma_cell_corner(
                physical_char_width as int,
                self@.grid.width as int,
                col as int,
            );
            lemma_cell_corner(
                physical_char_height as int,
                self@.grid.height as int,
                row as int,
            );
        }
        let begin_x: usize = col as usize * physical_char_width;
        let begin_y: usize = row as usize * physical_char_height;
        if begin_x >= self.rgb_pixmap.width() || begin_y >= self.rgb_pixmap.height() {
            return ;
        }
        fill_rect(
            &mut self.rgb_pixmap,
            begin_x,
            begin_y,
            physical_char_width,
            physical_char_height,
            bg_color,
        );
    }

    fn note_redraw(&mut self, at: (u16, u16))
        requires
            old(self).wf(),
            old(self)@.grid.contains(at.0 as int, at.1 as int),
            old(self)@.grid.cell(at.0 as int, at.1 as int).modifier.blinks(),
        ensures
            final(self).wf(),
            final(self)@ == (Surface {
                redraw: note_blinking(old(self)@.redraw, old(self)@.grid, at),
                ..old(self)@
            }),
            final(self).engine_calls() == old(self).engine_calls(),
    {
        proof {
            lemma_note_blinking_no_duplicates(self@.redraw, self@.grid, at);
        }
        if !list_contains(&self.always_redraw_list, at) {
            self.always_redraw_list.push(at);
        }
    }

    /// The text run that the text engine is asked to shape for the cell at
    /// `(col, row)`, or `None` outside the grid.
    pub fn cell_text_run(&self, col: u16, row: u16) -> (out: Option<TextRun>)
        requires
            self.wf(),
        ensures
            out is Some <==> self@.grid.contains(col as int, row as int),
            out matches Some(run) ==> {
                let cell = self@.grid.cell(col as int, row as int);
                &&& run.text@ == decorated(
                    cell.symbol,
                    cell.modifier.crossed_out,
                    cell.modifier.underlined,
                )
                &&& run.bold == cell.modifier.bold
                &&& run.italic == cell.modifier.italic
            },
    {
        match grid::cell_at(&self.buffer, col, row) {
            Some(cell) => Some(text_run(&cell)),
            None => None,
        }
    }

    /// Blends the glyphs of one cell into the pixel buffer, at the cell's
    /// corner, in the cell's ink over the cell's background colour, clipped
    /// to the pixel buffer only. While the cell is blinked out the ink is the
    /// background colour. A blinking cell is entered in the redraw list. A
    /// position outside the grid is skipped.
    pub fn draw_cell_glyphs(&mut self, col: u16, row: u16, glyphs: &Vec<GlyphImage>)
        requires
            old(self).wf(),
        ensures
            final(self).wf(),
            final(self)@ == old(self)@.cell_text_drawn(col, row, glyphs@),
            final(self).engine_calls() == old(self).engine_calls(),
    {
        let physical_char_width = self.metrics.cell_px_w;
        let physical_char_height = self.metrics.cell_px_h;
        let (fg_color, bg_color, blinks) = match grid::cell_at(&self.buffer, col, row) {
            Some(cell) => (
                resolve_ink(&cell, self.blink),
                resolve_cell_colors(&cell).bg,
                cell.modifier.slow_blink || cell.modifier.rapid_blink,
            ),
            None => {
                return ;
            },
        };
        if blinks {
            self.note_redraw((col, row));
        }
        proof {
            lemma_cell_corner(
                physical_char_width as int,
                self@.grid.width as int,
                col as int,
            );
            lemma_cell_corner(
                physical_char_height as int,
                self@.grid.height as int,
                row as int,
            );
            lemma_paint_cell_text_size(
                self@.image,
                self@.grid,
                physical_char_width as nat,
                physical_char_height as nat,
                self@.blink,
                col as int,
                row as int,
                glyphs@,
            );
        }
        let begin_x: usize = col as usize * physical_char_width;
        let begin_y: usize = row as usize * physical_char_height;
        draw_glyphs(&mut self.rgb_pixmap, begin_x, begin_y, glyphs, fg_color, bg_color);
    }

    fn draw_cell_text_with(&mut self, col: u16, row: u16) -> (used: Ghost<Seq<GlyphImage>>)
        requires
            old(self).wf(),
        ensures
            final(self).wf(),
            final(self)@ == old(self)@.cell_text_drawn(col, row, used@),
            final(self).engine_calls() == if old(self)@.grid.contains(col as int, row as int) {
                old(self).engine_calls().push(
                    shape_call(old(self)@.grid.cell(col as int, row as int)),
                )
            } else {
                old(self).engine_calls()
            },
    {
        let run = match self.cell_text_run(col, row) {
            Some(run) => run,
            None => {
                return Ghost(Seq::empty());
            },
        };
        let glyphs = self.glyphs.glyphs(run.text.as_str(), run.bold, run.italic);
        self.draw_cell_glyphs(col, row, &glyphs);
        Ghost(glyphs@)
    }

    /// Paints the glyphs of one cell over what the pixel buffer holds. The
    /// text engine is asked once, for the cell's text run: the symbol with
    /// its decoration overlays and the bold and italic hints. Whatever glyphs
    /// come back are blended in as `draw_cell_glyphs` does; no line is drawn
    /// for a decoration. A position outside the grid is skipped, and the text
    /// engine is not asked.
    pub fn draw_cell_text(&mut self, col: u16, row: u16)
        requires
            old(self).wf(),
        ensures
            final(self).wf(),
            exists|glyphs: Seq<GlyphImage>|
                final(self)@ == #[trigger] old(self)@.cell_text_drawn(col, row, glyphs),
            final(self).engine_calls() == if old(self)@.grid.contains(col as int, row as int) {
                old(self).engine_calls().push(
                    shape_call(old(self)@.grid.cell(col as int, row as int)),
                )
            } else {
                old(self).engine_calls()
            },
    {
        let used = self.draw_cell_text_with(col, row);
        assert(self@ == old(self)@.cell_text_drawn(col, row, used@));
    }

    fn paint_backgrounds_of(&mut self, cells: &Vec<(u16, u16)>)
        requires
            old(self).wf(),
        ensures
            final(self).wf(),
            final(self)@ == (Surface {
                image: paint_backgrounds(
                    old(self)@.image,
                    old(self)@.grid,
                    old(self)@.metrics.cell_px_w as nat,
                    old(self)@.metrics.cell_px_h as nat,
                    cells@,
                ),
                ..old(self)@
            }),
            final(self).engine_calls() == old(self).engine_calls(),
    {
        let ghost start = self@;
        let mut i: usize = 0;
        assert(cells@.take(0) =~= Seq::<(u16, u16)>::empty());
        while i < cells.len()
            invariant
                i <= cells.len(),
                self.wf(),
                self.engine_calls() == old(self).engine_calls(),
                self@ == (Surface {
                    image: paint_backgrounds(
                        start.image,
                        start.grid,
                        start.metrics.cell_px_w as nat,
                        start.metrics.cell_px_h as nat,
                        cells@.take(i as int),
                    ),
                    ..start
                }),
            decreases cells.len() - i,
        {
            let at = cells[i];
            self.draw_cell_background(at.0, at.1);
            proof {
                lemma_paint_backgrounds_push(
                    start.image,
                    start.grid,
                    start.metrics.cell_px_w as nat,
                    start.metrics.cell_px_h as nat,
                    cells@.take(i as int),
                    at,
                );
                assert(cells@.take(i + 1) =~= cells@.take(i as int).push(at));
            }
            i += 1;
        }
        assert(cells@.take(cells.len() as int) =~= cells@);
    }

    fn paint_texts_of(&mut self, cells: &Vec<(u16, u16)>) -> (used: Ghost<Seq<Seq<GlyphImage>>>)
        requires
            old(self).wf(),
        ensures
            final(self).wf(),
            used@.len() == cells@.len(),
            final(self)@ == (Surface {
                image: paint_texts(
                    old(self)@.image,
                    old(self)@.grid,
                    old(self)@.metrics.cell_px_w as nat,
                    old(self)@.metrics.cell_px_h as nat,
                    old(self)@.blink,
                    cells@,
                    used@,
                ),
                redraw: note_all_blinking(old(self)@.redraw, old(self)@.grid, cells@),
                ..old(self)@
            }),
            final(self).engine_calls() == old(self).engine_calls() + shape_calls(
                old(self)@.grid,
                cells@,
            ),
    {
        let ghost start = self@;
        let ghost mut table: Seq<Seq<GlyphImage>> = Seq::empty();
        let mut i: usize = 0;
        assert(cells@.take(0) =~= Seq::<(u16, u16)>::empty());
        assert(old(self).engine_calls() + Seq::<EngineCall>::empty() =~= old(self).engine_calls());
        while i < cells.len()
            invariant
                i <= cells.len(),
                self.wf(),
                table.len() == i,
                self.engine_calls() == old(self).engine_calls() + shape_calls(
                    start.grid,
                    cells@.take(i as int),
                ),
                self@ == (Surface {
                    image: paint_texts(
                        start.image,
                        start.grid,
                        start.metrics.cell_px_w as nat,
                        start.metrics.cell_px_h as nat,
                        start.blink,
                        cells@.take(i as int),
                        table,
                    ),
                    redraw: note_all_blinking(start.redraw, start.grid, cells@.take(i as int)),
                    ..start
                }),
            decreases cells.len() - i,
        {
            let at = cells[i];
            let found = self.draw_cell_text_with(at.0, at.1);
            proof {
                lemma_paint_texts_push(
                    start.image,
                    start.grid,
                    start.metrics.cell_px_w as nat,
                    start.metrics.cell_px_h as nat,
                    start.blink,
                    cells@.take(i as int),
                    table,
                    at,
                    found@,
                );
                lemma_note_all_blinking_push(start.redraw, start.grid, cells@.take(i as int), at);
                lemma_shape_calls_push(start.grid, cells@.take(i as int), at);
                let asked = shape_calls(start.grid, cells@.take(i as int));
                if start.grid.contains(at.0 as int, at.1 as int) {
                    let call = shape_call(start.grid.cell(at.0 as int, at.1 as int));
                    let earlier = old(self).engine_calls();
                    assert((earlier + asked).push(call) =~= earlier + asked.push(call));
                }
                assert(cells@.take(i + 1) =~= cells@.take(i as int).push(at));
                table = table.push(found@);
            }
            i += 1;
        }
        assert(cells@.take(cells.len() as int) =~= cells@);
        Ghost(table)
    }

    /// Repaints every cell: first all backgrounds, then all glyphs, column
    /// after column. The redraw list is emptied first and filled again with
    /// the cells that blink. The text engine is asked once for every cell.
    ///
    /// The result does not depend on what the pixel buffer held: a repaint
    /// that gets the same glyphs again leaves the surface as it is. Over a
    /// blank grid, glyphs without coverage leave every pixel in the default
    /// background colour.
    pub fn redraw(&mut self)
        requires
            old(self).wf(),
        ensures
            final(self).wf(),
            exists|glyphs: Seq<Seq<GlyphImage>>|
                {
                    &&& final(self)@ == #[trigger] old(self)@.redrawn(glyphs)
                    &&& glyphs.len() == all_cells(
                        old(self)@.grid.width,
                        old(self)@.grid.height,
                    ).len()
                    &&& final(self)@.redrawn(glyphs) == final(self)@
                    &&& old(self)@.grid.is_blank() && all_transparent(glyphs)
                        ==> final(self)@.image == Image::filled(
                        old(self)@.image.width,
                        old(self)@.image.height,
                        default_background(),
                    )
                },
            old(self)@.grid.is_blank() ==> final(self)@.redraw == Seq::<(u16, u16)>::empty(),
            final(self).engine_calls() == old(self).engine_calls() + shape_calls(
                old(self)@.grid,
                all_cells(old(self)@.grid.width, old(self)@.grid.height),
            ),
    {
        self.always_redraw_list.clear();
        let cells = cell_list(grid::width(&self.buffer), grid::height(&self.buffer));
        self.paint_backgrounds_of(&cells);
        let used = self.paint_texts_of(&cells);
        proof {
            assert(self@ == old(self)@.redrawn(used@));
            lemma_redraw_idempotent(old(self)@, used@);
            if old(self)@.grid.is_blank() {
                lemma_blank_grid_notes_nothing(old(self)@.grid, cells@);
                if all_transparent(used@) {
                    lemma_blank_redraw(old(self)@, used@);
                }
            }
        }
    }

    /// Writes the changed cells into the grid, advances the blink clock, and
    /// repaints the changed cells and the cells of the redraw list: first all
    /// their backgrounds, then all their glyphs. A change outside the grid is
    /// skipped.
    pub fn draw(&mut self, content: &[(u16, u16, Cell)])
        requires
            old(self).wf(),
        ensures
            final(self).wf(),
            exists|glyphs: Seq<Seq<GlyphImage>>|
                {
                    &&& final(self)@ == #[trigger] old(self)@.drawn(changes_of(content@), glyphs)
                    &&& glyphs.len() == content@.len() + old(self)@.redraw.len()
                },
            final(self)@.image.width == old(self)@.image.width,
            final(self)@.image.height == old(self)@.image.height,
            final(self)@.grid.width == old(self)@.grid.width,
            final(self)@.grid.height == old(self)@.grid.height,
            final(self)@.blink == old(self)@.blink.ticked(),
            final(self).engine_calls() == old(self).engine_calls() + shape_calls(
                apply_changes(old(self)@.grid, changes_of(content@)),
                changed_cells(changes_of(content@)) + old(self)@.redraw,
            ),
    {
        self.update_blinking();
        let ghost changes = changes_of(content@);
        let mut cells_to_update: Vec<(u16, u16)> = Vec::new();
        let mut i: usize = 0;
        assert(changes.take(0) =~= Seq::<(u16, u16, CellView)>::empty());
        assert(changed_cells(Seq::<(u16, u16, CellView)>::empty()) =~= Seq::<(u16, u16)>::empty());
        while i < content.len()
            invariant
                i <= content.len(),
                changes == changes_of(content@),
                self.wf(),
                self.engine_calls() == old(self).engine_calls(),
                self@ == (Surface {
                    grid: apply_changes(old(self)@.grid, changes.take(i as int)),
                    blink: old(self)@.blink.ticked(),
                    ..old(self)@
                }),
                cells_to_update@ == changed_cells(changes.take(i as int)),
            decreases content.len() - i,
        {
            let x = content[i].0;
            let y = content[i].1;
            proof {
                let next = changes.take(i + 1);
                assert(next.drop_last() =~= changes.take(i as int));
                assert(next.last() == (x, y, content[i as int].2@));
                assert(changed_cells(next) =~= changed_cells(changes.take(i as int)).push((x, y)));
            }
            grid::set_cell(&mut self.buffer, x, y, &content[i].2);
            cells_to_update.push((x, y));
            i += 1;
        }
        assert(changes.take(content.len() as int) =~= changes);
        let mut k: usize = 0;
        while k < self.always_redraw_list.len()
            invariant
                k <= self.always_redraw_list.len(),
                self.wf(),
                self.engine_calls() == old(self).engine_calls(),
                self@ == (Surface {
                    grid: apply_changes(old(self)@.grid, changes),
                    blink: old(self)@.blink.ticked(),
                    ..old(self)@
                }),
                cells_to_update@ == changed_cells(changes) + old(self)@.redraw.take(k as int),
            decreases self.always_redraw_list.len() - k,
        {
            let at = self.always_redraw_list[k];
            cells_to_update.push(at);
            proof {
                assert(old(self)@.redraw.take(k + 1) =~= old(self)@.redraw.take(k as int).push(at));
            }
            k += 1;
        }
        assert(old(self)@.redraw.take(old(self)@.redraw.len() as int) =~= old(self)@.redraw);
        self.paint_backgrounds_of(&cells_to_update);
        let used = self.paint_texts_of(&cells_to_update);
        proof {
            lemma_drawn_keeps_size(old(self)@, changes, used@);
        }
        assert(self@ == old(self)@.drawn(changes, used@));
    }

    /// Gives the grid new dimensions, allocates a pixel buffer of the
    /// matching size and repaints everything. When a pixel buffer of that
    /// size cannot be addressed, nothing changes.
    pub fn resize(&mut self, width: u16, height: u16) -> (out: Result<(), SurfaceError>)
        requires
            old(self).wf(),
        ensures
            final(self).wf(),
            pixel_size_fits(
                old(self)@.metrics.cell_px_w as nat,
                old(self)@.metrics.cell_px_h as nat,
                width as nat,
                height as nat,
            ) ==> {
                &&& out is Ok
                &&& exists|glyphs: Seq<Seq<GlyphImage>>|
                    {
                        &&& final(self)@ == #[trigger] old(self)@.resized(
                            width as nat,
                            height as nat,
                            glyphs,
                        )
                        &&& glyphs.len() == all_cells(width as nat, height as nat).len()
                    }
                &&& final(self)@.image.width == old(self)@.metrics.cell_px_w * width
                &&& final(self)@.image.height == old(self)@.metrics.cell_px_h * height
                &&& final(self).engine_calls() == old(self).engine_calls() + shape_calls(
                    old(self)@.grid.resized(width as nat, height as nat),
                    all_cells(width as nat, height as nat),
                )
            },
            !pixel_size_fits(
                old(self)@.metrics.cell_px_w as nat,
                old(self)@.metrics.cell_px_h as nat,
                width as nat,
                height as nat,
            ) ==> {
                &&& out == Err::<(), SurfaceError>(SurfaceError::TooLarge)
                &&& final(self)@ == old(self)@
                &&& final(self).pixel_bytes() == old(self).pixel_bytes()
                &&& final(self).engine_calls() == old(self).engine_calls()
            },
    {
        let (pixel_width, pixel_height) = match pixel_size(
            self.metrics.cell_px_w,
            self.metrics.cell_px_h,
            width,
            height,
        ) {
            Some(size) => size,
            None => {
                return Err(SurfaceError::TooLarge);
            },
        };
        grid::resize(&mut self.buffer, width, height);
        self.rgb_pixmap = RgbPixmap::new(pixel_width, pixel_height);
        let ghost fresh = self@;
        assert(fresh == old(self)@.reallocated(
            old(self)@.grid.resized(width as nat, height as nat),
            old(self)@.metrics,
        ));
        self.redraw();
        proof {
            let glyphs = choose|glyphs: Seq<Seq<GlyphImage>>|
                self@ == #[trigger] fresh.redrawn(glyphs) && glyphs.len() == all_cells(
                    fresh.grid.width,
                    fresh.grid.height,
                ).len();
            assert(self@ == old(self)@.resized(width as nat, height as nat, glyphs));
        }
        Ok(())
    }

    /// Whether `self` is what a change of font size or scale makes of
    /// `before`, given the measured size of the reference glyph, and `out` is
    /// what the change returns. Where the measurement leads to a layout, the
    /// surface is laid out again with its metrics and repainted, and the
    /// text engine is told the new metrics and then asked for every cell.
    /// Where it leads to none, the error says why, and nothing has changed.
    pub open spec fn is_refit_of(
        &self,
        before: &SoftBackend<G>,
        out: Result<(), SurfaceError>,
        font_size: i32,
        scale_factor: Scale,
        reference: (u32, u32),
    ) -> bool {
        match layout_outcome(
            Some(reference),
            scale_factor,
            before@.grid.width,
            before@.grid.height,
        ) {
            Ok(metrics) => {
                &&& out is Ok
                &&& exists|glyphs: Seq<Seq<GlyphImage>>|
                    {
                        &&& self@ == #[trigger] before@.refitted(
                            font_size,
                            scale_factor,
                            metrics,
                            glyphs,
                        )
                        &&& glyphs.len() == all_cells(before@.grid.width, before@.grid.height).len()
                    }
                &&& self.engine_calls() == before.engine_calls().push(
                    EngineCall::SetMetrics {
                        font_size,
                        scale: scale_factor,
                        cell_width: metrics.char_width,
                        cell_height: metrics.char_height,
                    },
                ) + shape_calls(
                    before@.grid,
                    all_cells(before@.grid.width, before@.grid.height),
                )
            },
            Err(error) => {
                &&& out == Err::<(), SurfaceError>(error)
                &&& self@ == before@
                &&& self.pixel_bytes() == before.pixel_bytes()
                &&& self.engine_calls() == before.engine_calls()
            },
        }
    }

    fn refit(&mut self, font_size: i32, scale_factor: Scale, reference: (u32, u32)) -> (out: Result<
        (),
        SurfaceError,
    >)
        requires
            old(self).wf(),
            scale_factor.wf(),
        ensures
            final(self).wf(),
            final(self).is_refit_of(old(self), out, font_size, scale_factor, reference),
    {
        let cols = grid::width(&self.buffer);
        let rows = grid::height(&self.buffer);
        let metrics = match plan_layout(Some(reference), scale_factor, cols, rows) {
            Ok(metrics) => metrics,
            Err(error) => {
                return Err(error);
            },
        };
        let (pixel_width, pixel_height) = match pixel_size(
            metrics.cell_px_w,
            metrics.cell_px_h,
            cols,
            rows,
        ) {
            Some(size) => size,
            None => {
                return Err(SurfaceError::TooLarge);
            },
        };
        self.glyphs.set_metrics(font_size, scale_factor, metrics.char_width, metrics.char_height);
        self.metrics = metrics;
        self.font_size = font_size;
        self.scale = scale_factor;
        self.rgb_pixmap = RgbPixmap::new(pixel_width, pixel_height);
        let ghost fresh = self@;
        self.redraw();
        proof {
            let glyphs = choose|glyphs: Seq<Seq<GlyphImage>>|
                self@ == #[trigger] fresh.redrawn(glyphs) && glyphs.len() == all_cells(
                    fresh.grid.width,
                    fresh.grid.height,
                ).len();
            assert(self@ == old(self)@.refitted(font_size, scale_factor, metrics, glyphs));
        }
        Ok(())
    }

    /// Asks the text engine for the size of the reference glyph at the given
    /// font size and scale. The surface is left as it is; hand the answer to
    /// `set_font_size` or `set_scale_factor`.
    pub fn measure_reference(&mut self, font_size: i32, scale_factor: Scale) -> (out: Option<
        (u32, u32),
    >)
        ensures
            final(self)@ == old(self)@,
            old(self).wf() ==> final(self).wf(),
            final(self).pixel_bytes() == old(self).pixel_bytes(),
            final(self).engine_calls() == old(self).engine_calls().push(
                EngineCall::Measure { font_size, scale: scale_factor },
            ),
    {
        self.glyphs.measure(font_size, scale_factor)
    }

    /// Sets a new font size, given the size of the reference glyph measured
    /// at that font size. The cell metrics are derived from the measurement,
    /// the pixel buffer is allocated anew and everything is repainted: this
    /// is slow, and not for every frame. It succeeds exactly when a pixel
    /// buffer for the new layout can be addressed; otherwise nothing changes
    /// and the text engine is not touched.
    pub fn set_font_size(&mut self, font_size: i32, reference: (u32, u32)) -> (out: Result<
        (),
        SurfaceError,
    >)
        requires
            old(self).wf(),
        ensures
            final(self).wf(),
            final(self).is_refit_of(old(self), out, font_size, old(self)@.scale, reference),
    {
        let scale_factor = self.scale;
        self.refit(font_size, scale_factor, reference)
    }

    /// Sets a new device scale, given the size of the reference glyph
    /// measured at that scale, as `set_font_size` sets a new font size.
    pub fn set_scale_factor(&mut self, scale_factor: Scale, reference: (u32, u32)) -> (out: Result<
        (),
        SurfaceError,
    >)
        requires
            old(self).wf(),
            scale_factor.wf(),
        ensures
            final(self).wf(),
            final(self).is_refit_of(old(self), out, old(self)@.font_size, scale_factor, reference),
    {
        let font_size = self.font_size;
        self.refit(font_size, scale_factor, reference)
    }

    /// Creates a backend of `width` by `height` cells at scale 1, with `font`
    /// as its text engine and `reference` as the measured size of the font's
    /// reference glyph.
    pub fn new_with_font(
        width: u16,
        height: u16,
        font_size: i32,
        font: G,
        reference: (u32, u32),
    ) -> (out: Result<SoftBackend<G>, SurfaceError>)
        ensures
            match layout_outcome(Some(reference), Scale::unit(), width as nat, height as nat) {
                Ok(metrics) => {
                    &&& out matches Ok(backend)
                    &&& backend.wf()
                    &&& backend@ == Surface::started(
                        width as nat,
                        height as nat,
                        font_size,
                        Scale::unit(),
                        metrics,
                    )
                    &&& backend.engine_calls() == seq![
                        EngineCall::SetMetrics {
                            font_size,
                            scale: Scale::unit(),
                            cell_width: metrics.char_width,
                            cell_height: metrics.char_height,
                        },
                    ]
                },
                Err(error) => out matches Err(actual) && actual == error,
            },
    {
        Self::new_with_font_and_scale(width, height, font_size, font, Scale::one(), reference)
    }

    /// Creates a backend of `width` by `height` cells for a display with the
    /// given scale factor, with `font` as its text engine. `reference` is the
    /// size of the font's reference glyph, measured by the caller: a font
    /// without one never gets here. The cell metrics are derived from it.
    /// Construction succeeds exactly when a pixel buffer for the layout can
    /// be addressed. The new surface is blank and shows the default
    /// background; the text engine has been told the metrics.
    pub fn new_with_font_and_scale(
        width: u16,
        height: u16,
        font_size: i32,
        font: G,
        scale_factor: Scale,
        reference: (u32, u32),
    ) -> (out: Result<SoftBackend<G>, SurfaceError>)
        requires
            scale_factor.wf(),
        ensures
            match layout_outcome(Some(reference), scale_factor, width as nat, height as nat) {
                Ok(metrics) => {
                    &&& out matches Ok(backend)
                    &&& backend.wf()
                    &&& backend@ == Surface::started(
                        width as nat,
                        height as nat,
                        font_size,
                        scale_factor,
                        metrics,
                    )
                    &&& backend.engine_calls() == seq![
                        EngineCall::SetMetrics {
                            font_size,
                            scale: scale_factor,
                            cell_width: metrics.char_width,
                            cell_height: metrics.char_height,
                        },
                    ]
                },
                Err(error) => out matches Err(actual) && actual == error,
            },
    {
        let metrics = match plan_layout(Some(reference), scale_factor, width, height) {
            Ok(metrics) => metrics,
            Err(error) => {
                return Err(error);
            },
        };
        let (pixel_width, pixel_height) = match pixel_size(
            metrics.cell_px_w,
            metrics.cell_px_h,
            width,
            height,
        ) {
            Some(size) => size,
            None => {
                return Err(SurfaceError::TooLarge);
            },
        };
        let mut glyphs = TextEngine::new(font);
        glyphs.set_metrics(font_size, scale_factor, metrics.char_width, metrics.char_height);
        let mut return_struct = SoftBackend {
            buffer: grid::empty(width, height),
            cursor: false,
            pos: (0, 0),
            glyphs,
            font_size,
            scale: scale_factor,
            metrics,
            blink: BlinkClock::new(),
            rgb_pixmap: RgbPixmap::new(pixel_width, pixel_height),
            always_redraw_list: Vec::new(),
        };
        return_struct.clear();
        proof {
            assert(return_struct@ == Surface::started(
                width as nat,
                height as nat,
                font_size,
                scale_factor,
                metrics,
            ));
            assert(return_struct.engine_calls() =~= seq![
                EngineCall::SetMetrics {
                    font_size,
                    scale: scale_factor,
                    cell_width: metrics.char_width,
                    cell_height: metrics.char_height,
                },
            ]);
        }
        Ok(return_struct)
    }

    /// The text engine.
    pub closed spec fn spec_text_engine(&self) -> G {
        self.glyphs.spec_source()
    }

    /// The text engine.
    pub fn text_engine(&self) -> (out: &G)
        ensures
            *out == self.spec_text_engine(),
    {
        self.glyphs.source()
    }

    /// Advances the blink clock by one tick.
    pub fn update_blinking(&mut self)
        requires
            old(self).wf(),
        ensures
            final(self).wf(),
            final(self)@ == (Surface { blink: old(self)@.blink.ticked(), ..old(self)@ }),
            final(self).engine_calls() == old(self).engine_calls(),
    {
        self.blink.tick();
    }

    /// Hides the cursor. The pixels do not show the cursor either way.
    pub fn hide_cursor(&mut self)
        ensures
            final(self)@ == (Surface { cursor_visible: false, ..old(self)@ }),
            old(self).wf() ==> final(self).wf(),
            final(self).pixel_bytes() == old(self).pixel_bytes(),
            final(self).engine_calls() == old(self).engine_calls(),
    {
        self.cursor = false;
    }

    /// Shows the cursor. The pixels do not show the cursor either way.
    pub fn show_cursor(&mut self)
        ensures
            final(self)@ == (Surface { cursor_visible: true, ..old(self)@ }),
            old(self).wf() ==> final(self).wf(),
            final(self).pixel_bytes() == old(self).pixel_bytes(),
            final(self).engine_calls() == old(self).engine_calls(),
    {
        self.cursor = true;
    }

    /// Returns the position of the cursor.
    pub fn get_cursor_position(&self) -> (out: Position)
        ensures
            out.x == self@.cursor.0,
            out.y == self@.cursor.1,
    {
        Position { x: self.pos.0, y: self.pos.1 }
    }

    /// Moves the cursor. Any position is taken, inside the grid or not.
    pub fn set_cursor_position(&mut self, position: Position)
        ensures
            final(self)@ == (Surface { cursor: (position.x, position.y), ..old(self)@ }),
            old(self).wf() ==> final(self).wf(),
            final(self).pixel_bytes() == old(self).pixel_bytes(),
            final(self).engine_calls() == old(self).engine_calls(),
    {
        self.pos = (position.x, position.y);
    }

    /// Returns whether the cursor is shown.
    pub fn cursor_visible(&self) -> (out: bool)
        ensures
            out == self@.cursor_visible,
    {
        self.cursor
    }

    /// Resets every cell to the blank cell and fills the pixel buffer with the
    /// default background colour.
    pub fn clear(&mut self)
        requires
            old(self).wf(),
        ensures
            final(self).wf(),
            final(self)@ == old(self)@.cleared(),
            final(self).engine_calls() == old(self).engine_calls(),
    {
        grid::reset(&mut self.buffer);
        self.rgb_pixmap.fill(color_to_rgb(Color::Reset, false));
    }

    /// Returns the size of the grid in cells.
    pub fn size(&self) -> (out: Size)
        ensures
            out.width == self@.grid.width,
            out.height == self@.grid.height,
    {
        Size { width: grid::width(&self.buffer), height: grid::height(&self.buffer) }
    }

    /// Returns the size of the grid in cells and of the pixel buffer in
    /// pixels. The pixel counts are reduced modulo 65536.
    pub fn window_size(&self) -> (out: WindowSize)
        ensures
            out.columns_rows.width == self@.grid.width,
            out.columns_rows.height == self@.grid.height,
            out.pixels.width == self@.image.width % 0x10000,
            out.pixels.height == self@.image.height % 0x10000,
    {
        let width: usize = self.rgb_pixmap.width() % 0x10000;
        let height: usize = self.rgb_pixmap.height() % 0x10000;
        WindowSize {
            columns_rows: Size { width: grid::width(&self.buffer), height: grid::height(&self.buffer) },
            pixels: Size { width: width as u16, height: height as u16 },
        }
    }

    /// Does nothing: the pixel buffer is up to date after every operation.
    pub fn flush(&mut self)
        ensures
            final(self)@ == old(self)@,
            old(self).wf() ==> final(self).wf(),
            final(self).pixel_bytes() == old(self).pixel_bytes(),
            final(self).engine_calls() == old(self).engine_calls(),
    {
    }
}

/// Lists the cells of a grid in the order of a full repaint: column after
/// column, each from top to bottom.
pub fn cell_list(cols: u16, rows: u16) -> (out: Vec<(u16, u16)>)
    ensures
        out@ == all_cells(cols as nat, rows as nat),
{
    let mut out: Vec<(u16, u16)> = Vec::new();
    let mut x: u16 = 0;
    while x < cols
        invariant
            x <= cols,
            out@ == all_cells(x as nat, rows as nat),
        decreases cols - x,
    {
        let ghost before = out@;
        let mut y: u16 = 0;
        assert(column_cells(x, rows as nat).take(0) =~= Seq::<(u16, u16)>::empty());
        assert(before + Seq::<(u16, u16)>::empty() =~= before);
        while y < rows
            invariant
                y <= rows,
                x < cols,
                out@ == before + column_cells(x, rows as nat).take(y as int),
            decreases rows - y,
        {
            out.push((x, y));
            proof {
                assert(column_cells(x, rows as nat).take(y + 1) =~= column_cells(
                    x,
                    rows as nat,
                ).take(y as int).push((x, y)));
                assert(out@ =~= before + column_cells(x, rows as nat).take(y + 1));
            }
            y += 1;
        }
        assert(column_cells(x, rows as nat).take(rows as int) =~= column_cells(x, rows as nat));
        x += 1;
    }
    out
}

} // verus!
