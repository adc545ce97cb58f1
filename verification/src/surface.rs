//! The render surface as a value, and what each operation makes of it.

use crate::blink::BlinkClock;
use crate::grid::Grid;
use crate::cell::{Cell, CellView};
use crate::colors::{default_background, Rgb};
use crate::compositor::{all_cells, note_all_blinking, note_blinking, paint, paint_cell_text};
use crate::glyph::GlyphImage;
use crate::pixmap::Image;
use crate::scale::{
    cell_height_of, cell_metrics, cell_width_of, metrics_fit, pixel_size, pixel_size_fits,
    CellMetrics, Scale,
};
use vstd::prelude::*;

verus! {

/// Why a surface could not be laid out.
#[derive(Clone, Copy, Debug, PartialEq, Eq, Structural)]
pub enum SurfaceError {
    /// The font gave no reference glyph to measure.
    NoReferenceGlyph,
    /// The pixel buffer for this layout could not be addressed.
    TooLarge,
}

/// The state of a render surface.
pub struct Surface {
    /// The cells.
    pub grid: Grid,
    /// The pixels.
    pub image: Image,
    /// The blink clock.
    pub blink: BlinkClock,
    /// The cells that are repainted on every draw, in the order they were
    /// found blinking.
    pub redraw: Seq<(u16, u16)>,
    /// The size of a cell.
    pub metrics: CellMetrics,
    /// The device scale.
    pub scale: Scale,
    /// The font size in logical pixels.
    pub font_size: i32,
    /// Whether the cursor is shown.
    pub cursor_visible: bool,
    /// Column and row of the cursor.
    pub cursor: (u16, u16),
}

/// The grid after the changed cells are written, in order. A change outside
/// the grid is dropped.
pub open spec fn apply_changes(grid: Grid, changes: Seq<(u16, u16, CellView)>) -> Grid
    decreases changes.len(),
{
    if changes.len() == 0 {
        grid
    } else {
        apply_changes(grid, changes.drop_last()).set(
            changes.last().0 as int,
            changes.last().1 as int,
            changes.last().2,
        )
    }
}

/// Writing changes keeps the grid well formed and at its size.
pub proof fn lemma_apply_changes_size(grid: Grid, changes: Seq<(u16, u16, CellView)>)
    requires
        grid.wf(),
    ensures
        apply_changes(grid, changes).wf(),
        apply_changes(grid, changes).width == grid.width,
        apply_changes(grid, changes).height == grid.height,
    decreases changes.len(),
{
    if changes.len() > 0 {
        lemma_apply_changes_size(grid, changes.drop_last());
        let before = apply_changes(grid, changes.drop_last());
        let last = changes.last();
        if before.contains(last.0 as int, last.1 as int) {
            before.lemma_index(last.0 as int, last.1 as int);
        }
    }
}

/// The positions of the changed cells, in order.
pub open spec fn changed_cells(changes: Seq<(u16, u16, CellView)>) -> Seq<(u16, u16)> {
    changes.map_values(|change: (u16, u16, CellView)| (change.0, change.1))
}

/// What the measurement of the reference glyph leads to for a grid of `cols`
/// by `rows` cells: the cell metrics, or the reason why there is no layout.
pub open spec fn layout_outcome(
    measured: Option<(u32, u32)>,
    scale: Scale,
    cols: nat,
    rows: nat,
) -> Result<CellMetrics, SurfaceError> {
    match measured {
        None => Err(SurfaceError::NoReferenceGlyph),
        Some((box_width, box_height)) => {
            let metrics = CellMetrics {
                char_width: cell_width_of(box_width) as usize,
                char_height: cell_height_of(box_height) as usize,
                cell_px_w: scale.apply(cell_width_of(box_width)) as usize,
                cell_px_h: scale.apply(cell_height_of(box_height)) as usize,
            };
            if metrics_fit(box_width, box_height, scale) && pixel_size_fits(
                metrics.cell_px_w as nat,
                metrics.cell_px_h as nat,
                cols,
                rows,
            ) {
                Ok(metrics)
            } else {
                Err(SurfaceError::TooLarge)
            }
        },
    }
}

/// The changes as values: each cell by what it shows.
pub open spec fn changes_of(content: Seq<(u16, u16, Cell)>) -> Seq<(u16, u16, CellView)> {
    content.map_values(|change: (u16, u16, Cell)| (change.0, change.1, change.2@))
}

/// Decides the layout that follows from a measurement of the reference glyph:
/// the metrics of a cell, or why the surface cannot be laid out.
pub fn plan_layout(measured: Option<(u32, u32)>, scale: Scale, cols: u16, rows: u16) -> (out: Result<
    CellMetrics,
    SurfaceError,
>)
    requires
        scale.wf(),
    ensures
        out == layout_outcome(measured, scale, cols as nat, rows as nat),
{
    let (box_width, box_height) = match measured {
        Some(size) => size,
        None => {
            return Err(SurfaceError::NoReferenceGlyph);
        },
    };
    let metrics = match cell_metrics(box_width, box_height, scale) {
        Some(metrics) => metrics,
        None => {
            return Err(SurfaceError::TooLarge);
        },
    };
    match pixel_size(metrics.cell_px_w, metrics.cell_px_h, cols, rows) {
        Some(_) => Ok(metrics),
        None => Err(SurfaceError::TooLarge),
    }
}

impl Surface {
    /// The dimensions of grid and raster agree with the cell metrics, and the
    /// redraw list names no cell twice.
    pub open spec fn wf(self) -> bool {
        &&& self.grid.wf()
        &&& self.grid.width <= u16::MAX
        &&& self.grid.height <= u16::MAX
        &&& self.image.wf()
        &&& self.image.width == self.metrics.cell_px_w * self.grid.width
        &&& self.image.height == self.metrics.cell_px_h * self.grid.height
        &&& pixel_size_fits(
            self.metrics.cell_px_w as nat,
            self.metrics.cell_px_h as nat,
            self.grid.width,
            self.grid.height,
        )
        &&& self.blink.wf()
        &&& self.scale.wf()
        &&& self.metrics.matches_scale(self.scale)
        &&& self.redraw.no_duplicates()
    }

    /// A new surface: blank cells on the default background, the clock at
    /// zero, nothing to redraw, the cursor hidden in the corner.
    pub open spec fn started(
        cols: nat,
        rows: nat,
        font_size: i32,
        scale: Scale,
        metrics: CellMetrics,
    ) -> Surface {
        Surface {
            grid: Grid::blank(cols, rows),
            image: Image::filled(
                metrics.cell_px_w as nat * cols,
                metrics.cell_px_h as nat * rows,
                default_background(),
            ),
            blink: BlinkClock::new_spec(),
            redraw: Seq::empty(),
            metrics,
            scale,
            font_size,
            cursor_visible: false,
            cursor: (0, 0),
        }
    }

    /// The surface after the foreground phase of one cell with the given
    /// glyphs.
    pub open spec fn cell_text_drawn(self, col: u16, row: u16, glyphs: Seq<GlyphImage>) -> Surface {
        Surface {
            image: paint_cell_text(
                self.image,
                self.grid,
                self.metrics.cell_px_w as nat,
                self.metrics.cell_px_h as nat,
                self.blink,
                col as int,
                row as int,
                glyphs,
            ),
            redraw: note_blinking(self.redraw, self.grid, (col, row)),
            ..self
        }
    }

    /// The raster after the cells are repainted with the given glyphs.
    pub open spec fn painted(self, cells: Seq<(u16, u16)>, glyphs: Seq<Seq<GlyphImage>>) -> Image {
        paint(
            self.image,
            self.grid,
            self.metrics.cell_px_w as nat,
            self.metrics.cell_px_h as nat,
            self.blink,
            cells,
            glyphs,
        )
    }

    /// The surface after a full repaint. The redraw list is rebuilt from the
    /// cells that blink.
    pub open spec fn redrawn(self, glyphs: Seq<Seq<GlyphImage>>) -> Surface {
        let cells = all_cells(self.grid.width, self.grid.height);
        Surface {
            image: self.painted(cells, glyphs),
            redraw: note_all_blinking(Seq::empty(), self.grid, cells),
            ..self
        }
    }

    /// The surface after a draw: the changes are written, the clock ticks,
    /// and the changed cells and then the cells of the redraw list, as it was
    /// before, are repainted.
    pub open spec fn drawn(
        self,
        changes: Seq<(u16, u16, CellView)>,
        glyphs: Seq<Seq<GlyphImage>>,
    ) -> Surface {
        let cells = changed_cells(changes) + self.redraw;
        let updated = Surface {
            grid: apply_changes(self.grid, changes),
            blink: self.blink.ticked(),
            ..self
        };
        Surface {
            image: updated.painted(cells, glyphs),
            redraw: note_all_blinking(self.redraw, updated.grid, cells),
            ..updated
        }
    }

    /// The surface after a clear: every cell blank, every pixel in the default
    /// background colour.
    pub open spec fn cleared(self) -> Surface {
        Surface {
            grid: Grid::blank(self.grid.width, self.grid.height),
            image: Image::filled(self.image.width, self.image.height, default_background()),
            ..self
        }
    }

    /// The surface with a fresh, black raster for `cols` by `rows` cells of
    /// the given metrics, before it is repainted.
    pub open spec fn reallocated(self, grid: Grid, metrics: CellMetrics) -> Surface {
        Surface {
            grid,
            metrics,
            image: Image::filled(
                metrics.cell_px_w as nat * grid.width,
                metrics.cell_px_h as nat * grid.height,
                Rgb { r: 0, g: 0, b: 0 },
            ),
            ..self
        }
    }

    /// The surface after a resize to `cols` by `rows` cells.
    pub open spec fn resized(self, cols: nat, rows: nat, glyphs: Seq<Seq<GlyphImage>>) -> Surface {
        self.reallocated(self.grid.resized(cols, rows), self.metrics).redrawn(glyphs)
    }

    /// The surface after a change of font size or scale that led to
    /// `metrics`.
    pub open spec fn refitted(
        self,
        font_size: i32,
        scale: Scale,
        metrics: CellMetrics,
        glyphs: Seq<Seq<GlyphImage>>,
    ) -> Surface {
        (Surface { font_size, scale, ..self.reallocated(self.grid, metrics) }).redrawn(glyphs)
    }
}

} // verus!
