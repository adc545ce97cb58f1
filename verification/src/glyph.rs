//! Rasterised glyphs and where they come from.

use crate::scale::Scale;
use vstd::prelude::*;

verus! {

/// One rasterised glyph of a shaped cell: a coverage bitmap and where it goes,
/// relative to the top left corner of the cell.
#[derive(Clone, Debug, PartialEq, Eq)]
pub struct GlyphImage {
    /// Horizontal pen position of the glyph in its line, in physical pixels.
    pub x: i32,
    /// Vertical pen position of the glyph in its line, in physical pixels.
    pub y: i32,
    /// Distance of the line's baseline from the top of the cell.
    pub line_y: i32,
    /// Offset of the bitmap's left edge from the pen position.
    pub left: i32,
    /// Height of the bitmap's top edge above the pen position.
    pub top: i32,
    /// Width of the bitmap in pixels.
    pub width: u32,
    /// Height of the bitmap in pixels.
    pub height: u32,
    /// Coverage of each pixel, row after row; 255 is full coverage.
    pub data: Vec<u8>,
}

impl GlyphImage {
    /// The bitmap holds a coverage value for each of its pixels.
    pub open spec fn usable(self) -> bool {
        self.width * self.height <= self.data@.len()
    }

    /// Column of the bitmap's left edge, counted from the cell's left edge.
    pub open spec fn origin_x(self) -> int {
        self.x + self.left
    }

    /// Row of the bitmap's top edge, counted from the cell's top edge.
    pub open spec fn origin_y(self) -> int {
        self.line_y + self.y - self.top
    }

    /// Whether the bitmap has a pixel at `(dx, dy)`, counted from the cell's
    /// top left corner.
    pub open spec fn covers(self, dx: int, dy: int) -> bool {
        &&& self.usable()
        &&& self.origin_x() <= dx < self.origin_x() + self.width
        &&& self.origin_y() <= dy < self.origin_y() + self.height
    }

    /// The coverage at `(dx, dy)`, counted from the cell's top left corner.
    pub open spec fn coverage(self, dx: int, dy: int) -> u8 {
        self.data@[(dy - self.origin_y()) * self.width + (dx - self.origin_x())]
    }

    /// No pixel of the bitmap has any coverage.
    pub open spec fn is_transparent(self) -> bool {
        forall|i: int| 0 <= i < self.data@.len() ==> self.data@[i] == 0
    }
}

/// The text engine behind the surface: it shapes a cell's text and rasterises
/// the glyphs. The surface relies on nothing about what an implementation
/// returns; every answer is composited as it comes.
pub trait GlyphSource {
    /// Measures the reference glyph, a full block, for the given font size,
    /// in logical pixels, and the given device scale. Returns the width and
    /// height of its bitmap, from which the logical size of a cell is
    /// derived, or `None` when the font has no such glyph. What the engine
    /// shapes with is left as it is.
    fn measure(&mut self, font_size: i32, scale: Scale) -> Option<(u32, u32)>;

    /// Selects what the engine shapes with from now on: the font size, in
    /// logical pixels, the device scale, and the logical size of one cell.
    fn set_metrics(&mut self, font_size: i32, scale: Scale, cell_width: usize, cell_height: usize);

    /// Shapes `text` as a single line and rasterises its glyphs.
    fn glyphs(&mut self, text: &str, bold: bool, italic: bool) -> Vec<GlyphImage>;
}

/// One call made to the text engine.
pub enum EngineCall {
    /// The reference glyph was measured.
    Measure { font_size: i32, scale: Scale },
    /// The metrics to shape with were selected.
    SetMetrics { font_size: i32, scale: Scale, cell_width: usize, cell_height: usize },
    /// A text was shaped and rasterised.
    Shape { text: Seq<char>, bold: bool, italic: bool },
}

/// A text engine together with the record of the calls made to it. Every
/// call to the engine goes through here, so the record says what the engine
/// was asked, and in what order.
pub struct TextEngine<G> {
    source: G,
    calls: Ghost<Seq<EngineCall>>,
}

impl<G: GlyphSource> TextEngine<G> {
    /// The calls made so far, oldest first.
    pub closed spec fn calls(&self) -> Seq<EngineCall> {
        self.calls@
    }

    /// Takes charge of an engine; no call has been made through the record.
    pub fn new(source: G) -> (out: TextEngine<G>)
        ensures
            out.calls() == Seq::<EngineCall>::empty(),
    {
        TextEngine { source, calls: Ghost(Seq::empty()) }
    }

    /// The engine itself.
    pub closed spec fn spec_source(&self) -> G {
        self.source
    }

    /// The engine itself.
    pub fn source(&self) -> (out: &G)
        ensures
            *out == self.spec_source(),
    {
        &self.source
    }

    /// Asks the engine to measure the reference glyph.
    pub fn measure(&mut self, font_size: i32, scale: Scale) -> (out: Option<(u32, u32)>)
        ensures
            final(self).calls() == old(self).calls().push(EngineCall::Measure { font_size, scale }),
    {
        proof {
            self.calls@ = self.calls@.push(EngineCall::Measure { font_size, scale });
        }
        self.source.measure(font_size, scale)
    }

    /// Tells the engine what to shape with.
    pub fn set_metrics(&mut self, font_size: i32, scale: Scale, cell_width: usize, cell_height: usize)
        ensures
            final(self).calls() == old(self).calls().push(
                EngineCall::SetMetrics { font_size, scale, cell_width, cell_height },
            ),
    {
        proof {
            self.calls@ = self.calls@.push(
                EngineCall::SetMetrics { font_size, scale, cell_width, cell_height },
            );
        }
        self.source.set_metrics(font_size, scale, cell_width, cell_height);
    }

    /// Asks the engine to shape and rasterise a text.
    pub fn glyphs(&mut self, text: &str, bold: bool, italic: bool) -> (out: Vec<GlyphImage>)
        ensures
            final(self).calls() == old(self).calls().push(
                EngineCall::Shape { text: text@, bold, italic },
            ),
    {
        proof {
            self.calls@ = self.calls@.push(EngineCall::Shape { text: text@, bold, italic });
        }
        self.source.glyphs(text, bold, italic)
    }
}

} // verus!
