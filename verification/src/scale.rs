//! Device scale and cell metrics.

use vstd::prelude::*;

verus! {

/// A positive scale factor, held exactly as the fraction
/// `numerator / denominator`.
#[derive(Clone, Copy, Debug, PartialEq, Eq, Structural)]
pub struct Scale {
    numerator: u32,
    denominator: u32,
}

impl Scale {
    /// The numerator of the fraction.
    pub closed spec fn spec_numerator(self) -> u32 {
        self.numerator
    }

    /// The denominator of the fraction.
    pub closed spec fn spec_denominator(self) -> u32 {
        self.denominator
    }

    /// Both parts of the fraction are positive.
    pub open spec fn wf(self) -> bool {
        self.spec_numerator() > 0 && self.spec_denominator() > 0
    }

    /// `len` times the scale factor, rounded down.
    pub open spec fn apply(self, len: int) -> int {
        len * self.spec_numerator() / (self.spec_denominator() as int)
    }

    /// The scale `numerator / denominator`, or `None` unless both are
    /// positive.
    pub fn new(numerator: u32, denominator: u32) -> (out: Option<Scale>)
        ensures
            out is Some <==> numerator > 0 && denominator > 0,
            out matches Some(scale) ==> scale.wf() && scale.spec_numerator() == numerator
                && scale.spec_denominator() == denominator,
    {
        if numerator > 0 && denominator > 0 {
            Some(Scale { numerator, denominator })
        } else {
            None
        }
    }

    /// The scale factor 1.
    pub closed spec fn unit() -> Scale {
        Scale { numerator: 1, denominator: 1 }
    }

    /// The scale factor 1 is the fraction 1/1.
    pub proof fn lemma_unit()
        ensures
            Scale::unit().wf(),
            Scale::unit().spec_numerator() == 1,
            Scale::unit().spec_denominator() == 1,
    {
    }

    /// The scale factor 1.
    pub fn one() -> (out: Scale)
        ensures
            out == Scale::unit(),
            out.wf(),
            out.spec_numerator() == 1,
            out.spec_denominator() == 1,
    {
        Scale { numerator: 1, denominator: 1 }
    }

    /// The numerator of the fraction.
    #[verifier::when_used_as_spec(spec_numerator)]
    pub fn numerator(self) -> (out: u32)
        ensures
            out == self.spec_numerator(),
    {
        self.numerator
    }

    /// The denominator of the fraction.
    #[verifier::when_used_as_spec(spec_denominator)]
    pub fn denominator(self) -> (out: u32)
        ensures
            out == self.spec_denominator(),
    {
        self.denominator
    }

    /// Scales a length, rounding down. `None` when the result is not
    /// addressable.
    pub fn scaled(self, len: usize) -> (out: Option<usize>)
        requires
            self.wf(),
        ensures
            out is Some <==> self.apply(len as int) <= usize::MAX,
            out matches Some(v) ==> v == self.apply(len as int),
    {
        assert(0 <= len * self.numerator <= 0xffff_ffff_ffff_ffff * 0xffff_ffff) by (nonlinear_arith)
            requires
                0 <= len <= 0xffff_ffff_ffff_ffff,
                0 <= self.numerator <= 0xffff_ffff,
        ;
        let product: u128 = len as u128 * self.numerator as u128;
        let quotient: u128 = product / self.denominator as u128;
        if quotient <= usize::MAX as u128 {
            Some(quotient as usize)
        } else {
            None
        }
    }

    /// At a whole-number scale the scaled length is the length times the
    /// scale, exactly: at scale 2 it is double what it is at scale 1.
    pub proof fn lemma_apply_whole(self, len: int)
        requires
            self.spec_denominator() == 1,
        ensures
            self.apply(len) == len * self.spec_numerator(),
    {
    }
}

/// Numerator of the factor that shrinks the reference glyph's width to the
/// cell width.
pub const WIDTH_SHRINK_NUMERATOR: u64 = 9;

/// Denominator of the width factor.
pub const WIDTH_SHRINK_DENOMINATOR: u64 = 10;

/// Numerator of the factor that shrinks the reference glyph's height to the
/// cell height.
pub const HEIGHT_SHRINK_NUMERATOR: u64 = 17;

/// Denominator of the height factor.
pub const HEIGHT_SHRINK_DENOMINATOR: u64 = 20;

/// Cell width for a reference glyph `box_width` wide: nine tenths of it,
/// rounded down.
pub open spec fn cell_width_of(box_width: u32) -> int {
    box_width * 9 / 10
}

/// Cell height for a reference glyph `box_height` high: seventeen twentieths
/// of it, rounded down.
pub open spec fn cell_height_of(box_height: u32) -> int {
    box_height * 17 / 20
}

/// Derives the cell size from the bounding box of the reference glyph. Font
/// metrics overstate what a glyph covers, so the box is shrunk to 0.9 of its
/// width and 0.85 of its height.
pub fn cell_extent(box_width: u32, box_height: u32) -> (out: (usize, usize))
    ensures
        out.0 == cell_width_of(box_width),
        out.1 == cell_height_of(box_height),
{
    let width: u64 = box_width as u64 * WIDTH_SHRINK_NUMERATOR / WIDTH_SHRINK_DENOMINATOR;
    let height: u64 = box_height as u64 * HEIGHT_SHRINK_NUMERATOR / HEIGHT_SHRINK_DENOMINATOR;
    (width as usize, height as usize)
}

/// The size of one cell: in logical pixels, as derived from the font, and in
/// physical pixels, after scaling.
#[derive(Clone, Copy, Debug, PartialEq, Eq, Structural)]
pub struct CellMetrics {
    /// Logical width of a cell.
    pub char_width: usize,
    /// Logical height of a cell.
    pub char_height: usize,
    /// Physical width of a cell: the logical width scaled, rounded down.
    pub cell_px_w: usize,
    /// Physical height of a cell: the logical height scaled, rounded down.
    pub cell_px_h: usize,
}

impl CellMetrics {
    /// The physical size is the logical size scaled by `scale`.
    pub open spec fn matches_scale(self, scale: Scale) -> bool {
        &&& self.cell_px_w == scale.apply(self.char_width as int)
        &&& self.cell_px_h == scale.apply(self.char_height as int)
    }

    /// The metrics that follow from a reference glyph of the given size.
    pub open spec fn derived_from(self, box_width: u32, box_height: u32, scale: Scale) -> bool {
        &&& self.char_width == cell_width_of(box_width)
        &&& self.char_height == cell_height_of(box_height)
        &&& self.matches_scale(scale)
    }
}

/// Whether cells of the metrics derived from the reference glyph have an
/// addressable physical size.
pub open spec fn metrics_fit(box_width: u32, box_height: u32, scale: Scale) -> bool {
    &&& scale.apply(cell_width_of(box_width)) <= usize::MAX
    &&& scale.apply(cell_height_of(box_height)) <= usize::MAX
}

/// Derives the cell metrics from the bounding box of the reference glyph, or
/// `None` when the physical cell size is not addressable.
pub fn cell_metrics(box_width: u32, box_height: u32, scale: Scale) -> (out: Option<CellMetrics>)
    requires
        scale.wf(),
    ensures
        out is Some <==> metrics_fit(box_width, box_height, scale),
        out matches Some(metrics) ==> metrics.derived_from(box_width, box_height, scale),
{
    let (char_width, char_height) = cell_extent(box_width, box_height);
    match (scale.scaled(char_width), scale.scaled(char_height)) {
        (Some(cell_px_w), Some(cell_px_h)) => Some(
            CellMetrics { char_width, char_height, cell_px_w, cell_px_h },
        ),
        _ => None,
    }
}

/// Whether a pixel buffer for `cols` by `rows` cells of the given physical
/// size can be addressed, in RGB and in RGBA.
pub open spec fn pixel_size_fits(cell_px_w: nat, cell_px_h: nat, cols: nat, rows: nat) -> bool {
    &&& cell_px_w * cols <= usize::MAX
    &&& cell_px_h * rows <= usize::MAX
    &&& (cell_px_w * cols) * (cell_px_h * rows) * 4 <= usize::MAX
}

/// The size in pixels of a buffer for `cols` by `rows` cells, or `None` when
/// such a buffer cannot be addressed.
pub fn pixel_size(cell_px_w: usize, cell_px_h: usize, cols: u16, rows: u16) -> (out: Option<
    (usize, usize),
>)
    ensures
        out is Some <==> pixel_size_fits(
            cell_px_w as nat,
            cell_px_h as nat,
            cols as nat,
            rows as nat,
        ),
        out matches Some(size) ==> size.0 == cell_px_w * cols && size.1 == cell_px_h * rows,
{
    let width = match cell_px_w.checked_mul(cols as usize) {
        Some(width) => width,
        None => {
            return None;
        },
    };
    let height = match cell_px_h.checked_mul(rows as usize) {
        Some(height) => height,
        None => {
            return None;
        },
    };
    let area = match width.checked_mul(height) {
        Some(area) => area,
        None => {
            assert(width * height * 4 >= width * height) by (nonlinear_arith)
                requires
                    0 <= width,
                    0 <= height,
            ;
            return None;
        },
    };
    match area.checked_mul(4) {
        Some(_) => Some((width, height)),
        None => None,
    }
}

} // verus!
