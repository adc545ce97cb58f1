//! The pixel buffer and its mathematical model.

use crate::colors::Rgb;
use vstd::prelude::*;

verus! {

/// A raster as a value: `rows[y][x]` is the pixel in column `x` of row `y`.
pub struct Image {
    pub width: nat,
    pub height: nat,
    pub rows: Seq<Seq<Rgb>>,
}

impl Image {
    /// Every row is present and has the full width.
    pub open spec fn wf(self) -> bool {
        &&& self.rows.len() == self.height
        &&& forall|y: int| 0 <= y < self.height ==> (#[trigger] self.rows[y]).len() == self.width
    }

    /// Whether `(x, y)` names a pixel of the raster.
    pub open spec fn contains(self, x: int, y: int) -> bool {
        0 <= x < self.width && 0 <= y < self.height
    }

    /// The pixel at `(x, y)`.
    pub open spec fn pixel(self, x: int, y: int) -> Rgb {
        self.rows[y][x]
    }

    /// The raster whose pixel at `(x, y)` is `f(x, y)`.
    pub open spec fn from_fn(width: nat, height: nat, f: spec_fn(int, int) -> Rgb) -> Image {
        Image { width, height, rows: Seq::new(height, |y: int| Seq::new(width, |x: int| f(x, y))) }
    }

    /// The raster of one colour.
    pub open spec fn filled(width: nat, height: nat, color: Rgb) -> Image {
        Image::from_fn(width, height, |x: int, y: int| color)
    }

    /// All pixels have the colour `color`.
    pub open spec fn is_uniform(self, color: Rgb) -> bool {
        forall|x: int, y: int| self.contains(x, y) ==> #[trigger] self.pixel(x, y) == color
    }

    /// The raster read from packed RGB bytes, three per pixel, row after row.
    pub open spec fn from_bytes(width: nat, height: nat, bytes: Seq<u8>) -> Image {
        Image::from_fn(
            width,
            height,
            |x: int, y: int| packed_pixel(bytes, y * width + x),
        )
    }

    /// The raster with the pixel at `(x, y)` replaced; unchanged when `(x, y)`
    /// lies outside.
    pub open spec fn put(self, x: int, y: int, color: Rgb) -> Image {
        if self.contains(x, y) {
            Image { rows: self.rows.update(y, self.rows[y].update(x, color)), ..self }
        } else {
            self
        }
    }

    /// Whether `(x, y)` lies in the rectangle with corner `(left, top)` and the
    /// given extent.
    pub open spec fn in_rect(left: int, top: int, width: int, height: int, x: int, y: int) -> bool {
        left <= x < left + width && top <= y < top + height
    }

    /// The raster with the part of the rectangle that lies inside it painted
    /// in one colour.
    pub open spec fn fill_rect(self, left: int, top: int, width: int, height: int, color: Rgb) -> Image {
        Image::from_fn(
            self.width,
            self.height,
            |x: int, y: int|
                if Image::in_rect(left, top, width, height, x, y) {
                    color
                } else {
                    self.pixel(x, y)
                },
        )
    }

    /// Two well-formed rasters of one size with the same pixels are equal.
    pub proof fn lemma_ext(a: Image, b: Image)
        requires
            a.wf(),
            b.wf(),
            a.width == b.width,
            a.height == b.height,
            forall|x: int, y: int| a.contains(x, y) ==> #[trigger] a.pixel(x, y) == b.pixel(x, y),
        ensures
            a == b,
    {
        assert forall|y: int| 0 <= y < a.height implies #[trigger] a.rows[y] == b.rows[y] by {
            assert forall|x: int| 0 <= x < a.width implies a.rows[y][x] == b.rows[y][x] by {
                assert(a.pixel(x, y) == b.pixel(x, y));
            }
            assert(a.rows[y] =~= b.rows[y]);
        }
        assert(a.rows =~= b.rows);
    }

    /// Replacing a pixel changes that pixel and no other.
    pub proof fn lemma_put(self, x: int, y: int, color: Rgb)
        requires
            self.wf(),
        ensures
            self.put(x, y, color).wf(),
            self.put(x, y, color).width == self.width,
            self.put(x, y, color).height == self.height,
            forall|x2: int, y2: int|
                self.contains(x2, y2) ==> #[trigger] self.put(x, y, color).pixel(x2, y2) == if x2
                    == x && y2 == y {
                    color
                } else {
                    self.pixel(x2, y2)
                },
    {
    }
}

/// The colour held by bytes `3 * index` to `3 * index + 2` of packed RGB data.
pub open spec fn packed_pixel(bytes: Seq<u8>, index: int) -> Rgb {
    Rgb { r: bytes[3 * index], g: bytes[3 * index + 1], b: bytes[3 * index + 2] }
}

/// Whether pixel `index` of packed RGBA data repeats pixel `index` of packed
/// RGB data and is fully opaque.
pub open spec fn is_opaque_copy(rgba: Seq<u8>, rgb: Seq<u8>, index: int) -> bool {
    &&& rgba[4 * index] == rgb[3 * index]
    &&& rgba[4 * index + 1] == rgb[3 * index + 1]
    &&& rgba[4 * index + 2] == rgb[3 * index + 2]
    &&& rgba[4 * index + 3] == 255
}

/// Pixel `(x, y)` of a raster `width` wide is stored at `y * width + x`,
/// which lies below `width * height`.
pub proof fn lemma_pixel_index(width: int, height: int, x: int, y: int)
    by (nonlinear_arith)
    requires
        0 <= x < width,
        0 <= y < height,
    ensures
        0 <= y * width + x < width * height,
{
}

/// Distinct pixels are stored at distinct places.
pub proof fn lemma_pixel_index_injective(width: int, x1: int, y1: int, x2: int, y2: int)
    by (nonlinear_arith)
    requires
        0 <= x1 < width,
        0 <= x2 < width,
        0 <= y1,
        0 <= y2,
        y1 * width + x1 == y2 * width + x2,
    ensures
        x1 == x2,
        y1 == y2,
{
}

/// An RGB pixel buffer of fixed size: three bytes per pixel, rows from top to
/// bottom, pixels from left to right.
pub struct RgbPixmap {
    width: usize,
    height: usize,
    data: Vec<u8>,
}

impl View for RgbPixmap {
    type V = Image;

    open spec fn view(&self) -> Image {
        Image::from_bytes(self.spec_width() as nat, self.spec_height() as nat, self.bytes())
    }
}

impl RgbPixmap {
    /// Width in pixels.
    pub closed spec fn spec_width(&self) -> usize {
        self.width
    }

    /// Height in pixels.
    pub closed spec fn spec_height(&self) -> usize {
        self.height
    }

    /// The packed RGB bytes.
    pub closed spec fn bytes(&self) -> Seq<u8> {
        self.data@
    }

    /// The buffer holds exactly three bytes per pixel, and four bytes per
    /// pixel would still be addressable.
    pub open spec fn wf(&self) -> bool {
        &&& self.bytes().len() == self.spec_width() * self.spec_height() * 3
        &&& self.spec_width() * self.spec_height() * 4 <= usize::MAX
    }

    /// Whether a buffer of this size can be allocated and converted to RGBA.
    pub open spec fn size_fits(width: usize, height: usize) -> bool {
        width * height * 4 <= usize::MAX
    }

    /// A black buffer of the given size.
    pub fn new(width: usize, height: usize) -> (out: RgbPixmap)
        requires
            RgbPixmap::size_fits(width, height),
        ensures
            out.wf(),
            out.spec_width() == width,
            out.spec_height() == height,
            out@ == Image::filled(width as nat, height as nat, Rgb { r: 0, g: 0, b: 0 }),
    {
        assert(0 <= width * height && width * height * 3 <= width * height * 4) by (nonlinear_arith);
        let len: usize = width * height * 3;
        let out = RgbPixmap { width, height, data: vec![0u8; len] };
        proof {
            let black = Rgb { r: 0, g: 0, b: 0 };
            let target = Image::filled(width as nat, height as nat, black);
            assert forall|x: int, y: int| out@.contains(x, y) implies #[trigger] out@.pixel(x, y)
                == target.pixel(x, y) by {
                lemma_pixel_index(width as int, height as int, x, y);
            }
            Image::lemma_ext(out@, target);
        }
        out
    }

    /// Width in pixels.
    pub fn width(&self) -> (out: usize)
        ensures
            out == self.spec_width(),
    {
        self.width
    }

    /// Height in pixels.
    pub fn height(&self) -> (out: usize)
        ensures
            out == self.spec_height(),
    {
        self.height
    }

    /// The packed RGB bytes.
    pub fn data(&self) -> (out: &[u8])
        ensures
            out@ == self.bytes(),
    {
        self.data.as_slice()
    }

    /// The colour at `(x, y)`, or `None` outside the buffer.
    pub fn get_pixel(&self, x: usize, y: usize) -> (out: Option<Rgb>)
        requires
            self.wf(),
        ensures
            out == if self@.contains(x as int, y as int) {
                Some(self@.pixel(x as int, y as int))
            } else {
                None
            },
    {
        if x < self.width && y < self.height {
            proof {
                lemma_pixel_index(self.width as int, self.height as int, x as int, y as int);
            }
            let at: usize = (y * self.width + x) * 3;
            Some(Rgb { r: self.data[at], g: self.data[at + 1], b: self.data[at + 2] })
        } else {
            None
        }
    }

    /// Writes one pixel. A position outside the buffer is ignored.
    pub fn put_pixel(&mut self, x: usize, y: usize, color: Rgb)
        requires
            old(self).wf(),
        ensures
            final(self).wf(),
            final(self).spec_width() == old(self).spec_width(),
            final(self).spec_height() == old(self).spec_height(),
            final(self)@ == old(self)@.put(x as int, y as int, color),
    {
        if x < self.width && y < self.height {
            proof {
                lemma_pixel_index(self.width as int, self.height as int, x as int, y as int);
            }
            let at: usize = (y * self.width + x) * 3;
            self.data[at] = color.r;
            self.data[at + 1] = color.g;
            self.data[at + 2] = color.b;
            proof {
                let target = old(self)@.put(x as int, y as int, color);
                assert forall|px: int, py: int| self@.contains(px, py) implies #[trigger] self@.pixel(
                    px,
                    py,
                ) == target.pixel(px, py) by {
                    lemma_pixel_index(self.width as int, self.height as int, px, py);
                    if px != x || py != y {
                        if py * self.width + px == y * self.width + x {
                            lemma_pixel_index_injective(self.width as int, px, py, x as int, y as int);
                        }
                    }
                }
                Image::lemma_ext(self@, target);
            }
        }
    }

    /// Paints every pixel in one colour.
    pub fn fill(&mut self, color: Rgb)
        requires
            old(self).wf(),
        ensures
            final(self).wf(),
            final(self).spec_width() == old(self).spec_width(),
            final(self).spec_height() == old(self).spec_height(),
            final(self)@ == Image::filled(
                old(self).spec_width() as nat,
                old(self).spec_height() as nat,
                color,
            ),
    {
        let count: usize = self.width * self.height;
        let mut i: usize = 0;
        while i < count
            invariant
                i <= count,
                count == self.width * self.height,
                self.width == old(self).width,
                self.height == old(self).height,
                self.data@.len() == count * 3,
                count * 3 <= usize::MAX,
                forall|k: int| 0 <= k < i ==> #[trigger] packed_pixel(self.data@, k) == color,
            decreases count - i,
        {
            let ghost before = self.data@;
            self.data[3 * i] = color.r;
            self.data[3 * i + 1] = color.g;
            self.data[3 * i + 2] = color.b;
            proof {
                assert forall|k: int| 0 <= k < i + 1 implies #[trigger] packed_pixel(self.data@, k)
                    == color by {
                    if k < i {
                        assert(packed_pixel(before, k) == color);
                    }
                }
            }
            i += 1;
        }
        proof {
            let target = Image::filled(self.width as nat, self.height as nat, color);
            assert forall|x: int, y: int| self@.contains(x, y) implies #[trigger] self@.pixel(x, y)
                == target.pixel(x, y) by {
                lemma_pixel_index(self.width as int, self.height as int, x, y);
            }
            Image::lemma_ext(self@, target);
        }
    }

    /// The buffer as packed RGBA bytes: the three colour bytes of every pixel
    /// in order, each followed by an alpha byte of 255.
    pub fn to_rgba(&self) -> (out: Vec<u8>)
        requires
            self.wf(),
        ensures
            out@.len() == self.spec_width() * self.spec_height() * 4,
            forall|i: int|
                0 <= i < self.spec_width() * self.spec_height() ==> #[trigger] is_opaque_copy(
                    out@,
                    self.bytes(),
                    i,
                ),
    {
        let count: usize = self.width * self.height;
        let mut out: Vec<u8> = Vec::new();
        let mut i: usize = 0;
        while i < count
            invariant
                i <= count,
                count == self.width * self.height,
                self.data@.len() == count * 3,
                count * 4 <= usize::MAX,
                out@.len() == 4 * i,
                forall|k: int| 0 <= k < i ==> #[trigger] is_opaque_copy(out@, self.data@, k),
            decreases count - i,
        {
            let ghost before = out@;
            out.push(self.data[3 * i]);
            out.push(self.data[3 * i + 1]);
            out.push(self.data[3 * i + 2]);
            out.push(255);
            proof {
                assert forall|k: int| 0 <= k < i + 1 implies #[trigger] is_opaque_copy(
                    out@,
                    self.data@,
                    k,
                ) by {
                    if k < i {
                        assert(is_opaque_copy(before, self.data@, k));
                    }
                }
            }
            i += 1;
        }
        out
    }
}

/// Packed RGB data is decided by the raster it shows: byte sequences of the
/// right length that show the same raster are the same, byte for byte.
pub proof fn lemma_raster_determines_bytes(width: nat, height: nat, first: Seq<u8>, second: Seq<u8>)
    requires
        first.len() == width * height * 3,
        second.len() == width * height * 3,
        Image::from_bytes(width, height, first) == Image::from_bytes(width, height, second),
    ensures
        first == second,
{
    let w = width as int;
    let h = height as int;
    let shown = Image::from_bytes(width, height, first);
    let other = Image::from_bytes(width, height, second);
    assert forall|k: int| 0 <= k < first.len() implies first[k] == second[k] by {
        let i = k / 3;
        let c = k % 3;
        assert(0 <= i < w * h);
        assert(w > 0) by (nonlinear_arith)
            requires
                0 <= i < w * h,
                w >= 0,
        ;
        let y = i / w;
        let x = i % w;
        vstd::arithmetic::div_mod::lemma_fundamental_div_mod(i, w);
        vstd::arithmetic::div_mod::lemma_mod_pos_bound(i, w);
        assert(0 <= y < h) by (nonlinear_arith)
            requires
                0 <= i < w * h,
                i == w * y + x,
                0 <= x < w,
        ;
        assert(y * w + x == i) by (nonlinear_arith)
            requires
                i == w * y + x,
        ;
        assert(shown.contains(x, y));
        assert(shown.pixel(x, y) == packed_pixel(first, i));
        assert(other.pixel(x, y) == packed_pixel(second, i));
        assert(k == 3 * i + c);
    }
    assert(first =~= second);
}

} // verus!
