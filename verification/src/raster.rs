//! RGBA images: four bytes a pixel, row by row from the top.

use vstd::prelude::*;

verus! {

/// Red, green, blue and alpha of one image pixel.
pub type Rgba = (u8, u8, u8, u8);

/// An image of `width` by `height` pixels. `data` holds the red, green, blue and
/// alpha byte of each pixel, row by row.
#[derive(Debug)]
pub struct RgbaImage {
    pub width: u32,
    pub height: u32,
    pub data: Vec<u8>,
}

/// Where the first byte of pixel (`x`, `y`) stands in the data of an image `width` wide.
pub open spec fn offset(width: int, x: int, y: int) -> int {
    4 * (y * width + x)
}

/// The four bytes of `data` that begin at `at`, as one pixel.
pub open spec fn rgba_at(data: Seq<u8>, at: int) -> Rgba {
    (data[at], data[at + 1], data[at + 2], data[at + 3])
}

/// Whether an image of these dimensions fits in one allocation.
pub open spec fn fits(width: int, height: int) -> bool {
    4 * (width * height) <= isize::MAX
}

impl RgbaImage {
    /// The data has four bytes for each pixel, and no more.
    pub open spec fn wf(self) -> bool {
        self.data@.len() == 4 * (self.width * self.height)
    }

    /// Whether (`x`, `y`) lies in the image.
    pub open spec fn contains(self, x: int, y: int) -> bool {
        0 <= x < self.width && 0 <= y < self.height
    }

    /// The pixel in column `x` of row `y`.
    pub open spec fn pixel(self, x: int, y: int) -> Rgba {
        rgba_at(self.data@, offset(self.width as int, x, y))
    }

    /// `self` is an image of the given dimensions whose pixels are all zero.
    pub open spec fn is_new(self, width: u32, height: u32) -> bool {
        &&& self.wf()
        &&& self.width == width
        &&& self.height == height
        &&& forall|x: int, y: int|
            self.contains(x, y) ==> #[trigger] self.pixel(x, y) == (0u8, 0u8, 0u8, 0u8)
    }

    /// `self` is `before` with the pixel in column `x` of row `y` set to `px`.
    pub open spec fn put_from(self, before: RgbaImage, x: u32, y: u32, px: Rgba) -> bool {
        &&& self.wf()
        &&& self.width == before.width
        &&& self.height == before.height
        &&& forall|i: int, j: int|
            before.contains(i, j) ==> #[trigger] self.pixel(i, j) == if i == x && j == y {
                px
            } else {
                before.pixel(i, j)
            }
    }

    /// An image whose pixels are all zero.
    pub fn new(width: u32, height: u32) -> (img: RgbaImage)
        requires
            fits(width as int, height as int),
        ensures
            img.is_new(width, height),
    {
        proof {
            lemma_area(width as int, height as int);
        }
        let size: usize = width as usize * height as usize * 4;
        let img = RgbaImage { width, height, data: vec![0u8; size] };
        proof {
            assert forall|x: int, y: int| img.contains(x, y) implies #[trigger] img.pixel(x, y) == (
            0u8, 0u8, 0u8, 0u8) by {
                lemma_offset_in_range(width as int, height as int, x, y);
            }
        }
        img
    }

    /// The pixel in column `x` of row `y`.
    pub fn get_pixel(&self, x: u32, y: u32) -> (px: Rgba)
        requires
            self.wf(),
            x < self.width,
            y < self.height,
        ensures
            px == self.pixel(x as int, y as int),
    {
        let at: usize = self.offset_of(x, y);
        (self.data[at], self.data[at + 1], self.data[at + 2], self.data[at + 3])
    }

    /// Sets the pixel in column `x` of row `y`.
    pub fn put_pixel(&mut self, x: u32, y: u32, px: Rgba)
        requires
            old(self).wf(),
            x < old(self).width,
            y < old(self).height,
        ensures
            final(self).put_from(*old(self), x, y, px),
    {
        let at: usize = self.offset_of(x, y);
        self.data.set(at, px.0);
        self.data.set(at + 1, px.1);
        self.data.set(at + 2, px.2);
        self.data.set(at + 3, px.3);
        proof {
            let w = old(self).width as int;
            let h = old(self).height as int;
            assert forall|i: int, j: int| old(self).contains(i, j) implies #[trigger] self.pixel(
                i,
                j,
            ) == if i == x && j == y {
                px
            } else {
                old(self).pixel(i, j)
            } by {
                lemma_offset_in_range(w, h, i, j);
                if i != x || j != y {
                    lemma_offsets_apart(w, i, j, x as int, y as int);
                }
            }
        }
    }

    fn offset_of(&self, x: u32, y: u32) -> (at: usize)
        requires
            self.wf(),
            x < self.width,
            y < self.height,
        ensures
            at == offset(self.width as int, x as int, y as int),
            at + 4 <= self.data@.len(),
    {
        let len: usize = self.data.len();
        proof {
            lemma_offset_in_range(self.width as int, self.height as int, x as int, y as int);
            assert(0 <= y * self.width) by (nonlinear_arith);
        }
        (y as usize * self.width as usize + x as usize) * 4
    }
}

/// The four bytes of a pixel lie in the data.
pub proof fn lemma_offset_in_range(width: int, height: int, x: int, y: int)
    requires
        0 <= x < width,
        0 <= y < height,
    ensures
        0 <= offset(width, x, y),
        offset(width, x, y) + 4 <= 4 * (width * height),
{
    assert(0 <= y * width && y * width + x + 1 <= width * height) by (nonlinear_arith)
        requires
            0 <= x < width,
            0 <= y < height,
    ;
}

/// Two pixels share no byte.
pub proof fn lemma_offsets_apart(width: int, x1: int, y1: int, x2: int, y2: int)
    requires
        0 <= x1 < width,
        0 <= x2 < width,
        x1 != x2 || y1 != y2,
    ensures
        offset(width, x1, y1) + 4 <= offset(width, x2, y2) || offset(width, x2, y2) + 4 <= offset(
            width,
            x1,
            y1,
        ),
{
    if y1 < y2 {
        assert(y1 * width + width <= y2 * width) by (nonlinear_arith)
            requires
                y1 < y2,
                0 < width,
        ;
    } else if y2 < y1 {
        assert(y2 * width + width <= y1 * width) by (nonlinear_arith)
            requires
                y2 < y1,
                0 < width,
        ;
    }
}

/// The number of pixels is not negative.
proof fn lemma_area(width: int, height: int)
    requires
        0 <= width,
        0 <= height,
    ensures
        0 <= width * height,
{
    assert(0 <= width * height) by (nonlinear_arith)
        requires
            0 <= width,
            0 <= height,
    ;
}

} // verus!
