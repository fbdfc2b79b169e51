//! From the bytes of a screen capture to packed pixels, and from there to an RGBA image.

use crate::pixel::{blue, green, pack, packed, red, unpack};
use crate::raster::{fits, Rgba, RgbaImage};
use vstd::prelude::*;

verus! {

/// What to ask of the system to capture a region of the screen: a copy of the region into
/// a bitmap of the same size, read out as rows of 32-bit BGRX pixels.
#[derive(Clone, Copy, Debug, PartialEq, Eq, Structural)]
pub struct CapturePlan {
    /// The upper left corner of the region on the screen.
    pub x: i32,
    pub y: i32,
    /// The size of the bitmap.
    pub width: i32,
    pub height: i32,
    /// The height in the bitmap's header; negative asks for the topmost row first.
    pub header_height: i32,
    pub planes: u16,
    pub bit_count: u16,
    /// 0 asks for uncompressed rows.
    pub compression: u32,
    /// How many rows to read.
    pub scan_lines: u32,
    /// How many bytes the rows take.
    pub buffer_len: usize,
}

/// `plan` asks for the `width` by `height` pixels of the screen from (`x`, `y`) on.
pub open spec fn is_plan(x: i32, y: i32, width: u32, height: u32, plan: CapturePlan) -> bool {
    &&& plan.x == x
    &&& plan.y == y
    &&& plan.width == width as i32
    &&& plan.height == height as i32
    &&& plan.header_height == -plan.height
    &&& plan.planes == 1
    &&& plan.bit_count == 32
    &&& plan.compression == 0
    &&& plan.scan_lines == height
    &&& plan.buffer_len == 4 * (width * height)
}

/// Plans the capture of `width` by `height` pixels of the screen.
pub fn plan_capture(x: i32, y: i32, width: u32, height: u32) -> (plan: CapturePlan)
    requires
        width * height <= u32::MAX,
        fits(width as int, height as int),
        height != 0x8000_0000,
    ensures
        is_plan(x, y, width, height, plan),
{
    assert(0 <= width * height) by (nonlinear_arith);
    assert(height != 0x8000_0000 ==> height as i32 != i32::MIN) by (bit_vector);
    let bitmap_height: i32 = height as i32;
    let n: usize = (width * height) as usize;
    CapturePlan {
        x,
        y,
        width: width as i32,
        height: bitmap_height,
        header_height: -bitmap_height,
        planes: 1,
        bit_count: 32,
        compression: 0,
        scan_lines: height,
        buffer_len: n * 4,
    }
}

/// `pixels` are the captured bytes `raw`, four for each pixel in the order blue, green, red
/// and unused.
pub open spec fn is_capture(raw: Seq<u8>, pixels: Seq<u32>) -> bool {
    &&& pixels.len() == raw.len() / 4
    &&& forall|i: int|
        0 <= i < pixels.len() ==> #[trigger] pixels[i] == packed(
            raw[4 * i + 2],
            raw[4 * i + 1],
            raw[4 * i],
        )
}

/// Turns captured rows of blue, green, red and unused bytes into packed pixels; bytes
/// after the last whole pixel do not count.
pub fn capture_region(raw: &[u8]) -> (pixels: Vec<u32>)
    ensures
        is_capture(raw@, pixels@),
{
    let count: usize = raw.len() / 4;
    let mut pixels: Vec<u32> = Vec::new();
    let mut n: usize = 0;
    while n < count
        invariant
            n <= count,
            count == raw.len() / 4,
            pixels@.len() == n,
            forall|i: int|
                0 <= i < n ==> #[trigger] pixels@[i] == packed(
                    raw@[4 * i + 2],
                    raw@[4 * i + 1],
                    raw@[4 * i],
                ),
        decreases count - n,
    {
        let at: usize = 4 * n;
        pixels.push(pack(raw[at + 2], raw[at + 1], raw[at]));
        n = n + 1;
    }
    pixels
}

/// A packed pixel as an opaque RGBA pixel.
pub open spec fn opaque(px: u32) -> Rgba {
    (red(px), green(px), blue(px), 255)
}

/// Where column `x` of row `y` of a region with upper left corner (`rx`, `ry`) stands in
/// rows of `full_width` pixels.
pub open spec fn source_index(full_width: u32, rx: u32, ry: u32, x: int, y: int) -> int {
    (ry + y) * full_width + (rx + x)
}

/// Whether the last pixel of the region, if it has any, has an index that fits in `u32`
/// and lies among `len` pixels.
pub open spec fn region_in(len: int, full_width: u32, rx: u32, ry: u32, rw: u32, rh: u32) -> bool {
    rw > 0 && rh > 0 ==> {
        &&& rx + rw - 1 <= u32::MAX
        &&& ry + rh - 1 <= u32::MAX
        &&& source_index(full_width, rx, ry, rw - 1, rh - 1) < len
        &&& source_index(full_width, rx, ry, rw - 1, rh - 1) <= u32::MAX
    }
}

/// `img` shows the `rw` by `rh` pixels of the region, opaque.
pub open spec fn is_extract(
    pixels: Seq<u32>,
    full_width: u32,
    rx: u32,
    ry: u32,
    rw: u32,
    rh: u32,
    img: RgbaImage,
) -> bool {
    &&& img.wf()
    &&& img.width == rw
    &&& img.height == rh
    &&& forall|x: int, y: int|
        0 <= x < rw && 0 <= y < rh ==> #[trigger] img.pixel(x, y) == opaque(
            pixels[source_index(full_width, rx, ry, x, y)],
        )
}

/// Extracts a sub-region from a full-screen pixel buffer and returns it as an RGBA image.
pub fn extract_rgba(pixels: &[u32], full_width: u32, rx: u32, ry: u32, rw: u32, rh: u32) -> (img:
    RgbaImage)
    requires
        fits(rw as int, rh as int),
        region_in(pixels@.len() as int, full_width, rx, ry, rw, rh),
    ensures
        is_extract(pixels@, full_width, rx, ry, rw, rh, img),
{
    let mut img = RgbaImage::new(rw, rh);
    let mut row: u32 = 0;
    while row < rh
        invariant
            row <= rh,
            region_in(pixels@.len() as int, full_width, rx, ry, rw, rh),
            img.wf(),
            img.width == rw,
            img.height == rh,
            forall|x: int, y: int|
                0 <= x < rw && 0 <= y < row ==> #[trigger] img.pixel(x, y) == opaque(
                    pixels@[source_index(full_width, rx, ry, x, y)],
                ),
        decreases rh - row,
    {
        let mut col: u32 = 0;
        while col < rw
            invariant
                row < rh,
                col <= rw,
                region_in(pixels@.len() as int, full_width, rx, ry, rw, rh),
                img.wf(),
                img.width == rw,
                img.height == rh,
                forall|x: int, y: int|
                    0 <= x < rw && 0 <= y < row || 0 <= x < col && y == row
                        ==> #[trigger] img.pixel(x, y) == opaque(
                        pixels@[source_index(full_width, rx, ry, x, y)],
                    ),
            decreases rw - col,
        {
            proof {
                lemma_source_index_bound(full_width, rx, ry, rw, rh, col as int, row as int);
            }
            let src: usize = ((ry + row) * full_width + (rx + col)) as usize;
            let (r, g, b) = unpack(pixels[src]);
            img.put_pixel(col, row, (r, g, b, 255));
            col = col + 1;
        }
        row = row + 1;
    }
    img
}

/// Every pixel of a region that lies among `len` pixels has an index among them.
pub proof fn lemma_region_index(
    len: int,
    full_width: u32,
    rx: u32,
    ry: u32,
    rw: u32,
    rh: u32,
    x: int,
    y: int,
)
    requires
        region_in(len, full_width, rx, ry, rw, rh),
        0 <= x < rw,
        0 <= y < rh,
    ensures
        0 <= source_index(full_width, rx, ry, x, y) < len,
{
    lemma_source_index_bound(full_width, rx, ry, rw, rh, x, y);
}

/// No pixel of a region has a greater index than its last one.
proof fn lemma_source_index_bound(
    full_width: u32,
    rx: u32,
    ry: u32,
    rw: u32,
    rh: u32,
    x: int,
    y: int,
)
    requires
        0 <= x < rw,
        0 <= y < rh,
    ensures
        0 <= (ry + y) * full_width,
        0 <= source_index(full_width, rx, ry, x, y) <= source_index(
            full_width,
            rx,
            ry,
            rw - 1,
            rh - 1,
        ),
{
    assert(0 <= (ry + y) * full_width <= (ry + rh - 1) * full_width) by (nonlinear_arith)
        requires
            0 <= y <= rh - 1,
            0 <= ry,
            0 <= full_width,
    ;
}

} // verus!
