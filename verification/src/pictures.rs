//! What becomes of pictures, byte by byte: where each byte of a capture, a snippet, a prepared
//! snippet, a bitmap and the tray icon comes from.

use crate::brightness::law_scale_factor_is_least;
use crate::capture::{is_capture, is_extract, is_plan, region_in, source_index, CapturePlan};
use crate::ocr::{
    enlargement_fits, inverted, is_bitmap_of, is_engine_for, is_enlarged, is_prepared, is_request,
    is_some_pixel, is_toned, min_side, nearest_resize, scale_factor, swapped, BitmapData, Engine,
    OcrRequest,
};
use crate::overlay::is_screenshot;
use crate::pixel::{blue, dimmed, green, packed, red};
use crate::raster::{lemma_offset_in_range, offset, rgba_at, Rgba, RgbaImage};
use crate::tray::is_icon;
use vstd::prelude::*;

verus! {

/// The channels of a packed pixel are the digits to the base 256 of its lower three bytes, red
/// first.
pub proof fn law_channels_are_digits(px: u32)
    ensures
        red(px) * 65536 + green(px) * 256 + blue(px) == px % 16777216,
{
}

/// A pixel that is packed from three channels has them as its digits to the base 256.
pub proof fn law_packed_digits(r: u8, g: u8, b: u8)
    ensures
        packed(r, g, b) / 65536 == r,
        packed(r, g, b) / 256 % 256 == g,
        packed(r, g, b) % 256 == b,
{
}

/// Dimming gives a pixel whose digits to the base 256 are half those of the lower three bytes.
pub proof fn law_dimmed_digits(px: u32)
    ensures
        dimmed(px) / 65536 == px / 65536 % 256 / 2,
        dimmed(px) / 256 % 256 == px / 256 % 256 / 2,
        dimmed(px) % 256 == px % 256 / 2,
{
}

/// The pixels of an image stand row by row from the top, each row from the left, with the bytes
/// of red, green, blue and alpha in this order.
pub proof fn law_pixels_stand_row_by_row(img: RgbaImage, x: int, y: int)
    requires
        0 <= x < img.width,
        0 <= y < img.height,
    ensures
        img.contains(x, y),
        img.pixel(x, y).0 == img.data@[4 * (y * img.width + x)],
        img.pixel(x, y).1 == img.data@[4 * (y * img.width + x) + 1],
        img.pixel(x, y).2 == img.data@[4 * (y * img.width + x) + 2],
        img.pixel(x, y).3 == img.data@[4 * (y * img.width + x) + 3],
        img.wf() ==> 4 * (y * img.width + x) + 3 < img.data@.len(),
{
    lemma_offset_in_range(img.width as int, img.height as int, x, y);
}

/// The column and row of the pixel to which byte `i` of an image belongs.
proof fn lemma_place_of_byte(w: int, h: int, i: int) -> (r: (int, int))
    requires
        0 <= w,
        0 <= h,
        0 <= i < 4 * (w * h),
    ensures
        0 <= r.0 < w,
        0 <= r.1 < h,
        r.1 * w + r.0 == i / 4,
        offset(w, r.0, r.1) == i - i % 4,
{
    let n = i / 4;
    assert(w > 0) by (nonlinear_arith)
        requires
            0 <= n < w * h,
            0 <= w,
    ;
    assert(0 <= n % w < w && 0 <= n / w < h && (n / w) * w + n % w == n) by (nonlinear_arith)
        requires
            w > 0,
            0 <= n < w * h,
    ;
    (n % w, n / w)
}

/// A new image has four zero bytes for each pixel.
pub proof fn law_new_image_is_zero(img: RgbaImage, width: u32, height: u32, i: int)
    requires
        img.is_new(width, height),
    ensures
        img.width == width,
        img.height == height,
        img.data@.len() == 4 * (width * height),
        0 <= i < img.data@.len() ==> img.data@[i] == 0,
{
    if 0 <= i < img.data@.len() {
        let (x, y) = lemma_place_of_byte(width as int, height as int, i);
        assert(img.contains(x, y));
        assert(img.pixel(x, y) == (0u8, 0u8, 0u8, 0u8));
    }
}

/// Setting a pixel sets its four bytes and no other.
pub proof fn law_put_pixel_sets_four_bytes(
    before: RgbaImage,
    x: u32,
    y: u32,
    px: Rgba,
    after: RgbaImage,
    i: int,
)
    requires
        before.data@.len() == 4 * (before.width * before.height),
        x < before.width,
        y < before.height,
        after.put_from(before, x, y, px),
        0 <= i < before.data@.len(),
    ensures
        after.width == before.width,
        after.height == before.height,
        after.data@.len() == before.data@.len(),
        after.data@[i] == if i / 4 != y * before.width + x {
            before.data@[i]
        } else if i % 4 == 0 {
            px.0
        } else if i % 4 == 1 {
            px.1
        } else if i % 4 == 2 {
            px.2
        } else {
            px.3
        },
{
    let (u, v) = lemma_place_of_byte(before.width as int, before.height as int, i);
    assert(before.contains(u, v));
    assert(after.pixel(u, v) == if u == x && v == y {
        px
    } else {
        before.pixel(u, v)
    });
    if u != x || v != y {
        crate::raster::lemma_offsets_apart(before.width as int, u, v, x as int, y as int);
    }
}

/// A plan asks for the region itself, uncompressed and with its topmost row first, and for as
/// many bytes as its rows have at the asked number of bits.
pub proof fn law_plan_asks_for_the_region(
    x: i32,
    y: i32,
    width: u32,
    height: u32,
    plan: CapturePlan,
)
    requires
        is_plan(x, y, width, height, plan),
        width <= i32::MAX,
        height <= i32::MAX,
    ensures
        plan.x == x,
        plan.y == y,
        plan.width == width,
        plan.height == height,
        plan.header_height + height == 0,
        plan.scan_lines == height,
        plan.planes * plan.bit_count == 32,
        plan.planes == 1,
        plan.compression == 0,
        8 * plan.buffer_len == 32 * (plan.width * plan.scan_lines),
{
}

/// There is one captured pixel for every four bytes.
pub proof fn law_capture_takes_whole_pixels(raw: Seq<u8>, pixels: Seq<u32>)
    requires
        is_capture(raw, pixels),
    ensures
        4 * pixels.len() <= raw.len() < 4 * pixels.len() + 4,
{
}

/// A captured pixel has the third of its four bytes as red, the second as green and the first as
/// blue, whatever the fourth one is.
pub proof fn law_captured_channels(raw: Seq<u8>, pixels: Seq<u32>, i: int)
    requires
        is_capture(raw, pixels),
        0 <= i,
        4 * i + 3 < raw.len(),
    ensures
        i < pixels.len(),
        pixels[i] / 65536 == raw[4 * i + 2],
        pixels[i] / 256 % 256 == raw[4 * i + 1],
        pixels[i] % 256 == raw[4 * i],
{
    law_packed_digits(raw[4 * i + 2], raw[4 * i + 1], raw[4 * i]);
}

/// A screenshot has a positive size and one pixel for each place, as many as `u32` and memory
/// hold.
pub proof fn law_screenshot_covers_its_size(pixels: Seq<u32>, width: u32, height: u32)
    ensures
        is_screenshot(pixels, width, height) <==> {
            &&& 0 < width
            &&& 0 < height
            &&& pixels.len() == width * height
            &&& pixels.len() <= 0xFFFF_FFFF
            &&& 4 * pixels.len() <= isize::MAX
        },
{
}

/// Any region of a screen, however wide and high, can be cut out of its pixels.
pub proof fn law_region_of_screen_can_be_cut(
    width: u32,
    height: u32,
    rx: u32,
    ry: u32,
    rw: u32,
    rh: u32,
)
    requires
        rx + rw <= width,
        ry + rh <= height,
        width * height <= 0xFFFF_FFFF,
    ensures
        region_in(width * height, width, rx, ry, rw, rh),
{
    if rw > 0 && rh > 0 {
        let last = ry + rh - 1;
        assert(last * width + width <= width * height) by (nonlinear_arith)
            requires
                0 <= last,
                last + 1 <= height,
                0 <= width,
        ;
        assert(ry + (rh - 1) == last);
    }
}

/// A snippet has the size of the region, and its pixel in column `x` of row `y` is opaque and has
/// the colour of the screen `x` columns right of and `y` rows below the corner of the region.
pub proof fn law_snippet_shows_its_place(
    pixels: Seq<u32>,
    full_width: u32,
    rx: u32,
    ry: u32,
    rw: u32,
    rh: u32,
    img: RgbaImage,
    x: int,
    y: int,
)
    requires
        is_extract(pixels, full_width, rx, ry, rw, rh, img),
    ensures
        img.width == rw,
        img.height == rh,
        img.data@.len() == 4 * (rw * rh),
        0 <= x < rw && 0 <= y < rh ==> {
            let px = pixels[(ry + y) * full_width + (rx + x)];
            let at = 4 * (y * rw + x);
            &&& img.data@[at] == px / 65536 % 256
            &&& img.data@[at + 1] == px / 256 % 256
            &&& img.data@[at + 2] == px % 256
            &&& img.data@[at + 3] == 255
        },
{
    if 0 <= x < rw && 0 <= y < rh {
        assert(source_index(full_width, rx, ry, x, y) == (ry + y) * full_width + (rx + x));
        assert(img.pixel(x, y).3 == 255);
    }
}

/// Where the pixel in column `c` of row `r` of a screen is `f(c, r)`, the pixel in column `x` of
/// row `y` of a snippet shows `f(rx + x, ry + y)`.
pub proof fn law_snippet_is_a_window_on_the_screen(
    screen: spec_fn(int, int) -> u32,
    pixels: Seq<u32>,
    width: u32,
    height: u32,
    rx: u32,
    ry: u32,
    rw: u32,
    rh: u32,
    img: RgbaImage,
    x: int,
    y: int,
)
    requires
        pixels.len() == width * height,
        forall|i: int|
            0 <= i < pixels.len() ==> #[trigger] pixels[i] == screen(
                i % width as int,
                i / width as int,
            ),
        rx + rw <= width,
        ry + rh <= height,
        is_extract(pixels, width, rx, ry, rw, rh, img),
        0 <= x < rw,
        0 <= y < rh,
    ensures
        ({
            let px = screen(rx + x, ry + y);
            let at = 4 * (y * rw + x);
            &&& img.data@[at] == px / 65536 % 256
            &&& img.data@[at + 1] == px / 256 % 256
            &&& img.data@[at + 2] == px % 256
            &&& img.data@[at + 3] == 255
        }),
{
    let c = rx + x;
    let r = ry + y;
    lemma_index(width as int, height as int, c, r);
    law_snippet_shows_its_place(pixels, width, rx, ry, rw, rh, img, x, y);
    assert(pixels[r * width + c] == screen(c, r));
}

/// The index of a place in rows of `w` pixels gives its column and row back.
pub proof fn lemma_index(w: int, h: int, x: int, y: int)
    requires
        0 <= x < w,
        0 <= y < h,
    ensures
        0 <= y * w + x < w * h,
        (y * w + x) % w == x,
        (y * w + x) / w == y,
{
    assert(0 <= y * w && y * w + x < w * h) by (nonlinear_arith)
        requires
            0 <= x < w,
            0 <= y < h,
    ;
    assert((y * w + x) / w == y && (y * w + x) % w == x) by (nonlinear_arith)
        requires
            0 <= x < w,
            0 <= y,
    ;
}

/// A factor that brings both sides to 200, where no lesser one does, is the scale factor.
proof fn lemma_least_factor(w: int, h: int, k: int)
    requires
        0 < w,
        0 < h,
        1 <= k,
        w * k >= 200,
        h * k >= 200,
        1 < k ==> w * (k - 1) < 200 || h * (k - 1) < 200,
    ensures
        k == scale_factor(w, h),
        k == 1 <==> min_side(w, h) >= 200,
{
    lemma_scale_factor(w, h);
    let s = scale_factor(w, h);
    if k < s {
        assert(w * k <= w * (s - 1) && h * k <= h * (s - 1)) by (nonlinear_arith)
            requires
                0 < w,
                0 < h,
                k <= s - 1,
        ;
    } else if s < k {
        assert(w * s <= w * (k - 1) && h * s <= h * (k - 1)) by (nonlinear_arith)
            requires
                0 < w,
                0 < h,
                s <= k - 1,
        ;
    }
    assert(w * 1 == w && h * 1 == h);
}

/// The scale factor is the least whole number by which both sides reach 200.
proof fn lemma_scale_factor(w: int, h: int)
    requires
        0 < w,
        0 < h,
    ensures
        ({
            let k = scale_factor(w, h);
            &&& 1 <= k
            &&& w * k >= 200
            &&& h * k >= 200
            &&& 1 < k ==> w * (k - 1) < 200 || h * (k - 1) < 200
            &&& 1 < k <==> w < 200 || h < 200
        }),
{
    let k = scale_factor(w, h);
    let m = min_side(w, h);
    law_scale_factor_is_least(w, h);
    assert(w * k >= m * k && h * k >= m * k) by (nonlinear_arith)
        requires
            w >= m,
            h >= m,
            k >= 1,
    ;
    if 1 < k {
        assert(m * (k - 1) < 200);
    } else {
        assert(w * 1 == w && h * 1 == h);
    }
}

/// An image is enlarged by the least whole factor that brings both its width and its height to at
/// least 200 pixels, which is 1 if and only if they have as many already.
pub proof fn law_factor_is_least_for_both_sides(img: RgbaImage, out: RgbaImage)
    requires
        0 < img.width,
        0 < img.height,
        is_enlarged(img, out),
    ensures
        ({
            let k = out.width as int / img.width as int;
            &&& 1 <= k
            &&& out.width == img.width * k
            &&& out.height == img.height * k
            &&& img.width * k >= 200
            &&& img.height * k >= 200
            &&& 1 < k ==> img.width * (k - 1) < 200 || img.height * (k - 1) < 200
            &&& k == 1 <==> 200 <= img.width && 200 <= img.height
        }),
        forall|j: int|
            1 <= j && 200 <= #[trigger] (img.width * j) && 200 <= img.height * j ==> out.width
                <= img.width * j && out.height <= img.height * j,
        out.data@.len() == 4 * (out.width * out.height),
{
    let w = img.width as int;
    let h = img.height as int;
    let k = scale_factor(w, h);
    lemma_scale_factor(w, h);
    assert((w * k) / w == k) by (nonlinear_arith)
        requires
            0 < w,
    ;
    assert forall|j: int|
        1 <= j && 200 <= #[trigger] (img.width * j) && 200 <= img.height * j implies out.width
        <= img.width * j && out.height <= img.height * j by {
        if j < k {
            assert(w * j <= w * (k - 1) && h * j <= h * (k - 1)) by (nonlinear_arith)
                requires
                    0 < w,
                    0 < h,
                    j <= k - 1,
            ;
        }
        assert(w * k <= w * j && h * k <= h * j) by (nonlinear_arith)
            requires
                0 < w,
                0 < h,
                k <= j,
        ;
    }
}

/// An enlarged image whose sides have at most 0x200000 pixels shows each pixel as a square block
/// of pixels with the same four bytes.
pub proof fn law_enlarged_bytes(img: RgbaImage, out: RgbaImage, x: int, y: int, c: int)
    requires
        0 < img.width,
        0 < img.height,
        is_enlarged(img, out),
        out.width <= 0x200000 && out.height <= 0x200000 || out.width == img.width,
        0 <= x < out.width,
        0 <= y < out.height,
        0 <= c < 4,
    ensures
        ({
            let k = out.width as int / img.width as int;
            &&& 0 <= x / k < img.width
            &&& 0 <= y / k < img.height
            &&& out.data@[4 * (y * out.width + x) + c] == img.data@[4 * ((y / k) * img.width + x
                / k) + c]
        }),
{
    let w = img.width as int;
    let h = img.height as int;
    let k = scale_factor(w, h);
    law_factor_is_least_for_both_sides(img, out);
    lemma_least_factor(w, h, out.width as int / w);
    if out.width == img.width {
        assert(k == 1) by (nonlinear_arith)
            requires
                w == w * k,
                0 < w,
        ;
    }
    crate::brightness::lemma_quotient(x, k, w);
    crate::brightness::lemma_quotient(y, k, h);
    assert(out.contains(x, y));
    assert(out.pixel(x, y) == img.pixel(x / k, y / k));
}

/// Every pixel of an enlarged image, whatever its size, has the four bytes of some pixel of the
/// image.
pub proof fn law_enlarged_draws_from_the_image(
    img: RgbaImage,
    out: RgbaImage,
    x: int,
    y: int,
) -> (r: (int, int))
    requires
        0 < img.width,
        0 < img.height,
        is_enlarged(img, out),
        0 <= x < out.width,
        0 <= y < out.height,
    ensures
        0 <= r.0 < img.width,
        0 <= r.1 < img.height,
        forall|c: int|
            0 <= c < 4 ==> #[trigger] out.data@[4 * (y * out.width + x) + c] == img.data@[4 * (r.1
                * img.width + r.0) + c],
{
    let w = img.width as int;
    let h = img.height as int;
    let px = rgba_at(out.data@, offset(out.width as int, x, y));
    assert(is_some_pixel(img.data@, w, h, px));
    let (u, v) = choose|u: int, v: int|
        0 <= u < w && 0 <= v < h && px == #[trigger] rgba_at(img.data@, offset(w, u, v));
    assert forall|c: int| 0 <= c < 4 implies #[trigger] out.data@[4 * (y * out.width + x) + c]
        == img.data@[4 * (v * img.width + u) + c] by {
        assert(c == 0 || c == 1 || c == 2 || c == 3);
    }
    (u, v)
}

/// An image with a side of less than 200 pixels, whatever the size it gets, is enlarged by
/// nearest-neighbour resizing of all its bytes.
pub proof fn law_small_image_is_resized(img: RgbaImage, out: RgbaImage)
    requires
        0 < img.width,
        0 < img.height,
        img.width < 200 || img.height < 200,
        is_enlarged(img, out),
    ensures
        out.data@ == nearest_resize(img.data@, img.width, img.height, out.width, out.height),
{
    let w = img.width as int;
    let h = img.height as int;
    law_factor_is_least_for_both_sides(img, out);
    lemma_least_factor(w, h, out.width as int / w);
}

/// An image that needs no enlarging keeps its bytes.
pub proof fn law_large_image_stays(img: RgbaImage, out: RgbaImage)
    requires
        200 <= img.width,
        200 <= img.height,
        is_enlarged(img, out),
    ensures
        out.width == img.width,
        out.height == img.height,
        out.data@ == img.data@,
{
    let w = img.width as int;
    let h = img.height as int;
    lemma_scale_factor(w, h);
    assert(w * 1 == w && h * 1 == h);
    lemma_least_factor(w, h, 1);
}

/// An image of any size can be enlarged, as long as the enlarged image and an intermediate one
/// with 16 bytes for each of its pixels can be held.
pub proof fn law_enlarging_needs_room(width: u32, height: u32, k: int)
    requires
        0 < width,
        0 < height,
        1 <= k,
        width * k >= 200,
        height * k >= 200,
        1 < k ==> width * (k - 1) < 200 || height * (k - 1) < 200,
    ensures
        enlargement_fits(width as int, height as int) <==> k == 1 || {
            &&& width * k <= 0xFFFF_FFFF
            &&& height * k <= 0xFFFF_FFFF
            &&& 16 * (width * (height * k)) <= isize::MAX
            &&& 4 * ((width * k) * (height * k)) <= isize::MAX
        },
{
    lemma_least_factor(width as int, height as int, k);
}

/// Toning inverts every byte but alpha of a dark image, and no byte of another one.
pub proof fn law_toned_bytes(img: RgbaImage, dark: bool, out: RgbaImage, i: int)
    requires
        img.data@.len() == 4 * (img.width * img.height),
        is_toned(img, dark, out),
    ensures
        out.width == img.width,
        out.height == img.height,
        out.data@.len() == img.data@.len(),
        0 <= i < img.data@.len() ==> out.data@[i] == if dark && i % 4 != 3 {
            255 - img.data@[i]
        } else {
            img.data@[i] as int
        },
{
    if 0 <= i < img.data@.len() {
        let (x, y) = lemma_place_of_byte(img.width as int, img.height as int, i);
        assert(img.contains(x, y));
        assert(out.pixel(x, y) == if dark {
            inverted(img.pixel(x, y))
        } else {
            img.pixel(x, y)
        });
    }
}

/// A prepared picture is the enlarged image, inverted byte by byte where that very image was
/// judged dark.
pub proof fn law_prepared_bytes<F: Fn(&RgbaImage) -> bool>(
    img: RgbaImage,
    is_dark: F,
    out: RgbaImage,
) -> (r: (RgbaImage, bool))
    requires
        0 < img.width,
        0 < img.height,
        is_prepared(img, is_dark, out),
    ensures
        is_enlarged(img, r.0),
        call_ensures(is_dark, (&r.0,), r.1),
        out.width == r.0.width,
        out.height == r.0.height,
        out.data@.len() == r.0.data@.len(),
        forall|i: int|
            0 <= i < out.data@.len() ==> #[trigger] out.data@[i] == if r.1 && i % 4 != 3 {
                255 - r.0.data@[i]
            } else {
                r.0.data@[i] as int
            },
{
    let (enlarged, dark) = choose|enlarged: RgbaImage, dark: bool| #[trigger]
        call_ensures(is_dark, (&enlarged,), dark) && is_enlarged(img, enlarged) && is_toned(
            enlarged,
            dark,
            out,
        );
    law_factor_is_least_for_both_sides(img, enlarged);
    law_toned_bytes(enlarged, dark, out, 0);
    assert forall|i: int| 0 <= i < out.data@.len() implies #[trigger] out.data@[i] == if dark && i
        % 4 != 3 {
        255 - enlarged.data@[i]
    } else {
        enlarged.data@[i] as int
    } by {
        law_toned_bytes(enlarged, dark, out, i);
    }
    (enlarged, dark)
}

/// A bitmap has the size of the image, and of each four bytes the first and the third exchanged.
pub proof fn law_bitmap_bytes(img: RgbaImage, bitmap: BitmapData, i: int)
    requires
        img.data@.len() == 4 * (img.width * img.height),
        is_bitmap_of(img, bitmap),
    ensures
        img.width <= i32::MAX ==> bitmap.width == img.width,
        img.height <= i32::MAX ==> bitmap.height == img.height,
        bitmap.bgra@.len() == img.data@.len(),
        0 <= i < img.data@.len() ==> bitmap.bgra@[i] == if i % 4 == 0 {
            img.data@[i + 2]
        } else if i % 4 == 2 {
            img.data@[i - 2]
        } else {
            img.data@[i]
        },
{
    if 0 <= i < img.data@.len() {
        let (x, y) = lemma_place_of_byte(img.width as int, img.height as int, i);
        assert(img.contains(x, y));
        assert(rgba_at(bitmap.bgra@, offset(img.width as int, x, y)) == swapped(img.pixel(x, y)));
    }
}

/// An empty tag asks for the languages of the user's profile, any other one for its language.
pub proof fn law_engine_follows_the_tag(tag: Seq<char>, engine: Engine)
    requires
        is_engine_for(tag, engine),
    ensures
        tag.len() == 0 ==> engine is UserProfileLanguages,
        tag.len() > 0 ==> (engine matches Engine::Language(own) && own@ == tag),
{
}

/// A request holds the enlarged snippet in the order of the recogniser, with its colours inverted
/// where the enlarged snippet was judged dark, and the recogniser of the language.
pub proof fn law_request_holds_the_snippet<F: Fn(&RgbaImage) -> bool>(
    img: RgbaImage,
    tag: Seq<char>,
    is_dark: F,
    request: OcrRequest,
) -> (r: (RgbaImage, bool))
    requires
        0 < img.width,
        0 < img.height,
        is_request(img, tag, is_dark, request),
    ensures
        is_enlarged(img, r.0),
        call_ensures(is_dark, (&r.0,), r.1),
        r.0.width <= i32::MAX ==> request.bitmap.width == r.0.width,
        r.0.height <= i32::MAX ==> request.bitmap.height == r.0.height,
        request.bitmap.bgra@.len() == r.0.data@.len(),
        forall|n: int|
            0 <= n < r.0.data@.len() ==> #[trigger] request.bitmap.bgra@[n] == if n % 4 == 3 {
                r.0.data@[n] as int
            } else {
                let source = r.0.data@[if n % 4 == 0 {
                    n + 2
                } else if n % 4 == 2 {
                    n - 2
                } else {
                    n
                }];
                if r.1 {
                    255 - source
                } else {
                    source as int
                }
            },
        tag.len() == 0 ==> request.engine is UserProfileLanguages,
        tag.len() > 0 ==> (request.engine matches Engine::Language(own) && own@ == tag),
{
    let prepared = choose|prepared: RgbaImage| #[trigger]
        is_prepared(img, is_dark, prepared) && is_bitmap_of(prepared, request.bitmap);
    let (enlarged, dark) = law_prepared_bytes(img, is_dark, prepared);
    law_factor_is_least_for_both_sides(img, enlarged);
    let d = prepared.data@;
    law_bitmap_bytes(prepared, request.bitmap, 0);
    assert forall|n: int| 0 <= n < enlarged.data@.len() implies #[trigger] request.bitmap.bgra@[n]
        == if n % 4 == 3 {
        enlarged.data@[n] as int
    } else {
        let source = enlarged.data@[if n % 4 == 0 {
            n + 2
        } else if n % 4 == 2 {
            n - 2
        } else {
            n
        }];
        if dark {
            255 - source
        } else {
            source as int
        }
    } by {
        law_bitmap_bytes(prepared, request.bitmap, n);
        if n % 4 == 0 {
            assert(d[n + 2] == if dark {
                255 - enlarged.data@[n + 2]
            } else {
                enlarged.data@[n + 2] as int
            });
        } else if n % 4 == 2 {
            assert(d[n - 2] == if dark {
                255 - enlarged.data@[n - 2]
            } else {
                enlarged.data@[n - 2] as int
            });
        } else {
            assert(d[n] == if dark && n % 4 != 3 {
                255 - enlarged.data@[n]
            } else {
                enlarged.data@[n] as int
            });
        }
    }
    law_engine_follows_the_tag(tag, request.engine);
    (enlarged, dark)
}

/// The tray icon has 32 by 32 pixels, each with the same four bytes.
pub proof fn law_icon_bytes(icon: RgbaImage, i: int)
    requires
        is_icon(icon),
    ensures
        icon.width == 32,
        icon.height == 32,
        icon.data@.len() == 4096,
        0 <= i < 4096 ==> icon.data@[i] == if i % 4 == 0 {
            32u8
        } else if i % 4 == 1 {
            178u8
        } else if i % 4 == 2 {
            170u8
        } else {
            255u8
        },
{
    if 0 <= i < 4096 {
        let (x, y) = lemma_place_of_byte(32, 32, i);
        assert(icon.contains(x, y));
        assert(icon.pixel(x, y) == crate::tray::icon_colour());
    }
}

} // verus!
