//! What preparing a snippet does to its size and brightness.

use crate::ocr::{
    inverted, is_enlarged, is_prepared, is_toned, min_side, scale_factor, EXACT_DIM, MIN_DIM,
};
use crate::raster::{offset, Rgba, RgbaImage};
use vstd::prelude::*;

verus! {

/// The brightness of a pixel, in thousandths.
pub open spec fn luma(px: Rgba) -> int {
    299 * px.0 + 587 * px.1 + 114 * px.2
}

/// The brightness of the first `n` pixels of row `y` together, in thousandths.
pub open spec fn row_luma(img: RgbaImage, y: int, n: int) -> int
    decreases n,
{
    if n <= 0 {
        0
    } else {
        row_luma(img, y, n - 1) + luma(img.pixel(n - 1, y))
    }
}

/// The brightness of the first `m` rows together, in thousandths.
pub open spec fn rows_luma(img: RgbaImage, m: int) -> int
    decreases m,
{
    if m <= 0 {
        0
    } else {
        rows_luma(img, m - 1) + row_luma(img, m - 1, img.width as int)
    }
}

/// The brightness of all pixels of an image together, in thousandths.
pub open spec fn image_luma(img: RgbaImage) -> int {
    rows_luma(img, img.height as int)
}

/// The number of pixels of an image.
pub open spec fn area(img: RgbaImage) -> int {
    img.width * img.height
}

/// Whether the mean brightness of an image is at most `level`.
pub open spec fn at_most(img: RgbaImage, level: int) -> bool {
    image_luma(img) <= 1000 * (level * area(img))
}

/// Whether the mean brightness of an image is at least `level`.
pub open spec fn at_least(img: RgbaImage, level: int) -> bool {
    image_luma(img) >= 1000 * (level * area(img))
}

/// Whether `is_dark` says `dark` of the enlarged image.
pub open spec fn judged<F: Fn(&RgbaImage) -> bool>(
    is_dark: F,
    img: RgbaImage,
    dark: bool,
) -> bool {
    forall|enlarged: RgbaImage, d: bool|
        is_enlarged(img, enlarged) && #[trigger] call_ensures(is_dark, (&enlarged,), d) ==> d
            == dark
}

/// Judgements are relied on for images of at most this many pixels: adding up so many
/// brightnesses in single precision is off by little more than one part in sixteen at most.
pub const JUDGED_AREA: u32 = 0x100000;

/// Whether `is_dark`, asked about an image of at most `JUDGED_AREA` pixels, finds it dark
/// where its mean brightness is at most `level`, and not dark where it is at least as light
/// as such an image is when inverted. Between the two it may say either.
pub open spec fn clear_sighted<F: Fn(&RgbaImage) -> bool>(is_dark: F, level: int) -> bool {
    forall|img: RgbaImage, d: bool|
        img.wf() && 0 < area(img) <= JUDGED_AREA && #[trigger] call_ensures(is_dark, (&img,), d)
            ==> {
            &&& at_most(img, level) ==> d
            &&& at_least(img, 255 - level) ==> !d
        }
}

/// Whether the enlarged image has at most `JUDGED_AREA` pixels.
pub open spec fn enlarges_judgeably(img: RgbaImage) -> bool {
    let k = scale_factor(img.width as int, img.height as int);
    (img.width * k) * (img.height * k) <= JUDGED_AREA
}

/// Whether the enlarged image has so few columns and rows that enlarging is exact.
pub open spec fn enlarges_exactly(img: RgbaImage) -> bool {
    let k = scale_factor(img.width as int, img.height as int);
    img.width * k <= EXACT_DIM && img.height * k <= EXACT_DIM
}

/// Inverting the colours of an image twice gives every pixel back.
pub proof fn law_inverting_twice_restores(
    img: RgbaImage,
    once: RgbaImage,
    twice: RgbaImage,
    x: int,
    y: int,
)
    requires
        is_toned(img, true, once),
        is_toned(once, true, twice),
        img.contains(x, y),
    ensures
        twice.pixel(x, y) == img.pixel(x, y),
{
    assert(once.contains(x, y));
    assert(once.pixel(x, y) == inverted(img.pixel(x, y)));
    assert(twice.pixel(x, y) == inverted(once.pixel(x, y)));
}

/// The scale factor brings the shorter side to `MIN_DIM`, and no lesser one does.
pub proof fn law_scale_factor_is_least(width: int, height: int)
    requires
        width > 0,
        height > 0,
    ensures
        scale_factor(width, height) >= 1,
        min_side(width, height) * scale_factor(width, height) >= MIN_DIM,
        forall|k: int|
            1 <= k < scale_factor(width, height) ==> #[trigger] (min_side(width, height) * k)
                < MIN_DIM,
{
    let m = min_side(width, height);
    let s = scale_factor(width, height);
    if m < MIN_DIM {
        assert(s >= 1 && m * s >= 200 && m * (s - 1) < 200) by (nonlinear_arith)
            requires
                1 <= m < 200,
                s == (200 + m - 1) / m,
        ;
        assert forall|k: int| 1 <= k < s implies #[trigger] (m * k) < MIN_DIM by {
            assert(m * k <= m * (s - 1)) by (nonlinear_arith)
                requires
                    1 <= m,
                    k <= s - 1,
            ;
        }
    } else {
        assert(m * 1 == m);
    }
}

/// An enlarged image has at least `MIN_DIM` columns and rows and keeps its proportions.
pub proof fn law_enlarged_is_large(img: RgbaImage, out: RgbaImage)
    requires
        img.width > 0,
        img.height > 0,
        is_enlarged(img, out),
    ensures
        out.width >= MIN_DIM,
        out.height >= MIN_DIM,
        out.width * img.height == out.height * img.width,
{
    let w = img.width as int;
    let h = img.height as int;
    let k = scale_factor(w, h);
    law_scale_factor_is_least(w, h);
    let m = min_side(w, h);
    assert(w * k >= m * k && h * k >= m * k) by (nonlinear_arith)
        requires
            w >= m,
            h >= m,
            k >= 1,
    ;
    assert((w * k) * h == (h * k) * w) by (nonlinear_arith);
}

/// What the recogniser gets has at least `MIN_DIM` columns and rows.
pub proof fn law_prepared_is_large<F: Fn(&RgbaImage) -> bool>(
    img: RgbaImage,
    is_dark: F,
    out: RgbaImage,
)
    requires
        img.width > 0,
        img.height > 0,
        is_prepared(img, is_dark, out),
    ensures
        out.wf(),
        out.width >= MIN_DIM,
        out.height >= MIN_DIM,
{
    let (enlarged, _) = lemma_prepared(img, is_dark, out);
    law_enlarged_is_large(img, enlarged);
}

/// Inverting mirrors the mean brightness of an image at the middle of the range, so an image
/// that is darker than the middle becomes lighter than it.
pub proof fn law_inverting_mirrors_brightness(img: RgbaImage, out: RgbaImage)
    requires
        is_toned(img, true, out),
    ensures
        image_luma(out) == 255000 * area(img) - image_luma(img),
{
    lemma_rows_inverted(img, out, img.height as int);
    assert(img.height * img.width == img.width * img.height) by (nonlinear_arith);
}

proof fn lemma_row_inverted(img: RgbaImage, out: RgbaImage, y: int, n: int)
    requires
        is_toned(img, true, out),
        0 <= y < img.height,
        0 <= n <= img.width,
    ensures
        row_luma(out, y, n) == 255000 * n - row_luma(img, y, n),
    decreases n,
{
    if n > 0 {
        lemma_row_inverted(img, out, y, n - 1);
        assert(img.contains(n - 1, y));
        assert(out.pixel(n - 1, y) == inverted(img.pixel(n - 1, y)));
    }
}

proof fn lemma_rows_inverted(img: RgbaImage, out: RgbaImage, m: int)
    requires
        is_toned(img, true, out),
        0 <= m <= img.height,
    ensures
        rows_luma(out, m) == 255000 * (m * img.width) - rows_luma(img, m),
    decreases m,
{
    let w = img.width as int;
    if m > 0 {
        lemma_rows_inverted(img, out, m - 1);
        lemma_row_inverted(img, out, m - 1, w);
        assert(m * w == (m - 1) * w + w) by (nonlinear_arith);
    } else {
        assert(0 * w == 0);
    }
}

/// Images of the same size with the same pixels have the same data.
proof fn lemma_same_data(a: RgbaImage, b: RgbaImage)
    requires
        a.wf(),
        b.wf(),
        a.width == b.width,
        a.height == b.height,
        forall|x: int, y: int| a.contains(x, y) ==> #[trigger] a.pixel(x, y) == b.pixel(x, y),
    ensures
        a.data@ == b.data@,
{
    let w = a.width as int;
    let h = a.height as int;
    assert forall|i: int| 0 <= i < a.data@.len() implies a.data@[i] == b.data@[i] by {
        let n = i / 4;
        let c = i % 4;
        let x = n % w;
        let y = n / w;
        assert(w > 0) by (nonlinear_arith)
            requires
                0 <= n < w * h,
                0 <= w,
        ;
        assert(0 <= x < w && 0 <= y < h && y * w + x == n) by (nonlinear_arith)
            requires
                w > 0,
                0 <= n < w * h,
                x == n % w,
                y == n / w,
        ;
        assert(a.contains(x, y));
        assert(a.pixel(x, y) == b.pixel(x, y));
        assert(i == offset(w, x, y) + c);
    }
    assert(a.data@ =~= b.data@);
}

/// Images with the same data and size are equally bright.
proof fn lemma_same_luma(a: RgbaImage, b: RgbaImage, m: int)
    requires
        a.data@ == b.data@,
        a.width == b.width,
    ensures
        rows_luma(a, m) == rows_luma(b, m),
    decreases m,
{
    if m > 0 {
        lemma_same_luma(a, b, m - 1);
        lemma_same_row_luma(a, b, m - 1, a.width as int);
    }
}

proof fn lemma_same_row_luma(a: RgbaImage, b: RgbaImage, y: int, n: int)
    requires
        a.data@ == b.data@,
        a.width == b.width,
    ensures
        row_luma(a, y, n) == row_luma(b, y, n),
    decreases n,
{
    if n > 0 {
        lemma_same_row_luma(a, b, y, n - 1);
    }
}

/// `out` shows each pixel of `img` as a block of `k` by `k` pixels.
spec fn blocks(img: RgbaImage, k: int, out: RgbaImage) -> bool {
    &&& k >= 1
    &&& out.width == img.width * k
    &&& out.height == img.height * k
    &&& forall|x: int, y: int|
        out.contains(x, y) ==> #[trigger] out.pixel(x, y) == img.pixel(x / k, y / k)
}

proof fn lemma_enlarged_in_blocks(img: RgbaImage, out: RgbaImage)
    requires
        img.width > 0,
        img.height > 0,
        is_enlarged(img, out),
        enlarges_exactly(img),
    ensures
        blocks(img, scale_factor(img.width as int, img.height as int), out),
{
    law_scale_factor_is_least(img.width as int, img.height as int);
}

/// The quotient of a position within block `n`.
proof fn lemma_in_block(n: int, k: int, j: int, size: int)
    requires
        k >= 1,
        0 <= n < size,
        0 <= j < k,
    ensures
        0 <= n * k + j < size * k,
        (n * k + j) / k == n,
{
    assert(0 <= n * k && n * k + k <= size * k) by (nonlinear_arith)
        requires
            k >= 1,
            0 <= n < size,
    ;
    assert((n * k + j) / k == n) by (nonlinear_arith)
        requires
            k >= 1,
            0 <= j < k,
    ;
}

proof fn lemma_row_block(img: RgbaImage, k: int, out: RgbaImage, y: int, n: int, j: int)
    requires
        blocks(img, k, out),
        0 <= y < out.height,
        0 <= n < img.width,
        0 <= j <= k,
    ensures
        row_luma(out, y, n * k + j) == row_luma(out, y, n * k) + j * luma(img.pixel(n, y / k)),
    decreases j,
{
    let l = luma(img.pixel(n, y / k));
    if j > 0 {
        lemma_row_block(img, k, out, y, n, j - 1);
        lemma_in_block(n, k, j - 1, img.width as int);
        assert(out.contains(n * k + (j - 1), y));
        assert(out.pixel(n * k + (j - 1), y) == img.pixel(n, y / k));
        assert(j * l == (j - 1) * l + l) by (nonlinear_arith);
    } else {
        assert(0 * l == 0);
    }
}

proof fn lemma_row_in_blocks(img: RgbaImage, k: int, out: RgbaImage, y: int, n: int)
    requires
        blocks(img, k, out),
        0 <= y < out.height,
        0 <= n <= img.width,
    ensures
        row_luma(out, y, n * k) == k * row_luma(img, y / k, n),
    decreases n,
{
    if n > 0 {
        lemma_row_in_blocks(img, k, out, y, n - 1);
        lemma_row_block(img, k, out, y, n - 1, k);
        assert((n - 1) * k + k == n * k) by (nonlinear_arith);
        let a = row_luma(img, y / k, n - 1);
        let l = luma(img.pixel(n - 1, y / k));
        assert(k * a + k * l == k * (a + l)) by (nonlinear_arith);
    } else {
        assert(0 * k == 0);
        assert(k * 0 == 0);
    }
}

proof fn lemma_rows_block(img: RgbaImage, k: int, out: RgbaImage, m: int, j: int)
    requires
        blocks(img, k, out),
        0 <= m < img.height,
        0 <= j <= k,
    ensures
        rows_luma(out, m * k + j) == rows_luma(out, m * k) + j * (k * row_luma(
            img,
            m,
            img.width as int,
        )),
    decreases j,
{
    let r = k * row_luma(img, m, img.width as int);
    if j > 0 {
        lemma_rows_block(img, k, out, m, j - 1);
        lemma_in_block(m, k, j - 1, img.height as int);
        lemma_row_in_blocks(img, k, out, m * k + (j - 1), img.width as int);
        assert(j * r == (j - 1) * r + r) by (nonlinear_arith);
    } else {
        assert(0 * r == 0);
    }
}

proof fn lemma_rows_in_blocks(img: RgbaImage, k: int, out: RgbaImage, m: int)
    requires
        blocks(img, k, out),
        0 <= m <= img.height,
    ensures
        rows_luma(out, m * k) == k * (k * rows_luma(img, m)),
    decreases m,
{
    if m > 0 {
        lemma_rows_in_blocks(img, k, out, m - 1);
        lemma_rows_block(img, k, out, m - 1, k);
        assert((m - 1) * k + k == m * k) by (nonlinear_arith);
        let a = rows_luma(img, m - 1);
        let r = row_luma(img, m - 1, img.width as int);
        assert(k * (k * a) + k * (k * r) == k * (k * (a + r))) by (nonlinear_arith);
    } else {
        assert(0 * k == 0);
        assert(k * 0 == 0);
    }
}

/// Enlarging multiplies brightness and number of pixels alike, so the mean brightness stays.
pub proof fn law_enlarging_keeps_mean_brightness(img: RgbaImage, out: RgbaImage)
    requires
        img.width > 0,
        img.height > 0,
        is_enlarged(img, out),
        enlarges_exactly(img),
    ensures
        ({
            let k = scale_factor(img.width as int, img.height as int);
            &&& image_luma(out) == k * (k * image_luma(img))
            &&& area(out) == k * (k * area(img))
        }),
        forall|level: int| #[trigger] at_most(out, level) == at_most(img, level),
        forall|level: int| #[trigger] at_least(out, level) == at_least(img, level),
{
    let w = img.width as int;
    let h = img.height as int;
    let k = scale_factor(w, h);
    lemma_enlarged_in_blocks(img, out);
    lemma_rows_in_blocks(img, k, out, h);
    assert((w * k) * (h * k) == k * (k * (w * h))) by (nonlinear_arith);
    let l = image_luma(img);
    let a = area(img);
    assert forall|level: int| #[trigger] at_most(out, level) == at_most(img, level) by {
        lemma_scaled(l, level, a, k);
    }
    assert forall|level: int| #[trigger] at_least(out, level) == at_least(img, level) by {
        lemma_scaled(l, level, a, k);
    }
}

/// Comparing a total with a level does not depend on a common factor.
proof fn lemma_scaled(l: int, level: int, a: int, k: int)
    requires
        k >= 1,
    ensures
        k * (k * l) <= 1000 * (level * (k * (k * a))) <==> l <= 1000 * (level * a),
        k * (k * l) >= 1000 * (level * (k * (k * a))) <==> l >= 1000 * (level * a),
{
    let b = 1000 * (level * a);
    assert(1000 * (level * (k * (k * a))) == k * (k * b)) by (nonlinear_arith)
        requires
            b == 1000 * (level * a),
    ;
    let kk = k * k;
    assert(kk >= 1) by (nonlinear_arith)
        requires
            k >= 1,
            kk == k * k,
    ;
    assert(k * (k * l) == kk * l && k * (k * b) == kk * b) by (nonlinear_arith)
        requires
            kk == k * k,
    ;
    assert((kk * l <= kk * b <==> l <= b) && (kk * l >= kk * b <==> l >= b)) by (nonlinear_arith)
        requires
            kk >= 1,
    ;
}

/// An image and its negative are prepared to the same picture where they are judged
/// oppositely.
pub proof fn law_negative_is_prepared_alike<F: Fn(&RgbaImage) -> bool>(
    img: RgbaImage,
    negative: RgbaImage,
    is_dark: F,
    dark: bool,
    out: RgbaImage,
    out_negative: RgbaImage,
)
    requires
        img.width > 0,
        img.height > 0,
        enlarges_exactly(img),
        is_toned(img, true, negative),
        judged(is_dark, img, dark),
        judged(is_dark, negative, !dark),
        is_prepared(img, is_dark, out),
        is_prepared(negative, is_dark, out_negative),
    ensures
        out_negative.width == out.width,
        out_negative.height == out.height,
        out_negative.data@ == out.data@,
{
    let k = scale_factor(img.width as int, img.height as int);
    let (e, d) = lemma_prepared(img, is_dark, out);
    let (f, g) = lemma_prepared(negative, is_dark, out_negative);
    assert(d == dark && g == !dark);
    lemma_enlarged_in_blocks(img, e);
    lemma_enlarged_in_blocks(negative, f);
    assert forall|x: int, y: int| out.contains(x, y) implies #[trigger] out.pixel(x, y)
        == out_negative.pixel(x, y) by {
        assert(e.contains(x, y) && f.contains(x, y));
        lemma_quotient(x, k, img.width as int);
        lemma_quotient(y, k, img.height as int);
        assert(img.contains(x / k, y / k));
        assert(e.pixel(x, y) == img.pixel(x / k, y / k));
        assert(f.pixel(x, y) == negative.pixel(x / k, y / k));
        assert(negative.pixel(x / k, y / k) == inverted(img.pixel(x / k, y / k)));
    }
    lemma_same_data(out, out_negative);
}

/// The block of a position lies among `size` blocks.
pub proof fn lemma_quotient(x: int, k: int, size: int)
    requires
        k >= 1,
        0 <= x < size * k,
    ensures
        0 <= x / k < size,
{
    assert(0 <= x / k < size) by (nonlinear_arith)
        requires
            k >= 1,
            0 <= x < size * k,
    ;
}

/// The enlarged image and the judgement behind a prepared picture.
proof fn lemma_prepared<F: Fn(&RgbaImage) -> bool>(
    img: RgbaImage,
    is_dark: F,
    out: RgbaImage,
) -> (r: (RgbaImage, bool))
    requires
        is_prepared(img, is_dark, out),
    ensures
        call_ensures(is_dark, (&r.0,), r.1),
        is_enlarged(img, r.0),
        is_toned(r.0, r.1, out),
{
    choose|enlarged: RgbaImage, dark: bool| #[trigger]
        call_ensures(is_dark, (&enlarged,), dark) && is_enlarged(img, enlarged) && is_toned(
            enlarged,
            dark,
            out,
        )
}

/// Preparing a prepared picture that is judged light changes nothing: it is neither enlarged
/// nor inverted again.
pub proof fn law_preparing_twice_is_preparing_once<F: Fn(&RgbaImage) -> bool>(
    img: RgbaImage,
    is_dark: F,
    once: RgbaImage,
    twice: RgbaImage,
)
    requires
        img.width > 0,
        img.height > 0,
        is_prepared(img, is_dark, once),
        is_prepared(once, is_dark, twice),
        judged(is_dark, once, false),
    ensures
        twice.width == once.width,
        twice.height == once.height,
        twice.data@ == once.data@,
{
    law_prepared_is_large(img, is_dark, once);
    let (e, d) = lemma_prepared(once, is_dark, twice);
    assert(!d);
    lemma_large_stays(once, e);
    assert forall|x: int, y: int| twice.contains(x, y) implies #[trigger] twice.pixel(x, y)
        == once.pixel(x, y) by {
        assert(e.contains(x, y));
    }
    lemma_same_data(twice, once);
}

/// Enlarging leaves a large image as it is.
proof fn lemma_large_stays(img: RgbaImage, out: RgbaImage)
    requires
        img.width >= MIN_DIM,
        img.height >= MIN_DIM,
        is_enlarged(img, out),
    ensures
        out.width == img.width,
        out.height == img.height,
        out.data@ == img.data@,
{
    let w = img.width as int;
    let h = img.height as int;
    assert(scale_factor(w, h) == 1);
    assert(w * 1 == w && h * 1 == h);
}

/// An image that is not inverted keeps its brightness.
proof fn lemma_kept(img: RgbaImage, out: RgbaImage)
    requires
        img.wf(),
        is_toned(img, false, out),
    ensures
        out.data@ == img.data@,
        image_luma(out) == image_luma(img),
{
    assert forall|x: int, y: int| out.contains(x, y) implies #[trigger] out.pixel(x, y)
        == img.pixel(x, y) by {
        assert(img.contains(x, y));
    }
    lemma_same_data(out, img);
    lemma_same_luma(out, img, img.height as int);
}

/// A clear-sighted judgement finds an image dark whose mean brightness is at most `level`, and
/// one light that is at least as light as the negative of such an image.
proof fn lemma_clearly_judged<F: Fn(&RgbaImage) -> bool>(img: RgbaImage, is_dark: F, level: int)
    requires
        img.width > 0,
        img.height > 0,
        enlarges_judgeably(img),
        clear_sighted(is_dark, level),
    ensures
        at_most(img, level) ==> judged(is_dark, img, true),
        at_least(img, 255 - level) ==> judged(is_dark, img, false),
{
    lemma_judgeable_is_exact(img);
    assert forall|e: RgbaImage, d: bool|
        is_enlarged(img, e) && #[trigger] call_ensures(is_dark, (&e,), d) implies {
        &&& at_most(img, level) ==> d
        &&& at_least(img, 255 - level) ==> !d
    } by {
        law_enlarging_keeps_mean_brightness(img, e);
        lemma_judgeable_area(img, e);
        assert(at_most(e, level) == at_most(img, level));
        assert(at_least(e, 255 - level) == at_least(img, 255 - level));
    }
}

/// An image that is clearly dark or clearly light and its negative are prepared to the same
/// picture by a judgement that sees that much.
pub proof fn law_clear_negative_is_prepared_alike<F: Fn(&RgbaImage) -> bool>(
    img: RgbaImage,
    negative: RgbaImage,
    is_dark: F,
    level: int,
    out: RgbaImage,
    out_negative: RgbaImage,
)
    requires
        img.width > 0,
        img.height > 0,
        enlarges_judgeably(img),
        clear_sighted(is_dark, level),
        at_most(img, level) || at_least(img, 255 - level),
        is_toned(img, true, negative),
        is_prepared(img, is_dark, out),
        is_prepared(negative, is_dark, out_negative),
    ensures
        out_negative.width == out.width,
        out_negative.height == out.height,
        out_negative.data@ == out.data@,
{
    lemma_judgeable_is_exact(img);
    lemma_mirrored(img, negative, level);
    lemma_clearly_judged(img, is_dark, level);
    lemma_clearly_judged(negative, is_dark, level);
    let dark = at_most(img, level);
    law_negative_is_prepared_alike(img, negative, is_dark, dark, out, out_negative);
}

/// Inverting exchanges being at most as bright as `level` and being at least as bright as its
/// mirror.
proof fn lemma_mirrored(img: RgbaImage, out: RgbaImage, level: int)
    requires
        is_toned(img, true, out),
    ensures
        at_most(img, level) == at_least(out, 255 - level),
        at_least(img, 255 - level) == at_most(out, level),
{
    law_inverting_mirrors_brightness(img, out);
    let a = area(img);
    assert((255 - level) * a == 255 * a - level * a) by (nonlinear_arith);
}

/// No prepared picture has a mean brightness of at most `level`, by a judgement that is clear
/// down to that level; an image that is clearly dark or clearly light is prepared to one that
/// is clearly light.
pub proof fn law_prepared_is_light<F: Fn(&RgbaImage) -> bool>(
    img: RgbaImage,
    is_dark: F,
    level: int,
    out: RgbaImage,
)
    requires
        img.width > 0,
        img.height > 0,
        enlarges_judgeably(img),
        clear_sighted(is_dark, level),
        is_prepared(img, is_dark, out),
    ensures
        !at_most(out, level),
        at_most(img, level) || at_least(img, 255 - level) ==> at_least(out, 255 - level),
{
    lemma_judgeable_is_exact(img);
    let (e, d) = lemma_prepared(img, is_dark, out);
    law_enlarging_keeps_mean_brightness(img, e);
    lemma_judgeable_area(img, e);
    assert(at_most(e, level) == at_most(img, level));
    assert(at_least(e, 255 - level) == at_least(img, 255 - level));
    if d {
        lemma_mirrored(e, out, level);
    } else {
        lemma_kept(e, out);
    }
}

/// An image that enlarges to few pixels enlarges to few columns and rows.
proof fn lemma_judgeable_is_exact(img: RgbaImage)
    requires
        img.width > 0,
        img.height > 0,
        enlarges_judgeably(img),
    ensures
        enlarges_exactly(img),
{
    let w = img.width as int;
    let h = img.height as int;
    let k = scale_factor(w, h);
    law_scale_factor_is_least(w, h);
    let a = w * k;
    let b = h * k;
    assert(a >= 1 && b >= 1) by (nonlinear_arith)
        requires
            w >= 1,
            h >= 1,
            k >= 1,
            a == w * k,
            b == h * k,
    ;
    assert(a <= a * b && b <= a * b) by (nonlinear_arith)
        requires
            a >= 1,
            b >= 1,
    ;
}

/// The enlarged image has at least one pixel, and few enough to be judged.
proof fn lemma_judgeable_area(img: RgbaImage, out: RgbaImage)
    requires
        img.width > 0,
        img.height > 0,
        enlarges_judgeably(img),
        is_enlarged(img, out),
    ensures
        0 < area(out) <= JUDGED_AREA,
{
    law_enlarged_is_large(img, out);
    assert(area(out) > 0) by (nonlinear_arith)
        requires
            out.width >= 200,
            out.height >= 200,
            area(out) == out.width * out.height,
    ;
}

/// Preparing twice is preparing once for an image that is clearly dark or clearly light, by a
/// judgement that sees that much.
pub proof fn law_clear_preparing_twice_is_preparing_once<F: Fn(&RgbaImage) -> bool>(
    img: RgbaImage,
    is_dark: F,
    level: int,
    once: RgbaImage,
    twice: RgbaImage,
)
    requires
        img.width > 0,
        img.height > 0,
        enlarges_judgeably(img),
        clear_sighted(is_dark, level),
        at_most(img, level) || at_least(img, 255 - level),
        is_prepared(img, is_dark, once),
        is_prepared(once, is_dark, twice),
    ensures
        twice.width == once.width,
        twice.height == once.height,
        twice.data@ == once.data@,
{
    let (e, _) = lemma_prepared(img, is_dark, once);
    lemma_judgeable_area(img, e);
    law_prepared_is_large(img, is_dark, once);
    law_prepared_is_light(img, is_dark, level, once);
    assert forall|f: RgbaImage, g: bool|
        is_enlarged(once, f) && #[trigger] call_ensures(is_dark, (&f,), g) implies g == false by {
        lemma_large_stays(once, f);
        lemma_same_luma(once, f, once.height as int);
        assert(at_least(f, 255 - level) == at_least(once, 255 - level));
    }
    law_preparing_twice_is_preparing_once(img, is_dark, once, twice);
}

} // verus!
