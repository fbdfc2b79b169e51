//! Getting a snippet ready for the system's text recognition.

use crate::raster::{fits, lemma_offset_in_range, offset, rgba_at, Rgba, RgbaImage};
use vstd::prelude::*;

verus! {

/// The recogniser gets images whose shorter side has at least this many pixels.
pub const MIN_DIM: u32 = 200;

/// Up to this many columns and rows, resizing by a whole factor maps pixels exactly.
pub const EXACT_DIM: u32 = 0x200000;

/// The shorter side of an image.
pub open spec fn min_side(width: int, height: int) -> int {
    if width <= height {
        width
    } else {
        height
    }
}

/// The least whole factor by which the shorter side reaches `MIN_DIM`.
pub open spec fn scale_factor(width: int, height: int) -> int {
    if min_side(width, height) < MIN_DIM {
        (MIN_DIM + min_side(width, height) - 1) / min_side(width, height)
    } else {
        1
    }
}

/// Whether the enlarged image has dimensions that fit in `u32` and it, and the
/// intermediate image of four 4-byte samples a pixel, fit in memory.
pub open spec fn enlargement_fits(width: int, height: int) -> bool {
    let k = scale_factor(width, height);
    min_side(width, height) < MIN_DIM ==> {
        &&& width * k <= u32::MAX
        &&& height * k <= u32::MAX
        &&& 16 * (width * (height * k)) <= isize::MAX
        &&& fits(width * k, height * k)
    }
}

/// What nearest-neighbour resizing makes of an image: the data of the `nwidth` by
/// `nheight` image that `image::imageops::resize` gives with `FilterType::Nearest`.
pub uninterp spec fn nearest_resize(
    data: Seq<u8>,
    width: u32,
    height: u32,
    nwidth: u32,
    nheight: u32,
) -> Seq<u8>;

/// `out` shows each pixel of the `width` by `height` image `data` as a block of `k` by
/// `k` equal pixels.
pub open spec fn in_blocks(data: Seq<u8>, width: int, height: int, k: int, out: Seq<u8>) -> bool {
    forall|x: int, y: int|
        0 <= x < width * k && 0 <= y < height * k ==> #[trigger] rgba_at(
            out,
            offset(width * k, x, y),
        ) == rgba_at(data, offset(width, x / k, y / k))
}

/// Every pixel of the `nwidth` by `nheight` image `out` is some pixel of the `width` by
/// `height` image `data`.
pub open spec fn drawn_from(
    data: Seq<u8>,
    width: int,
    height: int,
    out: Seq<u8>,
    nwidth: int,
    nheight: int,
) -> bool {
    forall|x: int, y: int|
        0 <= x < nwidth && 0 <= y < nheight ==> is_some_pixel(
            data,
            width,
            height,
            #[trigger] rgba_at(out, offset(nwidth, x, y)),
        )
}

/// `px` is some pixel of the `width` by `height` image `data`.
pub open spec fn is_some_pixel(data: Seq<u8>, width: int, height: int, px: Rgba) -> bool {
    exists|x: int, y: int|
        0 <= x < width && 0 <= y < height && px == #[trigger] rgba_at(data, offset(width, x, y))
}

/// Calls `image::imageops::resize` with `FilterType::Nearest` on an RGBA image.
///
/// The result has four bytes a pixel and depends on the arguments alone. The function
/// takes, for each column and row of the result, one source column and row with full weight:
/// the one that holds the centre of the result's pixel. So each pixel of the result is one
/// of the source. The centre is computed in single precision, which is exact enough to name
/// the right source pixel when both dimensions grow by the same whole factor and stay within
/// `EXACT_DIM`; which source pixel it is beyond that is left unsaid.
///
/// The function allocates an intermediate image of `width` by `nheight` pixels with four
/// 4-byte samples each, and panics where that, or the result, exceeds what a vector holds.
#[verifier::external_body]
fn resize_nearest(data: &Vec<u8>, width: u32, height: u32, nwidth: u32, nheight: u32) -> (out: Vec<
    u8,
>)
    requires
        width > 0,
        height > 0,
        nwidth > 0,
        nheight > 0,
        data@.len() == 4 * (width * height),
        16 * (width * nheight) <= isize::MAX,
        fits(nwidth as int, nheight as int),
    ensures
        out@.len() == 4 * (nwidth * nheight),
        out@ == nearest_resize(data@, width, height, nwidth, nheight),
        drawn_from(
            data@,
            width as int,
            height as int,
            out@,
            nwidth as int,
            nheight as int,
        ),
        forall|k: int|
            1 <= k && nwidth == width * k && nheight == height * k && nwidth <= EXACT_DIM && nheight
                <= EXACT_DIM ==> #[trigger] in_blocks(
                data@,
                width as int,
                height as int,
                k,
                out@,
            ),
{
    let source: image::ImageBuffer<image::Rgba<u8>, &[u8]> =
        image::ImageBuffer::from_raw(width, height, data.as_slice()).unwrap();
    image::imageops::resize(&source, nwidth, nheight, image::imageops::FilterType::Nearest)
        .into_raw()
}

/// `out` is `img` enlarged for the recogniser: unchanged where its shorter side has
/// `MIN_DIM` pixels, else resized by `scale_factor` in both directions.
pub open spec fn is_enlarged(img: RgbaImage, out: RgbaImage) -> bool {
    let w = img.width as int;
    let h = img.height as int;
    let k = scale_factor(w, h);
    &&& out.wf()
    &&& out.width == w * k
    &&& out.height == h * k
    &&& min_side(w, h) >= MIN_DIM ==> out.data@ == img.data@
    &&& min_side(w, h) < MIN_DIM ==> out.data@ == nearest_resize(
        img.data@,
        img.width,
        img.height,
        out.width,
        out.height,
    )
    &&& drawn_from(img.data@, w, h, out.data@, w * k, h * k)
    &&& (out.width <= EXACT_DIM && out.height <= EXACT_DIM) || k == 1 ==> forall|x: int, y: int|
        out.contains(x, y) ==> #[trigger] out.pixel(x, y) == img.pixel(x / k, y / k)
}

/// Whether `enlarge` takes an image of these dimensions.
pub fn can_enlarge(width: u32, height: u32) -> (ok: bool)
    ensures
        ok == (width > 0 && height > 0 && enlargement_fits(width as int, height as int)),
{
    if width == 0 || height == 0 {
        return false;
    }
    let min: u32 = if width <= height {
        width
    } else {
        height
    };
    if min >= MIN_DIM {
        return true;
    }
    let k: u128 = ((MIN_DIM + min - 1) / min) as u128;
    let w: u128 = width as u128;
    let h: u128 = height as u128;
    proof {
        let ki = k as int;
        assert(ki <= 200) by (nonlinear_arith)
            requires
                ki == (200 + min - 1) / min as int,
                1 <= min < 200,
        ;
        assert(w * k <= 0xFFFF_FFFF * 200) by (nonlinear_arith)
            requires
                w <= 0xFFFF_FFFF,
                k <= 200,
        ;
        assert(h * k <= 0xFFFF_FFFF * 200) by (nonlinear_arith)
            requires
                h <= 0xFFFF_FFFF,
                k <= 200,
        ;
        let hk = h * k;
        assert(w * hk <= 0xFFFF_FFFF * (0xFFFF_FFFF * 200)) by (nonlinear_arith)
            requires
                w <= 0xFFFF_FFFF,
                0 <= hk <= 0xFFFF_FFFF * 200,
        ;
        let wk = w * k;
        assert(wk * hk <= (0xFFFF_FFFF * 200) * (0xFFFF_FFFF * 200)) by (nonlinear_arith)
            requires
                0 <= wk <= 0xFFFF_FFFF * 200,
                0 <= hk <= 0xFFFF_FFFF * 200,
        ;
    }
    let limit: u128 = isize::MAX as u128;
    w * k <= u32::MAX as u128 && h * k <= u32::MAX as u128 && 16 * (w * (h * k)) <= limit && 4 * ((w
        * k) * (h * k)) <= limit
}

/// Scales an image up by a whole factor so that its shorter side has at least `MIN_DIM`
/// pixels.
pub fn enlarge(img: &RgbaImage) -> (out: RgbaImage)
    requires
        img.wf(),
        img.width > 0,
        img.height > 0,
        enlargement_fits(img.width as int, img.height as int),
    ensures
        is_enlarged(*img, out),
{
    let min: u32 = if img.width <= img.height {
        img.width
    } else {
        img.height
    };
    if min < MIN_DIM {
        let scale: u32 = (MIN_DIM + min - 1) / min;
        let nwidth: u32 = img.width * scale;
        let nheight: u32 = img.height * scale;
        proof {
            let k = scale as int;
            let w = img.width as int;
            let h = img.height as int;
            assert(k >= 2) by (nonlinear_arith)
                requires
                    k == (200 + min - 1) / min as int,
                    1 <= min < 200,
            ;
            assert(w * k > 0 && h * k > 0) by (nonlinear_arith)
                requires
                    w > 0,
                    h > 0,
                    k > 0,
            ;
        }
        let data = resize_nearest(&img.data, img.width, img.height, nwidth, nheight);
        let out = RgbaImage { width: nwidth, height: nheight, data };
        proof {
            let k = scale as int;
            if nwidth <= EXACT_DIM && nheight <= EXACT_DIM {
                assert(in_blocks(img.data@, img.width as int, img.height as int, k, data@));
            }
        }
        out
    } else {
        let out = RgbaImage { width: img.width, height: img.height, data: img.data.clone() };
        proof {
            let w = img.width as int;
            let h = img.height as int;
            assert(out.data@ =~= img.data@);
            assert(w * 1 == w && h * 1 == h);
            assert(scale_factor(w, h) == 1);
            assert forall|x: int, y: int| out.contains(x, y) implies #[trigger] out.pixel(x, y)
                == img.pixel(x / 1, y / 1) by {}
            assert forall|x: int, y: int| 0 <= x < w && 0 <= y < h implies is_some_pixel(
                img.data@,
                w,
                h,
                #[trigger] rgba_at(out.data@, offset(w, x, y)),
            ) by {
                assert(rgba_at(out.data@, offset(w, x, y)) == rgba_at(img.data@, offset(w, x, y)));
            }
        }
        out
    }
}

/// A pixel with its colour inverted and its alpha unchanged.
pub open spec fn inverted(px: Rgba) -> Rgba {
    ((255 - px.0) as u8, (255 - px.1) as u8, (255 - px.2) as u8, px.3)
}

/// `out` is `img`, with every colour inverted where `dark` holds.
pub open spec fn is_toned(img: RgbaImage, dark: bool, out: RgbaImage) -> bool {
    &&& out.wf()
    &&& out.width == img.width
    &&& out.height == img.height
    &&& forall|x: int, y: int|
        img.contains(x, y) ==> #[trigger] out.pixel(x, y) == if dark {
            inverted(img.pixel(x, y))
        } else {
            img.pixel(x, y)
        }
}

/// Turns light text on a dark background into dark text on a light one; leaves an image
/// that is not dark as it is.
pub fn tone(img: RgbaImage, dark: bool) -> (out: RgbaImage)
    requires
        img.wf(),
    ensures
        is_toned(img, dark, out),
{
    if !dark {
        return img;
    }
    let ghost source = img;
    let mut out = img;
    let len: usize = out.data.len();
    let count: usize = len / 4;
    let mut n: usize = 0;
    while n < count
        invariant
            source.wf(),
            n <= count,
            out.width == source.width,
            out.height == source.height,
            out.data@.len() == source.data@.len(),
            out.data@.len() == len,
            len == 4 * count,
            forall|m: int|
                0 <= m < n ==> #[trigger] rgba_at(out.data@, 4 * m) == inverted(
                    rgba_at(source.data@, 4 * m),
                ),
            forall|m: int|
                n <= m < count ==> #[trigger] rgba_at(out.data@, 4 * m) == rgba_at(
                    source.data@,
                    4 * m,
                ),
        decreases count - n,
    {
        let ghost before = out.data@;
        let at: usize = 4 * n;
        assert(rgba_at(before, 4 * n as int) == rgba_at(source.data@, 4 * n as int));
        let r: u8 = out.data[at];
        let g: u8 = out.data[at + 1];
        let b: u8 = out.data[at + 2];
        out.data.set(at, 255 - r);
        out.data.set(at + 1, 255 - g);
        out.data.set(at + 2, 255 - b);
        assert forall|m: int| 0 <= m < count && m != n implies #[trigger] rgba_at(out.data@, 4 * m)
            == rgba_at(before, 4 * m) by {}
        n = n + 1;
    }
    proof {
        assert forall|x: int, y: int| source.contains(x, y) implies #[trigger] out.pixel(x, y)
            == inverted(source.pixel(x, y)) by {
            lemma_offset_in_range(source.width as int, source.height as int, x, y);
            let m = y * source.width + x;
            assert(rgba_at(out.data@, 4 * m) == inverted(rgba_at(source.data@, 4 * m)));
        }
    }
    out
}

/// `out` is what `prepare_for_ocr` makes of `img` with the judgement `is_dark`: some
/// enlarged image, judged by `is_dark` and toned by that judgement.
pub open spec fn is_prepared<F: Fn(&RgbaImage) -> bool>(
    img: RgbaImage,
    is_dark: F,
    out: RgbaImage,
) -> bool {
    exists|enlarged: RgbaImage, dark: bool| #[trigger]
        call_ensures(is_dark, (&enlarged,), dark) && is_enlarged(img, enlarged) && is_toned(
            enlarged,
            dark,
            out,
        )
}

/// Scales up and, where `is_dark` finds the enlarged image dark, inverts, so that the
/// recogniser gets a large, dark-on-light image.
pub fn prepare_for_ocr<F: Fn(&RgbaImage) -> bool>(img: &RgbaImage, is_dark: F) -> (out: RgbaImage)
    requires
        img.wf(),
        img.width > 0,
        img.height > 0,
        enlargement_fits(img.width as int, img.height as int),
        forall|enlarged: RgbaImage|
            is_enlarged(*img, enlarged) ==> #[trigger] call_requires(is_dark, (&enlarged,)),
    ensures
        is_prepared(*img, is_dark, out),
{
    let enlarged = enlarge(img);
    let dark: bool = is_dark(&enlarged);
    assert(call_ensures(is_dark, (&enlarged,), dark));
    tone(enlarged, dark)
}

/// The bytes of an image in the channel order of the recogniser's bitmaps.
#[derive(Debug)]
pub struct BitmapData {
    /// Blue, green, red and alpha of each pixel, row by row.
    pub bgra: Vec<u8>,
    pub width: i32,
    pub height: i32,
}

/// A pixel with its red and blue byte exchanged.
pub open spec fn swapped(px: Rgba) -> Rgba {
    (px.2, px.1, px.0, px.3)
}

/// `bitmap` holds the pixels of `img` in BGRA order.
pub open spec fn is_bitmap_of(img: RgbaImage, bitmap: BitmapData) -> bool {
    &&& bitmap.width == img.width as i32
    &&& bitmap.height == img.height as i32
    &&& bitmap.bgra@.len() == img.data@.len()
    &&& forall|x: int, y: int|
        img.contains(x, y) ==> #[trigger] rgba_at(bitmap.bgra@, offset(img.width as int, x, y))
            == swapped(img.pixel(x, y))
}

/// Reorders the bytes of an image for the recogniser's bitmap.
pub fn rgba_to_software_bitmap(img: &RgbaImage) -> (bitmap: BitmapData)
    requires
        img.wf(),
    ensures
        is_bitmap_of(*img, bitmap),
{
    let len: usize = img.data.len();
    let count: usize = len / 4;
    let mut bgra: Vec<u8> = Vec::new();
    let mut n: usize = 0;
    while n < count
        invariant
            n <= count,
            img.data@.len() == len,
            len == 4 * count,
            bgra@.len() == 4 * n,
            forall|m: int|
                0 <= m < n ==> #[trigger] rgba_at(bgra@, 4 * m) == swapped(
                    rgba_at(img.data@, 4 * m),
                ),
        decreases count - n,
    {
        let ghost before = bgra@;
        let at: usize = 4 * n;
        bgra.push(img.data[at + 2]);
        bgra.push(img.data[at + 1]);
        bgra.push(img.data[at]);
        bgra.push(img.data[at + 3]);
        assert forall|m: int| 0 <= m < n implies #[trigger] rgba_at(bgra@, 4 * m) == rgba_at(
            before,
            4 * m,
        ) by {}
        n = n + 1;
    }
    let bitmap = BitmapData { bgra, width: img.width as i32, height: img.height as i32 };
    proof {
        assert forall|x: int, y: int| img.contains(x, y) implies #[trigger] rgba_at(
            bitmap.bgra@,
            offset(img.width as int, x, y),
        ) == swapped(img.pixel(x, y)) by {
            lemma_offset_in_range(img.width as int, img.height as int, x, y);
            let m = y * img.width + x;
            assert(rgba_at(bitmap.bgra@, 4 * m) == swapped(rgba_at(img.data@, 4 * m)));
        }
    }
    bitmap
}

/// Which recogniser to ask the system for.
#[derive(Debug, PartialEq, Eq)]
pub enum Engine {
    /// The one for the languages of the user's profile.
    UserProfileLanguages,
    /// The one for the language with this tag.
    Language(String),
}

/// `engine` is the one for `language_tag`; no tag stands for the user's languages.
pub open spec fn is_engine_for(language_tag: Seq<char>, engine: Engine) -> bool {
    match engine {
        Engine::UserProfileLanguages => language_tag.len() == 0,
        Engine::Language(tag) => language_tag.len() > 0 && tag@ == language_tag,
    }
}

/// Chooses the recogniser for a language tag.
pub fn create_engine(language_tag: &str) -> (engine: Engine)
    ensures
        is_engine_for(language_tag@, engine),
{
    if language_tag.is_empty() {
        return Engine::UserProfileLanguages;
    }
    Engine::Language(language_tag.to_string())
}

/// What one recognition needs of the system: a bitmap and a recogniser.
#[derive(Debug)]
pub struct OcrRequest {
    pub bitmap: BitmapData,
    pub engine: Engine,
}

/// `request` asks for the text of `img`, prepared with the judgement `is_dark`, in the language
/// with the given tag.
pub open spec fn is_request<F: Fn(&RgbaImage) -> bool>(
    img: RgbaImage,
    language_tag: Seq<char>,
    is_dark: F,
    request: OcrRequest,
) -> bool {
    &&& exists|prepared: RgbaImage| #[trigger]
        is_prepared(img, is_dark, prepared) && is_bitmap_of(prepared, request.bitmap)
    &&& is_engine_for(language_tag, request.engine)
}

/// Prepares a snippet and chooses the recogniser; the system then recognises the bitmap.
/// `is_dark` judges whether the background of the enlarged snippet is dark.
pub fn run_ocr<F: Fn(&RgbaImage) -> bool>(
    img: &RgbaImage,
    language_tag: &str,
    is_dark: F,
) -> (request: OcrRequest)
    requires
        img.wf(),
        img.width > 0,
        img.height > 0,
        enlargement_fits(img.width as int, img.height as int),
        forall|enlarged: RgbaImage|
            is_enlarged(*img, enlarged) ==> #[trigger] call_requires(is_dark, (&enlarged,)),
    ensures
        is_request(*img, language_tag@, is_dark, request),
{
    let prepared = prepare_for_ocr(img, is_dark);
    assert(prepared.wf());
    let bitmap = rgba_to_software_bitmap(&prepared);
    let engine = create_engine(language_tag);
    OcrRequest { bitmap, engine }
}

/// The languages of the tray submenu: display name and language tag of each.
pub open spec fn language_table() -> Seq<(Seq<char>, Seq<char>)> {
    seq![
        ("Auto (System Language)"@, ""@),
        ("English"@, "en"@),
        ("German / Deutsch"@, "de"@),
        ("French / Français"@, "fr"@),
        ("Spanish / Español"@, "es"@),
        ("Chinese Simplified"@, "zh-Hans"@),
        ("Chinese Traditional"@, "zh-Hant"@),
        ("Japanese / 日本語"@, "ja"@),
        ("Korean / 한국어"@, "ko"@),
        ("Russian / Русский"@, "ru"@),
        ("Arabic / العربية"@, "ar"@),
    ]
}

/// `languages` are those of the tray submenu, in order.
pub open spec fn are_languages(languages: Seq<(String, String)>) -> bool {
    &&& languages.len() == language_table().len()
    &&& forall|i: int|
        0 <= i < languages.len() ==> (#[trigger] languages[i]).0@ == language_table()[i].0
            && languages[i].1@ == language_table()[i].1
}

/// Returns (display name, language tag) pairs for the tray submenu.
///
/// Which of them the system can recognise depends on the language packs installed.
pub fn available_languages() -> (languages: Vec<(String, String)>)
    ensures
        are_languages(languages@),
{
    vec![
        ("Auto (System Language)".to_string(), "".to_string()),
        ("English".to_string(), "en".to_string()),
        ("German / Deutsch".to_string(), "de".to_string()),
        ("French / Français".to_string(), "fr".to_string()),
        ("Spanish / Español".to_string(), "es".to_string()),
        ("Chinese Simplified".to_string(), "zh-Hans".to_string()),
        ("Chinese Traditional".to_string(), "zh-Hant".to_string()),
        ("Japanese / 日本語".to_string(), "ja".to_string()),
        ("Korean / 한국어".to_string(), "ko".to_string()),
        ("Russian / Русский".to_string(), "ru".to_string()),
        ("Arabic / العربية".to_string(), "ar".to_string()),
    ]
}

} // verus!
