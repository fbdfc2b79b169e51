use snip2text::config::Config;
use snip2text::ocr::{
    available_languages, can_enlarge, create_engine, enlarge, prepare_for_ocr,
    rgba_to_software_bitmap, run_ocr, tone, Engine,
};
use snip2text::raster::RgbaImage;

/// An image whose pixels all differ.
fn numbered(width: u32, height: u32) -> RgbaImage {
    let mut img = RgbaImage::new(width, height);
    for y in 0..height {
        for x in 0..width {
            img.put_pixel(x, y, (x as u8, y as u8, (x + 7 * y) as u8, 200));
        }
    }
    img
}

#[test]
fn a_small_image_grows_in_blocks() {
    let img = numbered(3, 2);
    let out = enlarge(&img);
    assert_eq!((out.width, out.height), (300, 200));
    assert_eq!(out.data.len(), 300 * 200 * 4);
    for y in 0..200 {
        for x in 0..300 {
            assert_eq!(out.get_pixel(x, y), img.get_pixel(x / 100, y / 100));
        }
    }
}

#[test]
fn the_factor_is_rounded_up() {
    let img = numbered(150, 151);
    let out = enlarge(&img);
    assert_eq!((out.width, out.height), (300, 302));
    for y in (0..302).step_by(13) {
        for x in 0..300 {
            assert_eq!(out.get_pixel(x, y), img.get_pixel(x / 2, y / 2));
        }
    }
    let narrow = enlarge(&numbered(1, 4));
    assert_eq!((narrow.width, narrow.height), (200, 800));
    assert_eq!(narrow.get_pixel(199, 599), (0, 2, 14, 200));
    let almost = enlarge(&numbered(199, 201));
    assert_eq!((almost.width, almost.height), (398, 402));
}

#[test]
fn a_large_image_keeps_its_size() {
    let img = numbered(200, 260);
    let out = enlarge(&img);
    assert_eq!((out.width, out.height), (200, 260));
    assert_eq!(out.data, img.data);
}

#[test]
fn enlargement_has_limits() {
    assert!(can_enlarge(1, 1));
    assert!(can_enlarge(200, 200));
    assert!(can_enlarge(7680, 4320));
    assert!(!can_enlarge(0, 5));
    assert!(!can_enlarge(5, 0));
    assert!(!can_enlarge(1, u32::MAX));
    assert!(!can_enlarge(u32::MAX, 199));
    assert!(can_enlarge(u32::MAX, 200));
}

#[test]
fn dark_images_are_inverted() {
    let img = RgbaImage { width: 2, height: 1, data: vec![0, 10, 255, 7, 100, 200, 50, 255] };
    let out = tone(img, true);
    assert_eq!((out.width, out.height), (2, 1));
    assert_eq!(out.data, vec![255, 245, 0, 7, 155, 55, 205, 255]);
}

#[test]
fn light_images_stay_as_they_are() {
    let img = RgbaImage { width: 1, height: 1, data: vec![1, 2, 3, 4] };
    assert_eq!(tone(img, false).data, vec![1, 2, 3, 4]);
}

#[test]
fn inverting_twice_restores() {
    let img = numbered(5, 4);
    let data = img.data.clone();
    assert_eq!(tone(tone(img, true), true).data, data);
}

#[test]
fn inverting_mirrors_brightness() {
    let img = numbered(5, 4);
    let luma = |data: &[u8]| -> u64 {
        data.chunks(4)
            .map(|p| 299 * p[0] as u64 + 587 * p[1] as u64 + 114 * p[2] as u64)
            .sum()
    };
    let before = luma(&img.data);
    let after = luma(&tone(img, true).data);
    assert_eq!(after, 255_000 * 20 - before);
}

#[test]
fn darkness_is_judged_on_the_enlarged_image() {
    let img = numbered(4, 2);
    let out = prepare_for_ocr(&img, |seen| seen.width == 400 && seen.height == 200);
    assert_eq!((out.width, out.height), (400, 200));
    assert_eq!(out.get_pixel(399, 199), (255 - 3, 255 - 1, 255 - 10, 200));
    let kept = prepare_for_ocr(&img, |_| false);
    assert_eq!(kept.get_pixel(399, 199), (3, 1, 10, 200));
}

#[test]
fn bitmap_bytes_are_in_bgra_order() {
    let img = RgbaImage { width: 2, height: 1, data: vec![1, 2, 3, 4, 5, 6, 7, 8] };
    let bitmap = rgba_to_software_bitmap(&img);
    assert_eq!(bitmap.bgra, vec![3, 2, 1, 4, 7, 6, 5, 8]);
    assert_eq!((bitmap.width, bitmap.height), (2, 1));
}

#[test]
fn no_tag_asks_for_the_users_languages() {
    assert_eq!(create_engine(""), Engine::UserProfileLanguages);
    assert_eq!(create_engine("zh-Hans"), Engine::Language("zh-Hans".to_string()));
}

#[test]
fn a_request_holds_bitmap_and_engine() {
    let img = RgbaImage { width: 1, height: 1, data: vec![10, 20, 30, 255] };
    let request = run_ocr(&img, "en", |_| true);
    assert_eq!((request.bitmap.width, request.bitmap.height), (200, 200));
    assert_eq!(request.bitmap.bgra.len(), 200 * 200 * 4);
    assert_eq!(&request.bitmap.bgra[..4], &[225, 235, 245, 255]);
    assert_eq!(request.engine, Engine::Language("en".to_string()));
}

#[test]
fn languages_of_the_menu() {
    let languages = available_languages();
    let tags: Vec<&str> = languages.iter().map(|(_, tag)| tag.as_str()).collect();
    assert_eq!(
        tags,
        vec!["", "en", "de", "fr", "es", "zh-Hans", "zh-Hant", "ja", "ko", "ru", "ar"]
    );
    assert_eq!(languages[0].0, "Auto (System Language)");
    assert_eq!(languages[3].0, "French / Français");
    assert_eq!(languages[7].0, "Japanese / 日本語");
    assert_eq!(languages[10].0, "Arabic / العربية");
}

#[test]
fn the_default_language_is_automatic() {
    let language = Config::default().ocr_language;
    assert_eq!(available_languages()[0].1, language);
    assert_eq!(create_engine(&language), Engine::UserProfileLanguages);
}

/// Whether the mean brightness of an image is less than 128.
fn is_dark(img: &RgbaImage) -> bool {
    let total: f64 = img
        .data
        .chunks(4)
        .map(|p| 0.299 * p[0] as f64 + 0.587 * p[1] as f64 + 0.114 * p[2] as f64)
        .sum();
    total / ((img.width * img.height) as f64) < 128.0
}

#[test]
fn an_image_and_its_negative_are_prepared_alike() {
    let negative = tone(numbered(40, 30), true);
    let from_dark = prepare_for_ocr(&numbered(40, 30), is_dark);
    let from_light = prepare_for_ocr(&negative, is_dark);
    assert_eq!((from_dark.width, from_dark.height), (280, 210));
    assert_eq!((from_light.width, from_light.height), (280, 210));
    assert_eq!(from_dark.data, from_light.data);
    assert_eq!(from_dark.get_pixel(0, 0), (255, 255, 255, 200));
}

#[test]
fn preparing_twice_is_preparing_once() {
    let once = prepare_for_ocr(&numbered(40, 30), is_dark);
    assert!(!is_dark(&once));
    let twice = prepare_for_ocr(&once, is_dark);
    assert_eq!((twice.width, twice.height), (once.width, once.height));
    assert_eq!(twice.data, once.data);
}

#[test]
fn a_clearly_dark_or_light_image_is_prepared_light() {
    let total = |img: &RgbaImage| -> u64 {
        img.data
            .chunks(4)
            .map(|p| 299 * p[0] as u64 + 587 * p[1] as u64 + 114 * p[2] as u64)
            .sum()
    };
    let dark = numbered(40, 30);
    assert!(total(&dark) <= 1000 * 100 * 1200);
    let light = tone(numbered(40, 30), true);
    for img in [dark, light] {
        let out = prepare_for_ocr(&img, is_dark);
        assert!(total(&out) >= 1000 * 155 * (out.width as u64 * out.height as u64));
    }
}

#[test]
fn enlarging_keeps_the_mean_brightness() {
    let luma = |data: &[u8]| -> u64 {
        data.chunks(4)
            .map(|p| 299 * p[0] as u64 + 587 * p[1] as u64 + 114 * p[2] as u64)
            .sum()
    };
    let img = numbered(40, 30);
    assert_eq!(luma(&enlarge(&img).data), 49 * luma(&img.data));
}
