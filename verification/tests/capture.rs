use snip2text::capture::{capture_region, extract_rgba, plan_capture};
use snip2text::ocr::{rgba_to_software_bitmap, run_ocr};
use snip2text::raster::RgbaImage;

#[test]
fn capture_packs_bgrx_bytes() {
    let raw: Vec<u8> = vec![0x11, 0x22, 0x33, 0xFF, 0x01, 0x02, 0x03, 0x00];
    assert_eq!(capture_region(&raw), vec![0x00332211, 0x00030201]);
}

#[test]
fn capture_ignores_an_incomplete_pixel() {
    assert_eq!(capture_region(&[9, 8, 7, 6, 5]), vec![0x00070809]);
    assert_eq!(capture_region(&[9, 8, 7]), Vec::<u32>::new());
    assert_eq!(capture_region(&[]), Vec::<u32>::new());
}

#[test]
fn plan_asks_for_rows_from_the_top() {
    let plan = plan_capture(-1920, 40, 1920, 1080);
    assert_eq!((plan.x, plan.y), (-1920, 40));
    assert_eq!((plan.width, plan.height, plan.header_height), (1920, 1080, -1080));
    assert_eq!((plan.planes, plan.bit_count, plan.compression), (1, 32, 0));
    assert_eq!(plan.scan_lines, 1080);
    assert_eq!(plan.buffer_len, 1920 * 1080 * 4);
}

#[test]
fn extract_cuts_a_region() {
    // 4 columns, 3 rows; the pixel in column x of row y is 0x00yy00xx.
    let pixels: Vec<u32> = (0..12u32).map(|i| (i / 4) << 16 | (i % 4)).collect();
    let img = extract_rgba(&pixels, 4, 1, 1, 2, 2);
    assert_eq!((img.width, img.height), (2, 2));
    assert_eq!(
        img.data,
        vec![1, 0, 1, 255, 1, 0, 2, 255, 2, 0, 1, 255, 2, 0, 2, 255]
    );
}

#[test]
fn extract_separates_the_channels() {
    let img = extract_rgba(&[0xAA123456], 1, 0, 0, 1, 1);
    assert_eq!(img.get_pixel(0, 0), (0x12, 0x34, 0x56, 255));
}

#[test]
fn extract_of_nothing_is_empty() {
    let img = extract_rgba(&[], 7, 3, 5, 0, 4);
    assert_eq!((img.width, img.height), (0, 4));
    assert!(img.data.is_empty());
}

#[test]
fn a_cut_out_keeps_the_captured_bytes() {
    let raw: Vec<u8> = (0..4 * 6).map(|i| i as u8).collect();
    let pixels = capture_region(&raw);
    let img = extract_rgba(&pixels, 3, 1, 0, 2, 2);
    let bitmap = rgba_to_software_bitmap(&img);
    assert_eq!((bitmap.width, bitmap.height), (2, 2));
    assert_eq!(
        bitmap.bgra,
        vec![4, 5, 6, 255, 8, 9, 10, 255, 16, 17, 18, 255, 20, 21, 22, 255]
    );
}

#[test]
fn the_recogniser_gets_the_captured_bytes() {
    let raw: Vec<u8> = (0..4 * 6).map(|i| i as u8).collect();
    let pixels = capture_region(&raw);
    let img = extract_rgba(&pixels, 3, 1, 0, 2, 2);
    for dark in [false, true] {
        let bitmap = run_ocr(&img, "", |_| dark).bitmap;
        assert_eq!((bitmap.width, bitmap.height), (200, 200));
        for (i, px) in bitmap.bgra.chunks(4).enumerate() {
            let (x, y) = (i % 200, i / 200);
            let at = 4 * ((y / 100) * 3 + 1 + x / 100);
            for c in 0..3 {
                assert_eq!(px[c], if dark { 255 - raw[at + c] } else { raw[at + c] });
            }
            assert_eq!(px[3], 255);
        }
    }
}

#[test]
fn a_planned_capture_has_one_pixel_for_each_of_the_monitor() {
    let plan = plan_capture(0, 0, 7, 5);
    assert_eq!(capture_region(&vec![0xFF; plan.buffer_len]), vec![0x00FFFFFF; 35]);
}

#[test]
fn a_new_image_is_zero_until_pixels_are_put() {
    let mut img = RgbaImage::new(2, 2);
    assert_eq!(img.data, vec![0u8; 16]);
    img.put_pixel(1, 0, (1, 2, 3, 4));
    assert_eq!(img.get_pixel(1, 0), (1, 2, 3, 4));
    assert_eq!(img.get_pixel(0, 0), (0, 0, 0, 0));
    assert_eq!(img.get_pixel(0, 1), (0, 0, 0, 0));
    assert_eq!(img.data, vec![0, 0, 0, 0, 1, 2, 3, 4, 0, 0, 0, 0, 0, 0, 0, 0]);
}
