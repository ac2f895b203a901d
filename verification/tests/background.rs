use apexshot::background::{
    capture_to_cairo_argb_bytes, capture_to_rgba_bytes, rgba_to_cairo_argb_bytes, toolbar_blur_size,
    CaptureData, PixelFormat,
};
use apexshot::selection::SelectionError;

#[test]
fn opaque_rgba_becomes_bgra_with_row_padding() {
    let raw = [10u8, 20, 30, 255, 40, 50, 60, 255];
    let out = rgba_to_cairo_argb_bytes(&raw, 2, 1, 12);
    assert_eq!(out, vec![30, 20, 10, 255, 60, 50, 40, 255, 0, 0, 0, 0]);
}

#[test]
fn translucent_pixels_are_premultiplied() {
    // Alpha 128: 200 * 128 = 25600, (25600 + 127) / 255 = 100.
    let raw = [200u8, 100, 0, 128, 9, 9, 9, 0];
    let out = rgba_to_cairo_argb_bytes(&raw, 2, 1, 8);
    assert_eq!(out, vec![0, 50, 100, 128, 0, 0, 0, 0]);
}

#[test]
fn narrow_stride_truncates_rows() {
    let raw = [1u8, 2, 3, 255, 4, 5, 6, 255, 7, 8, 9, 255, 10, 11, 12, 255];
    // Two rows of two pixels, but only one pixel fits in a 6-byte row.
    let out = rgba_to_cairo_argb_bytes(&raw, 2, 2, 6);
    assert_eq!(out, vec![3, 2, 1, 255, 0, 0, 9, 8, 7, 255, 0, 0]);
}

fn capture(format: PixelFormat, pixels: Vec<u8>, width: u32, height: u32, stride: u32) -> CaptureData {
    CaptureData { pixels, width, height, stride, format }
}

#[test]
fn capture_formats_map_to_argb() {
    let c = capture(PixelFormat::BGR24, vec![1, 2, 3, 4, 5, 6, 0, 0], 2, 1, 8);
    assert_eq!(capture_to_cairo_argb_bytes(&c, 8), vec![1, 2, 3, 255, 4, 5, 6, 255]);
    let c = capture(PixelFormat::RGBA32, vec![1, 2, 3, 9], 1, 1, 4);
    assert_eq!(capture_to_cairo_argb_bytes(&c, 8), vec![3, 2, 1, 255, 0, 0, 0, 0]);
    let c = capture(PixelFormat::BGRA32, vec![1, 2, 3, 9], 1, 1, 4);
    assert_eq!(capture_to_cairo_argb_bytes(&c, 4), vec![1, 2, 3, 255]);
}

#[test]
fn capture_formats_map_to_rgba() {
    let c = capture(PixelFormat::RGB24, vec![1, 2, 3, 0, 4, 5, 6, 0], 1, 2, 4);
    assert_eq!(capture_to_rgba_bytes(&c), vec![1, 2, 3, 255, 4, 5, 6, 255]);
    let c = capture(PixelFormat::BGR32, vec![1, 2, 3, 0], 1, 1, 4);
    assert_eq!(capture_to_rgba_bytes(&c), vec![3, 2, 1, 255]);
    assert_eq!(PixelFormat::RGB32.bytes_per_pixel(), 4);
    assert_eq!(PixelFormat::RGB24.bytes_per_pixel(), 3);
}

#[test]
fn toolbar_blur_is_a_quarter_size_and_at_least_one_pixel() {
    assert_eq!(toolbar_blur_size(1920, 1080).ok(), Some((480, 270)));
    assert_eq!(toolbar_blur_size(3, 7).ok(), Some((1, 1)));
    assert!(matches!(toolbar_blur_size(0, 1080), Err(SelectionError::InitError(_))));
    assert!(matches!(toolbar_blur_size(1920, 0), Err(SelectionError::InitError(_))));
}
