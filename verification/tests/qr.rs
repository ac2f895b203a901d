use apexshot::qr::{detect_and_decode_from_gray, first_decoded_payload, gray_at};
use qrcode::{types::Color, QrCode};

/// Luminance the way the capture pipeline computes it from RGBA pixels.
fn to_gray(rgba: &[u8]) -> Vec<u8> {
    rgba.chunks_exact(4)
        .map(|p| {
            if p[3] < 50 {
                255u8
            } else {
                (0.299 * p[0] as f32 + 0.587 * p[1] as f32 + 0.114 * p[2] as f32) as u8
            }
        })
        .collect()
}

fn render_qr(payload: &str, module_px: u32, quiet_zone_modules: u32) -> (Vec<u8>, u32) {
    let code = QrCode::new(payload.as_bytes()).unwrap();
    let modules = code.width() as u32;
    let size = (modules + quiet_zone_modules * 2) * module_px;
    let mut rgba = vec![255u8; (size * size * 4) as usize];
    for y in 0..modules {
        for x in 0..modules {
            if code[(x as usize, y as usize)] == Color::Dark {
                let start_x = (x + quiet_zone_modules) * module_px;
                let start_y = (y + quiet_zone_modules) * module_px;
                for py in start_y..start_y + module_px {
                    for px in start_x..start_x + module_px {
                        let i = ((py * size + px) * 4) as usize;
                        rgba[i..i + 4].copy_from_slice(&[0, 0, 0, 255]);
                    }
                }
            }
        }
    }
    (rgba, size)
}

#[test]
fn test_detects_generated_qr() {
    let payload = "https://apexshot.test/qr-smoke";
    let (rgba, size) = render_qr(payload, 8, 4);
    let gray = to_gray(&rgba);
    assert_eq!(detect_and_decode_from_gray(&gray, size, size).as_deref(), Some(payload));
}

#[test]
fn test_detects_generated_qr_with_transparent_margin() {
    let payload = "apexshot:transparent-qr";
    let (mut rgba, size) = render_qr(payload, 6, 4);
    for y in 0..size {
        for x in 0..size {
            if x < 8 || y < 8 || x >= size - 8 || y >= size - 8 {
                let i = ((y * size + x) * 4) as usize;
                rgba[i..i + 4].copy_from_slice(&[0, 0, 0, 0]);
            }
        }
    }
    let gray = to_gray(&rgba);
    assert_eq!(detect_and_decode_from_gray(&gray, size, size).as_deref(), Some(payload));
}

#[test]
fn test_no_qr_on_plain_image() {
    let pixels = vec![255u8; 100 * 100 * 4];
    let gray = to_gray(&pixels);
    assert!(detect_and_decode_from_gray(&gray, 100, 100).is_none());
}

#[test]
fn test_no_qr_on_noise() {
    let pixels: Vec<u8> = (0..50 * 50 * 4).map(|i| (i % 256) as u8).collect();
    let gray = to_gray(&pixels);
    assert!(detect_and_decode_from_gray(&gray, 50, 50).is_none());
}

#[test]
fn gray_lookup_is_row_major() {
    let data = [1u8, 2, 3, 4, 5, 6];
    assert_eq!(gray_at(&data, 3, 1, 1), 5);
    assert_eq!(gray_at(&data, 3, 0, 2), 0);
    assert_eq!(gray_at(&data, usize::MAX, 2, 2), 0);
}

#[test]
fn first_decoded_payload_skips_undecodable_grids() {
    let payloads = vec![None, Some("second".to_string()), Some("third".to_string())];
    assert_eq!(first_decoded_payload(&payloads).as_deref(), Some("second"));
    assert_eq!(first_decoded_payload(&vec![None, None]), None);
    assert_eq!(first_decoded_payload(&Vec::new()), None);
}

#[test]
fn images_without_pixels_hold_no_code() {
    assert_eq!(detect_and_decode_from_gray(&[], 0, 1), None);
    assert_eq!(detect_and_decode_from_gray(&[], 5, 0), None);
    assert_eq!(detect_and_decode_from_gray(&[], 0, 0), None);
}
