use std::time::Duration;
use apexshot::pipewire_engine::{
    rgba_frame_from_raw, composite_cursor_into_frame, convert_to_rgba_pixels, cursor_bitmap_index, cursor_blend_bounds, format_bpp,
    format_has_alpha, format_swaps_rb, frame_wait_step, negotiated_format, required_frames,
    rgba_copy_plan, swap_red_blue, ColorSpace, CursorOverlay, PipeWireError, RawVideoInfo, StreamInner, VideoFormat,
};

#[test]
fn test_format_bpp() {
    assert_eq!(format_bpp(VideoFormat::BGRA), 4);
    assert_eq!(format_bpp(VideoFormat::RGBA), 4);
    assert_eq!(format_bpp(VideoFormat::BGRx), 4);
}

#[test]
fn test_format_swaps_rb() {
    assert!(format_swaps_rb(VideoFormat::BGRx));
    assert!(format_swaps_rb(VideoFormat::BGRA));
    assert!(!format_swaps_rb(VideoFormat::RGBx));
    assert!(!format_swaps_rb(VideoFormat::RGBA));
}

#[test]
fn test_color_space_defaults() {
    let cs = ColorSpace::default();
    assert_eq!(cs.range, 1);
    assert_eq!(cs.matrix, 1);
    assert_eq!(cs.matrix_label(), "RGB");
    assert_eq!(cs.range_label(), "full (0-255)");
}

#[test]
fn test_color_space_labels() {
    assert_eq!(ColorSpace { range: 2, matrix: 3 }.matrix_label(), "BT.709");
    assert_eq!(ColorSpace { range: 2, matrix: 3 }.range_label(), "limited (16-235)");
}

#[test]
fn test_convert_bgra_to_rgba_indirect() {
    assert!(format_swaps_rb(VideoFormat::BGRA));
    assert!(!format_swaps_rb(VideoFormat::RGBA));
    assert_eq!(format_bpp(VideoFormat::BGRA), 4);
}

#[test]
fn rgba_copy_plan_rejects_area_crop_hint_mismatch() {
    let packed_1080p = 1920 * 1080 * 4;
    assert_eq!(rgba_copy_plan(packed_1080p, 1920, 1080, 4), Some(1920 * 4));
    assert_eq!(rgba_copy_plan(640 * 480 * 4, 1920, 1080, 4), None);
    assert_eq!(rgba_copy_plan(0, 1920, 1080, 4), None);
    let padded = 1920 * 4 + 64;
    assert_eq!(rgba_copy_plan(padded * 1080, 1920, 1080, 4), Some(padded));
}

#[test]
fn color_labels_cover_every_code() {
    assert_eq!(ColorSpace { range: 1, matrix: 2 }.matrix_label(), "BT.601");
    assert_eq!(ColorSpace { range: 0, matrix: 0 }.matrix_label(), "unknown");
    assert_eq!(ColorSpace { range: 7, matrix: 1 }.range_label(), "unknown");
}

#[test]
fn copy_plan_edge_cases() {
    assert_eq!(rgba_copy_plan(16, 0, 4, 4), None);
    assert_eq!(rgba_copy_plan(16, 4, 0, 4), None);
    assert_eq!(rgba_copy_plan(16, 4, 1, 0), None);
    // A length that does not divide into rows is read packed.
    assert_eq!(rgba_copy_plan(17, 2, 2, 4), Some(8));
    // Overflowing sizes are rejected rather than wrapped.
    assert_eq!(rgba_copy_plan(usize::MAX, usize::MAX, 2, 4), None);
}

#[test]
fn bgrx_frame_becomes_opaque_rgba() {
    // Two pixels in BGRx order, one row.
    let raw = [10u8, 20, 30, 0, 40, 50, 60, 7];
    let px = convert_to_rgba_pixels(&raw, 2, 1, VideoFormat::BGRx).unwrap();
    assert_eq!(px, vec![30, 20, 10, 255, 60, 50, 40, 255]);
}

#[test]
fn rgba_frame_keeps_alpha_and_skips_row_padding() {
    // Two rows of one pixel, each row padded to 8 bytes.
    let raw = [1u8, 2, 3, 4, 99, 99, 99, 99, 5, 6, 7, 8, 98, 98, 98, 98];
    assert!(format_has_alpha(VideoFormat::RGBA));
    let px = convert_to_rgba_pixels(&raw, 1, 2, VideoFormat::RGBA).unwrap();
    assert_eq!(px, vec![1, 2, 3, 4, 5, 6, 7, 8]);
    let bgra = convert_to_rgba_pixels(&raw, 1, 2, VideoFormat::BGRA).unwrap();
    assert_eq!(bgra, vec![3, 2, 1, 4, 7, 6, 5, 8]);
    assert_eq!(convert_to_rgba_pixels(&raw[..3], 1, 1, VideoFormat::RGBA), None);
}

#[test]
fn frame_carries_size_stride_cursor_and_color_space() {
    let raw = vec![0u8; 3 * 2 * 4];
    let cs = ColorSpace { range: 2, matrix: 3 };
    let frame = rgba_frame_from_raw(&raw, 3, 2, VideoFormat::Other(99), cs, None).unwrap();
    assert_eq!(frame.width, 3);
    assert_eq!(frame.height, 2);
    assert_eq!(frame.stride, 12);
    assert_eq!(frame.pixels.len(), 24);
    assert_eq!(frame.pixels[3], 255);
    assert!(frame.cursor.is_none());
    assert_eq!(frame.color_space.matrix, 3);
}

fn info(width: u32, height: u32, format: VideoFormat) -> RawVideoInfo {
    RawVideoInfo {
        format,
        width,
        height,
        framerate_num: 60,
        framerate_denom: 1,
        color_space: ColorSpace { range: 2, matrix: 2 },
    }
}

#[test]
fn negotiated_stride_is_width_times_four() {
    let f = negotiated_format(&info(1920, 1080, VideoFormat::BGRx));
    assert_eq!(f.stride, 7680);
    assert_eq!(f.framerate_num, 60);
    assert_eq!(f.color_space.range, 2);
}

#[test]
fn queued_frames_come_out_in_arrival_order() {
    let mut inner = StreamInner::new(None);
    assert!(matches!(inner.take_uncomposited_frame(), Ok(None)));
    inner.record_format(info(1, 1, VideoFormat::RGBA));
    assert!(inner.accepts_frame());
    inner.push_frame(vec![1, 2, 3, 4]);
    inner.push_frame(vec![5, 6, 7, 8]);
    let first = inner.take_uncomposited_frame().unwrap().unwrap();
    let second = inner.take_uncomposited_frame().unwrap().unwrap();
    assert_eq!(first.pixels, vec![1, 2, 3, 4]);
    assert_eq!(second.pixels, vec![5, 6, 7, 8]);
    assert_eq!(first.color_space.matrix, 2);
    assert_eq!(inner.frames_consumed(), 2);
    assert!(matches!(inner.take_uncomposited_frame(), Ok(None)));
}

#[test]
fn frames_wait_for_a_negotiated_format() {
    let mut inner = StreamInner::new(None);
    inner.push_frame(vec![1, 2, 3, 4]);
    assert!(matches!(inner.take_uncomposited_frame(), Ok(None)));
    assert_eq!(inner.frames_consumed(), 0);
    assert!(inner.negotiation_outcome().is_none());
    inner.record_format(info(1, 1, VideoFormat::BGRA));
    assert!(matches!(inner.negotiation_outcome(), Some(Ok(()))));
    assert_eq!(inner.format().unwrap().width, 1);
    let frame = inner.take_uncomposited_frame().unwrap().unwrap();
    assert_eq!(frame.pixels, vec![3, 2, 1, 4]);
}

#[test]
fn a_short_buffer_is_consumed_without_a_frame() {
    let mut inner = StreamInner::new(None);
    inner.record_format(info(4, 4, VideoFormat::RGBA));
    inner.push_frame(vec![0; 8]);
    assert!(matches!(inner.take_uncomposited_frame(), Ok(None)));
    assert_eq!(inner.frames_consumed(), 1);
}

#[test]
fn queue_stops_accepting_at_max_frames() {
    let mut inner = StreamInner::new(Some(2));
    assert!(inner.accepts_frame());
    inner.push_frame(vec![0; 4]);
    assert!(inner.accepts_frame());
    inner.push_frame(vec![0; 4]);
    assert!(!inner.accepts_frame());
    assert!(inner.has_buffered(2));
    assert!(!inner.has_buffered(3));
}

#[test]
fn stream_errors_are_reported_first() {
    let mut inner = StreamInner::new(None);
    inner.record_format(info(1, 1, VideoFormat::RGBA));
    inner.push_frame(vec![1, 2, 3, 4]);
    inner.record_error("boom".to_string());
    assert!(inner.has_error());
    assert_eq!(inner.error_message(), Some("boom".to_string()));
    match inner.take_uncomposited_frame() {
        Err(PipeWireError::Stream(m)) => assert_eq!(m, "boom"),
        _ => panic!("expected a stream error"),
    }
    assert_eq!(inner.frames_consumed(), 0);
    assert!(matches!(inner.negotiation_outcome(), Some(Err(PipeWireError::Stream(_)))));
}

#[test]
fn cursor_bitmap_swaps_red_and_blue() {
    let mut px = vec![1u8, 2, 3, 4, 5, 6, 7, 8, 9];
    swap_red_blue(&mut px);
    assert_eq!(px, vec![3, 2, 1, 4, 7, 6, 5, 8, 9]);
}

#[test]
fn cursor_bounds_are_clipped_to_the_frame() {
    let cursor = CursorOverlay {
        bitmap: vec![0; 16 * 16 * 4],
        width: 16,
        height: 16,
        x: 2,
        y: 100,
        hotspot_x: 5,
        hotspot_y: 4,
    };
    assert_eq!(cursor_blend_bounds(&cursor, 200, 100), (2, 100, 18, 100));
}

#[test]
fn cursor_bitmap_top_left_sits_at_the_cursor_position() {
    let one = CursorOverlay { bitmap: vec![9, 9, 9, 255], width: 1, height: 1, x: 1, y: 0, hotspot_x: 1, hotspot_y: 0 };
    assert_eq!(cursor_blend_bounds(&one, 2, 1), (1, 0, 2, 1));
    assert_eq!(cursor_bitmap_index(&one, 1, 0), Some(0));
    assert_eq!(cursor_bitmap_index(&one, 0, 0), None);

    // Clipped at the left edge: frame column 0 shows bitmap column 3.
    let wide = CursorOverlay { bitmap: vec![0; 4 * 2 * 4], width: 4, height: 2, x: -3, y: -1, hotspot_x: 0, hotspot_y: 0 };
    assert_eq!(cursor_blend_bounds(&wide, 10, 10), (0, 0, 1, 1));
    assert_eq!(cursor_bitmap_index(&wide, 0, 0), Some((1 * 4 + 3) * 4));
    let short = CursorOverlay { bitmap: vec![0; 7], ..one };
    assert_eq!(cursor_bitmap_index(&short, 1, 0), Some(0));
    let shorter = CursorOverlay { bitmap: vec![0; 3], width: 1, height: 1, x: 1, y: 0, hotspot_x: 0, hotspot_y: 0 };
    assert_eq!(cursor_bitmap_index(&shorter, 1, 0), None);
}

#[test]
fn buffered_wait_ends_on_frames_timeout_or_error() {
    let t = Duration::from_millis(500);
    let mut inner = StreamInner::new(None);
    assert!(inner.buffered_wait_step(1, false, t).is_none());
    assert!(matches!(inner.buffered_wait_step(1, true, t), Some(Err(PipeWireError::Timeout(d))) if d == t));
    inner.record_error("lost".to_string());
    assert!(matches!(inner.buffered_wait_step(1, false, t), Some(Err(PipeWireError::Stream(m))) if m == "lost"));
    let mut ok = StreamInner::new(None);
    ok.push_frame(vec![0; 4]);
    assert!(matches!(ok.buffered_wait_step(1, true, t), Some(Ok(()))));
    assert_eq!(required_frames(0), 1);
    assert_eq!(required_frames(1), 1);
    assert_eq!(required_frames(4), 4);
}

#[test]
fn frame_wait_step_decides_after_each_poll() {
    let t = Duration::from_secs(2);
    let frame = rgba_frame_from_raw(&[1, 2, 3, 4], 1, 1, VideoFormat::RGBA, ColorSpace::default(), None).unwrap();
    assert!(matches!(frame_wait_step(Ok(Some(frame)), true, None, t), Some(Ok(f)) if f.pixels == vec![1, 2, 3, 4]));
    assert!(matches!(frame_wait_step(Err(PipeWireError::NoFrame), false, None, t), Some(Err(PipeWireError::NoFrame))));
    assert!(matches!(frame_wait_step(Ok(None), true, Some("x".into()), t), Some(Err(PipeWireError::Timeout(_)))));
    assert!(matches!(frame_wait_step(Ok(None), false, Some("x".into()), t), Some(Err(PipeWireError::Stream(m))) if m == "x"));
    assert!(frame_wait_step(Ok(None), false, None, t).is_none());
}

fn over(c: u8, a: u8, p: u8) -> u8 {
    ((c as u16 * a as u16 + p as u16 * (255 - a as u16)) / 255) as u8
}

#[test]
fn compositing_draws_only_under_the_cursor() {
    // Opaque red 1x1 cursor over a black 1x1 frame.
    let red = CursorOverlay { bitmap: vec![255, 0, 0, 255], width: 1, height: 1, x: 0, y: 0, hotspot_x: 0, hotspot_y: 0 };
    let mut px = vec![0u8, 0, 0, 0];
    composite_cursor_into_frame(&mut px, 1, 1, 4, &red, over);
    assert_eq!(px, vec![255, 0, 0, 255]);

    // Cursor at column 1 of a 2x1 frame padded to 12-byte rows.
    let one = CursorOverlay { bitmap: vec![9, 9, 9, 255], width: 1, height: 1, x: 1, y: 0, hotspot_x: 1, hotspot_y: 0 };
    let mut px = vec![7u8; 12];
    composite_cursor_into_frame(&mut px, 2, 1, 12, &one, over);
    assert_eq!(px, vec![7, 7, 7, 7, 9, 9, 9, 255, 7, 7, 7, 7]);

    // A cursor off the frame changes nothing.
    let off = CursorOverlay { x: 5, ..one.clone() };
    let mut px = vec![1u8; 8];
    composite_cursor_into_frame(&mut px, 2, 1, 8, &off, over);
    assert_eq!(px, vec![1u8; 8]);
}
