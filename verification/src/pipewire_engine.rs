//! Frame and format model of the PipeWire screen-capture engine.

use vstd::prelude::*;

verus! {

/// Color space information from the negotiated video format.
#[derive(Debug, Clone, Copy, PartialEq, Eq)]
pub struct ColorSpace {
    /// SPA video color range: 1 = full (0-255), 2 = limited (16-235).
    pub range: u32,
    /// SPA video color matrix: 1 = RGB, 2 = BT.601, 3 = BT.709.
    pub matrix: u32,
}

/// The label a color matrix code is shown with.
pub open spec fn matrix_label_spec(matrix: u32) -> Seq<char> {
    if matrix == 1 {
        "RGB"@
    } else if matrix == 2 {
        "BT.601"@
    } else if matrix == 3 {
        "BT.709"@
    } else {
        "unknown"@
    }
}

/// The label a color range code is shown with.
pub open spec fn range_label_spec(range: u32) -> Seq<char> {
    if range == 1 {
        "full (0-255)"@
    } else if range == 2 {
        "limited (16-235)"@
    } else {
        "unknown"@
    }
}

impl Default for ColorSpace {
    fn default() -> (cs: Self)
        ensures
            cs.range == 1,
            cs.matrix == 1,
    {
        ColorSpace { range: 1, matrix: 1 }
    }
}

impl ColorSpace {
    /// Human-readable label for the color matrix.
    pub fn matrix_label(&self) -> (label: &'static str)
        ensures
            label@ == matrix_label_spec(self.matrix),
    {
        match self.matrix {
            1 => "RGB",
            2 => "BT.601",
            3 => "BT.709",
            _ => "unknown",
        }
    }

    /// Human-readable label for the color range.
    pub fn range_label(&self) -> (label: &'static str)
        ensures
            label@ == range_label_spec(self.range),
    {
        match self.range {
            1 => "full (0-255)",
            2 => "limited (16-235)",
            _ => "unknown",
        }
    }
}

} // verus!

verus! {

/// The raw video formats the engine advertises to the compositor, plus any
/// other SPA format id it may be handed.
#[derive(Debug, Clone, Copy, PartialEq, Eq)]
pub enum VideoFormat {
    BGRx,
    BGRA,
    RGBx,
    RGBA,
    Other(u32),
}

/// Bytes per pixel of a source frame; every advertised format is 32-bit.
pub fn format_bpp(format: VideoFormat) -> (bpp: u32)
    ensures
        bpp == 4,
{
    match format {
        VideoFormat::BGRA | VideoFormat::RGBA | VideoFormat::BGRx | VideoFormat::RGBx => 4,
        _ => 4,
    }
}

/// Whether a format stores blue first in memory.
pub open spec fn swaps_rb_spec(format: VideoFormat) -> bool {
    format is BGRx || format is BGRA
}

/// Whether a format carries a real alpha channel.
pub open spec fn has_alpha_spec(format: VideoFormat) -> bool {
    format is BGRA || format is RGBA
}

/// PipeWire's BGRx/BGRA memory order is B,G,R,A/x, while frames handed out are
/// always RGBA, so BGR formats need red and blue swapped.
pub fn format_swaps_rb(format: VideoFormat) -> (swaps: bool)
    ensures
        swaps == swaps_rb_spec(format),
{
    matches!(format, VideoFormat::BGRx | VideoFormat::BGRA)
}

/// Whether the fourth byte of each source pixel is alpha (otherwise padding).
pub fn format_has_alpha(format: VideoFormat) -> (alpha: bool)
    ensures
        alpha == has_alpha_spec(format),
{
    matches!(format, VideoFormat::BGRA | VideoFormat::RGBA)
}

/// The source row stride to read a frame with, or `None` when the buffer
/// cannot hold a `width` x `height` image of `bpp`-byte pixels.
///
/// A buffer whose length divides evenly into `height` rows at least a packed
/// row long is read with that padded stride; otherwise rows are packed.
pub open spec fn copy_plan_spec(raw_len: int, width: int, height: int, bpp: int) -> Option<int> {
    if width == 0 || height == 0 || bpp == 0 {
        None
    } else if width * bpp > usize::MAX || width * bpp * height > usize::MAX {
        None
    } else if raw_len < width * bpp * height {
        None
    } else if raw_len % height == 0 && raw_len / height >= width * bpp {
        Some(raw_len / height)
    } else {
        Some(width * bpp)
    }
}

/// When a buffer is read: never for an empty image or a buffer shorter than
/// `height` packed rows; otherwise with the padded stride `raw_len / height`
/// when the buffer splits evenly into `height` rows at least a packed row
/// long, and with packed rows when it does not (such as a buffer cropped by
/// a stale size hint).
pub proof fn lemma_copy_plan_choice(raw_len: int, width: int, height: int, bpp: int)
    requires
        raw_len >= 0,
        width >= 0,
        height >= 0,
        bpp >= 0,
        width * bpp * height <= usize::MAX,
    ensures
        (width == 0 || height == 0 || bpp == 0) ==> copy_plan_spec(raw_len, width, height, bpp) is None,
        raw_len < width * bpp * height ==> copy_plan_spec(raw_len, width, height, bpp) is None,
        (width > 0 && height > 0 && bpp > 0 && raw_len >= width * bpp * height) ==> {
            &&& raw_len % height == 0 && raw_len / height >= width * bpp ==> copy_plan_spec(
                raw_len,
                width,
                height,
                bpp,
            ) == Some(raw_len / height)
            &&& !(raw_len % height == 0 && raw_len / height >= width * bpp) ==> copy_plan_spec(
                raw_len,
                width,
                height,
                bpp,
            ) == Some(width * bpp)
        },
{
    if width > 0 && height > 0 && bpp > 0 {
        assert(width * bpp <= width * bpp * height) by (nonlinear_arith)
            requires
                width > 0,
                bpp > 0,
                height > 0,
        ;
    }
}

/// Every plan can be followed without reading past the buffer: its stride
/// is at least a packed row, and `height` rows at that stride, the last one
/// packed, fit in the buffer.
pub proof fn lemma_copy_plan_fits(raw_len: int, width: int, height: int, bpp: int)
    requires
        raw_len >= 0,
        width >= 0,
        height >= 0,
        bpp >= 0,
    ensures
        copy_plan_spec(raw_len, width, height, bpp) matches Some(s) ==> {
            &&& s >= width * bpp
            &&& (height - 1) * s + width * bpp <= raw_len
        },
{
    if let Some(s) = copy_plan_spec(raw_len, width, height, bpp) {
        let packed = width * bpp;
        if raw_len % height == 0 && raw_len / height >= packed {
            assert(s == raw_len / height);
            assert(raw_len == height * (raw_len / height)) by (nonlinear_arith)
                requires
                    height > 0,
                    raw_len % height == 0,
            ;
            assert((height - 1) * s + packed <= raw_len) by (nonlinear_arith)
                requires
                    raw_len == height * s,
                    packed <= s,
                    height > 0,
            ;
        } else {
            assert(s == packed);
            assert((height - 1) * packed + packed == packed * height) by (nonlinear_arith);
        }
    }
}

pub fn rgba_copy_plan(raw_len: usize, width: usize, height: usize, bpp: usize) -> (plan: Option<
    usize,
>)
    ensures
        plan matches Some(s) ==> copy_plan_spec(raw_len as int, width as int, height as int, bpp as int) == Some(s as int),
        plan is None <==> copy_plan_spec(raw_len as int, width as int, height as int, bpp as int) is None,
{
    if width == 0 || height == 0 || bpp == 0 {
        return None;
    }
    let packed = match width.checked_mul(bpp) {
        Some(p) => p,
        None => return None,
    };
    let min_len = match packed.checked_mul(height) {
        Some(m) => m,
        None => return None,
    };
    if raw_len < min_len {
        return None;
    }
    if raw_len % height == 0 {
        let stride = raw_len / height;
        if stride >= packed {
            return Some(stride);
        }
    }
    Some(packed)
}

} // verus!

verus! {

/// Byte `k` (0 = red .. 3 = alpha) of the RGBA pixel whose source pixel
/// starts at `base` in `raw`.
pub open spec fn rgba_byte(raw: Seq<u8>, base: int, k: int, format: VideoFormat) -> u8 {
    if k == 3 {
        if has_alpha_spec(format) {
            raw[base + 3]
        } else {
            255
        }
    } else if swaps_rb_spec(format) {
        raw[base + 2 - k]
    } else {
        raw[base + k]
    }
}

/// How a source pixel becomes RGBA: BGRx and BGRA store blue first, RGBx
/// and RGBA red first (any other format is read as red first); only BGRA
/// and RGBA carry alpha, so BGRx, RGBx and other formats come out opaque
/// whatever their fourth byte holds.
pub proof fn lemma_rgba_channel_order(raw: Seq<u8>, base: int, format: VideoFormat)
    ensures
        (format is BGRx || format is BGRA) ==> {
            &&& rgba_byte(raw, base, 0, format) == raw[base + 2]
            &&& rgba_byte(raw, base, 1, format) == raw[base + 1]
            &&& rgba_byte(raw, base, 2, format) == raw[base]
        },
        !(format is BGRx || format is BGRA) ==> {
            &&& rgba_byte(raw, base, 0, format) == raw[base]
            &&& rgba_byte(raw, base, 1, format) == raw[base + 1]
            &&& rgba_byte(raw, base, 2, format) == raw[base + 2]
        },
        (format is BGRA || format is RGBA) ==> rgba_byte(raw, base, 3, format) == raw[base + 3],
        !(format is BGRA || format is RGBA) ==> rgba_byte(raw, base, 3, format) == 255,
        has_alpha_spec(format) <==> (format is BGRA || format is RGBA),
        swaps_rb_spec(format) <==> (format is BGRx || format is BGRA),
{
}

/// `pixels` is the packed RGBA image of `width` x `height` source pixels read
/// from `raw` with row stride `stride`, four bytes per source pixel.
pub open spec fn is_rgba_image_of(
    pixels: Seq<u8>,
    raw: Seq<u8>,
    width: int,
    height: int,
    stride: int,
    format: VideoFormat,
) -> bool {
    &&& pixels.len() == width * height * 4
    &&& forall|r: int, c: int, k: int|
        0 <= r < height && 0 <= c < width && 0 <= k < 4 ==> #[trigger] pixels[r * (width * 4) + c * 4
            + k] == rgba_byte(raw, r * stride + c * 4, k, format)
}

proof fn lemma_earlier_index(r: int, c: int, k: int, row: int, w: int)
    requires
        0 <= r < row,
        0 <= c < w,
        0 <= k < 4,
    ensures
        r * (w * 4) + c * 4 + k < row * (w * 4),
{
    assert((r + 1) * (w * 4) <= row * (w * 4)) by (nonlinear_arith)
        requires
            r + 1 <= row,
            w >= 0,
    ;
    assert((r + 1) * (w * 4) == r * (w * 4) + w * 4) by (nonlinear_arith);
}

proof fn lemma_source_in_bounds(r: int, c: int, k: int, h: int, w: int, stride: int, len: int)
    requires
        0 <= r < h,
        0 <= c < w,
        0 <= k < 4,
        w * 4 <= stride,
        stride * h <= len,
    ensures
        0 <= r * stride + c * 4 + k < len,
        r * stride <= len,
{
    assert(r * stride + stride <= h * stride) by (nonlinear_arith)
        requires
            r + 1 <= h,
            stride >= 0,
    ;
    assert(0 <= r * stride) by (nonlinear_arith)
        requires
            r >= 0,
            stride >= 0,
    ;
    assert(h * stride == stride * h) by (nonlinear_arith);
}

/// Convert a raw BGRx/BGRA/RGBx/RGBA frame to packed RGBA.
///
/// Returns `None` exactly when `rgba_copy_plan` rejects the buffer; otherwise
/// the image is read with the planned stride. Formats without alpha get an
/// opaque alpha channel.
pub fn convert_to_rgba_pixels(raw: &[u8], width: usize, height: usize, format: VideoFormat) -> (out:
    Option<Vec<u8>>)
    ensures
        out is Some <==> copy_plan_spec(raw@.len() as int, width as int, height as int, 4) is Some,
        out matches Some(pixels) ==> is_rgba_image_of(
            pixels@,
            raw@,
            width as int,
            height as int,
            copy_plan_spec(raw@.len() as int, width as int, height as int, 4)->0,
            format,
        ),
{
    let bpp = format_bpp(format) as usize;
    let swaps_rb = format_swaps_rb(format);
    let has_alpha = format_has_alpha(format);
    let raw_len = raw.len();
    let stride = match rgba_copy_plan(raw_len, width, height, bpp) {
        Some(s) => s,
        None => return None,
    };
    let ghost w = width as int;
    let ghost h = height as int;
    let ghost len = raw@.len() as int;
    proof {
        assert(stride * h <= len) by (nonlinear_arith)
            requires
                stride == len / h && len % h == 0 && h > 0 || stride == w * 4 && w * 4 * h <= len,
        ;
        assert(w * 4 * h == w * h * 4) by (nonlinear_arith);
        assert(w > 0 && h > 0);
    }
    let row_len = width * 4;
    let mut pixels: Vec<u8> = Vec::with_capacity(row_len * height);
    let mut row: usize = 0;
    while row < height
        invariant
            0 <= row <= height,
            w == width,
            w > 0,
            raw@.len() == raw_len,
            h == height,
            bpp == 4,
            row_len == w * 4,
            row_len * h <= usize::MAX,
            swaps_rb == swaps_rb_spec(format),
            has_alpha == has_alpha_spec(format),
            w * 4 <= stride,
            stride * h <= raw@.len(),
            pixels@.len() == row * (w * 4),
            forall|r: int, c: int, k: int|
                0 <= r < row && 0 <= c < w && 0 <= k < 4 ==> #[trigger] pixels@[r * (w * 4) + c * 4 + k]
                    == rgba_byte(raw@, r * stride + c * 4, k, format),
        decreases height - row,
    {
        proof {
            lemma_source_in_bounds(row as int, 0, 0, h, w, stride as int, raw@.len() as int);
            assert(row * stride + stride <= h * stride) by (nonlinear_arith)
                requires
                    row + 1 <= h,
                    stride >= 0,
            ;
            assert(h * stride == stride * h) by (nonlinear_arith);
        }
        let src_start = row * stride;
        let ghost row_start = pixels@.len() as int;
        let mut col: usize = 0;
        while col < width
            invariant
                0 <= row < height,
                0 <= col <= width,
                w == width,
                h == height,
                raw@.len() == raw_len,
                src_start == row * stride,
                src_start + w * 4 <= raw@.len(),
                row_start == row * (w * 4),
                swaps_rb == swaps_rb_spec(format),
                has_alpha == has_alpha_spec(format),
                w * 4 <= stride,
                stride * h <= raw@.len(),
                pixels@.len() == row_start + col * 4,
                forall|r: int, c: int, k: int|
                    0 <= r < row && 0 <= c < w && 0 <= k < 4 ==> #[trigger] pixels@[r * (w * 4) + c * 4
                        + k] == rgba_byte(raw@, r * stride + c * 4, k, format),
                forall|c: int, k: int|
                    0 <= c < col && 0 <= k < 4 ==> #[trigger] pixels@[row_start + c * 4 + k]
                        == rgba_byte(raw@, row * stride + c * 4, k, format),
            decreases width - col,
        {
            let base = src_start + col * 4;
            let ghost before = pixels@;
            if swaps_rb {
                pixels.push(raw[base + 2]);
                pixels.push(raw[base + 1]);
                pixels.push(raw[base]);
            } else {
                pixels.push(raw[base]);
                pixels.push(raw[base + 1]);
                pixels.push(raw[base + 2]);
            }
            pixels.push(if has_alpha { raw[base + 3] } else { 255 });
            proof {
                assert forall|r: int, c: int, k: int|
                    0 <= r < row && 0 <= c < w && 0 <= k < 4 implies #[trigger] pixels@[r * (w * 4) + c
                        * 4 + k] == rgba_byte(raw@, r * stride + c * 4, k, format) by {
                    lemma_earlier_index(r, c, k, row as int, w);
                    assert(pixels@[r * (w * 4) + c * 4 + k] == before[r * (w * 4) + c * 4 + k]);
                }
                assert forall|c: int, k: int|
                    0 <= c < col + 1 && 0 <= k < 4 implies #[trigger] pixels@[row_start + c * 4 + k]
                        == rgba_byte(raw@, row * stride + c * 4, k, format) by {
                    if c < col {
                        assert(pixels@[row_start + c * 4 + k] == before[row_start + c * 4 + k]);
                    }
                }
            }
            col = col + 1;
        }
        proof {
            assert forall|r: int, c: int, k: int|
                0 <= r < row + 1 && 0 <= c < w && 0 <= k < 4 implies #[trigger] pixels@[r * (w * 4) + c
                    * 4 + k] == rgba_byte(raw@, r * stride + c * 4, k, format) by {
                if r == row {
                    assert(pixels@[row_start + c * 4 + k] == rgba_byte(
                        raw@,
                        row * stride + c * 4,
                        k,
                        format,
                    ));
                }
            }
            assert((row + 1) * (w * 4) == row * (w * 4) + w * 4) by (nonlinear_arith);
        }
        row = row + 1;
    }
    proof {
        assert(pixels@.len() == w * h * 4) by (nonlinear_arith)
            requires
                pixels@.len() == h * (w * 4),
        ;
    }
    Some(pixels)
}

} // verus!

verus! {

/// Cursor bitmap and position extracted from PipeWire buffer metadata.
#[derive(Debug, Clone)]
pub struct CursorOverlay {
    /// RGBA pixel data for the cursor image.
    pub bitmap: Vec<u8>,
    pub width: u32,
    pub height: u32,
    /// Screen position of the cursor (top-left of the bitmap).
    pub x: i32,
    pub y: i32,
    /// Hotspot offset within the bitmap (the click point).
    pub hotspot_x: i32,
    pub hotspot_y: i32,
}

/// A single video frame extracted from a PipeWire stream.
#[derive(Debug, Clone)]
pub struct PipeWireFrame {
    /// RGBA32 pixel data (always converted to RGBA regardless of source format).
    pub pixels: Vec<u8>,
    pub width: u32,
    pub height: u32,
    /// Row stride in bytes (= width * 4 for RGBA).
    pub stride: u32,
    /// Cursor overlay metadata (from SPA_META_Cursor, when available).
    pub cursor: Option<CursorOverlay>,
    /// Color space from negotiated format.
    pub color_space: ColorSpace,
}

/// Format negotiated with the compositor.
#[derive(Debug, Clone)]
pub struct NegotiatedFormat {
    pub width: u32,
    pub height: u32,
    pub stride: u32,
    pub framerate_num: u32,
    pub framerate_denom: u32,
    pub color_space: ColorSpace,
}

/// The raw video description the compositor settled on.
#[derive(Debug, Clone, Copy)]
pub struct RawVideoInfo {
    pub format: VideoFormat,
    pub width: u32,
    pub height: u32,
    pub framerate_num: u32,
    pub framerate_denom: u32,
    pub color_space: ColorSpace,
}

/// Errors from the PipeWire engine.
#[derive(Debug)]
pub enum PipeWireError {
    Init(String),
    Connect(String),
    Stream(String),
    Timeout(std::time::Duration),
    FormatNegotiation,
    NoFrame,
}

/// The format record kept for a negotiated raw format.
pub open spec fn negotiated_spec(info: RawVideoInfo) -> NegotiatedFormat {
    NegotiatedFormat {
        width: info.width,
        height: info.height,
        stride: (info.width * 4) as u32,
        framerate_num: info.framerate_num,
        framerate_denom: info.framerate_denom,
        color_space: info.color_space,
    }
}

/// Describe a negotiated raw format: its size, a packed row stride of
/// `width * bpp` bytes, its frame rate and its color space.
pub fn negotiated_format(info: &RawVideoInfo) -> (f: NegotiatedFormat)
    requires
        info.width * 4 <= u32::MAX,
    ensures
        f == negotiated_spec(*info),
{
    let bpp = format_bpp(info.format);
    NegotiatedFormat {
        width: info.width,
        height: info.height,
        stride: info.width * bpp,
        framerate_num: info.framerate_num,
        framerate_denom: info.framerate_denom,
        color_space: info.color_space,
    }
}

/// Convert a raw frame to an RGBA `PipeWireFrame` of the given size.
///
/// The frame exists exactly when `rgba_copy_plan` accepts the buffer; its
/// pixels are the RGBA image of the buffer and the cursor metadata rides
/// along unchanged. The cursor is not drawn into the pixels: blending it is
/// floating-point work left to the caller.
pub fn rgba_frame_from_raw(
    raw: &[u8],
    width: u32,
    height: u32,
    format: VideoFormat,
    color_space: ColorSpace,
    cursor: Option<CursorOverlay>,
) -> (frame: Option<PipeWireFrame>)
    ensures
        frame is Some <==> copy_plan_spec(raw@.len() as int, width as int, height as int, 4) is Some,
        frame matches Some(f) ==> {
            &&& is_rgba_image_of(
                f.pixels@,
                raw@,
                width as int,
                height as int,
                copy_plan_spec(raw@.len() as int, width as int, height as int, 4)->0,
                format,
            )
            &&& f.width == width
            &&& f.height == height
            &&& f.stride == (width * 4) as u32
            &&& f.cursor == cursor
            &&& f.color_space == color_space
        },
{
    match convert_to_rgba_pixels(raw, width as usize, height as usize, format) {
        Some(pixels) => Some(
            PipeWireFrame {
                pixels,
                width,
                height,
                stride: (width as usize * 4) as u32,
                cursor,
                color_space,
            },
        ),
        None => None,
    }
}

} // verus!

verus! {

/// State shared between the PipeWire thread and the capture's consumer:
/// the negotiated format, the queue of raw frames not yet consumed, the
/// cursor overlays paired with them, a count of consumed frames, the
/// stream's error, and an optional cap on buffered frames.
pub struct StreamInner {
    pub format: Option<NegotiatedFormat>,
    pub raw_format: Option<RawVideoInfo>,
    pub frames: std::collections::VecDeque<Vec<u8>>,
    pub cursor_queue: std::collections::VecDeque<CursorOverlay>,
    pub frames_consumed: u64,
    pub error: Option<String>,
    pub max_frames: Option<u64>,
}

impl StreamInner {
    /// Well-formedness: the queue never holds more frames than the cap.
    pub open spec fn wf(&self) -> bool {
        self.max_frames matches Some(m) ==> self.frames@.len() <= m
    }

    /// Whether the process callback should take another buffer.
    pub open spec fn accepts_frame_spec(&self) -> bool {
        match self.max_frames {
            Some(m) => self.frames@.len() < m,
            None => true,
        }
    }

    /// A fresh stream state: nothing negotiated, nothing queued, no error.
    pub fn new(max_frames: Option<u64>) -> (s: Self)
        ensures
            s.wf(),
            s.format is None,
            s.raw_format is None,
            s.frames@.len() == 0,
            s.cursor_queue@.len() == 0,
            s.frames_consumed == 0,
            s.error is None,
            s.max_frames == max_frames,
    {
        StreamInner {
            format: None,
            raw_format: None,
            frames: std::collections::VecDeque::new(),
            cursor_queue: std::collections::VecDeque::new(),
            frames_consumed: 0,
            error: None,
            max_frames,
        }
    }

    /// Record a stream error reported by PipeWire.
    pub fn record_error(&mut self, message: String)
        requires
            old(self).wf(),
        ensures
            final(self).wf(),
            final(self).error == Some(message),
            final(self).format == old(self).format,
            final(self).raw_format == old(self).raw_format,
            final(self).frames@ == old(self).frames@,
            final(self).cursor_queue@ == old(self).cursor_queue@,
            final(self).frames_consumed == old(self).frames_consumed,
            final(self).max_frames == old(self).max_frames,
    {
        self.error = Some(message);
    }

    /// Record the raw video format the compositor negotiated.
    pub fn record_format(&mut self, info: RawVideoInfo)
        requires
            old(self).wf(),
            info.width * 4 <= u32::MAX,
        ensures
            final(self).wf(),
            final(self).format == Some(negotiated_spec(info)),
            final(self).raw_format == Some(info),
            final(self).error == old(self).error,
            final(self).frames@ == old(self).frames@,
            final(self).cursor_queue@ == old(self).cursor_queue@,
            final(self).frames_consumed == old(self).frames_consumed,
            final(self).max_frames == old(self).max_frames,
    {
        self.format = Some(negotiated_format(&info));
        self.raw_format = Some(info);
    }

    /// Whether the process callback should take another buffer: not when
    /// the queue already holds `max_frames` frames.
    pub fn accepts_frame(&self) -> (accepts: bool)
        ensures
            accepts == self.accepts_frame_spec(),
    {
        match self.max_frames {
            Some(max) => (self.frames.len() as u64) < max,
            None => true,
        }
    }

    /// Queue the pixel data of a buffer the process callback copied.
    pub fn push_frame(&mut self, data: Vec<u8>)
        requires
            old(self).wf(),
            old(self).accepts_frame_spec(),
        ensures
            final(self).wf(),
            final(self).frames@ == old(self).frames@.push(data),
            final(self).format == old(self).format,
            final(self).raw_format == old(self).raw_format,
            final(self).error == old(self).error,
            final(self).cursor_queue@ == old(self).cursor_queue@,
            final(self).frames_consumed == old(self).frames_consumed,
            final(self).max_frames == old(self).max_frames,
    {
        self.frames.push_back(data);
    }

    /// Outcome of waiting for format negotiation: `None` while neither a
    /// format nor an error has arrived, then the stream's error if there is
    /// one, else success.
    pub fn negotiation_outcome(&self) -> (outcome: Option<Result<(), PipeWireError>>)
        ensures
            outcome is None <==> (self.format is None && self.error is None),
            outcome matches Some(Ok(())) <==> (self.error is None && self.format is Some),
            outcome matches Some(Err(e)) ==> (self.error matches Some(m) && e == PipeWireError::Stream(m)),
    {
        if let Some(err) = &self.error {
            return Some(Err(PipeWireError::Stream(err.clone())));
        }
        if self.format.is_none() {
            return None;
        }
        Some(Ok(()))
    }

    /// Whether enough frames have arrived (consumed or still queued) to
    /// satisfy a capture that needs `required` of them.
    pub fn has_buffered(&self, required: u64) -> (enough: bool)
        ensures
            enough == (self.frames_consumed + self.frames@.len() >= required),
    {
        let queued = self.frames.len() as u64;
        if queued >= required {
            return true;
        }
        self.frames_consumed >= required - queued
    }

    /// Take the oldest queued frame and convert it to RGBA.
    ///
    /// A stream error is returned first. Before a raw format has been
    /// negotiated, or with an empty queue, nothing is taken and the result is
    /// `Ok(None)`. Otherwise the oldest frame and the oldest cursor overlay
    /// are dequeued, the consumed count grows by one, and the result is the
    /// frame's RGBA conversion (`Ok(None)` if its buffer is too short for the
    /// negotiated size). As with `rgba_frame_from_raw`, the cursor overlay is
    /// handed back with the frame but not drawn into its pixels; drawing it
    /// is `composite_cursor_into_frame`, which states which bytes change.
    pub fn take_uncomposited_frame(&mut self) -> (res: Result<Option<PipeWireFrame>, PipeWireError>)
        requires
            old(self).wf(),
            (old(self).error is None && old(self).raw_format is Some && old(self).frames@.len() > 0)
                ==> old(self).frames_consumed < u64::MAX,
        ensures
            final(self).wf(),
            final(self).format == old(self).format,
            final(self).raw_format == old(self).raw_format,
            final(self).error == old(self).error,
            final(self).max_frames == old(self).max_frames,
            old(self).error matches Some(m) ==> {
                &&& res matches Err(e) && e == PipeWireError::Stream(m)
                &&& final(self).frames@ == old(self).frames@
                &&& final(self).cursor_queue@ == old(self).cursor_queue@
                &&& final(self).frames_consumed == old(self).frames_consumed
            },
            (old(self).error is None && (old(self).raw_format is None || old(self).frames@.len() == 0))
                ==> {
                &&& res matches Ok(None)
                &&& final(self).frames@ == old(self).frames@
                &&& final(self).cursor_queue@ == old(self).cursor_queue@
                &&& final(self).frames_consumed == old(self).frames_consumed
            },
            (old(self).error is None && old(self).raw_format is Some && old(self).frames@.len() > 0)
                ==> {
                let info = old(self).raw_format->0;
                let raw = old(self).frames@[0]@;
                let cs = match old(self).format {
                    Some(f) => f.color_space,
                    None => ColorSpace { range: 1, matrix: 1 },
                };
                let cursor = if old(self).cursor_queue@.len() > 0 {
                    Some(old(self).cursor_queue@[0])
                } else {
                    None
                };
                &&& final(self).frames@ == old(self).frames@.drop_first()
                &&& final(self).cursor_queue@ == (if old(self).cursor_queue@.len() > 0 {
                    old(self).cursor_queue@.drop_first()
                } else {
                    old(self).cursor_queue@
                })
                &&& final(self).frames_consumed == old(self).frames_consumed + 1
                &&& res matches Ok(out)
                &&& (out is Some <==> copy_plan_spec(
                    raw.len() as int,
                    info.width as int,
                    info.height as int,
                    4,
                ) is Some)
                &&& out matches Some(f) ==> {
                    &&& is_rgba_image_of(
                        f.pixels@,
                        raw,
                        info.width as int,
                        info.height as int,
                        copy_plan_spec(raw.len() as int, info.width as int, info.height as int, 4)->0,
                        info.format,
                    )
                    &&& f.width == info.width
                    &&& f.height == info.height
                    &&& f.stride == (info.width * 4) as u32
                    &&& f.cursor == cursor
                    &&& f.color_space == cs
                }
            },
    {
        if let Some(err) = &self.error {
            return Err(PipeWireError::Stream(err.clone()));
        }
        let raw_format = match &self.raw_format {
            Some(f) => *f,
            None => return Ok(None),
        };
        let color_space = match &self.format {
            Some(f) => f.color_space,
            None => ColorSpace::default(),
        };
        let raw = match self.frames.pop_front() {
            Some(data) => data,
            None => return Ok(None),
        };
        let cursor = self.cursor_queue.pop_front();
        self.frames_consumed = self.frames_consumed + 1;
        Ok(
            rgba_frame_from_raw(
                raw.as_slice(),
                raw_format.width,
                raw_format.height,
                raw_format.format,
                color_space,
                cursor,
            ),
        )
    }

    /// One check while a capture waits for `required` frames to arrive:
    /// done once enough frames arrived (consumed or queued); otherwise a
    /// timeout once the deadline has passed, then the stream's error; `None`
    /// means wait and check again.
    pub fn buffered_wait_step(&self, required: u64, past_deadline: bool, timeout: std::time::Duration) -> (step:
        Option<Result<(), PipeWireError>>)
        ensures
            self.frames_consumed + self.frames@.len() >= required ==> step == Some(
                Ok::<(), PipeWireError>(()),
            ),
            self.frames_consumed + self.frames@.len() < required ==> {
                if past_deadline {
                    step matches Some(Err(e)) && e == PipeWireError::Timeout(timeout)
                } else if self.error is Some {
                    step matches Some(Err(e)) && e == PipeWireError::Stream(self.error->0)
                } else {
                    step is None
                }
            },
    {
        if self.has_buffered(required) {
            return Some(Ok(()));
        }
        if past_deadline {
            return Some(Err(PipeWireError::Timeout(timeout)));
        }
        match &self.error {
            Some(err) => Some(Err(PipeWireError::Stream(err.clone()))),
            None => None,
        }
    }

    /// Number of frames handed out so far.
    pub fn frames_consumed(&self) -> (n: u64)
        ensures
            n == self.frames_consumed,
    {
        self.frames_consumed
    }

    /// Whether the stream reported an error.
    pub fn has_error(&self) -> (b: bool)
        ensures
            b == self.error is Some,
    {
        self.error.is_some()
    }

    /// The stream's error message, if any.
    pub fn error_message(&self) -> (m: Option<String>)
        ensures
            m == self.error,
    {
        match &self.error {
            Some(message) => Some(message.clone()),
            None => None,
        }
    }

    /// The negotiated format, if any.
    pub fn format(&self) -> (f: Option<NegotiatedFormat>)
        ensures
            f == self.format,
    {
        match &self.format {
            Some(f) => Some(
                NegotiatedFormat {
                    width: f.width,
                    height: f.height,
                    stride: f.stride,
                    framerate_num: f.framerate_num,
                    framerate_denom: f.framerate_denom,
                    color_space: f.color_space,
                },
            ),
            None => None,
        }
    }
}

} // verus!

verus! {

/// The byte of a 4-byte pixel that lands at position `k` when red and blue
/// trade places.
pub open spec fn swapped_channel(k: int) -> int {
    if k == 0 {
        2
    } else if k == 2 {
        0
    } else {
        k
    }
}

/// Convert a BGRA cursor bitmap to RGBA in place: in every whole 4-byte
/// pixel the first and third bytes trade places; a trailing partial pixel is
/// left as it is.
pub fn swap_red_blue(pixels: &mut Vec<u8>)
    ensures
        final(pixels)@.len() == old(pixels)@.len(),
        forall|p: int, k: int|
            0 <= p < old(pixels)@.len() / 4 && 0 <= k < 4 ==> #[trigger] final(pixels)@[p * 4 + k]
                == old(pixels)@[p * 4 + swapped_channel(k)],
        forall|i: int|
            (old(pixels)@.len() / 4) * 4 <= i < old(pixels)@.len() ==> #[trigger] final(pixels)@[i]
                == old(pixels)@[i],
{
    let ghost orig = pixels@;
    let n = pixels.len();
    let whole = n / 4;
    let mut p: usize = 0;
    while p < whole
        invariant
            0 <= p <= whole,
            whole == n / 4,
            n == orig.len(),
            pixels@.len() == n,
            forall|q: int, k: int|
                0 <= q < p && 0 <= k < 4 ==> #[trigger] pixels@[q * 4 + k] == orig[q * 4 + swapped_channel(k)],
            forall|i: int| p * 4 <= i < n ==> #[trigger] pixels@[i] == orig[i],
        decreases whole - p,
    {
        let b = pixels[p * 4];
        let r = pixels[p * 4 + 2];
        pixels.set(p * 4, r);
        pixels.set(p * 4 + 2, b);
        p = p + 1;
    }
}

/// The frame columns and rows a cursor bitmap covers, clipped to the frame:
/// `(start_x, start_y, end_x, end_y)`. The bitmap's top-left corner sits at
/// the cursor's position `(x, y)`.
pub fn cursor_blend_bounds(cursor: &CursorOverlay, frame_width: u32, frame_height: u32) -> (b: (
    u32,
    u32,
    u32,
    u32,
))
    requires
        cursor.width <= i32::MAX,
        cursor.height <= i32::MAX,
        frame_width <= i32::MAX,
        frame_height <= i32::MAX,
        cursor.x + cursor.width <= i32::MAX,
        cursor.y + cursor.height <= i32::MAX,
    ensures
        ({
            let cx = cursor.x as int;
            let cy = cursor.y as int;
            let ex = if cx + cursor.width < frame_width { cx + cursor.width } else { frame_width as int };
            let ey = if cy + cursor.height < frame_height { cy + cursor.height } else { frame_height as int };
            &&& b.0 == (if cx > 0 { cx } else { 0 })
            &&& b.1 == (if cy > 0 { cy } else { 0 })
            &&& b.2 == (if ex > 0 { ex } else { 0 })
            &&& b.3 == (if ey > 0 { ey } else { 0 })
        }),
{
    let cx = cursor.x;
    let cy = cursor.y;
    let start_x = if cx > 0 { cx as u32 } else { 0 };
    let start_y = if cy > 0 { cy as u32 } else { 0 };
    let right = cx + cursor.width as i32;
    let bottom = cy + cursor.height as i32;
    let ex = if right < frame_width as i32 { right } else { frame_width as i32 };
    let ey = if bottom < frame_height as i32 { bottom } else { frame_height as i32 };
    let end_x = if ex > 0 { ex as u32 } else { 0 };
    let end_y = if ey > 0 { ey as u32 } else { 0 };
    (start_x, start_y, end_x, end_y)
}

/// Where the bitmap pixel drawn at frame position `(px, py)` starts in the
/// cursor's RGBA bitmap: pixel `(px - x, py - y)` of the bitmap, four bytes
/// per pixel, rows `width` pixels long. `None` when `(px, py)` lies outside
/// the bitmap or the pixel's four bytes are not all in it.
pub fn cursor_bitmap_index(cursor: &CursorOverlay, px: u32, py: u32) -> (idx: Option<usize>)
    ensures
        ({
            let col = px - cursor.x;
            let row = py - cursor.y;
            let i = (row * cursor.width + col) * 4;
            &&& idx is Some <==> (0 <= col < cursor.width && 0 <= row < cursor.height && i + 4
                <= cursor.bitmap@.len())
            &&& idx matches Some(k) ==> k == i
        }),
{
    let col = px as i64 - cursor.x as i64;
    let row = py as i64 - cursor.y as i64;
    if col < 0 || row < 0 || col >= cursor.width as i64 || row >= cursor.height as i64 {
        return None;
    }
    let col = col as u64;
    let row = row as u64;
    let w = cursor.width as u64;
    proof {
        assert(row * w + col < (row + 1) * w) by (nonlinear_arith)
            requires
                col < w,
        ;
        assert((row + 1) * w <= 0x1_0000_0000 * 0x1_0000_0000) by (nonlinear_arith)
            requires
                row + 1 <= 0x1_0000_0000,
                w <= 0x1_0000_0000,
        ;
    }
    let pixel = row * w + col;
    let len = cursor.bitmap.len() as u64;
    if pixel >= len / 4 {
        return None;
    }
    Some((pixel * 4) as usize)
}

/// The bounds `cursor_blend_bounds` returns, as integers.
pub open spec fn blend_bounds_spec(c: CursorOverlay, fw: u32, fh: u32) -> (int, int, int, int) {
    let cx = c.x as int;
    let cy = c.y as int;
    let ex = if cx + c.width < fw { cx + c.width } else { fw as int };
    let ey = if cy + c.height < fh { cy + c.height } else { fh as int };
    (if cx > 0 { cx } else { 0 }, if cy > 0 { cy } else { 0 }, if ex > 0 { ex } else { 0 }, if ey > 0 {
        ey
    } else {
        0
    })
}

/// Frame pixel `(x, y)` lies under the cursor bitmap, inside the frame.
pub open spec fn under_cursor(c: CursorOverlay, fw: u32, fh: u32, x: int, y: int) -> bool {
    let b = blend_bounds_spec(c, fw, fh);
    b.0 <= x < b.2 && b.1 <= y < b.3
}

/// Where the bitmap pixel drawn at frame pixel `(x, y)` starts.
pub open spec fn bitmap_start(c: CursorOverlay, x: int, y: int) -> int {
    ((y - c.y) * c.width + (x - c.x)) * 4
}

/// Byte `i` of a frame with rows of `stride` bytes belongs to a pixel under
/// the cursor.
pub open spec fn byte_under_cursor(c: CursorOverlay, fw: u32, fh: u32, stride: int, i: int) -> bool {
    &&& stride > 0
    &&& i % stride < fw * 4
    &&& under_cursor(c, fw, fh, (i % stride) / 4, i / stride)
}

/// Byte `i` after compositing: the alpha byte becomes opaque; a colour byte
/// is what `blend` gives for the cursor's colour byte, the cursor's alpha and
/// the frame's old byte.
pub open spec fn composited_byte<F: Fn(u8, u8, u8) -> u8>(
    c: CursorOverlay,
    stride: int,
    i: int,
    old_byte: u8,
    new_byte: u8,
    blend: F,
) -> bool {
    let x = (i % stride) / 4;
    let y = i / stride;
    let k = (i % stride) % 4;
    let s = bitmap_start(c, x, y);
    if k == 3 {
        new_byte == 255
    } else {
        call_ensures(blend, (c.bitmap@[s + k], c.bitmap@[s + 3], old_byte), new_byte)
    }
}

proof fn lemma_decode_byte(y: int, x: int, k: int, stride: int)
    requires
        0 <= y,
        0 <= x,
        0 <= k < 4,
        x * 4 + k < stride,
    ensures
        (y * stride + x * 4 + k) / stride == y,
        (y * stride + x * 4 + k) % stride == x * 4 + k,
        (x * 4 + k) / 4 == x,
        (x * 4 + k) % 4 == k,
{
    vstd::arithmetic::div_mod::lemma_fundamental_div_mod_converse(y * stride + x * 4 + k, stride, y, x * 4 + k);
    vstd::arithmetic::div_mod::lemma_fundamental_div_mod_converse(x * 4 + k, 4, x, k);
}

/// Blend one cursor pixel into the frame pixel starting at `base`.
fn blend_one_pixel<F: Fn(u8, u8, u8) -> u8>(pixels: &mut Vec<u8>, base: usize, bitmap: &Vec<u8>, cur: usize, blend: &F)
    requires
        base + 4 <= old(pixels)@.len(),
        cur + 4 <= bitmap@.len(),
        forall|a: u8, b: u8, p: u8| call_requires(*blend, (a, b, p)),
    ensures
        final(pixels)@.len() == old(pixels)@.len(),
        forall|i: int|
            0 <= i < old(pixels)@.len() && !(base <= i < base + 4) ==> #[trigger] final(pixels)@[i] == old(
                pixels,
            )@[i],
        forall|k: int|
            0 <= k < 3 ==> call_ensures(
                *blend,
                (bitmap@[cur + k], bitmap@[cur + 3], old(pixels)@[base + k]),
                #[trigger] final(pixels)@[base + k],
            ),
        final(pixels)@[base + 3] == 255,
{
    let _n = pixels.len();
    let _m = bitmap.len();
    let a = bitmap[cur + 3];
    let ghost before = pixels@;
    let r = blend(bitmap[cur], a, pixels[base]);
    pixels.set(base, r);
    let g = blend(bitmap[cur + 1], a, pixels[base + 1]);
    pixels.set(base + 1, g);
    let b = blend(bitmap[cur + 2], a, pixels[base + 2]);
    pixels.set(base + 2, b);
    pixels.set(base + 3, 255);
    proof {
        assert forall|k: int| 0 <= k < 3 implies call_ensures(
            *blend,
            (bitmap@[cur + k], bitmap@[cur + 3], before[base + k]),
            #[trigger] pixels@[base + k],
        ) by {
            if k == 0 {
            } else if k == 1 {
            } else {
            }
        }
    }
}

/// Draw a cursor into a frame: every frame pixel under the cursor bitmap
/// (placed with its top-left corner at the cursor's position and clipped to
/// the frame) gets each colour byte from `blend(cursor byte, cursor alpha,
/// frame byte)` and an opaque alpha; every other byte is left as it was.
/// The blending arithmetic itself is the caller's `blend`.
pub fn composite_cursor_into_frame<F: Fn(u8, u8, u8) -> u8>(
    pixels: &mut Vec<u8>,
    frame_width: u32,
    frame_height: u32,
    stride: u32,
    cursor: &CursorOverlay,
    blend: F,
)
    requires
        cursor.width <= i32::MAX,
        cursor.height <= i32::MAX,
        frame_width <= i32::MAX,
        frame_height <= i32::MAX,
        cursor.x + cursor.width <= i32::MAX,
        cursor.y + cursor.height <= i32::MAX,
        frame_width * 4 <= stride,
        frame_height > 0 ==> (frame_height - 1) * stride + frame_width * 4 <= old(pixels)@.len(),
        forall|x: int, y: int|
            under_cursor(*cursor, frame_width, frame_height, x, y) ==> bitmap_start(*cursor, x, y) + 4
                <= cursor.bitmap@.len(),
        forall|a: u8, b: u8, p: u8| call_requires(blend, (a, b, p)),
    ensures
        final(pixels)@.len() == old(pixels)@.len(),
        forall|i: int|
            0 <= i < old(pixels)@.len() ==> if byte_under_cursor(
                *cursor,
                frame_width,
                frame_height,
                stride as int,
                i,
            ) {
                composited_byte(*cursor, stride as int, i, old(pixels)@[i], #[trigger] final(pixels)@[i], blend)
            } else {
                final(pixels)@[i] == old(pixels)@[i]
            },
{
    let (sx, sy, ex, ey) = cursor_blend_bounds(cursor, frame_width, frame_height);
    let ghost orig = pixels@;
    let ghost fw = frame_width;
    let ghost fh = frame_height;
    let ghost st = stride as int;
    let ghost c = *cursor;
    let n = pixels.len();
    let mut py = sy;
    while py < ey
        invariant
            (sx as int, sy as int, ex as int, ey as int) == blend_bounds_spec(c, fw, fh),
            c == *cursor,
            sy <= py,
            py <= ey || py == sy,
            n == orig.len(),
            ey <= fh,
            ex <= fw,
            fw == frame_width,
            fh == frame_height,
            st == stride,
            fw * 4 <= st,
            fh > 0 ==> (fh - 1) * st + fw * 4 <= orig.len(),
            pixels@.len() == orig.len(),
            forall|x: int, y: int|
                under_cursor(c, fw, fh, x, y) ==> bitmap_start(c, x, y) + 4 <= cursor.bitmap@.len(),
            forall|a: u8, b: u8, p: u8| call_requires(blend, (a, b, p)),
            forall|i: int|
                0 <= i < orig.len() ==> if byte_under_cursor(c, fw, fh, st, i) && i / st < py {
                    composited_byte(c, st, i, orig[i], #[trigger] pixels@[i], blend)
                } else {
                    pixels@[i] == orig[i]
                },
        decreases ey - py,
    {
        let mut px = sx;
        while px < ex
            invariant
                (sx as int, sy as int, ex as int, ey as int) == blend_bounds_spec(c, fw, fh),
                c == *cursor,
                sy <= py < ey,
                sx <= px,
                px <= ex || px == sx,
                n == orig.len(),
                ey <= fh,
                ex <= fw,
                fw == frame_width,
                fh == frame_height,
                st == stride,
                fw * 4 <= st,
                fh > 0 ==> (fh - 1) * st + fw * 4 <= orig.len(),
                pixels@.len() == orig.len(),
                forall|x: int, y: int|
                    under_cursor(c, fw, fh, x, y) ==> bitmap_start(c, x, y) + 4 <= cursor.bitmap@.len(),
                forall|a: u8, b: u8, p: u8| call_requires(blend, (a, b, p)),
                forall|i: int|
                    0 <= i < orig.len() ==> if byte_under_cursor(c, fw, fh, st, i) && (i / st < py || (i / st
                        == py && (i % st) / 4 < px)) {
                        composited_byte(c, st, i, orig[i], #[trigger] pixels@[i], blend)
                    } else {
                        pixels@[i] == orig[i]
                    },
            decreases ex - px,
        {
            proof {
                assert(under_cursor(c, fw, fh, px as int, py as int));
                assert(py * st <= (fh - 1) * st) by (nonlinear_arith)
                    requires
                        py < fh,
                        st >= 0,
                ;
                assert(py * st + px * 4 + 4 <= n);
            }
            let base = py as usize * stride as usize + px as usize * 4;
            let cur = match cursor_bitmap_index(cursor, px, py) {
                Some(k) => k,
                None => {
                    proof {
                        assert(false);
                    }
                    0
                },
            };
            let ghost before = pixels@;
            blend_one_pixel(pixels, base, &cursor.bitmap, cur, &blend);
            proof {
                assert forall|i: int| 0 <= i < orig.len() implies if byte_under_cursor(c, fw, fh, st, i) && (i
                    / st < py || (i / st == py && (i % st) / 4 < px + 1)) {
                    composited_byte(c, st, i, orig[i], #[trigger] pixels@[i], blend)
                } else {
                    pixels@[i] == orig[i]
                } by {
                    if base <= i < base + 4 {
                        let k = i - base;
                        lemma_decode_byte(py as int, px as int, k, st);
                        assert(i == py * st + px * 4 + k);
                        assert(i / st == py);
                        assert(i % st == px * 4 + k);
                        assert((i % st) / 4 == px);
                        assert((i % st) % 4 == k);
                        assert(byte_under_cursor(c, fw, fh, st, i));
                        assert(before[i] == orig[i]);
                        assert(bitmap_start(c, px as int, py as int) == cur);
                        if k < 3 {
                            assert(pixels@[base + k] == pixels@[i]);
                        }
                    } else {
                        assert(pixels@[i] == before[i]);
                        if byte_under_cursor(c, fw, fh, st, i) && i / st == py && (i % st) / 4 == px {
                            let q = i / st;
                            let r = i % st;
                            let kk = r % 4;
                            vstd::arithmetic::div_mod::lemma_fundamental_div_mod(i, st);
                            vstd::arithmetic::div_mod::lemma_fundamental_div_mod(r, 4);
                            assert(i == py * st + px * 4 + kk) by (nonlinear_arith)
                                requires
                                    i == st * q + r,
                                    r == 4 * (r / 4) + kk,
                                    q == py,
                                    r / 4 == px,
                            ;
                            assert(0 <= kk < 4);
                            assert(false);
                        }
                    }
                }
            }
            px = px + 1;
        }
        proof {
            assert forall|i: int| 0 <= i < orig.len() implies if byte_under_cursor(c, fw, fh, st, i) && i / st
                < py + 1 {
                composited_byte(c, st, i, orig[i], #[trigger] pixels@[i], blend)
            } else {
                pixels@[i] == orig[i]
            } by {
                if byte_under_cursor(c, fw, fh, st, i) && i / st == py {
                    assert((i % st) / 4 < px);
                }
            }
        }
        py = py + 1;
    }
    proof {
        assert forall|i: int| 0 <= i < orig.len() implies if byte_under_cursor(c, fw, fh, st, i) {
            composited_byte(c, st, i, orig[i], #[trigger] pixels@[i], blend)
        } else {
            pixels@[i] == orig[i]
        } by {
            if byte_under_cursor(c, fw, fh, st, i) {
                assert(i / st < py);
            }
        }
    }
}

/// How many frames a single-frame capture waits for: the requested
/// minimum, but at least one.
pub fn required_frames(min_frames_before_return: u64) -> (n: u64)
    ensures
        n == (if min_frames_before_return > 1 { min_frames_before_return } else { 1 }),
{
    if min_frames_before_return > 1 {
        min_frames_before_return
    } else {
        1
    }
}

/// What waiting for one frame does after a poll of the queue: a frame or
/// an error from the poll ends the wait; with nothing received, a passed
/// deadline is a timeout and an error the stream reported since ends it
/// too; otherwise (`None`) wait and poll again.
pub fn frame_wait_step(
    polled: Result<Option<PipeWireFrame>, PipeWireError>,
    past_deadline: bool,
    stream_error: Option<String>,
    timeout: std::time::Duration,
) -> (step: Option<Result<PipeWireFrame, PipeWireError>>)
    ensures
        match polled {
            Ok(Some(f)) => step == Some(Ok::<PipeWireFrame, PipeWireError>(f)),
            Err(e) => step == Some(Err::<PipeWireFrame, PipeWireError>(e)),
            Ok(None) => if past_deadline {
                step matches Some(Err(e)) && e == PipeWireError::Timeout(timeout)
            } else {
                match stream_error {
                    Some(m) => step matches Some(Err(e)) && e == PipeWireError::Stream(m),
                    None => step is None,
                }
            },
        },
{
    match polled {
        Ok(Some(frame)) => Some(Ok(frame)),
        Err(e) => Some(Err(e)),
        Ok(None) => {
            if past_deadline {
                Some(Err(PipeWireError::Timeout(timeout)))
            } else {
                match stream_error {
                    Some(m) => Some(Err(PipeWireError::Stream(m))),
                    None => None,
                }
            }
        },
    }
}

} // verus!
