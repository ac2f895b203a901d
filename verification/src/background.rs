//! Conversion of captured pixels into Cairo's premultiplied ARGB32 layout
//! (BGRA byte order in memory) and into packed RGBA.

use vstd::prelude::*;
use crate::raster::{lemma_next_row, lemma_row_fits, lemma_row_prefix};
use crate::selection::SelectionError;

verus! {

/// A channel scaled by alpha with round-to-nearest, as Cairo stores it.
pub open spec fn premul(c: u8, a: u8) -> u8 {
    ((c * a + 127) / 255) as u8
}

/// Byte `k` of the Cairo ARGB32 pixel for the RGBA pixel starting at `p`:
/// fully transparent pixels become all zero, others are premultiplied and
/// stored as B, G, R, A.
pub open spec fn argb_byte(src: Seq<u8>, p: int, k: int) -> u8 {
    let a = src[p + 3];
    if a == 0 {
        0
    } else if k == 0 {
        premul(src[p + 2], a)
    } else if k == 1 {
        premul(src[p + 1], a)
    } else if k == 2 {
        premul(src[p], a)
    } else {
        a
    }
}

/// `out` holds `height` rows of `stride` bytes; row `y` carries the first
/// `cols` pixels of the corresponding source row, each given by `byte_at`,
/// and zeros after them.
pub open spec fn is_padded_image(
    out: Seq<u8>,
    height: int,
    stride: int,
    cols: int,
    byte_at: spec_fn(int, int, int) -> u8,
) -> bool {
    &&& out.len() == height * stride
    &&& forall|y: int, x: int, k: int|
        0 <= y < height && 0 <= x < cols && 0 <= k < 4 ==> #[trigger] out[y * stride + x * 4 + k]
            == byte_at(y, x, k)
    &&& forall|y: int, j: int|
        0 <= y < height && cols * 4 <= j < stride ==> #[trigger] out[y * stride + j] == 0
}

proof fn lemma_premul_opaque(c: u8)
    ensures
        premul(c, 255) == c,
{
    let v = c * 255int + 127;
    assert(c * 255int <= v < (c + 1) * 255int) by (nonlinear_arith)
        requires
            v == c * 255int + 127,
    ;
    vstd::arithmetic::div_mod::lemma_fundamental_div_mod_converse(v, 255, c as int, v - c * 255int);
}

proof fn lemma_premul_in_range(c: u8, a: u8)
    ensures
        0 <= (c * a + 127) / 255 < 256,
{
    assert(0 <= c * a <= 255 * 255) by (nonlinear_arith)
        requires
            0 <= c < 256,
            0 <= a < 256,
    ;
}

fn premultiply(c: u8, a: u8) -> (r: u8)
    ensures
        r == premul(c, a),
{
    proof {
        lemma_premul_in_range(c, a);
    }
    ((c as u16 * a as u16 + 127) / 255) as u8
}

/// Convert a packed RGBA image (`width` x `height`, rows of `width * 4`
/// bytes) to a Cairo ARGB32 buffer with rows of `stride` bytes.
///
/// Each row receives `min(width, stride / 4)` converted pixels followed by
/// zero padding. Rows that are entirely opaque take a fast path that copies
/// channels, which yields the same bytes as premultiplying by 255.
pub fn rgba_to_cairo_argb_bytes(raw: &[u8], width: usize, height: usize, stride: usize) -> (out: Vec<
    u8,
>)
    requires
        stride > 0,
        stride * height <= usize::MAX,
        width * 4 <= usize::MAX,
        width * 4 * height <= raw@.len(),
    ensures
        is_padded_image(
            out@,
            height as int,
            stride as int,
            if width * 4 <= stride { width as int } else { stride as int / 4 },
            |y: int, x: int, k: int| argb_byte(raw@, y * (width * 4) + x * 4, k),
        ),
{
    let raw_len = raw.len();
    let row_src_len = width * 4;
    let cols = if width <= stride / 4 { width } else { stride / 4 };
    let ghost w = width as int;
    let ghost byte_at = |y: int, x: int, k: int| argb_byte(raw@, y * (width * 4) + x * 4, k);
    let mut out: Vec<u8> = Vec::with_capacity(stride * height);
    let mut y: usize = 0;
    while y < height
        invariant
            0 <= y <= height,
            stride > 0,
            stride * height <= usize::MAX,
            row_src_len == w * 4,
            w == width,
            raw@.len() == raw_len,
            w * 4 * height <= raw@.len(),
            cols * 4 <= stride,
            cols <= width,
            cols == (if width * 4 <= stride { width as int } else { stride as int / 4 }),
            byte_at == (|y: int, x: int, k: int| argb_byte(raw@, y * (width * 4) + x * 4, k)),
            out@.len() == y * stride,
            forall|yy: int, x: int, k: int|
                0 <= yy < y && 0 <= x < cols && 0 <= k < 4 ==> #[trigger] out@[yy * stride + x * 4 + k]
                    == byte_at(yy, x, k),
            forall|yy: int, j: int|
                0 <= yy < y && cols * 4 <= j < stride ==> #[trigger] out@[yy * stride + j] == 0,
        decreases height - y,
    {
        proof {
            lemma_row_fits(y as int, height as int, w * 4);
            lemma_row_fits(y as int, height as int, stride as int);
            assert(w * 4 * height == height * (w * 4)) by (nonlinear_arith);
        }
        let src_start = y * row_src_len;
        assert(src_start + w * 4 <= raw@.len());
        let ghost row_start = out@.len() as int;
        // Fast path: a row of fully opaque pixels needs no premultiplication.
        let mut all_opaque = true;
        let mut i: usize = 0;
        while i < width
            invariant
                0 <= i <= width,
                raw@.len() == raw_len,
                src_start + w * 4 <= raw@.len(),
                w == width,
                all_opaque == (forall|x: int| 0 <= x < i ==> #[trigger] raw@[src_start + x * 4 + 3] == 255),
            decreases width - i,
        {
            if raw[src_start + i * 4 + 3] != 255 {
                all_opaque = false;
            }
            i = i + 1;
        }
        let mut x: usize = 0;
        while x < cols
            invariant
                0 <= y < height,
                0 <= x <= cols,
                cols <= width,
                cols * 4 <= stride,
                w == width,
                raw@.len() == raw_len,
                src_start == y * (w * 4),
                src_start + w * 4 <= raw@.len(),
                row_start == y * stride,
                all_opaque == (forall|x: int| 0 <= x < width ==> #[trigger] raw@[src_start + x * 4 + 3] == 255),
                byte_at == (|y: int, x: int, k: int| argb_byte(raw@, y * (width * 4) + x * 4, k)),
                out@.len() == row_start + x * 4,
                forall|yy: int, xx: int, k: int|
                    0 <= yy < y && 0 <= xx < cols && 0 <= k < 4 ==> #[trigger] out@[yy * stride + xx * 4
                        + k] == byte_at(yy, xx, k),
                forall|yy: int, j: int|
                    0 <= yy < y && cols * 4 <= j < stride ==> #[trigger] out@[yy * stride + j] == 0,
                forall|xx: int, k: int|
                    0 <= xx < x && 0 <= k < 4 ==> #[trigger] out@[row_start + xx * 4 + k] == byte_at(
                        y as int,
                        xx,
                        k,
                    ),
            decreases cols - x,
        {
            let p = src_start + x * 4;
            let ghost before = out@;
            if all_opaque {
                out.push(raw[p + 2]);
                out.push(raw[p + 1]);
                out.push(raw[p]);
                out.push(255);
                proof {
                    assert(raw@[src_start + x * 4 + 3] == 255);
                    lemma_premul_opaque(raw@[p as int]);
                    lemma_premul_opaque(raw@[p + 1]);
                    lemma_premul_opaque(raw@[p + 2]);
                }
            } else {
                let a = raw[p + 3];
                if a == 0 {
                    out.push(0);
                    out.push(0);
                    out.push(0);
                    out.push(0);
                } else {
                    out.push(premultiply(raw[p + 2], a));
                    out.push(premultiply(raw[p + 1], a));
                    out.push(premultiply(raw[p], a));
                    out.push(a);
                }
            }
            proof {
                assert forall|yy: int, xx: int, k: int|
                    0 <= yy < y && 0 <= xx < cols && 0 <= k < 4 implies #[trigger] out@[yy * stride + xx
                        * 4 + k] == byte_at(yy, xx, k) by {
                    lemma_row_prefix(yy, xx * 4 + k, y as int, stride as int);
                    assert(out@[yy * stride + xx * 4 + k] == before[yy * stride + xx * 4 + k]);
                }
                assert forall|yy: int, j: int|
                    0 <= yy < y && cols * 4 <= j < stride implies #[trigger] out@[yy * stride + j] == 0 by {
                    lemma_row_prefix(yy, j, y as int, stride as int);
                    assert(out@[yy * stride + j] == before[yy * stride + j]);
                }
                assert forall|xx: int, k: int|
                    0 <= xx < x + 1 && 0 <= k < 4 implies #[trigger] out@[row_start + xx * 4 + k]
                        == byte_at(y as int, xx, k) by {
                    if xx < x {
                        assert(out@[row_start + xx * 4 + k] == before[row_start + xx * 4 + k]);
                    }
                }
            }
            x = x + 1;
        }
        let mut j: usize = cols * 4;
        while j < stride
            invariant
                0 <= y < height,
                cols * 4 <= j <= stride,
                row_start == y * stride,
                out@.len() == row_start + j,
                forall|yy: int, xx: int, k: int|
                    0 <= yy < y && 0 <= xx < cols && 0 <= k < 4 ==> #[trigger] out@[yy * stride + xx * 4
                        + k] == byte_at(yy, xx, k),
                forall|yy: int, jj: int|
                    0 <= yy < y && cols * 4 <= jj < stride ==> #[trigger] out@[yy * stride + jj] == 0,
                forall|xx: int, k: int|
                    0 <= xx < cols && 0 <= k < 4 ==> #[trigger] out@[row_start + xx * 4 + k] == byte_at(
                        y as int,
                        xx,
                        k,
                    ),
                forall|jj: int| cols * 4 <= jj < j ==> #[trigger] out@[row_start + jj] == 0,
            decreases stride - j,
        {
            let ghost before = out@;
            out.push(0);
            proof {
                assert forall|yy: int, xx: int, k: int|
                    0 <= yy < y && 0 <= xx < cols && 0 <= k < 4 implies #[trigger] out@[yy * stride + xx
                        * 4 + k] == byte_at(yy, xx, k) by {
                    lemma_row_prefix(yy, xx * 4 + k, y as int, stride as int);
                    assert(out@[yy * stride + xx * 4 + k] == before[yy * stride + xx * 4 + k]);
                }
                assert forall|yy: int, jj: int|
                    0 <= yy < y && cols * 4 <= jj < stride implies #[trigger] out@[yy * stride + jj] == 0 by {
                    lemma_row_prefix(yy, jj, y as int, stride as int);
                    assert(out@[yy * stride + jj] == before[yy * stride + jj]);
                }
                assert forall|xx: int, k: int|
                    0 <= xx < cols && 0 <= k < 4 implies #[trigger] out@[row_start + xx * 4 + k]
                        == byte_at(y as int, xx, k) by {
                    assert(out@[row_start + xx * 4 + k] == before[row_start + xx * 4 + k]);
                }
                assert forall|jj: int| cols * 4 <= jj < j + 1 implies #[trigger] out@[row_start + jj]
                    == 0 by {
                    if jj < j {
                        assert(out@[row_start + jj] == before[row_start + jj]);
                    }
                }
            }
            j = j + 1;
        }
        proof {
            lemma_next_row(y as int, stride as int);
            assert forall|yy: int, xx: int, k: int|
                0 <= yy < y + 1 && 0 <= xx < cols && 0 <= k < 4 implies #[trigger] out@[yy * stride + xx
                    * 4 + k] == byte_at(yy, xx, k) by {
                if yy == y {
                    assert(out@[row_start + xx * 4 + k] == byte_at(y as int, xx, k));
                }
            }
            assert forall|yy: int, jj: int|
                0 <= yy < y + 1 && cols * 4 <= jj < stride implies #[trigger] out@[yy * stride + jj]
                    == 0 by {
                if yy == y {
                    assert(out@[row_start + jj] == 0);
                }
            }
        }
        y = y + 1;
    }
    proof {
        assert(out@.len() == height * stride);
    }
    out
}

} // verus!

verus! {

/// Pixel layouts a screen capture can arrive in.
#[derive(Debug, Clone, Copy, PartialEq, Eq)]
pub enum PixelFormat {
    RGBA32,
    RGB32,
    BGRA32,
    BGR32,
    RGB24,
    BGR24,
}

impl PixelFormat {
    pub open spec fn bpp_spec(self) -> int {
        match self {
            PixelFormat::RGB24 | PixelFormat::BGR24 => 3,
            _ => 4,
        }
    }

    /// Whether red is stored first.
    pub open spec fn red_first(self) -> bool {
        self is RGBA32 || self is RGB32 || self is RGB24
    }

    /// Bytes each pixel occupies.
    pub fn bytes_per_pixel(&self) -> (bpp: u32)
        ensures
            bpp == self.bpp_spec(),
    {
        match self {
            PixelFormat::RGB24 | PixelFormat::BGR24 => 3,
            _ => 4,
        }
    }
}

/// Raw pixels of a screen capture.
pub struct CaptureData {
    pub pixels: Vec<u8>,
    pub width: u32,
    pub height: u32,
    /// Bytes per source row.
    pub stride: u32,
    pub format: PixelFormat,
}

impl CaptureData {
    /// Every pixel the conversions read lies inside `pixels`.
    pub open spec fn readable(&self) -> bool {
        self.width == 0 || self.height == 0 || (self.height - 1) * self.stride + (self.width - 1)
            * self.format.bpp_spec() + 3 <= self.pixels@.len()
    }
}

/// Byte `k` of an opaque output pixel made from the capture pixel starting at
/// `si`: red, green, blue, 255 (or blue, green, red, 255 when `bgr_out`).
pub open spec fn capture_byte(pixels: Seq<u8>, si: int, k: int, format: PixelFormat, bgr_out: bool) -> u8 {
    let r = if format.red_first() { pixels[si] } else { pixels[si + 2] };
    let g = pixels[si + 1];
    let b = if format.red_first() { pixels[si + 2] } else { pixels[si] };
    if k == 3 {
        255
    } else if k == 1 {
        g
    } else if (k == 0) == !bgr_out {
        r
    } else {
        b
    }
}

proof fn lemma_pixel_in_capture(y: int, x: int, h: int, w: int, src_stride: int, bpp: int, len: int)
    requires
        0 <= y < h,
        0 <= x < w,
        src_stride >= 0,
        bpp >= 0,
        (h - 1) * src_stride + (w - 1) * bpp + 3 <= len,
    ensures
        0 <= y * src_stride,
        y * src_stride + x * bpp + 3 <= len,
{
    lemma_row_fits(y, h, src_stride);
    assert(x * bpp <= (w - 1) * bpp) by (nonlinear_arith)
        requires
            x <= w - 1,
            bpp >= 0,
    ;
    assert(0 <= x * bpp) by (nonlinear_arith)
        requires
            x >= 0,
            bpp >= 0,
    ;
}

fn capture_rows(capture: &CaptureData, stride: usize, bgr_out: bool) -> (out: Vec<u8>)
    requires
        capture.readable(),
        capture.width * 4 <= stride,
        stride * capture.height <= usize::MAX,
    ensures
        is_padded_image(
            out@,
            capture.height as int,
            stride as int,
            capture.width as int,
            |y: int, x: int, k: int|
                capture_byte(
                    capture.pixels@,
                    y * capture.stride + x * capture.format.bpp_spec(),
                    k,
                    capture.format,
                    bgr_out,
                ),
        ),
{
    let width = capture.width as usize;
    let height = capture.height as usize;
    let src_stride = capture.stride as usize;
    let format = capture.format;
    let bpp = format.bytes_per_pixel() as usize;
    let red_first = matches!(format, PixelFormat::RGBA32 | PixelFormat::RGB32 | PixelFormat::RGB24);
    let pixels = &capture.pixels;
    let len = pixels.len();
    let ghost byte_at = |y: int, x: int, k: int|
        capture_byte(capture.pixels@, y * capture.stride + x * capture.format.bpp_spec(), k, capture.format, bgr_out);
    let mut out: Vec<u8> = Vec::with_capacity(stride * height);
    let mut y: usize = 0;
    while y < height
        invariant
            0 <= y <= height,
            height == capture.height,
            width == capture.width,
            src_stride == capture.stride,
            format == capture.format,
            bpp == format.bpp_spec(),
            red_first == format.red_first(),
            *pixels == capture.pixels,
            len == pixels@.len(),
            capture.readable(),
            width * 4 <= stride,
            stride * height <= usize::MAX,
            byte_at == (|y: int, x: int, k: int|
                capture_byte(capture.pixels@, y * capture.stride + x * capture.format.bpp_spec(), k, capture.format, bgr_out)),
            out@.len() == y * stride,
            forall|yy: int, x: int, k: int|
                0 <= yy < y && 0 <= x < width && 0 <= k < 4 ==> #[trigger] out@[yy * stride + x * 4 + k]
                    == byte_at(yy, x, k),
            forall|yy: int, j: int|
                0 <= yy < y && width * 4 <= j < stride ==> #[trigger] out@[yy * stride + j] == 0,
        decreases height - y,
    {
        proof {
            lemma_row_fits(y as int, height as int, stride as int);
        }
        let ghost row_start = out@.len() as int;
        let mut x: usize = 0;
        while x < width
            invariant
                0 <= y < height,
                0 <= x <= width,
                height == capture.height,
                width == capture.width,
                src_stride == capture.stride,
                format == capture.format,
                bpp == format.bpp_spec(),
                red_first == format.red_first(),
                *pixels == capture.pixels,
                len == pixels@.len(),
                capture.readable(),
                width * 4 <= stride,
                row_start == y * stride,
                byte_at == (|y: int, x: int, k: int|
                    capture_byte(capture.pixels@, y * capture.stride + x * capture.format.bpp_spec(), k, capture.format, bgr_out)),
                out@.len() == row_start + x * 4,
                forall|yy: int, xx: int, k: int|
                    0 <= yy < y && 0 <= xx < width && 0 <= k < 4 ==> #[trigger] out@[yy * stride + xx * 4
                        + k] == byte_at(yy, xx, k),
                forall|yy: int, j: int|
                    0 <= yy < y && width * 4 <= j < stride ==> #[trigger] out@[yy * stride + j] == 0,
                forall|xx: int, k: int|
                    0 <= xx < x && 0 <= k < 4 ==> #[trigger] out@[row_start + xx * 4 + k] == byte_at(
                        y as int,
                        xx,
                        k,
                    ),
            decreases width - x,
        {
            proof {
                lemma_pixel_in_capture(
                    y as int,
                    x as int,
                    height as int,
                    width as int,
                    src_stride as int,
                    bpp as int,
                    len as int,
                );
            }
            let si = y * src_stride + x * bpp;
            let (r, g, b) = if red_first {
                (pixels[si], pixels[si + 1], pixels[si + 2])
            } else {
                (pixels[si + 2], pixels[si + 1], pixels[si])
            };
            let ghost before = out@;
            if bgr_out {
                out.push(b);
                out.push(g);
                out.push(r);
            } else {
                out.push(r);
                out.push(g);
                out.push(b);
            }
            out.push(255);
            proof {
                assert forall|yy: int, xx: int, k: int|
                    0 <= yy < y && 0 <= xx < width && 0 <= k < 4 implies #[trigger] out@[yy * stride + xx
                        * 4 + k] == byte_at(yy, xx, k) by {
                    lemma_row_prefix(yy, xx * 4 + k, y as int, stride as int);
                    assert(out@[yy * stride + xx * 4 + k] == before[yy * stride + xx * 4 + k]);
                }
                assert forall|yy: int, j: int|
                    0 <= yy < y && width * 4 <= j < stride implies #[trigger] out@[yy * stride + j] == 0 by {
                    lemma_row_prefix(yy, j, y as int, stride as int);
                    assert(out@[yy * stride + j] == before[yy * stride + j]);
                }
                assert forall|xx: int, k: int|
                    0 <= xx < x + 1 && 0 <= k < 4 implies #[trigger] out@[row_start + xx * 4 + k]
                        == byte_at(y as int, xx, k) by {
                    if xx < x {
                        assert(out@[row_start + xx * 4 + k] == before[row_start + xx * 4 + k]);
                    }
                }
            }
            x = x + 1;
        }
        let mut j: usize = width * 4;
        while j < stride
            invariant
                0 <= y < height,
                width * 4 <= j <= stride,
                row_start == y * stride,
                out@.len() == row_start + j,
                forall|yy: int, xx: int, k: int|
                    0 <= yy < y && 0 <= xx < width && 0 <= k < 4 ==> #[trigger] out@[yy * stride + xx * 4
                        + k] == byte_at(yy, xx, k),
                forall|yy: int, jj: int|
                    0 <= yy < y && width * 4 <= jj < stride ==> #[trigger] out@[yy * stride + jj] == 0,
                forall|xx: int, k: int|
                    0 <= xx < width && 0 <= k < 4 ==> #[trigger] out@[row_start + xx * 4 + k] == byte_at(
                        y as int,
                        xx,
                        k,
                    ),
                forall|jj: int| width * 4 <= jj < j ==> #[trigger] out@[row_start + jj] == 0,
            decreases stride - j,
        {
            let ghost before = out@;
            out.push(0);
            proof {
                assert forall|yy: int, xx: int, k: int|
                    0 <= yy < y && 0 <= xx < width && 0 <= k < 4 implies #[trigger] out@[yy * stride + xx
                        * 4 + k] == byte_at(yy, xx, k) by {
                    lemma_row_prefix(yy, xx * 4 + k, y as int, stride as int);
                    assert(out@[yy * stride + xx * 4 + k] == before[yy * stride + xx * 4 + k]);
                }
                assert forall|yy: int, jj: int|
                    0 <= yy < y && width * 4 <= jj < stride implies #[trigger] out@[yy * stride + jj] == 0 by {
                    lemma_row_prefix(yy, jj, y as int, stride as int);
                    assert(out@[yy * stride + jj] == before[yy * stride + jj]);
                }
                assert forall|xx: int, k: int|
                    0 <= xx < width && 0 <= k < 4 implies #[trigger] out@[row_start + xx * 4 + k]
                        == byte_at(y as int, xx, k) by {
                    assert(out@[row_start + xx * 4 + k] == before[row_start + xx * 4 + k]);
                }
                assert forall|jj: int| width * 4 <= jj < j + 1 implies #[trigger] out@[row_start + jj]
                    == 0 by {
                    if jj < j {
                        assert(out@[row_start + jj] == before[row_start + jj]);
                    }
                }
            }
            j = j + 1;
        }
        proof {
            lemma_next_row(y as int, stride as int);
            assert forall|yy: int, xx: int, k: int|
                0 <= yy < y + 1 && 0 <= xx < width && 0 <= k < 4 implies #[trigger] out@[yy * stride + xx
                    * 4 + k] == byte_at(yy, xx, k) by {
                if yy == y {
                    assert(out@[row_start + xx * 4 + k] == byte_at(y as int, xx, k));
                }
            }
            assert forall|yy: int, jj: int|
                0 <= yy < y + 1 && width * 4 <= jj < stride implies #[trigger] out@[yy * stride + jj]
                    == 0 by {
                if yy == y {
                    assert(out@[row_start + jj] == 0);
                }
            }
        }
        y = y + 1;
    }
    out
}

/// Map any supported capture pixel format to Cairo ARGB32 (B, G, R, A bytes;
/// screenshots are opaque), rows of `stride` bytes with zero padding after
/// the `width` pixels.
pub fn capture_to_cairo_argb_bytes(capture: &CaptureData, stride: usize) -> (out: Vec<u8>)
    requires
        capture.readable(),
        stride > 0,
        capture.width * 4 <= stride,
        stride * capture.height <= usize::MAX,
    ensures
        is_padded_image(
            out@,
            capture.height as int,
            stride as int,
            capture.width as int,
            |y: int, x: int, k: int|
                capture_byte(
                    capture.pixels@,
                    y * capture.stride + x * capture.format.bpp_spec(),
                    k,
                    capture.format,
                    true,
                ),
        ),
{
    capture_rows(capture, stride, true)
}

/// Convert a capture to a packed, opaque RGBA image (`width * 4`-byte rows).
pub fn capture_to_rgba_bytes(capture: &CaptureData) -> (out: Vec<u8>)
    requires
        capture.readable(),
        capture.width * 4 <= usize::MAX,
        capture.width * 4 * capture.height <= usize::MAX,
    ensures
        is_padded_image(
            out@,
            capture.height as int,
            capture.width * 4,
            capture.width as int,
            |y: int, x: int, k: int|
                capture_byte(
                    capture.pixels@,
                    y * capture.stride + x * capture.format.bpp_spec(),
                    k,
                    capture.format,
                    false,
                ),
        ),
{
    capture_rows(capture, capture.width as usize * 4, false)
}

/// How each capture format is read: RGBA32, RGB32 and RGB24 store red
/// first, BGRA32, BGR32 and BGR24 store blue first; green is always the
/// middle byte and captures are opaque. The Cairo layout writes blue, green,
/// red, alpha; packed RGBA writes red, green, blue, alpha. The 24-bit formats
/// take three bytes per pixel, the others four.
pub proof fn lemma_capture_channel_order(pixels: Seq<u8>, si: int, format: PixelFormat)
    ensures
        (format is RGBA32 || format is RGB32 || format is RGB24) ==> {
            &&& capture_byte(pixels, si, 0, format, true) == pixels[si + 2]
            &&& capture_byte(pixels, si, 2, format, true) == pixels[si]
            &&& capture_byte(pixels, si, 0, format, false) == pixels[si]
            &&& capture_byte(pixels, si, 2, format, false) == pixels[si + 2]
        },
        (format is BGRA32 || format is BGR32 || format is BGR24) ==> {
            &&& capture_byte(pixels, si, 0, format, true) == pixels[si]
            &&& capture_byte(pixels, si, 2, format, true) == pixels[si + 2]
            &&& capture_byte(pixels, si, 0, format, false) == pixels[si + 2]
            &&& capture_byte(pixels, si, 2, format, false) == pixels[si]
        },
        capture_byte(pixels, si, 1, format, true) == pixels[si + 1],
        capture_byte(pixels, si, 1, format, false) == pixels[si + 1],
        capture_byte(pixels, si, 3, format, true) == 255,
        capture_byte(pixels, si, 3, format, false) == 255,
        format.bpp_spec() == (if format is RGB24 || format is BGR24 { 3int } else { 4int }),
{
}

/// Cairo's premultiplied layout: a fully transparent pixel becomes four
/// zero bytes; otherwise the bytes are blue, green and red each scaled by
/// alpha with rounding (`(c * a + 127) / 255`), then alpha itself. An opaque
/// pixel keeps its colours.
pub proof fn lemma_argb_layout(src: Seq<u8>, p: int)
    ensures
        src[p + 3] == 0 ==> forall|k: int| 0 <= k < 4 ==> #[trigger] argb_byte(src, p, k) == 0,
        src[p + 3] != 0 ==> {
            &&& argb_byte(src, p, 0) == (src[p + 2] * src[p + 3] + 127) / 255
            &&& argb_byte(src, p, 1) == (src[p + 1] * src[p + 3] + 127) / 255
            &&& argb_byte(src, p, 2) == (src[p] * src[p + 3] + 127) / 255
            &&& argb_byte(src, p, 3) == src[p + 3]
        },
        src[p + 3] == 255 ==> {
            &&& argb_byte(src, p, 0) == src[p + 2]
            &&& argb_byte(src, p, 1) == src[p + 1]
            &&& argb_byte(src, p, 2) == src[p]
            &&& argb_byte(src, p, 3) == 255
        },
{
    if src[p + 3] != 0 {
        lemma_premul_in_range(src[p + 2], src[p + 3]);
        lemma_premul_in_range(src[p + 1], src[p + 3]);
        lemma_premul_in_range(src[p], src[p + 3]);
    }
    if src[p + 3] == 255 {
        lemma_premul_opaque(src[p + 2]);
        lemma_premul_opaque(src[p + 1]);
        lemma_premul_opaque(src[p]);
    }
}

/// One side of the toolbar's frosted-glass backdrop: a quarter of the
/// screenshot's side, at least one pixel.
pub open spec fn blur_side(side: u32) -> u32 {
    if side / 4 > 0 {
        side / 4
    } else {
        1
    }
}

/// Size of the downsampled image the toolbar backdrop is blurred from.
/// An empty screenshot (no width or no height) cannot be selected from and
/// is an initialization error.
pub fn toolbar_blur_size(width: u32, height: u32) -> (size: Result<(u32, u32), SelectionError>)
    ensures
        (width == 0 || height == 0) <==> size matches Err(SelectionError::InitError(_)),
        size is Err ==> (size matches Err(SelectionError::InitError(m)) && m@
            == "Cannot select from an empty screenshot"@),
        size matches Ok(s) ==> s == (blur_side(width), blur_side(height)),
{
    if width == 0 || height == 0 {
        return Err(SelectionError::InitError(String::from_str("Cannot select from an empty screenshot")));
    }
    let w = if width / 4 > 0 { width / 4 } else { 1 };
    let h = if height / 4 > 0 { height / 4 } else { 1 };
    Ok((w, h))
}

} // verus!
