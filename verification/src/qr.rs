//! QR code detection and decoding on greyscale images, via `rqrr`.

use vstd::prelude::*;

verus! {

/// What `rqrr` reads from a `width` x `height` greyscale image (row-major,
/// one luminance byte per pixel): for each QR grid it detects, in its order,
/// the decoded text, or `None` when that grid does not decode.
pub uninterp spec fn qr_grid_payloads(gray: Seq<u8>, width: nat, height: nat) -> Seq<Option<Seq<char>>>;

/// Luminance of pixel (x, y) of a row-major greyscale image `width` pixels
/// wide; 0 outside the buffer.
pub fn gray_at(data: &[u8], width: usize, x: usize, y: usize) -> (v: u8)
    ensures
        y * width + x < data@.len() ==> v == data@[y * width + x],
{
    let len = data.len();
    match y.checked_mul(width) {
        Some(row) => match row.checked_add(x) {
            Some(idx) => {
                if idx < len {
                    data[idx]
                } else {
                    0
                }
            },
            None => 0,
        },
        None => 0,
    }
}

/// Calls `rqrr::PreparedImage::prepare_from_greyscale` on the image, then
/// `detect_grids`, then `Grid::decode` on each grid found, keeping the
/// decoded text (or `None` for a grid whose decoding fails).
///
/// The contract claims only that the outcome is a function of the image,
/// named `qr_grid_payloads`; what rqrr detects and decodes is not stated.
/// The three calls share one wrapper because the image and grid types they
/// pass between them live in private modules of `rqrr` and cannot be named.
///
/// The `requires` rules out the inputs on which rqrr's source shows a
/// panic: the overflow check in `prepare_from_greyscale`, and an empty row
/// (`width == 0` with rows present), where `capstones_from_image` reads
/// pixel `(0, y)` of an empty buffer. Detection and decoding also hold
/// internal assertions that depend on the pixels (`assert!(scan >= 1)` in
/// `identify/grid.rs`, the coordinate assertions of `Perspective::map` in
/// `geometry.rs`, the panics of `get_region` and `repaint_and_apply` in
/// `prepare.rs`, and an `expect` on a NaN comparison in
/// `identify/match_capstones.rs`). Neither rqrr's source nor its
/// documentation shows which images reach them, so the contract leaves them
/// unsaid: what it states holds of every call that returns.
#[verifier::external_body]
fn rqrr_grid_payloads(gray: &[u8], width: usize, height: usize) -> (payloads: Vec<Option<String>>)
    requires
        width > 0,
        height > 0,
        width * height <= usize::MAX,
        width * height <= gray@.len(),
    ensures
        payloads.deep_view() == qr_grid_payloads(gray@, width as nat, height as nat),
{
    let mut prepared = rqrr::PreparedImage::prepare_from_greyscale(width, height, |x, y| gray_at(gray, width, x, y));
    prepared.detect_grids().iter().map(|grid| grid.decode().ok().map(|(_, content)| content)).collect()
}

/// The first successfully decoded grid's text.
pub open spec fn first_payload(p: Seq<Option<Seq<char>>>) -> Option<Seq<char>>
    decreases p.len(),
{
    if p.len() == 0 {
        None
    } else if p[0] is Some {
        p[0]
    } else {
        first_payload(p.drop_first())
    }
}

proof fn lemma_first_payload_skip(p: Seq<Option<Seq<char>>>, i: int)
    requires
        0 <= i <= p.len(),
        forall|j: int| 0 <= j < i ==> #[trigger] p[j] is None,
    ensures
        first_payload(p) == first_payload(p.skip(i)),
    decreases i,
{
    if i > 0 {
        assert(p.skip(1) =~= p.drop_first());
        lemma_first_payload_skip(p.drop_first(), i - 1);
        assert(p.drop_first().skip(i - 1) =~= p.skip(i));
    } else {
        assert(p.skip(0) =~= p);
    }
}

/// The text of the first grid that decoded, in detection order; `None` when
/// no grid decoded.
pub fn first_decoded_payload(payloads: &Vec<Option<String>>) -> (text: Option<String>)
    ensures
        text.deep_view() == first_payload(payloads.deep_view()),
{
    let ghost p = payloads.deep_view();
    let n = payloads.len();
    let mut i: usize = 0;
    while i < n
        invariant
            0 <= i <= n,
            n == payloads@.len(),
            payloads.deep_view() == p,
            forall|j: int| 0 <= j < i ==> #[trigger] p[j] is None,
        decreases n - i,
    {
        proof {
            assert(payloads.deep_view()[i as int] == payloads@[i as int].deep_view());
        }
        match &payloads[i] {
            Some(content) => {
                let text = content.clone();
                proof {
                    lemma_first_payload_skip(p, i as int);
                    assert(p.skip(i as int)[0] == p[i as int]);
                    assert(p[i as int] == Some(content@));
                    assert(p.skip(i as int).len() > 0);
                    assert(first_payload(p.skip(i as int)) == p[i as int]);
                    assert(text@ == content@);
                    assert(Some(text).deep_view() == Some(text@));
                }
                return Some(text);
            },
            None => {},
        }
        i = i + 1;
    }
    proof {
        lemma_first_payload_skip(p, n as int);
        assert(p.skip(n as int).len() == 0);
    }
    None
}

/// Detect and decode QR codes in a greyscale image (row-major, `width` x
/// `height`, one byte per pixel): the text of the first detected grid that
/// decodes, or `None` when no grid decodes. An image without pixels holds no
/// code.
///
/// The detection runs in `rqrr`, whose pixel-dependent internal assertions
/// this contract does not rule out (see `rqrr_grid_payloads`).
pub fn detect_and_decode_from_gray(data: &[u8], width: u32, height: u32) -> (text: Option<String>)
    requires
        width * height <= usize::MAX,
        width * height <= data@.len(),
    ensures
        (width == 0 || height == 0) ==> text is None,
        (width > 0 && height > 0) ==> text.deep_view() == first_payload(
            qr_grid_payloads(data@, width as nat, height as nat),
        ),
{
    if width == 0 || height == 0 {
        return None;
    }
    let payloads = rqrr_grid_payloads(data, width as usize, height as usize);
    first_decoded_payload(&payloads)
}

} // verus!
