//! Recorded frames: the pixels read back from the screen come bottom row first
//! and with an alpha channel; a saved frame is upright RGB.
use vstd::prelude::*;

use vstd::arithmetic::div_mod::lemma_fundamental_div_mod_converse;

use image::codecs::jpeg::JpegEncoder;
use image::ImageEncoder;

verus! {

/// Byte `k` of the upright RGB picture made of the `w` x `h` RGBA pixels `px`,
/// whose first row is the bottom one: colour `k % 3` of pixel `k / 3`, taken from
/// the mirrored row.
pub open spec fn upright_rgb_byte(w: nat, h: nat, px: Seq<u8>, k: int) -> u8 {
    let p = k / 3;
    let c = k % 3;
    let dst_y = p / (w as int);
    let x = p % (w as int);
    px[((h - 1 - dst_y) * w + x) * 4 + c]
}

/// The upright RGB picture made of the `w` x `h` bottom-up RGBA pixels `px`.
pub open spec fn upright_rgb(w: nat, h: nat, px: Seq<u8>) -> Seq<u8> {
    Seq::new(w * h * 3, |k: int| upright_rgb_byte(w, h, px, k))
}

proof fn lemma_pixel_in_range(w: int, h: int, y: int, x: int)
    requires
        0 <= y < h,
        0 <= x < w,
    ensures
        0 <= (y * w + x) * 4 + 3 < w * h * 4,
        0 <= y * w + x < h * w,
{
    assert(0 <= y * w) by (nonlinear_arith)
        requires
            0 <= y,
            0 <= w,
    ;
    assert(y * w + x < h * w) by (nonlinear_arith)
        requires
            y < h,
            0 <= x < w,
    ;
    assert(h * w == w * h) by (nonlinear_arith);
}

proof fn lemma_byte_at(w: nat, h: nat, px: Seq<u8>, dy: int, x: int, c: int)
    requires
        0 <= dy < h,
        0 <= x < w,
        0 <= c < 3,
    ensures
        upright_rgb_byte(w, h, px, (dy * w + x) * 3 + c) == px[((h - 1 - dy) * w + x) * 4 + c],
{
    let p = dy * w + x;
    let k = p * 3 + c;
    lemma_fundamental_div_mod_converse(k, 3, p, c);
    lemma_fundamental_div_mod_converse(p, w as int, dy, x);
}

/// The frame `pixels`, `w` x `h` RGBA read bottom row first, as upright RGB: rows
/// mirrored top to bottom and alpha dropped.
pub fn upright_rgb_frame(w: u32, h: u32, pixels: &Vec<u8>) -> (r: Vec<u8>)
    requires
        pixels@.len() == w * h * 4,
    ensures
        r@ == upright_rgb(w as nat, h as nat, pixels@),
{
    let wu = w as usize;
    let hu = h as usize;
    let ghost wi = w as int;
    let ghost hi = h as int;
    let plen = pixels.len();
    let mut r: Vec<u8> = Vec::new();
    let mut dy: usize = 0;
    while dy < hu
        invariant
            wu == w,
            hu == h,
            wi == w,
            hi == h,
            plen == pixels@.len(),
            dy <= hu,
            pixels@.len() == w * h * 4,
            r@.len() == dy * wi * 3,
            forall|k: int| 0 <= k < r@.len() ==> r@[k] == upright_rgb_byte(w as nat, h as nat, pixels@, k),
        decreases hu - dy,
    {
        let y = hu - 1 - dy;
        let mut x: usize = 0;
        while x < wu
            invariant
                wu == w,
                hu == h,
                wi == w,
                hi == h,
                plen == pixels@.len(),
                dy < hu,
                y == hu - 1 - dy,
                x <= wu,
                pixels@.len() == w * h * 4,
                r@.len() == (dy * wi + x) * 3,
                forall|k: int| 0 <= k < r@.len() ==> r@[k] == upright_rgb_byte(w as nat, h as nat, pixels@, k),
            decreases wu - x,
        {
            proof {
                lemma_pixel_in_range(wi, hi, y as int, x as int);
            }
            let base = (y * wu + x) * 4;
            let ghost r0 = r@;
            r.push(pixels[base]);
            r.push(pixels[base + 1]);
            r.push(pixels[base + 2]);
            proof {
                assert forall|k: int| 0 <= k < r@.len() implies r@[k] == upright_rgb_byte(
                    w as nat,
                    h as nat,
                    pixels@,
                    k,
                ) by {
                    if k >= r0.len() {
                        let c = k - r0.len();
                        lemma_byte_at(w as nat, h as nat, pixels@, dy as int, x as int, c);
                        assert(k == (dy * wi + x) * 3 + c) by (nonlinear_arith)
                            requires
                                r0.len() == (dy * wi + x) * 3,
                                c == k - r0.len(),
                        ;
                    }
                }
                assert((dy * wi + x + 1) * 3 == (dy * wi + x) * 3 + 3) by (nonlinear_arith);
            }
            x = x + 1;
        }
        proof {
            assert((dy * wi + wi) * 3 == (dy + 1) * wi * 3) by (nonlinear_arith);
        }
        dy = dy + 1;
    }
    proof {
        assert(hi * wi * 3 == wi * hi * 3) by (nonlinear_arith);
        assert(r@ =~= upright_rgb(w as nat, h as nat, pixels@));
    }
    r
}

/// The quality the recorded frames are saved at.
pub const JPEG_QUALITY: u8 = 85;

/// The `image` crate's error.
#[verifier::external_type_specification]
#[verifier::external_body]
pub struct ExImageError(image::ImageError);

/// The JPEG file that the `image` crate's baseline encoder writes for the
/// `width` x `height` RGB picture `rgb` at `quality`.
pub uninterp spec fn jpeg_file(rgb: Seq<u8>, width: u32, height: u32, quality: u8) -> Seq<u8>;

/// Encodes an RGB picture as JPEG in memory with `image::codecs::jpeg::JpegEncoder`
/// (`new_with_quality`, then `ImageEncoder::write_image` with `Rgb8`). The encoder
/// panics unless the buffer holds exactly `width * height` pixels, refuses a side
/// of 0 or over 65535 with an error, and otherwise writes its file into the
/// vector, which cannot fail; the bytes of that file are named, not described.
#[verifier::external_body]
fn encode_jpeg(rgb: &Vec<u8>, width: u32, height: u32, quality: u8) -> (r: Result<Vec<u8>, image::ImageError>)
    requires
        rgb@.len() == width * height * 3,
    ensures
        r is Ok <==> (1 <= width <= 65535 && 1 <= height <= 65535),
        r matches Ok(b) ==> b@ == jpeg_file(rgb@, width, height, quality),
{
    let mut out: Vec<u8> = Vec::new();
    let encoder = JpegEncoder::new_with_quality(&mut out, quality);
    match encoder.write_image(rgb.as_slice(), width, height, image::ExtendedColorType::Rgb8) {
        Ok(()) => Ok(out),
        Err(e) => Err(e),
    }
}

/// Why a frame could not be saved.
#[derive(Clone, Copy, Debug, PartialEq, Eq, Structural)]
pub enum FrameError {
    /// The JPEG encoder refused the picture (a side of 0 or over 65535 pixels).
    Encode,
}

/// A recorded frame, `w` x `h` RGBA read bottom row first, as the JPEG file it is
/// saved as: made upright RGB, then encoded at `JPEG_QUALITY`.
pub fn encode_frame(w: u32, h: u32, pixels: &Vec<u8>) -> (r: Result<Vec<u8>, FrameError>)
    requires
        pixels@.len() == w * h * 4,
    ensures
        r is Ok <==> (1 <= w <= 65535 && 1 <= h <= 65535),
        r matches Ok(b) ==> b@ == jpeg_file(upright_rgb(w as nat, h as nat, pixels@), w, h, JPEG_QUALITY),
        r matches Err(e) ==> e == FrameError::Encode,
{
    let rgb = upright_rgb_frame(w, h, pixels);
    proof {
        assert(rgb@.len() == w * h * 3);
    }
    match encode_jpeg(&rgb, w, h, JPEG_QUALITY) {
        Ok(bytes) => Ok(bytes),
        Err(_) => Err(FrameError::Encode),
    }
}

} // verus!
