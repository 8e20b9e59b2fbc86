//! Preview thumbnails for the screen share: nearest-neighbour downscale to
//! at most 480 pixels wide, conversion to RGB, and JPEG encoding at
//! quality 55. The downscale and the channel reordering are verified
//! byte-for-byte; the JPEG bitstream itself comes from the image crate and
//! is named, not restated.

use vstd::prelude::*;
use vstd::arithmetic::div_mod::{
    lemma_multiply_divide_lt,
    lemma_div_multiples_vanish,
    lemma_div_is_ordered,
};
use crate::pixel::{spec_red, spec_green, spec_blue, read_rgb};

verus! {

/// Width of the thumbnail the downscale aims for.
pub const PREVIEW_MAX_WIDTH: u32 = 480;

/// Thumbnail width for a frame of width `w`.
pub open spec fn spec_preview_tw(w: int) -> int {
    if w > 480 {
        480
    } else {
        w - w % 2
    }
}

/// Thumbnail height for a frame of `w` by `h`: scaled by the same factor
/// as the width, rounded down to even.
pub open spec fn spec_preview_th(w: int, h: int) -> int {
    if w > 480 {
        let t = h * 480 / w;
        t - t % 2
    } else {
        h - h % 2
    }
}

/// Byte `i` of the thumbnail's tightly packed RGB buffer: the channel
/// `i % 3` of the source pixel that nearest-neighbour sampling picks for
/// thumbnail cell `(i / (tw * 3), (i % (tw * 3)) / 3)`.
pub open spec fn shrunk_byte(
    data: Seq<u8>,
    is_bgra: bool,
    w: int,
    h: int,
    tw: int,
    th: int,
    i: int,
) -> int {
    let row = i / (tw * 3);
    let rem = i % (tw * 3);
    let col = rem / 3;
    let c = rem % 3;
    let sr = row * h / th;
    let sc = col * w / tw;
    if c == 0 {
        spec_red(data, is_bgra, w, sr, sc)
    } else if c == 1 {
        spec_green(data, is_bgra, w, sr, sc)
    } else {
        spec_blue(data, is_bgra, w, sr, sc)
    }
}

/// The whole thumbnail RGB buffer.
pub open spec fn shrunk_rgb(
    data: Seq<u8>,
    is_bgra: bool,
    w: int,
    h: int,
    tw: int,
    th: int,
) -> Seq<u8> {
    Seq::new((th * tw * 3) as nat, |i: int| shrunk_byte(data, is_bgra, w, h, tw, th, i) as u8)
}

/// The JPEG bitstream the image crate produces at quality 55 for a tightly
/// packed RGB buffer of the given size. It depends on those inputs alone.
pub uninterp spec fn jpeg_of(rgb: Seq<u8>, width: int, height: int) -> Seq<u8>;

/// Relies on image's `JpegEncoder` (quality 55) via `write_image` over
/// `Rgb8`: the bitstream is a function of the pixel bytes and dimensions
/// alone; encoding succeeds exactly when both dimensions fit 1..=65535,
/// since the only writer is an in-memory buffer.
#[verifier::external_body]
fn encode_jpeg_rgb(rgb: &Vec<u8>, width: u32, height: u32) -> (r: Option<Vec<u8>>)
    requires
        rgb@.len() == 3 * width * height,
    ensures
        (r matches Some(v) ==> v@ == jpeg_of(rgb@, width as int, height as int)),
        1 <= width <= 65535 && 1 <= height <= 65535 ==> r.is_some(),
        (width == 0 || height == 0 || width > 65535 || height > 65535) ==> r.is_none(),
{
    let mut buf = std::io::Cursor::new(Vec::new());
    let encoder = image::codecs::jpeg::JpegEncoder::new_with_quality(&mut buf, 55);
    let ok = image::ImageEncoder::write_image(
        encoder,
        rgb.as_slice(),
        width,
        height,
        image::ExtendedColorType::Rgb8,
    );
    match ok {
        Ok(()) => Some(buf.into_inner()),
        Err(_) => None,
    }
}

/// The thumbnail dimensions for a `w`-by-`h` frame: even, no wider than
/// 480, never larger than the frame.
pub fn preview_dims(w: usize, h: usize) -> (r: (usize, usize))
    ensures
        r.0 == spec_preview_tw(w as int),
        r.1 == spec_preview_th(w as int, h as int),
        r.0 <= w,
        r.1 <= h,
        r.0 % 2 == 0,
        r.1 % 2 == 0,
        r.0 <= 480,
{
    if w > 480 {
        let scaled: u128 = h as u128 * 480 / w as u128;
        proof {
            assert(h as int * 480 <= h as int * (w as int)) by (nonlinear_arith)
                requires
                    480 <= w,
                    0 <= h,
            ;
            lemma_div_is_ordered(h as int * 480, h as int * (w as int), w as int);
            lemma_div_multiples_vanish(h as int, w as int);
            assert((w as int) * (h as int) == (h as int) * (w as int)) by (nonlinear_arith);
        }
        let th128: u128 = scaled - scaled % 2;
        (480, th128 as usize)
    } else {
        (w - w % 2, h - h % 2)
    }
}

/// Nearest-neighbour downscale of a 4-byte-per-pixel frame to a tightly
/// packed `tw`-by-`th` RGB buffer.
pub fn downscale_rgb(
    data: &Vec<u8>,
    is_bgra: bool,
    w: usize,
    h: usize,
    tw: usize,
    th: usize,
) -> (out: Vec<u8>)
    requires
        data@.len() == w * h * 4,
        1 <= tw <= w,
        1 <= th <= h,
    ensures
        out@ == shrunk_rgb(data@, is_bgra, w as int, h as int, tw as int, th as int),
{
    let n: usize = data.len();
    proof {
        assert(n == data@.len());
        assert(tw * 3 <= w * h * 4 && th * (tw * 3) <= w * h * 4 && tw * 3 > 0 && th * (tw * 3)
            == th * tw * 3) by (nonlinear_arith)
            requires
                1 <= tw <= w,
                1 <= th <= h,
        ;
    }
    let row_bytes: usize = tw * 3;
    let total: usize = th * row_bytes;
    let mut out: Vec<u8> = Vec::new();
    let mut i: usize = 0;
    while i < total
        invariant
            i <= total,
            total == th * row_bytes,
            row_bytes == tw * 3,
            1 <= tw <= w,
            1 <= th <= h,
            data@.len() == w * h * 4,
            out@.len() == i,
            forall|j: int|
                0 <= j < i ==> out@[j] as int == shrunk_byte(
                    data@,
                    is_bgra,
                    w as int,
                    h as int,
                    tw as int,
                    th as int,
                    j,
                ),
        decreases total - i,
    {
        let row: usize = i / row_bytes;
        let rem: usize = i % row_bytes;
        let col: usize = rem / 3;
        let c: usize = rem % 3;
        proof {
            lemma_multiply_divide_lt(i as int, row_bytes as int, th as int);
            lemma_multiply_divide_lt(rem as int, 3, tw as int);
        }
        proof {
            assert(row * h < th * h) by (nonlinear_arith)
                requires
                    row < th,
                    1 <= h,
            ;
            lemma_multiply_divide_lt(row as int * h as int, th as int, h as int);
            assert(col * w < tw * w) by (nonlinear_arith)
                requires
                    col < tw,
                    1 <= w,
            ;
            lemma_multiply_divide_lt(col as int * w as int, tw as int, w as int);
            assert((row as int) * (h as int) <= 0xffff_ffff_ffff_ffff * 0xffff_ffff_ffff_ffff
                && (col as int) * (w as int) <= 0xffff_ffff_ffff_ffff * 0xffff_ffff_ffff_ffff)
                by (nonlinear_arith)
                requires
                    0 <= row <= 0xffff_ffff_ffff_ffff,
                    0 <= h <= 0xffff_ffff_ffff_ffff,
                    0 <= col <= 0xffff_ffff_ffff_ffff,
                    0 <= w <= 0xffff_ffff_ffff_ffff,
            ;
        }
        let sr: usize = (row as u128 * h as u128 / th as u128) as usize;
        let sc: usize = (col as u128 * w as u128 / tw as u128) as usize;
        let (r, g, b) = read_rgb(data, is_bgra, w, h, sr, sc);
        if c == 0 {
            out.push(r);
        } else if c == 1 {
            out.push(g);
        } else {
            out.push(b);
        }
        i += 1;
    }
    proof {
        assert(out@ =~= shrunk_rgb(data@, is_bgra, w as int, h as int, tw as int, th as int));
    }
    out
}

/// Build the JPEG preview for a captured frame: pick the thumbnail size,
/// downscale to RGB, and encode. Yields nothing when the thumbnail would
/// have no pixels or a side too large for JPEG.
pub fn make_preview_jpeg(data: &Vec<u8>, w: usize, h: usize, is_bgra: bool) -> (r: Option<Vec<u8>>)
    requires
        data@.len() == w * h * 4,
    ensures
        ({
            let tw = spec_preview_tw(w as int);
            let th = spec_preview_th(w as int, h as int);
            if tw < 1 || th < 1 || tw > 65535 || th > 65535 {
                r.is_none()
            } else {
                r matches Some(v) && v@ == jpeg_of(
                    shrunk_rgb(data@, is_bgra, w as int, h as int, tw, th),
                    tw,
                    th,
                )
            }
        }),
{
    let (tw, th) = preview_dims(w, h);
    if tw < 1 || th < 1 || tw > 65535 || th > 65535 {
        return None;
    }
    let rgb = downscale_rgb(data, is_bgra, w, h, tw, th);
    proof {
        assert(rgb@.len() == 3 * (tw as int) * (th as int)) by (nonlinear_arith)
            requires
                rgb@.len() == (th as int) * (tw as int) * 3,
        ;
    }
    encode_jpeg_rgb(&rgb, tw as u32, th as u32)
}

} // verus!
