//! Extraction of an even-sized frame from a strided capture buffer.
//!
//! A PipeWire buffer row may be wider than the content (stride padding), and
//! a crop decision may select a sub-region. Extraction copies the selected
//! rows into a tightly packed buffer, rounding width and height down to even
//! values as the video encoder requires; a row that would run past the end
//! of the source buffer is left as zeros, and a selection that rounds to
//! nothing yields no frame.

use vstd::prelude::*;
use crate::crop::CropResult;

verus! {

/// One captured video frame: tightly packed 4-byte pixels, plus its pixel
/// byte order.
pub struct FrameData {
    pub data: Vec<u8>,
    pub width: u32,
    pub height: u32,
    pub is_bgra: bool,
}

/// `n` rounded down to an even value.
pub open spec fn even_floor(n: int) -> int {
    n - n % 2
}

/// The byte the extracted frame owes at row `r`, byte offset `j`, when the
/// selected region starts at `(cx, cy)` and is `cw` pixels wide: the source
/// byte where the full source row fits in the buffer, 0 where it does not.
pub open spec fn extract_byte(
    raw: Seq<u8>,
    stride: int,
    cx: int,
    cy: int,
    cw: int,
    r: int,
    j: int,
) -> int {
    if (cy + r) * stride + (cx + cw) * 4 <= raw.len() {
        raw[(cy + r) * stride + cx * 4 + j] as int
    } else {
        0
    }
}

/// The extracted frame `f` holds exactly the `cw`-by-`ch` region of `raw`
/// at `(cx, cy)`.
pub open spec fn frame_ok(
    raw: Seq<u8>,
    stride: int,
    cx: int,
    cy: int,
    cw: int,
    ch: int,
    is_bgra: bool,
    f: FrameData,
) -> bool {
    f.width == cw && f.height == ch && f.is_bgra == is_bgra && f.data@.len() == ch * (cw * 4)
        && (forall|r: int, j: int|
        0 <= r < ch && 0 <= j < cw * 4 ==> f.data@[r * (cw * 4) + j] as int == extract_byte(
            raw,
            stride,
            cx,
            cy,
            cw,
            r,
            j,
        ))
}

/// What `extract_frame` owes for each crop decision.
pub open spec fn extraction_ok(
    raw: Seq<u8>,
    stride: int,
    w: int,
    h: int,
    crop: CropResult,
    is_bgra: bool,
    r: Option<FrameData>,
) -> bool {
    match crop {
        CropResult::Empty => r.is_none(),
        CropResult::FullFrame => {
            let ew = even_floor(w);
            let eh = even_floor(h);
            if ew == 0 || eh == 0 {
                r.is_none()
            } else {
                match r {
                    Some(f) => frame_ok(raw, stride, 0, 0, ew, eh, is_bgra, f),
                    None => false,
                }
            }
        },
        CropResult::Cropped(cx, cy, cw, ch) => {
            let ewc = even_floor(cw as int);
            let ehc = even_floor(ch as int);
            if ewc == 0 || ehc == 0 {
                r.is_none()
            } else {
                match r {
                    Some(f) => frame_ok(raw, stride, cx as int, cy as int, ewc, ehc, is_bgra, f),
                    None => false,
                }
            }
        },
    }
}

/// Copy the `cw`-by-`ch` pixel region at `(cx, cy)` out of a strided buffer
/// into a tightly packed one, zero-filling any row that runs past the end
/// of the source.
fn copy_region(raw: &Vec<u8>, stride: usize, cx: usize, cy: usize, cw: usize, ch: usize) -> (out:
    Vec<u8>)
    requires
        cy + ch <= usize::MAX,
        (cy + ch) * stride + (cx + cw) * 4 <= usize::MAX,
        cw * 4 * ch <= usize::MAX,
    ensures
        out@.len() == ch * (cw * 4),
        forall|r: int, j: int|
            0 <= r < ch && 0 <= j < cw * 4 ==> out@[r * (cw * 4) + j] as int == extract_byte(
                raw@,
                stride as int,
                cx as int,
                cy as int,
                cw as int,
                r,
                j,
            ),
{
    let row_bytes: usize = cw * 4;
    let mut out: Vec<u8> = Vec::new();
    let mut r: usize = 0;
    while r < ch
        invariant
            r <= ch,
            row_bytes == cw * 4,
            cy + ch <= usize::MAX,
            (cy + ch) * stride + (cx + cw) * 4 <= usize::MAX,
            row_bytes * ch <= usize::MAX,
            out@.len() == r * row_bytes,
            forall|r2: int, j2: int|
                0 <= r2 < r && 0 <= j2 < row_bytes ==> out@[r2 * row_bytes + j2] as int
                    == extract_byte(
                    raw@,
                    stride as int,
                    cx as int,
                    cy as int,
                    cw as int,
                    r2,
                    j2,
                ),
        decreases ch - r,
    {
        proof {
            assert((cy + r) * stride <= (cy + ch) * stride) by (nonlinear_arith)
                requires
                    r < ch,
                    0 <= cy,
                    0 <= stride,
            ;
        }
        let src_off: usize = (cy + r) * stride + cx * 4;
        let in_range: bool = src_off + row_bytes <= raw.len();
        let mut j: usize = 0;
        while j < row_bytes
            invariant
                r < ch,
                j <= row_bytes,
                row_bytes == cw * 4,
                (cy + ch) * stride + (cx + cw) * 4 <= usize::MAX,
                row_bytes * ch <= usize::MAX,
                src_off == (cy + r) * stride + cx * 4,
                src_off + row_bytes <= usize::MAX,
                in_range == (src_off + row_bytes <= raw@.len()),
                out@.len() == r * row_bytes + j,
                forall|r2: int, j2: int|
                    0 <= r2 < r && 0 <= j2 < row_bytes ==> out@[r2 * row_bytes + j2] as int
                        == extract_byte(
                        raw@,
                        stride as int,
                        cx as int,
                        cy as int,
                        cw as int,
                        r2,
                        j2,
                    ),
                forall|j2: int|
                    0 <= j2 < j ==> out@[r as int * row_bytes + j2] as int == extract_byte(
                        raw@,
                        stride as int,
                        cx as int,
                        cy as int,
                        cw as int,
                        r as int,
                        j2,
                    ),
            decreases row_bytes - j,
        {
            if in_range {
                out.push(raw[src_off + j]);
            } else {
                out.push(0);
            }
            proof {
                assert forall|r2: int, j2: int|
                    0 <= r2 < r && 0 <= j2 < row_bytes implies out@[r2 * row_bytes + j2] as int
                    == extract_byte(
                    raw@,
                    stride as int,
                    cx as int,
                    cy as int,
                    cw as int,
                    r2,
                    j2,
                ) by {
                    lemma_row_lt(r2, j2, r as int, j as int, row_bytes as int);
                }
                assert forall|j2: int|
                    0 <= j2 < j implies out@[r as int * row_bytes + j2] as int == extract_byte(
                    raw@,
                    stride as int,
                    cx as int,
                    cy as int,
                    cw as int,
                    r as int,
                    j2,
                ) by {
                    lemma_row_lt(r as int, j2, r as int, j as int, row_bytes as int);
                }
            }
            j += 1;
        }
        proof {
            assert((r + 1) * row_bytes == r * row_bytes + row_bytes) by (nonlinear_arith);
            assert((r + 1) * row_bytes <= ch * row_bytes) by (nonlinear_arith)
                requires
                    r < ch,
                    0 <= row_bytes,
            ;
        }
        r += 1;
    }
    proof {
        assert(ch * row_bytes == row_bytes * ch) by (nonlinear_arith);
    }
    out
}

/// A byte strictly before position `(r, j)` of a row-major byte grid has a
/// strictly smaller linear index.
proof fn lemma_row_lt(r2: int, j2: int, r: int, j: int, row_bytes: int)
    requires
        0 <= r2,
        0 <= j2 < row_bytes,
        0 <= j,
        r2 < r || (r2 == r && j2 < j),
    ensures
        r2 * row_bytes + j2 < r * row_bytes + j,
{
    assert(r2 * row_bytes + j2 < r * row_bytes + j) by (nonlinear_arith)
        requires
            0 <= r2,
            0 <= j2 < row_bytes,
            0 <= j,
            r2 < r || (r2 == r && j2 < j),
    ;
}

/// Turn a crop decision into the frame to hand to the encoder: the cropped
/// region or the whole frame, trimmed to even dimensions, or nothing when
/// the decision was `Empty` or the selection rounds to nothing.
pub fn extract_frame(
    raw: &Vec<u8>,
    stride: usize,
    w: usize,
    h: usize,
    crop: CropResult,
    is_bgra: bool,
) -> (r: Option<FrameData>)
    requires
        w <= u32::MAX,
        h <= u32::MAX,
        h * stride + w * 4 <= usize::MAX,
        w * 4 * h <= usize::MAX,
        (crop matches CropResult::Cropped(cx, cy, cw, ch) ==> cx + cw <= w && cy + ch <= h && 1
            <= cw && 1 <= ch),
    ensures
        extraction_ok(raw@, stride as int, w as int, h as int, crop, is_bgra, r),
{
    match crop {
        CropResult::Empty => None,
        CropResult::FullFrame => {
            let ew: usize = w - w % 2;
            let eh: usize = h - h % 2;
            if ew == 0 || eh == 0 {
                return None;
            }
            proof {
                assert(eh * stride <= h * stride) by (nonlinear_arith)
                    requires
                        eh <= h,
                        0 <= stride,
                ;
                assert(ew * 4 * eh <= w * 4 * h) by (nonlinear_arith)
                    requires
                        ew <= w,
                        eh <= h,
                ;
            }
            let data = copy_region(raw, stride, 0, 0, ew, eh);
            Some(FrameData { data, width: ew as u32, height: eh as u32, is_bgra })
        },
        CropResult::Cropped(cx, cy, cw, ch) => {
            let ewc: usize = cw - cw % 2;
            let ehc: usize = ch - ch % 2;
            if ewc == 0 || ehc == 0 {
                return None;
            }
            proof {
                assert((cy + ehc) * stride <= h * stride) by (nonlinear_arith)
                    requires
                        cy + ehc <= h,
                        0 <= stride,
                ;
                assert((cx + ewc) * 4 <= w * 4) by (nonlinear_arith)
                    requires
                        cx + ewc <= w,
                ;
                assert(ewc * 4 * ehc <= w * 4 * h) by (nonlinear_arith)
                    requires
                        ewc <= w,
                        ehc <= h,
                ;
            }
            let data = copy_region(raw, stride, cx, cy, ewc, ehc);
            Some(FrameData { data, width: ewc as u32, height: ehc as u32, is_bgra })
        },
    }
}

} // verus!
