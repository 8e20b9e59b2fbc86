//! Alpha-channel crop detection for captured desktop frames.
//!
//! Window captures arrive with the area outside the window fully
//! transparent. A periodic scan of the alpha channel decides whether to send
//! the whole frame, a cropped sub-region (the bounding box of pixels with
//! alpha above zero), or nothing at all when the frame is fully transparent.

use vstd::prelude::*;

verus! {

/// What the alpha scan decided for a frame.
#[derive(Clone, Copy, Debug, PartialEq, Eq, Structural)]
pub enum CropResult {
    /// All four corners opaque, or the opaque bounding box covers the whole
    /// frame: send the frame as it is.
    FullFrame,
    /// Crop to `(x, y, w, h)`: the bounding box of the opaque pixels.
    Cropped(usize, usize, usize, usize),
    /// No opaque pixel at all: the window is not visible, drop the frame.
    Empty,
}

/// The alpha byte of the pixel at `(x, y)` in a strided 4-byte-per-pixel
/// buffer; reads past the end of the buffer count as fully transparent.
pub open spec fn alpha_at(data: Seq<u8>, stride: int, x: int, y: int) -> int {
    if y * stride + x * 4 + 3 < data.len() {
        data[y * stride + x * 4 + 3] as int
    } else {
        0
    }
}

/// The pixel at `(x, y)` is (at least partly) opaque.
pub open spec fn opq(data: Seq<u8>, stride: int, x: int, y: int) -> bool {
    alpha_at(data, stride, x, y) > 0
}

/// All four corner pixels are fully opaque.
pub open spec fn corners_opaque(data: Seq<u8>, stride: int, w: int, h: int) -> bool {
    alpha_at(data, stride, 0, 0) == 255 && alpha_at(data, stride, w - 1, 0) == 255 && alpha_at(
        data,
        stride,
        0,
        h - 1,
    ) == 255 && alpha_at(data, stride, w - 1, h - 1) == 255
}

/// Some pixel of the `w`-by-`h` frame is opaque.
pub open spec fn any_opaque(data: Seq<u8>, stride: int, w: int, h: int) -> bool {
    exists|x: int, y: int| 0 <= x < w && 0 <= y < h && opq(data, stride, x, y)
}

/// Opaque pixels reach the left, right, top and bottom edge of the frame,
/// which is exactly when their bounding box covers the whole frame.
pub open spec fn touches_all_edges(data: Seq<u8>, stride: int, w: int, h: int) -> bool {
    (exists|y: int| 0 <= y < h && #[trigger] opq(data, stride, 0, y)) && (exists|y: int|
        0 <= y < h && #[trigger] opq(data, stride, w - 1, y)) && (exists|x: int|
        0 <= x < w && #[trigger] opq(data, stride, x, 0)) && (exists|x: int|
        0 <= x < w && #[trigger] opq(data, stride, x, h - 1))
}

/// `(cx, cy, cw, ch)` is the bounding box of the opaque pixels: non-empty,
/// inside the frame, touched by an opaque pixel on each of its four edges,
/// and containing every opaque pixel.
pub open spec fn bbox_of(
    data: Seq<u8>,
    stride: int,
    w: int,
    h: int,
    cx: int,
    cy: int,
    cw: int,
    ch: int,
) -> bool {
    0 <= cx && 0 <= cy && cx + cw <= w && cy + ch <= h && cw >= 1 && ch >= 1 && (exists|y: int|
        0 <= y < h && #[trigger] opq(data, stride, cx, y)) && (exists|y: int|
        0 <= y < h && #[trigger] opq(data, stride, cx + cw - 1, y)) && (exists|x: int|
        0 <= x < w && #[trigger] opq(data, stride, x, cy)) && (exists|x: int|
        0 <= x < w && #[trigger] opq(data, stride, x, cy + ch - 1)) && (forall|x: int, y: int|
        0 <= x < w && 0 <= y < h && #[trigger] opq(data, stride, x, y) ==> cx <= x < cx + cw && cy
            <= y < cy + ch)
}

/// The full contract of the crop scan: an empty frame or a frame without
/// opaque pixels is `Empty`; opaque corners, or a bounding box covering the
/// whole frame, give `FullFrame`; anything else gives the exact bounding
/// box of the opaque pixels.
pub open spec fn crop_decision_ok(
    data: Seq<u8>,
    stride: int,
    w: int,
    h: int,
    r: CropResult,
) -> bool {
    if w <= 0 || h <= 0 {
        r == CropResult::Empty
    } else if corners_opaque(data, stride, w, h) {
        r == CropResult::FullFrame
    } else if !any_opaque(data, stride, w, h) {
        r == CropResult::Empty
    } else if touches_all_edges(data, stride, w, h) {
        r == CropResult::FullFrame
    } else {
        match r {
            CropResult::Cropped(cx, cy, cw, ch) => bbox_of(
                data,
                stride,
                w,
                h,
                cx as int,
                cy as int,
                cw as int,
                ch as int,
            ),
            _ => false,
        }
    }
}

/// The pixel `(px, py)` comes before the scan position `(x, y)` in row-major
/// order.
spec fn seen(x: int, y: int, px: int, py: int) -> bool {
    py < y || (py == y && px < x)
}

/// The alpha byte of `(x, y)`, with out-of-buffer reads as 0.
fn alpha_byte(data: &Vec<u8>, stride: usize, w: usize, h: usize, x: usize, y: usize) -> (a: u8)
    requires
        x < w,
        y < h,
        h * stride + w * 4 <= usize::MAX,
    ensures
        a as int == alpha_at(data@, stride as int, x as int, y as int),
{
    proof {
        assert(y * stride + x * 4 + 3 < h * stride + w * 4) by (nonlinear_arith)
            requires
                x < w,
                y < h,
        ;
    }
    let off: usize = y * stride + x * 4 + 3;
    if off < data.len() {
        data[off]
    } else {
        0
    }
}

/// Scan the alpha channel of a strided BGRA/RGBA buffer and decide whether
/// the frame is sent whole, cropped to the bounding box of its opaque
/// pixels, or dropped.
pub fn detect_alpha_crop(data: &Vec<u8>, w: usize, h: usize, stride: usize) -> (r: CropResult)
    requires
        h * stride + w * 4 <= usize::MAX,
    ensures
        crop_decision_ok(data@, stride as int, w as int, h as int, r),
{
    if w == 0 || h == 0 {
        return CropResult::Empty;
    }
    let a00 = alpha_byte(data, stride, w, h, 0, 0);
    let a10 = alpha_byte(data, stride, w, h, w - 1, 0);
    let a01 = alpha_byte(data, stride, w, h, 0, h - 1);
    let a11 = alpha_byte(data, stride, w, h, w - 1, h - 1);
    if a00 == 255 && a10 == 255 && a01 == 255 && a11 == 255 {
        return CropResult::FullFrame;
    }
    let mut top: usize = h;
    let mut bottom: usize = 0;
    let mut left: usize = w;
    let mut right: usize = 0;
    let ghost mut wtx: int = 0;
    let ghost mut wty: int = 0;
    let ghost mut wbx: int = 0;
    let ghost mut wby: int = 0;
    let ghost mut wlx: int = 0;
    let ghost mut wly: int = 0;
    let ghost mut wrx: int = 0;
    let ghost mut wry: int = 0;
    let mut y: usize = 0;
    while y < h
        invariant
            0 < w,
            0 < h,
            y <= h,
            top <= h,
            h * stride + w * 4 <= usize::MAX,
            top == h ==> bottom == 0 && left == w && right == 0 && (forall|px: int, py: int|
                0 <= px < w && 0 <= py < h && seen(0, y as int, px, py) ==> !(#[trigger] opq(
                    data@,
                    stride as int,
                    px,
                    py,
                ))),
            top < h ==> top <= bottom && bottom < y && left <= right && right < w && 0 <= wtx < w
                && 0 <= wty < h && seen(0, y as int, wtx, wty) && wty == top && opq(
                data@,
                stride as int,
                wtx,
                wty,
            ) && 0 <= wbx < w && 0 <= wby < h && seen(0, y as int, wbx, wby) && wby == bottom
                && opq(data@, stride as int, wbx, wby) && 0 <= wlx < w && 0 <= wly < h && seen(
                0,
                y as int,
                wlx,
                wly,
            ) && wlx == left && opq(data@, stride as int, wlx, wly) && 0 <= wrx < w && 0 <= wry < h
                && seen(0, y as int, wrx, wry) && wrx == right && opq(
                data@,
                stride as int,
                wrx,
                wry,
            ) && (forall|px: int, py: int|
                0 <= px < w && 0 <= py < h && seen(0, y as int, px, py) && #[trigger] opq(
                    data@,
                    stride as int,
                    px,
                    py,
                ) ==> top <= py <= bottom && left <= px <= right),
        decreases h - y,
    {
        let mut x: usize = 0;
        while x < w
            invariant
                0 < w,
                0 < h,
                y < h,
                x <= w,
                top <= h,
                h * stride + w * 4 <= usize::MAX,
                top == h ==> bottom == 0 && left == w && right == 0 && (forall|px: int, py: int|
                    0 <= px < w && 0 <= py < h && seen(x as int, y as int, px, py) ==> !(#[trigger] opq(
                        data@,
                        stride as int,
                        px,
                        py,
                    ))),
                top < h ==> top <= bottom && bottom <= y && left <= right && right < w && 0 <= wtx
                    < w && 0 <= wty < h && seen(x as int, y as int, wtx, wty) && wty == top && opq(
                    data@,
                    stride as int,
                    wtx,
                    wty,
                ) && 0 <= wbx < w && 0 <= wby < h && seen(x as int, y as int, wbx, wby) && wby
                    == bottom && opq(data@, stride as int, wbx, wby) && 0 <= wlx < w && 0 <= wly
                    < h && seen(x as int, y as int, wlx, wly) && wlx == left && opq(
                    data@,
                    stride as int,
                    wlx,
                    wly,
                ) && 0 <= wrx < w && 0 <= wry < h && seen(x as int, y as int, wrx, wry) && wrx
                    == right && opq(data@, stride as int, wrx, wry) && (forall|px: int, py: int|
                    0 <= px < w && 0 <= py < h && seen(x as int, y as int, px, py) && #[trigger] opq(
                        data@,
                        stride as int,
                        px,
                        py,
                    ) ==> top <= py <= bottom && left <= px <= right),
            decreases w - x,
        {
            let a = alpha_byte(data, stride, w, h, x, y);
            if a > 0 {
                proof {
                    assert(opq(data@, stride as int, x as int, y as int));
                }
                if y < top {
                    top = y;
                }
                bottom = y;
                if x < left {
                    left = x;
                }
                if x > right {
                    right = x;
                }
                proof {
                    if top == y {
                        wtx = x as int;
                        wty = y as int;
                    }
                    wbx = x as int;
                    wby = y as int;
                    if left == x {
                        wlx = x as int;
                        wly = y as int;
                    }
                    if right == x {
                        wrx = x as int;
                        wry = y as int;
                    }
                }
            }
            x += 1;
        }
        y += 1;
    }
    if top > bottom || left > right {
        proof {
            assert(top == h);
            lemma_no_opaque(data@, stride as int, w as int, h as int);
        }
        return CropResult::Empty;
    }
    let cw: usize = right - left + 1;
    let ch: usize = bottom - top + 1;
    if cw >= w && ch >= h {
        proof {
            assert(left == 0 && right == w - 1 && top == 0 && bottom == h - 1);
            assert(opq(data@, stride as int, 0, wly));
            assert(opq(data@, stride as int, w as int - 1, wry));
            assert(opq(data@, stride as int, wbx, h as int - 1));
            assert(opq(data@, stride as int, wtx, 0));
            assert(touches_all_edges(data@, stride as int, w as int, h as int));
        }
        return CropResult::FullFrame;
    }
    proof {
        assert(opq(data@, stride as int, wtx, wty));
        if touches_all_edges(data@, stride as int, w as int, h as int) {
            let y0 = choose|y0: int| 0 <= y0 < h && #[trigger] opq(data@, stride as int, 0, y0);
            let y1 = choose|y1: int|
                0 <= y1 < h && #[trigger] opq(data@, stride as int, w as int - 1, y1);
            let x0 = choose|x0: int| 0 <= x0 < w && #[trigger] opq(data@, stride as int, x0, 0);
            let x1 = choose|x1: int|
                0 <= x1 < w && #[trigger] opq(data@, stride as int, x1, h as int - 1);
            assert(left == 0 && right == w - 1 && top == 0 && bottom == h - 1);
            assert(false);
        }
        assert(opq(data@, stride as int, left as int, wly));
        assert(opq(data@, stride as int, left as int + cw as int - 1, wry));
        assert(opq(data@, stride as int, wbx, top as int + ch as int - 1));
        assert(opq(data@, stride as int, wtx, top as int));
    }
    CropResult::Cropped(left, top, cw, ch)
}

/// A frame in which the full scan saw no opaque pixel has none at all.
proof fn lemma_no_opaque(data: Seq<u8>, stride: int, w: int, h: int)
    requires
        0 < h,
        forall|px: int, py: int|
            0 <= px < w && 0 <= py < h && seen(0, h, px, py) ==> !(#[trigger] opq(
                data,
                stride,
                px,
                py,
            )),
    ensures
        !any_opaque(data, stride, w, h),
{
    if any_opaque(data, stride, w, h) {
        let (x, y) = choose|x: int, y: int| 0 <= x < w && 0 <= y < h && opq(data, stride, x, y);
        assert(seen(0, h, x, y));
        assert(false);
    }
}

} // verus!
