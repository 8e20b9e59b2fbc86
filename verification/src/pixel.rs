//! BGRA/RGBA to I420 and NV12 conversion with fixed-point BT.601.
//!
//! Every luma sample is `Y = ((66R + 129G + 25B + 128) >> 8) + 16`; chroma
//! is 2x2 box-averaged and mapped with `U = ((-38R - 74G + 112B + 128) >> 8)
//! + 128`, `V = ((112R - 94G - 18B + 128) >> 8) + 128`. The shifts floor, so
//! the specification uses flooring division by 256; the executable code adds
//! a bias of 112 * 256 before dividing so that all arithmetic stays
//! non-negative, which leaves every byte unchanged.

use vstd::prelude::*;
use vstd::arithmetic::div_mod::lemma_hoist_over_denominator;

verus! {

/// Channel `c` (0..4) of the pixel at `(row, col)` in a tightly packed
/// 4-byte-per-pixel buffer of the given width.
pub open spec fn px_chan(data: Seq<u8>, width: int, row: int, col: int, c: int) -> int {
    data[(row * width + col) * 4 + c] as int
}

/// Red channel under the given byte order (BGRA stores red third).
pub open spec fn spec_red(data: Seq<u8>, is_bgra: bool, width: int, row: int, col: int) -> int {
    if is_bgra {
        px_chan(data, width, row, col, 2)
    } else {
        px_chan(data, width, row, col, 0)
    }
}

/// Green channel: second byte in both orders.
pub open spec fn spec_green(data: Seq<u8>, is_bgra: bool, width: int, row: int, col: int) -> int {
    px_chan(data, width, row, col, 1)
}

/// Blue channel under the given byte order (BGRA stores blue first).
pub open spec fn spec_blue(data: Seq<u8>, is_bgra: bool, width: int, row: int, col: int) -> int {
    if is_bgra {
        px_chan(data, width, row, col, 0)
    } else {
        px_chan(data, width, row, col, 2)
    }
}

/// Fixed-point BT.601 luma of one pixel.
pub open spec fn bt601_y(r: int, g: int, b: int) -> int {
    (66 * r + 129 * g + 25 * b + 128) / 256 + 16
}

/// Fixed-point BT.601 blue-difference chroma of one (averaged) pixel.
pub open spec fn bt601_u(r: int, g: int, b: int) -> int {
    (-38 * r - 74 * g + 112 * b + 128) / 256 + 128
}

/// Fixed-point BT.601 red-difference chroma of one (averaged) pixel.
pub open spec fn bt601_v(r: int, g: int, b: int) -> int {
    (112 * r - 94 * g - 18 * b + 128) / 256 + 128
}

/// Floor average of a 2x2 block of channel values.
pub open spec fn avg4(a: int, b: int, c: int, d: int) -> int {
    (a + b + c + d) / 4
}

/// Averaged red over the 2x2 source block of chroma cell `(row, col)`.
pub open spec fn block_red(data: Seq<u8>, is_bgra: bool, width: int, row: int, col: int) -> int {
    avg4(
        spec_red(data, is_bgra, width, 2 * row, 2 * col),
        spec_red(data, is_bgra, width, 2 * row, 2 * col + 1),
        spec_red(data, is_bgra, width, 2 * row + 1, 2 * col),
        spec_red(data, is_bgra, width, 2 * row + 1, 2 * col + 1),
    )
}

/// Averaged green over the 2x2 source block of chroma cell `(row, col)`.
pub open spec fn block_green(data: Seq<u8>, is_bgra: bool, width: int, row: int, col: int) -> int {
    avg4(
        spec_green(data, is_bgra, width, 2 * row, 2 * col),
        spec_green(data, is_bgra, width, 2 * row, 2 * col + 1),
        spec_green(data, is_bgra, width, 2 * row + 1, 2 * col),
        spec_green(data, is_bgra, width, 2 * row + 1, 2 * col + 1),
    )
}

/// Averaged blue over the 2x2 source block of chroma cell `(row, col)`.
pub open spec fn block_blue(data: Seq<u8>, is_bgra: bool, width: int, row: int, col: int) -> int {
    avg4(
        spec_blue(data, is_bgra, width, 2 * row, 2 * col),
        spec_blue(data, is_bgra, width, 2 * row, 2 * col + 1),
        spec_blue(data, is_bgra, width, 2 * row + 1, 2 * col),
        spec_blue(data, is_bgra, width, 2 * row + 1, 2 * col + 1),
    )
}

/// The luma byte the converters owe at `(row, col)`.
pub open spec fn y_at(data: Seq<u8>, is_bgra: bool, width: int, row: int, col: int) -> int {
    bt601_y(
        spec_red(data, is_bgra, width, row, col),
        spec_green(data, is_bgra, width, row, col),
        spec_blue(data, is_bgra, width, row, col),
    )
}

/// The U byte the converters owe at chroma cell `(row, col)`.
pub open spec fn u_at(data: Seq<u8>, is_bgra: bool, width: int, row: int, col: int) -> int {
    bt601_u(
        block_red(data, is_bgra, width, row, col),
        block_green(data, is_bgra, width, row, col),
        block_blue(data, is_bgra, width, row, col),
    )
}

/// The V byte the converters owe at chroma cell `(row, col)`.
pub open spec fn v_at(data: Seq<u8>, is_bgra: bool, width: int, row: int, col: int) -> int {
    bt601_v(
        block_red(data, is_bgra, width, row, col),
        block_green(data, is_bgra, width, row, col),
        block_blue(data, is_bgra, width, row, col),
    )
}

/// Luma of one pixel; the u32 arithmetic never overflows and the result
/// always fits a byte (it lies in 16..=235).
fn y_value(r: u32, g: u32, b: u32) -> (y: u8)
    requires
        r <= 255,
        g <= 255,
        b <= 255,
    ensures
        y as int == bt601_y(r as int, g as int, b as int),
{
    let t: u32 = 66 * r + 129 * g + 25 * b + 128;
    let y: u32 = t / 256 + 16;
    y as u8
}

/// Blue-difference chroma of one averaged pixel. The negative terms are
/// folded into a bias of 112 * 256, which shifts the flooring division by
/// exactly 112 and keeps the arithmetic in u32.
fn u_value(r: u32, g: u32, b: u32) -> (u: u8)
    requires
        r <= 255,
        g <= 255,
        b <= 255,
    ensures
        u as int == bt601_u(r as int, g as int, b as int),
{
    let t: u32 = 28800 + 112 * b - 38 * r - 74 * g;
    let u: u32 = t / 256 + 16;
    proof {
        let s: int = -38 * (r as int) - 74 * (g as int) + 112 * (b as int) + 128;
        lemma_hoist_over_denominator(s, 112, 256);
        assert(t as int == s + 112 * 256);
        assert(t as int / 256 == s / 256 + 112);
    }
    u as u8
}

/// Red-difference chroma of one averaged pixel, with the same bias trick.
fn v_value(r: u32, g: u32, b: u32) -> (v: u8)
    requires
        r <= 255,
        g <= 255,
        b <= 255,
    ensures
        v as int == bt601_v(r as int, g as int, b as int),
{
    let t: u32 = 28800 + 112 * r - 94 * g - 18 * b;
    let v: u32 = t / 256 + 16;
    proof {
        let s: int = 112 * (r as int) - 94 * (g as int) - 18 * (b as int) + 128;
        lemma_hoist_over_denominator(s, 112, 256);
        assert(t as int == s + 112 * 256);
        assert(t as int / 256 == s / 256 + 112);
    }
    v as u8
}

/// A cell strictly before `(row, col)` in row-major order has a strictly
/// smaller linear index.
proof fn lemma_grid_lt(r: int, c: int, row: int, col: int, w: int)
    requires
        0 <= r,
        0 <= c < w,
        0 <= col,
        r < row || (r == row && c < col),
    ensures
        r * w + c < row * w + col,
{
    assert(r * w + c < row * w + col) by (nonlinear_arith)
        requires
            0 <= r,
            0 <= c < w,
            0 <= col,
            r < row || (r == row && c < col),
    ;
}

/// A cell of an `h`-by-`w` grid has a linear index below `w * h`.
proof fn lemma_grid_bound(row: int, col: int, w: int, h: int)
    requires
        0 <= row < h,
        0 <= col < w,
    ensures
        0 <= row * w + col,
        row * w + col < w * h,
{
    assert(0 <= row * w + col && row * w + col < w * h) by (nonlinear_arith)
        requires
            0 <= row < h,
            0 <= col < w,
    ;
}

/// The four bytes of a grid cell lie inside a `w * h * 4` buffer.
proof fn lemma_px_bound(row: int, col: int, w: int, h: int)
    requires
        0 <= row < h,
        0 <= col < w,
    ensures
        0 <= (row * w + col) * 4,
        (row * w + col) * 4 + 3 < w * h * 4,
{
    lemma_grid_bound(row, col, w, h);
}

/// Read the red, green and blue bytes of the pixel at `(row, col)`.
pub(crate) fn read_rgb(data: &Vec<u8>, is_bgra: bool, width: usize, height: usize, row: usize, col: usize)
    -> (rgb: (u8, u8, u8))
    requires
        data@.len() == width * height * 4,
        row < height,
        col < width,
    ensures
        rgb.0 as int == spec_red(data@, is_bgra, width as int, row as int, col as int),
        rgb.1 as int == spec_green(data@, is_bgra, width as int, row as int, col as int),
        rgb.2 as int == spec_blue(data@, is_bgra, width as int, row as int, col as int),
{
    let n: usize = data.len();
    proof {
        lemma_px_bound(row as int, col as int, width as int, height as int);
        assert(n == data@.len());
    }
    let px: usize = (row * width + col) * 4;
    if is_bgra {
        (data[px + 2], data[px + 1], data[px])
    } else {
        (data[px], data[px + 1], data[px + 2])
    }
}

/// The luma plane: one byte per pixel, row-major.
fn fill_y_plane(data: &Vec<u8>, is_bgra: bool, width: usize, height: usize) -> (y: Vec<u8>)
    requires
        data@.len() == width * height * 4,
    ensures
        y@.len() == width * height,
        forall|row: int, col: int|
            0 <= row < height && 0 <= col < width ==> y@[row * width + col] as int == y_at(
                data@,
                is_bgra,
                width as int,
                row,
                col,
            ),
{
    let mut y: Vec<u8> = Vec::new();
    let mut row: usize = 0;
    while row < height
        invariant
            row <= height,
            data@.len() == width * height * 4,
            y@.len() == row * width,
            forall|r: int, c: int|
                0 <= r < row && 0 <= c < width ==> y@[r * width + c] as int == y_at(
                    data@,
                    is_bgra,
                    width as int,
                    r,
                    c,
                ),
        decreases height - row,
    {
        let mut col: usize = 0;
        while col < width
            invariant
                row < height,
                col <= width,
                data@.len() == width * height * 4,
                y@.len() == row * width + col,
                forall|r: int, c: int|
                    0 <= r < row && 0 <= c < width ==> y@[r * width + c] as int == y_at(
                        data@,
                        is_bgra,
                        width as int,
                        r,
                        c,
                    ),
                forall|c: int|
                    0 <= c < col ==> y@[row as int * width + c] as int == y_at(
                        data@,
                        is_bgra,
                        width as int,
                        row as int,
                        c,
                    ),
            decreases width - col,
        {
            proof {
                lemma_grid_bound(row as int, col as int, width as int, height as int);
            }
            let (r, g, b) = read_rgb(data, is_bgra, width, height, row, col);
            y.push(y_value(r as u32, g as u32, b as u32));
            proof {
                assert forall|r2: int, c2: int|
                    0 <= r2 < row && 0 <= c2 < width implies y@[r2 * width + c2] as int == y_at(
                    data@,
                    is_bgra,
                    width as int,
                    r2,
                    c2,
                ) by {
                    lemma_grid_lt(r2, c2, row as int, col as int, width as int);
                }
                assert forall|c2: int|
                    0 <= c2 < col implies y@[row as int * width + c2] as int == y_at(
                    data@,
                    is_bgra,
                    width as int,
                    row as int,
                    c2,
                ) by {
                    lemma_grid_lt(row as int, c2, row as int, col as int, width as int);
                }
            }
            col += 1;
        }
        proof {
            assert((row + 1) * width == row * width + width) by (nonlinear_arith);
        }
        row += 1;
    }
    proof {
        assert(y@.len() == height * width);
        assert(height * width == width * height) by (nonlinear_arith);
    }
    y
}

/// Read the 2x2 box-averaged red, green and blue of chroma cell
/// `(row, col)`; averages floor, as the shift in the formula does.
fn read_block_rgb(
    data: &Vec<u8>,
    is_bgra: bool,
    width: usize,
    height: usize,
    row: usize,
    col: usize,
) -> (rgb: (u32, u32, u32))
    requires
        data@.len() == width * height * 4,
        width % 2 == 0,
        height % 2 == 0,
        row < height / 2,
        col < width / 2,
    ensures
        rgb.0 as int == block_red(data@, is_bgra, width as int, row as int, col as int),
        rgb.1 as int == block_green(data@, is_bgra, width as int, row as int, col as int),
        rgb.2 as int == block_blue(data@, is_bgra, width as int, row as int, col as int),
        rgb.0 <= 255,
        rgb.1 <= 255,
        rgb.2 <= 255,
{
    proof {
        assert(2 * (row as int) + 1 < height && 2 * (col as int) + 1 < width) by (nonlinear_arith)
            requires
                row < height / 2,
                col < width / 2,
                width % 2 == 0,
                height % 2 == 0,
        ;
    }
    let (r00, g00, b00) = read_rgb(data, is_bgra, width, height, 2 * row, 2 * col);
    let (r01, g01, b01) = read_rgb(data, is_bgra, width, height, 2 * row, 2 * col + 1);
    let (r10, g10, b10) = read_rgb(data, is_bgra, width, height, 2 * row + 1, 2 * col);
    let (r11, g11, b11) = read_rgb(data, is_bgra, width, height, 2 * row + 1, 2 * col + 1);
    let r: u32 = (r00 as u32 + r01 as u32 + r10 as u32 + r11 as u32) / 4;
    let g: u32 = (g00 as u32 + g01 as u32 + g10 as u32 + g11 as u32) / 4;
    let b: u32 = (b00 as u32 + b01 as u32 + b10 as u32 + b11 as u32) / 4;
    (r, g, b)
}

/// One planar chroma plane: U bytes when `want_u`, else V bytes.
fn fill_chroma_plane(
    data: &Vec<u8>,
    is_bgra: bool,
    width: usize,
    height: usize,
    want_u: bool,
) -> (p: Vec<u8>)
    requires
        data@.len() == width * height * 4,
        width % 2 == 0,
        height % 2 == 0,
    ensures
        p@.len() == (width / 2) * (height / 2),
        forall|row: int, col: int|
            0 <= row < height / 2 && 0 <= col < width / 2 ==> p@[row * (width / 2) + col] as int
                == if want_u {
                u_at(data@, is_bgra, width as int, row, col)
            } else {
                v_at(data@, is_bgra, width as int, row, col)
            },
{
    let uv_w: usize = width / 2;
    let uv_h: usize = height / 2;
    let mut p: Vec<u8> = Vec::new();
    let mut row: usize = 0;
    while row < uv_h
        invariant
            row <= uv_h,
            uv_w == width / 2,
            uv_h == height / 2,
            data@.len() == width * height * 4,
            width % 2 == 0,
            height % 2 == 0,
            p@.len() == row * uv_w,
            forall|r: int, c: int|
                0 <= r < row && 0 <= c < uv_w ==> p@[r * uv_w + c] as int == if want_u {
                    u_at(data@, is_bgra, width as int, r, c)
                } else {
                    v_at(data@, is_bgra, width as int, r, c)
                },
        decreases uv_h - row,
    {
        let mut col: usize = 0;
        while col < uv_w
            invariant
                row < uv_h,
                col <= uv_w,
                uv_w == width / 2,
                uv_h == height / 2,
                data@.len() == width * height * 4,
                width % 2 == 0,
                height % 2 == 0,
                p@.len() == row * uv_w + col,
                forall|r: int, c: int|
                    0 <= r < row && 0 <= c < uv_w ==> p@[r * uv_w + c] as int == if want_u {
                        u_at(data@, is_bgra, width as int, r, c)
                    } else {
                        v_at(data@, is_bgra, width as int, r, c)
                    },
                forall|c: int|
                    0 <= c < col ==> p@[row as int * uv_w + c] as int == if want_u {
                        u_at(data@, is_bgra, width as int, row as int, c)
                    } else {
                        v_at(data@, is_bgra, width as int, row as int, c)
                    },
            decreases uv_w - col,
        {
            proof {
                lemma_grid_bound(row as int, col as int, uv_w as int, uv_h as int);
            }
            let (r, g, b) = read_block_rgb(data, is_bgra, width, height, row, col);
            let byte = if want_u {
                u_value(r, g, b)
            } else {
                v_value(r, g, b)
            };
            p.push(byte);
            proof {
                assert forall|r2: int, c2: int|
                    0 <= r2 < row && 0 <= c2 < uv_w implies p@[r2 * uv_w + c2] as int == if want_u {
                    u_at(data@, is_bgra, width as int, r2, c2)
                } else {
                    v_at(data@, is_bgra, width as int, r2, c2)
                } by {
                    lemma_grid_lt(r2, c2, row as int, col as int, uv_w as int);
                }
                assert forall|c2: int|
                    0 <= c2 < col implies p@[row as int * uv_w + c2] as int == if want_u {
                    u_at(data@, is_bgra, width as int, row as int, c2)
                } else {
                    v_at(data@, is_bgra, width as int, row as int, c2)
                } by {
                    lemma_grid_lt(row as int, c2, row as int, col as int, uv_w as int);
                }
            }
            col += 1;
        }
        proof {
            assert((row + 1) * uv_w == row * uv_w + uv_w) by (nonlinear_arith);
        }
        row += 1;
    }
    proof {
        assert(p@.len() == uv_h * uv_w);
        assert(uv_h * uv_w == uv_w * uv_h) by (nonlinear_arith);
    }
    p
}

/// The interleaved UV plane of NV12: a U byte then a V byte per cell.
fn fill_uv_interleaved(data: &Vec<u8>, is_bgra: bool, width: usize, height: usize) -> (p: Vec<u8>)
    requires
        data@.len() == width * height * 4,
        width % 2 == 0,
        height % 2 == 0,
    ensures
        p@.len() == 2 * ((width / 2) * (height / 2)),
        forall|row: int, col: int|
            0 <= row < height / 2 && 0 <= col < width / 2 ==> p@[(row * (width / 2) + col) * 2]
                as int == u_at(data@, is_bgra, width as int, row, col) && p@[(row * (width / 2)
                + col) * 2 + 1] as int == v_at(data@, is_bgra, width as int, row, col),
{
    let uv_w: usize = width / 2;
    let uv_h: usize = height / 2;
    let mut p: Vec<u8> = Vec::new();
    let mut row: usize = 0;
    while row < uv_h
        invariant
            row <= uv_h,
            uv_w == width / 2,
            uv_h == height / 2,
            data@.len() == width * height * 4,
            width % 2 == 0,
            height % 2 == 0,
            p@.len() == 2 * (row * uv_w),
            forall|r: int, c: int|
                0 <= r < row && 0 <= c < uv_w ==> p@[(r * uv_w + c) * 2] as int == u_at(
                    data@,
                    is_bgra,
                    width as int,
                    r,
                    c,
                ) && p@[(r * uv_w + c) * 2 + 1] as int == v_at(data@, is_bgra, width as int, r, c),
        decreases uv_h - row,
    {
        let mut col: usize = 0;
        while col < uv_w
            invariant
                row < uv_h,
                col <= uv_w,
                uv_w == width / 2,
                uv_h == height / 2,
                data@.len() == width * height * 4,
                width % 2 == 0,
                height % 2 == 0,
                p@.len() == 2 * (row * uv_w + col),
                forall|r: int, c: int|
                    0 <= r < row && 0 <= c < uv_w ==> p@[(r * uv_w + c) * 2] as int == u_at(
                        data@,
                        is_bgra,
                        width as int,
                        r,
                        c,
                    ) && p@[(r * uv_w + c) * 2 + 1] as int == v_at(
                        data@,
                        is_bgra,
                        width as int,
                        r,
                        c,
                    ),
                forall|c: int|
                    0 <= c < col ==> p@[(row as int * uv_w + c) * 2] as int == u_at(
                        data@,
                        is_bgra,
                        width as int,
                        row as int,
                        c,
                    ) && p@[(row as int * uv_w + c) * 2 + 1] as int == v_at(
                        data@,
                        is_bgra,
                        width as int,
                        row as int,
                        c,
                    ),
            decreases uv_w - col,
        {
            proof {
                lemma_grid_bound(row as int, col as int, uv_w as int, uv_h as int);
            }
            let (r, g, b) = read_block_rgb(data, is_bgra, width, height, row, col);
            p.push(u_value(r, g, b));
            p.push(v_value(r, g, b));
            proof {
                assert forall|r2: int, c2: int|
                    0 <= r2 < row && 0 <= c2 < uv_w implies p@[(r2 * uv_w + c2) * 2] as int == u_at(
                    data@,
                    is_bgra,
                    width as int,
                    r2,
                    c2,
                ) && p@[(r2 * uv_w + c2) * 2 + 1] as int == v_at(
                    data@,
                    is_bgra,
                    width as int,
                    r2,
                    c2,
                ) by {
                    lemma_grid_lt(r2, c2, row as int, col as int, uv_w as int);
                }
                assert forall|c2: int|
                    0 <= c2 < col implies p@[(row as int * uv_w + c2) * 2] as int == u_at(
                    data@,
                    is_bgra,
                    width as int,
                    row as int,
                    c2,
                ) && p@[(row as int * uv_w + c2) * 2 + 1] as int == v_at(
                    data@,
                    is_bgra,
                    width as int,
                    row as int,
                    c2,
                ) by {
                    lemma_grid_lt(row as int, c2, row as int, col as int, uv_w as int);
                }
            }
            col += 1;
        }
        proof {
            assert((row + 1) * uv_w == row * uv_w + uv_w) by (nonlinear_arith);
        }
        row += 1;
    }
    proof {
        assert(p@.len() == 2 * (uv_h * uv_w));
        assert(uv_h * uv_w == uv_w * uv_h) by (nonlinear_arith);
    }
    p
}

/// Planar I420: luma plane, then the U plane, then the V plane.
fn to_i420(data: &Vec<u8>, is_bgra: bool, width: usize, height: usize) -> (yuv: Vec<u8>)
    requires
        width % 2 == 0,
        height % 2 == 0,
        data@.len() == width * height * 4,
    ensures
        yuv@.len() == width * height + 2 * ((width / 2) * (height / 2)),
        forall|row: int, col: int|
            0 <= row < height && 0 <= col < width ==> yuv@[row * width + col] as int == y_at(
                data@,
                is_bgra,
                width as int,
                row,
                col,
            ),
        forall|row: int, col: int|
            0 <= row < height / 2 && 0 <= col < width / 2 ==> yuv@[width * height + (row * (width
                / 2) + col)] as int == u_at(data@, is_bgra, width as int, row, col),
        forall|row: int, col: int|
            0 <= row < height / 2 && 0 <= col < width / 2 ==> yuv@[width * height + (width / 2)
                * (height / 2) + (row * (width / 2) + col)] as int == v_at(
                data@,
                is_bgra,
                width as int,
                row,
                col,
            ),
{
    let mut yuv = fill_y_plane(data, is_bgra, width, height);
    let mut u = fill_chroma_plane(data, is_bgra, width, height, true);
    let mut v = fill_chroma_plane(data, is_bgra, width, height, false);
    let ghost yseq = yuv@;
    let ghost useq = u@;
    let ghost vseq = v@;
    yuv.append(&mut u);
    yuv.append(&mut v);
    proof {
        assert(yuv@ == yseq + useq + vseq);
        assert forall|row: int, col: int|
            0 <= row < height && 0 <= col < width implies yuv@[row * width + col] as int == y_at(
            data@,
            is_bgra,
            width as int,
            row,
            col,
        ) by {
            lemma_grid_bound(row, col, width as int, height as int);
            assert(row * width + col < width * height);
            assert(yuv@[row * width + col] == yseq[row * width + col]);
        }
        assert forall|row: int, col: int|
            0 <= row < height / 2 && 0 <= col < width / 2 implies yuv@[width * height + (row
            * (width / 2) + col)] as int == u_at(data@, is_bgra, width as int, row, col) by {
            lemma_grid_bound(row, col, width as int / 2, height as int / 2);
            assert(yuv@[width * height + (row * (width / 2) + col)] == useq[row * (width / 2)
                + col]);
        }
        assert forall|row: int, col: int|
            0 <= row < height / 2 && 0 <= col < width / 2 implies yuv@[width * height + (width / 2)
            * (height / 2) + (row * (width / 2) + col)] as int == v_at(
            data@,
            is_bgra,
            width as int,
            row,
            col,
        ) by {
            lemma_grid_bound(row, col, width as int / 2, height as int / 2);
            assert(yuv@[width * height + (width / 2) * (height / 2) + (row * (width / 2) + col)]
                == vseq[row * (width / 2) + col]);
        }
    }
    yuv
}

/// NV12: luma plane, then one interleaved UV plane.
fn to_nv12(data: &Vec<u8>, is_bgra: bool, width: usize, height: usize) -> (yuv: Vec<u8>)
    requires
        width % 2 == 0,
        height % 2 == 0,
        data@.len() == width * height * 4,
    ensures
        yuv@.len() == width * height + 2 * ((width / 2) * (height / 2)),
        forall|row: int, col: int|
            0 <= row < height && 0 <= col < width ==> yuv@[row * width + col] as int == y_at(
                data@,
                is_bgra,
                width as int,
                row,
                col,
            ),
        forall|row: int, col: int|
            0 <= row < height / 2 && 0 <= col < width / 2 ==> yuv@[width * height + (row * (width
                / 2) + col) * 2] as int == u_at(data@, is_bgra, width as int, row, col) && yuv@[
                width * height + (row * (width / 2) + col) * 2 + 1] as int == v_at(
                data@,
                is_bgra,
                width as int,
                row,
                col,
            ),
{
    let mut yuv = fill_y_plane(data, is_bgra, width, height);
    let mut uv = fill_uv_interleaved(data, is_bgra, width, height);
    let ghost yseq = yuv@;
    let ghost uvseq = uv@;
    yuv.append(&mut uv);
    proof {
        assert(yuv@ == yseq + uvseq);
        assert forall|row: int, col: int|
            0 <= row < height && 0 <= col < width implies yuv@[row * width + col] as int == y_at(
            data@,
            is_bgra,
            width as int,
            row,
            col,
        ) by {
            lemma_grid_bound(row, col, width as int, height as int);
            assert(yuv@[row * width + col] == yseq[row * width + col]);
        }
        assert forall|row: int, col: int|
            0 <= row < height / 2 && 0 <= col < width / 2 implies yuv@[width * height + (row
            * (width / 2) + col) * 2] as int == u_at(data@, is_bgra, width as int, row, col)
            && yuv@[width * height + (row * (width / 2) + col) * 2 + 1] as int == v_at(
            data@,
            is_bgra,
            width as int,
            row,
            col,
        ) by {
            lemma_grid_bound(row, col, width as int / 2, height as int / 2);
            assert(yuv@[width * height + (row * (width / 2) + col) * 2] == uvseq[(row * (width / 2)
                + col) * 2]);
            assert(yuv@[width * height + (row * (width / 2) + col) * 2 + 1] == uvseq[(row * (width
                / 2) + col) * 2 + 1]);
        }
    }
    yuv
}

/// Convert tightly packed BGRA pixels to planar I420.
pub fn bgra_to_i420(bgra: &Vec<u8>, width: usize, height: usize) -> (yuv: Vec<u8>)
    requires
        width % 2 == 0,
        height % 2 == 0,
        bgra@.len() == width * height * 4,
    ensures
        yuv@.len() == width * height + 2 * ((width / 2) * (height / 2)),
        forall|row: int, col: int|
            0 <= row < height && 0 <= col < width ==> yuv@[row * width + col] as int == y_at(
                bgra@,
                true,
                width as int,
                row,
                col,
            ),
        forall|row: int, col: int|
            0 <= row < height / 2 && 0 <= col < width / 2 ==> yuv@[width * height + (row * (width
                / 2) + col)] as int == u_at(bgra@, true, width as int, row, col),
        forall|row: int, col: int|
            0 <= row < height / 2 && 0 <= col < width / 2 ==> yuv@[width * height + (width / 2)
                * (height / 2) + (row * (width / 2) + col)] as int == v_at(
                bgra@,
                true,
                width as int,
                row,
                col,
            ),
{
    to_i420(bgra, true, width, height)
}

/// Convert tightly packed RGBA pixels to planar I420.
pub fn rgba_to_i420(rgba: &Vec<u8>, width: usize, height: usize) -> (yuv: Vec<u8>)
    requires
        width % 2 == 0,
        height % 2 == 0,
        rgba@.len() == width * height * 4,
    ensures
        yuv@.len() == width * height + 2 * ((width / 2) * (height / 2)),
        forall|row: int, col: int|
            0 <= row < height && 0 <= col < width ==> yuv@[row * width + col] as int == y_at(
                rgba@,
                false,
                width as int,
                row,
                col,
            ),
        forall|row: int, col: int|
            0 <= row < height / 2 && 0 <= col < width / 2 ==> yuv@[width * height + (row * (width
                / 2) + col)] as int == u_at(rgba@, false, width as int, row, col),
        forall|row: int, col: int|
            0 <= row < height / 2 && 0 <= col < width / 2 ==> yuv@[width * height + (width / 2)
                * (height / 2) + (row * (width / 2) + col)] as int == v_at(
                rgba@,
                false,
                width as int,
                row,
                col,
            ),
{
    to_i420(rgba, false, width, height)
}

/// Convert tightly packed BGRA pixels to NV12.
pub fn bgra_to_nv12(bgra: &Vec<u8>, width: usize, height: usize) -> (yuv: Vec<u8>)
    requires
        width % 2 == 0,
        height % 2 == 0,
        bgra@.len() == width * height * 4,
    ensures
        yuv@.len() == width * height + 2 * ((width / 2) * (height / 2)),
        forall|row: int, col: int|
            0 <= row < height && 0 <= col < width ==> yuv@[row * width + col] as int == y_at(
                bgra@,
                true,
                width as int,
                row,
                col,
            ),
        forall|row: int, col: int|
            0 <= row < height / 2 && 0 <= col < width / 2 ==> yuv@[width * height + (row * (width
                / 2) + col) * 2] as int == u_at(bgra@, true, width as int, row, col) && yuv@[width
                * height + (row * (width / 2) + col) * 2 + 1] as int == v_at(
                bgra@,
                true,
                width as int,
                row,
                col,
            ),
{
    to_nv12(bgra, true, width, height)
}

/// Convert tightly packed RGBA pixels to NV12.
pub fn rgba_to_nv12(rgba: &Vec<u8>, width: usize, height: usize) -> (yuv: Vec<u8>)
    requires
        width % 2 == 0,
        height % 2 == 0,
        rgba@.len() == width * height * 4,
    ensures
        yuv@.len() == width * height + 2 * ((width / 2) * (height / 2)),
        forall|row: int, col: int|
            0 <= row < height && 0 <= col < width ==> yuv@[row * width + col] as int == y_at(
                rgba@,
                false,
                width as int,
                row,
                col,
            ),
        forall|row: int, col: int|
            0 <= row < height / 2 && 0 <= col < width / 2 ==> yuv@[width * height + (row * (width
                / 2) + col) * 2] as int == u_at(rgba@, false, width as int, row, col) && yuv@[width
                * height + (row * (width / 2) + col) * 2 + 1] as int == v_at(
                rgba@,
                false,
                width as int,
                row,
                col,
            ),
{
    to_nv12(rgba, false, width, height)
}

/// The pixel at `(row, col)` is the solid grey R = G = B = 128.
pub open spec fn grey_pixel(data: Seq<u8>, is_bgra: bool, width: int, row: int, col: int) -> bool {
    spec_red(data, is_bgra, width, row, col) == 128 && spec_green(data, is_bgra, width, row, col)
        == 128 && spec_blue(data, is_bgra, width, row, col) == 128
}

/// On a buffer whose every pixel is the solid grey R = G = B = 128, the
/// BT.601 mapping puts every luma sample at exactly 126 and every chroma
/// sample at exactly 128, whichever byte order the buffer uses.
pub proof fn lemma_solid_grey(data: Seq<u8>, is_bgra: bool, width: int, height: int)
    requires
        width % 2 == 0,
        height % 2 == 0,
        forall|row: int, col: int|
            0 <= row < height && 0 <= col < width ==> #[trigger] grey_pixel(
                data,
                is_bgra,
                width,
                row,
                col,
            ),
    ensures
        forall|row: int, col: int|
            0 <= row < height && 0 <= col < width ==> #[trigger] y_at(
                data,
                is_bgra,
                width,
                row,
                col,
            ) == 126,
        forall|row: int, col: int|
            0 <= row < height / 2 && 0 <= col < width / 2 ==> #[trigger] u_at(
                data,
                is_bgra,
                width,
                row,
                col,
            ) == 128,
        forall|row: int, col: int|
            0 <= row < height / 2 && 0 <= col < width / 2 ==> #[trigger] v_at(
                data,
                is_bgra,
                width,
                row,
                col,
            ) == 128,
{
    assert(bt601_y(128, 128, 128) == 126);
    assert(bt601_u(128, 128, 128) == 128);
    assert(bt601_v(128, 128, 128) == 128);
    assert(avg4(128, 128, 128, 128) == 128);
    assert forall|row: int, col: int|
        0 <= row < height && 0 <= col < width implies #[trigger] y_at(
        data,
        is_bgra,
        width,
        row,
        col,
    ) == 126 by {
        assert(grey_pixel(data, is_bgra, width, row, col));
    }
    assert forall|row: int, col: int|
        0 <= row < height / 2 && 0 <= col < width / 2 implies #[trigger] u_at(
        data,
        is_bgra,
        width,
        row,
        col,
    ) == 128 by {
        lemma_grey_block(data, is_bgra, width, height, row, col);
    }
    assert forall|row: int, col: int|
        0 <= row < height / 2 && 0 <= col < width / 2 implies #[trigger] v_at(
        data,
        is_bgra,
        width,
        row,
        col,
    ) == 128 by {
        lemma_grey_block(data, is_bgra, width, height, row, col);
    }
}

/// The 2x2 box average over solid grey is solid grey.
proof fn lemma_grey_block(data: Seq<u8>, is_bgra: bool, width: int, height: int, row: int, col: int)
    requires
        width % 2 == 0,
        height % 2 == 0,
        0 <= row < height / 2,
        0 <= col < width / 2,
        forall|r: int, c: int|
            0 <= r < height && 0 <= c < width ==> #[trigger] grey_pixel(data, is_bgra, width, r, c),
    ensures
        block_red(data, is_bgra, width, row, col) == 128,
        block_green(data, is_bgra, width, row, col) == 128,
        block_blue(data, is_bgra, width, row, col) == 128,
{
    assert(0 <= 2 * row && 2 * row + 1 < height && 0 <= 2 * col && 2 * col + 1 < width)
        by (nonlinear_arith)
        requires
            0 <= row < height / 2,
            0 <= col < width / 2,
            width % 2 == 0,
            height % 2 == 0,
    ;
    let r0 = 2 * row;
    let r1 = 2 * row + 1;
    let c0 = 2 * col;
    let c1 = 2 * col + 1;
    assert(grey_pixel(data, is_bgra, width, r0, c0));
    assert(grey_pixel(data, is_bgra, width, r0, c1));
    assert(grey_pixel(data, is_bgra, width, r1, c0));
    assert(grey_pixel(data, is_bgra, width, r1, c1));
    assert(avg4(128, 128, 128, 128) == 128);
}

} // verus!
