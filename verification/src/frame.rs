//! Layout of the pixel buffer: how a colour is packed into one 32-bit value and
//! which image point a buffer position shows.
//!
//! The buffer is row-major and starts at the top of the image, while image rows
//! are counted from the bottom, so the row of a position is flipped.

use vstd::prelude::*;

verus! {

/// The packed form of a colour: `0xAARRGGBB` with the alpha byte set.
///
/// A channel above 255 is not clamped: its high bits run into the bytes above it.
pub open spec fn bgra(r: u32, g: u32, b: u32) -> u32 {
    (255u32 << 24u32) | (r << 16u32) | (g << 8u32) | b
}

/// The image row, counted from the bottom, that buffer position `pos` shows.
pub open spec fn row_of(width: usize, height: usize, pos: usize) -> int {
    height - 1 - pos / width
}

/// The image column, counted from the left, that buffer position `pos` shows.
pub open spec fn col_of(width: usize, pos: usize) -> int {
    (pos % width) as int
}

/// The buffer position of the image point at `row` (from the bottom) and `col`.
pub open spec fn buffer_index(width: usize, height: usize, row: int, col: int) -> int {
    (height - 1 - row) * width + col
}

/// Packs three 8-bit channels into one pixel value.
pub fn to_bgra(r: u32, g: u32, b: u32) -> (p: u32)
    ensures
        p == bgra(r, g, b),
{
    255u32 << 24u32 | r << 16u32 | g << 8u32 | b
}

/// The image point `(row, col)` that buffer position `pos` shows.
pub fn pixel_at(width: usize, height: usize, pos: usize) -> (at: (usize, usize))
    requires
        pos < width * height,
    ensures
        at.0 == row_of(width, height, pos),
        at.1 == col_of(width, pos),
        at.0 < height,
        at.1 < width,
        buffer_index(width, height, at.0 as int, at.1 as int) == pos,
{
    proof {
        lemma_position_in_image(width, height, pos);
    }
    let line: usize = pos / width;
    let row: usize = height - 1 - line;
    let col: usize = pos % width;
    (row, col)
}

/// With channels of at most 255 the bytes of a packed pixel are, from the top:
/// 255, red, green, blue.
pub proof fn lemma_bgra_bytes(r: u32, g: u32, b: u32)
    requires
        r <= 255,
        g <= 255,
        b <= 255,
    ensures
        bgra(r, g, b) >> 24u32 == 255,
        (bgra(r, g, b) >> 16u32) & 255 == r,
        (bgra(r, g, b) >> 8u32) & 255 == g,
        bgra(r, g, b) & 255 == b,
        bgra(r, g, b) == 0xFF00_0000 + r * 0x1_0000 + g * 0x100 + b,
{
    let p: u32 = bgra(r, g, b);
    assert(p == (255u32 << 24u32) | (r << 16u32) | (g << 8u32) | b);
    assert(p >> 24u32 == 255 && (p >> 16u32) & 255 == r && (p >> 8u32) & 255 == g && p & 255 == b
        && p == 0xFF00_0000 + r * 0x1_0000 + g * 0x100 + b) by (bit_vector)
        requires
            p == (255u32 << 24u32) | (r << 16u32) | (g << 8u32) | b,
            r <= 255,
            g <= 255,
            b <= 255,
    ;
}

/// A position inside the buffer shows a point inside the image, and that point
/// lies at this position.
pub proof fn lemma_position_in_image(width: usize, height: usize, pos: usize)
    requires
        pos < width * height,
    ensures
        width > 0,
        0 <= pos / width < height,
        0 <= row_of(width, height, pos) < height,
        0 <= col_of(width, pos) < width,
        buffer_index(width, height, row_of(width, height, pos), col_of(width, pos)) == pos,
{
    assert(width > 0) by (nonlinear_arith)
        requires
            pos < width * height,
    ;
    let w: int = width as int;
    let h: int = height as int;
    let p: int = pos as int;
    assert(p == w * (p / w) + p % w && 0 <= p % w < w) by (nonlinear_arith)
        requires
            w > 0,
    ;
    assert(0 <= p / w < h) by (nonlinear_arith)
        requires
            w > 0,
            0 <= p < w * h,
            p == w * (p / w) + p % w,
            0 <= p % w < w,
    ;
    assert((h - 1 - (h - 1 - p / w)) * w + p % w == p) by (nonlinear_arith)
        requires
            p == w * (p / w) + p % w,
    ;
}

/// Every point of the image has a position inside the buffer, and that position
/// shows the point: positions and image points correspond one to one.
pub proof fn lemma_point_in_buffer(width: usize, height: usize, row: usize, col: usize)
    requires
        row < height,
        col < width,
        width * height <= usize::MAX,
    ensures
        0 <= buffer_index(width, height, row as int, col as int) < width * height,
        row_of(width, height, buffer_index(width, height, row as int, col as int) as usize)
            == row,
        col_of(width, buffer_index(width, height, row as int, col as int) as usize) == col,
{
    let w: int = width as int;
    let h: int = height as int;
    let line: int = h - 1 - row;
    let p: int = line * w + col;
    assert(0 <= p < w * h) by (nonlinear_arith)
        requires
            0 <= line < h,
            0 <= col < w,
            p == line * w + col,
    ;
    assert(p / w == line && p % w == col as int) by (nonlinear_arith)
        requires
            0 <= col < w,
            p == line * w + col,
    ;
}

} // verus!
