//! Pixel operations on an `0RGB` frame buffer: colour conversion, filling
//! rectangles, and blending a pre-multiplied ARGB texel, an 8-bit coverage
//! mask with a colour, or an RGB sub-pixel coverage mask with a colour.

use crate::soft::atlas::rows_written;
use crate::theme::colors::Rgba8Srgb;
use vstd::prelude::*;
use vstd::slice::SliceAdditionalExecFns;

verus! {

/// The red channel of an `xRGB` pixel
pub open spec fn red(c: u32) -> int {
    (c as int / 0x1_0000) % 0x100
}

/// The green channel of an `xRGB` pixel
pub open spec fn green(c: u32) -> int {
    (c as int / 0x100) % 0x100
}

/// The blue channel of an `xRGB` pixel
pub open spec fn blue(c: u32) -> int {
    c as int % 0x100
}

/// The alpha channel of an `ARGB` pixel
pub open spec fn alpha(c: u32) -> int {
    c as int / 0x100_0000
}

/// A channel `c` scaled by the factor `f / 255`, rounded down
pub open spec fn scale(f: int, c: int) -> int {
    f * c / 255
}

/// The `0RGB` pixel of three channels
pub open spec fn pack(r: int, g: int, b: int) -> int {
    r * 0x1_0000 + g * 0x100 + b
}

/// A background pixel `bc` with each channel scaled by `f / 255`
pub open spec fn faded(f: int, bc: u32) -> int {
    pack(scale(f, red(bc)), scale(f, green(bc)), scale(f, blue(bc)))
}

proof fn lemma_scale(f: int, c: int)
    requires
        0 <= f <= 255,
        0 <= c <= 255,
    ensures
        0 <= scale(f, c) <= 255,
        0 <= f * c <= 255 * 255,
        scale(f, c) <= c,
        scale(f, c) <= f,
{
    assert(0 <= f * c <= 255 * 255) by (nonlinear_arith)
        requires
            0 <= f <= 255,
            0 <= c <= 255,
    ;
    assert(f * c <= 255 * c && f * c <= 255 * f) by (nonlinear_arith)
        requires
            0 <= f <= 255,
            0 <= c <= 255,
    ;
}

/// `c * f / 255`, for channels and factors of at most 255
fn scale_channel(f: u32, c: u32) -> (r: u32)
    requires
        f <= 255,
        c <= 255,
    ensures
        r == scale(f as int, c as int),
        r <= 255,
        r <= c,
{
    proof {
        lemma_scale(f as int, c as int);
    }
    f * c / 255
}

/// The channels of `bc` scaled by `f / 255`, packed
fn fade(f: u32, bc: u32) -> (r: u32)
    requires
        f <= 255,
    ensures
        r == faded(f as int, bc),
        r < 0x100_0000,
{
    let br = scale_channel(f, bc / 0x1_0000 % 0x100);
    let bg = scale_channel(f, bc / 0x100 % 0x100);
    let bb = scale_channel(f, bc % 0x100);
    br * 0x1_0000 + bg * 0x100 + bb
}

/// Blend a pre-multiplied ARGB texel `tc` over the pixel `bc`: the texel's
/// colour plus the background faded by the texel's transparency
pub fn blend_rgba(tc: u32, bc: u32) -> (r: u32)
    ensures
        r == tc as int % 0x100_0000 + faded(255 - alpha(tc), bc),
{
    let a = tc / 0x100_0000;
    let ab = fade(255 - a, bc);
    tc % 0x100_0000 + ab
}

/// Blend the colour `col` (`0RGB`) with coverage `a` over the pixel `bc`
pub fn blend_mask(a: u8, col: u32, bc: u32) -> (r: u32)
    ensures
        r == faded(a as int, col) + faded(255 - a, bc),
{
    let a = a as u32;
    let c = fade(a, col);
    let ab = fade(255 - a, bc);
    c + ab
}

/// Blend the colour `col` (`0RGB`) over the pixel `bc` with a coverage per
/// channel, taken from the channels of `m`
pub fn blend_rgba_mask(m: u32, col: u32, bc: u32) -> (r: u32)
    ensures
        r == pack(scale(red(m), red(col)), scale(green(m), green(col)), scale(blue(m), blue(col)))
            + pack(
            scale(255 - red(m), red(bc)),
            scale(255 - green(m), green(bc)),
            scale(255 - blue(m), blue(bc)),
        ),
{
    let (mr, mg, mb) = (m / 0x1_0000 % 0x100, m / 0x100 % 0x100, m % 0x100);
    let r = scale_channel(mr, col / 0x1_0000 % 0x100);
    let g = scale_channel(mg, col / 0x100 % 0x100);
    let b = scale_channel(mb, col % 0x100);
    let br = scale_channel(255 - mr, bc / 0x1_0000 % 0x100);
    let bg = scale_channel(255 - mg, bc / 0x100 % 0x100);
    let bb = scale_channel(255 - mb, bc % 0x100);
    (r * 0x1_0000 + g * 0x100 + b) + (br * 0x1_0000 + bg * 0x100 + bb)
}

/// The frame buffer pixel of an sRGB colour: `0RGB` (alpha dropped)
pub fn color_to_u32(c: Rgba8Srgb) -> (r: u32)
    ensures
        r == pack(c.0@[0] as int, c.0@[1] as int, c.0@[2] as int),
{
    c.0[0] as u32 * 0x1_0000 + c.0[1] as u32 * 0x100 + c.0[2] as u32
}

/// `n` pixels of colour `c`
pub open spec fn solid(n: int, c: u32) -> Seq<u32> {
    Seq::new(n as nat, |i: int| c)
}

/// Fill the rectangle of columns `x0..x1` and rows `y0..y1` of a buffer
/// with rows of `width` pixels
pub fn fill_rect(buffer: &mut [u32], width: usize, x0: usize, x1: usize, y0: usize, y1: usize, c: u32)
    requires
        y0 < y1 ==> x0 <= x1 && (y1 - 1) * width + x1 <= old(buffer)@.len(),
    ensures
        final(buffer)@ == rows_written(
            old(buffer)@,
            width as int,
            x0 as int,
            y0 as int,
            if y0 < y1 { y1 - y0 } else { 0 },
            |y: int| solid(x1 - x0, c),
        ),
{
    let ghost row = |y: int| solid(x1 - x0, c);
    let ghost start = buffer@;
    let n = buffer.len();
    let mut y: usize = y0;
    while y < y1
        invariant
            y0 <= y,
            y0 < y1 ==> y <= y1,
            y0 >= y1 ==> y == y0,
            y0 < y1 ==> x0 <= x1 && (y1 - 1) * width + x1 <= start.len(),
            row == (|y: int| solid(x1 - x0, c)),
            buffer@.len() == start.len(),
            start.len() == n,
            start == old(buffer)@,
            buffer@ == rows_written(start, width as int, x0 as int, y0 as int, y - y0, row),
        decreases y1 - y,
    {
        assert(y * width + x1 <= (y1 - 1) * width + x1) by (nonlinear_arith)
            requires
                y < y1,
        ;
        let offset = y * width;
        let ghost prev = buffer@;
        let mut x: usize = x0;
        while x < x1
            invariant
                x0 <= x <= x1,
                offset + x1 <= prev.len(),
                prev.len() == n,
                buffer@.len() == prev.len(),
                buffer@ == prev.take(offset + x0) + solid(x - x0, c) + prev.skip(offset + x),
            decreases x1 - x,
        {
            buffer.set(offset + x, c);
            assert(buffer@ =~= prev.take(offset + x0) + solid(x + 1 - x0, c) + prev.skip(offset + x + 1));
            x += 1;
        }
        assert(offset + x0 == x0 + (y0 + (y + 1 - y0) - 1) * width) by (nonlinear_arith)
            requires
                offset == y * width,
        ;
        assert(row(y + 1 - y0 - 1).len() == x1 - x0);
        y += 1;
    }
    assert(row == (|y: int| solid(x1 - x0, c)));
}

} // verus!
