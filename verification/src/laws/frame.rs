//! Laws of frames.

use crate::frame::{premul, CpuFrame, FrameData};
use std::sync::Arc;
use vstd::prelude::*;

verus! {

/// A component and an opacity of 255 at most give the number next to their product over 255.
pub proof fn a_component_is_scaled_by_the_opacity(c: u8, a: u8, r: u8)
    requires
        call_ensures(premul, (c, a), r),
    ensures
        -127 <= 255 * r - c * a <= 127,
        r <= a,
        r <= c,
        a == 255 ==> r == c,
        c == 255 ==> r == a,
{
    assert(0 <= c as int * a as int <= 255 * a as int && c as int * a as int <= 255 * c as int)
        by (nonlinear_arith)
        requires
            0 <= c <= 255,
            0 <= a <= 255,
    ;
    if a == 255 {
        assert(c * a == 255 * c) by (nonlinear_arith)
            requires
                a == 255,
        ;
    }
    if c == 255 {
        assert(c * a == 255 * a) by (nonlinear_arith)
            requires
                c == 255,
        ;
    }
}

/// `b` is `c` times `a` over 255, rounded to the nearest.
pub open spec fn is_scaled(b: u8, c: u8, a: u8) -> bool {
    -127 <= 255 * b - c * a <= 127
}

/// A frame of an RGBA picture has its size, and of each pixel blue, green and red, scaled by the
/// opacity, and the opacity.
pub proof fn a_frame_has_the_pixels_of_its_picture(
    width: u32,
    height: u32,
    rgba: &[u8],
    f: CpuFrame,
    x: int,
    y: int,
)
    requires
        call_ensures(CpuFrame::from_rgba, (width, height, rgba), f),
        rgba@.len() == 4 * width * height,
        0 <= x < width,
        0 <= y < height,
    ensures
        f.width == width,
        f.height == height,
        f.stride == 4 * width,
        f.pixels@.len() == rgba@.len(),
        is_scaled(
            f.pixels@[y * f.stride + 4 * x],
            rgba@[4 * (y * width + x) + 2],
            rgba@[4 * (y * width + x) + 3],
        ),
        is_scaled(
            f.pixels@[y * f.stride + 4 * x + 1],
            rgba@[4 * (y * width + x) + 1],
            rgba@[4 * (y * width + x) + 3],
        ),
        is_scaled(
            f.pixels@[y * f.stride + 4 * x + 2],
            rgba@[4 * (y * width + x)],
            rgba@[4 * (y * width + x) + 3],
        ),
        f.pixels@[y * f.stride + 4 * x + 3] == rgba@[4 * (y * width + x) + 3],
{
    let p = y * width + x;
    assert(y * f.stride + 4 * x == 4 * p && p < width * height && 0 <= p && 4 * width * height == 4
        * (width * height)) by (nonlinear_arith)
        requires
            f.stride == 4 * width,
            p == y * width + x,
            0 <= x < width,
            0 <= y < height,
    ;
    assert((4 * p) % 4 == 0 && (4 * p + 1) % 4 == 1 && (4 * p + 2) % 4 == 2 && (4 * p + 3) % 4
        == 3);
    assert(f.pixels@.len() == rgba@.len());
    let a = rgba@[4 * p + 3];
    scaled_is_near(rgba@[4 * p], a);
    scaled_is_near(rgba@[4 * p + 1], a);
    scaled_is_near(rgba@[4 * p + 2], a);
}

proof fn scaled_is_near(c: u8, a: u8)
    ensures
        is_scaled(crate::frame::scaled(c, a), c, a),
{
    assert(0 <= c as int * a as int <= 255 * 255) by (nonlinear_arith)
        requires
            0 <= c <= 255,
            0 <= a <= 255,
    ;
}

/// A frame of a ready picture has its size, its rows without gaps, and its bytes.
pub proof fn a_ready_picture_stays_as_it_is(
    width: u32,
    height: u32,
    pixels: Arc<Vec<u8>>,
    f: CpuFrame,
)
    requires
        call_ensures(CpuFrame::from_bgra, (width, height, pixels), f),
    ensures
        f.width == width,
        f.height == height,
        f.stride == 4 * width,
        f.pixels@ == pixels@,
{
}

/// The size of a frame is width and height, wherever its pixels are.
pub proof fn a_frame_tells_its_size(f: FrameData, r: (u32, u32))
    requires
        call_ensures(FrameData::size, (&f,), r),
    ensures
        f matches FrameData::Cpu(c) ==> r.0 == c.width && r.1 == c.height,
        f matches FrameData::DmaBuf(d) ==> r.0 == d.width && r.1 == d.height,
{
}

} // verus!
