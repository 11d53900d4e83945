//! A decoded frame: either pixels in memory or a dmabuf straight from the GPU decoder.
//!
//! Pixels are premultiplied BGRA in memory (`DRM_FORMAT_ARGB8888` on little-endian).

use std::sync::Arc;
use vstd::prelude::*;

verus! {

/// fourcc `AR24`, that is `DRM_FORMAT_ARGB8888`.
pub const DRM_FORMAT_ARGB8888: u32 = 0x3432_5241;

/// A frame of a source.
pub struct Frame {
    /// Increments with every new source frame. The texture is updated only
    /// when this number changes.
    pub generation: u64,
    pub data: FrameData,
}

/// Where the pixels are.
pub enum FrameData {
    Cpu(CpuFrame),
    DmaBuf(Arc<DmaBufFrame>),
}

/// A frame in memory.
pub struct CpuFrame {
    pub width: u32,
    pub height: u32,
    /// Bytes per row.
    pub stride: u32,
    pub pixels: Arc<Vec<u8>>,
}

/// A frame in video memory, exported by the decoder.
pub struct DmaBufFrame {
    pub width: u32,
    pub height: u32,
    pub fourcc: u32,
    pub modifier: u64,
    pub planes: Vec<DmaBufPlane>,
}

/// One plane of a frame in video memory. `fd` is the number of the descriptor;
/// who opened it closes it.
pub struct DmaBufPlane {
    pub fd: i32,
    pub offset: u32,
    pub stride: u32,
}

impl FrameData {
    /// Width and height.
    pub open spec fn dims(&self) -> (u32, u32) {
        match self {
            FrameData::Cpu(f) => (f.width, f.height),
            FrameData::DmaBuf(f) => (f.width, f.height),
        }
    }

    /// Width and height of the picture.
    pub fn size(&self) -> (r: (u32, u32))
        ensures
            r == self.dims(),
    {
        match self {
            FrameData::Cpu(f) => (f.width, f.height),
            FrameData::DmaBuf(f) => (f.width, f.height),
        }
    }
}

/// `c * a / 255`, rounded to the nearest integer.
pub open spec fn scaled(c: u8, a: u8) -> u8 {
    ((c as int * a as int + 127) / 255) as u8
}

/// The premultiplied BGRA bytes of RGBA pixels.
pub open spec fn premultiplied(rgba: Seq<u8>) -> Seq<u8> {
    Seq::new(
        (rgba.len() / 4 * 4) as nat,
        |i: int|
            {
                let p = i - i % 4;
                let a = rgba[p + 3];
                if i % 4 == 3 {
                    a
                } else {
                    scaled(rgba[p + 2 - i % 4], a)
                }
            },
    )
}

/// `c * a / 255` with rounding.
pub fn premul(c: u8, a: u8) -> (r: u8)
    ensures
        r == scaled(c, a),
        r as int == (c as int * a as int + 127) / 255,
{
    assert(0 <= c as int * a as int <= 255 * 255) by (nonlinear_arith)
        requires
            0 <= c <= 255,
            0 <= a <= 255,
    ;
    let n: u32 = c as u32 * a as u32;
    ((n + 127) / 255) as u8
}

impl CpuFrame {
    /// The frame has `4 * width` bytes per row and `height` rows.
    pub open spec fn wf(&self) -> bool {
        &&& self.stride == 4 * self.width
        &&& self.pixels@.len() == 4 * self.width * self.height
    }

    /// From RGBA8, as image decoders return it: premultiply and swizzle to BGRA.
    pub fn from_rgba(width: u32, height: u32, rgba: &[u8]) -> (f: CpuFrame)
        requires
            rgba@.len() == 4 * width * height,
            4 * width <= u32::MAX,
        ensures
            f.wf(),
            f.width == width,
            f.height == height,
            f.pixels@ == premultiplied(rgba@),
    {
        let n: usize = rgba.len();
        let mut out: Vec<u8> = Vec::with_capacity(n);
        let mut i: usize = 0;
        assert(4 * width * height == 4 * (width * height)) by (nonlinear_arith);
        while i < n
            invariant
                i <= n,
                i % 4 == 0,
                n % 4 == 0,
                n == rgba@.len(),
                out@.len() == i,
                forall|j: int| 0 <= j < i ==> out@[j] == premultiplied(rgba@)[j],
            decreases n - i,
        {
            let (r, g, b, a) = (rgba[i], rgba[i + 1], rgba[i + 2], rgba[i + 3]);
            out.push(premul(b, a));
            out.push(premul(g, a));
            out.push(premul(r, a));
            out.push(a);
            i += 4;
        }
        assert(out@ =~= premultiplied(rgba@));
        CpuFrame { width, height, stride: 4 * width, pixels: Arc::new(out) }
    }

    /// A ready BGRA buffer. No copy.
    pub fn from_bgra(width: u32, height: u32, pixels: Arc<Vec<u8>>) -> (f: CpuFrame)
        requires
            pixels@.len() == 4 * width * height,
            4 * width <= u32::MAX,
        ensures
            f.wf(),
            f.width == width,
            f.height == height,
            f.pixels == pixels,
    {
        CpuFrame { width, height, stride: 4 * width, pixels }
    }
}

/// Premultiplying never brightens: a colour component is at most the opacity.
pub proof fn premultiplied_is_bounded_by_alpha(rgba: Seq<u8>, p: int)
    requires
        rgba.len() % 4 == 0,
        0 <= p,
        4 * p + 3 < rgba.len(),
    ensures
        premultiplied(rgba)[4 * p + 3] == rgba[4 * p + 3],
        forall|k: int|
            0 <= k < 3 ==> #[trigger] premultiplied(rgba)[4 * p + k] <= rgba[4 * p + 3],
{
    assert forall|k: int| 0 <= k < 3 implies #[trigger] premultiplied(rgba)[4 * p + k] <= rgba[4
        * p + 3] by {
        let i = 4 * p + k;
        assert(i % 4 == k);
        let c = rgba[4 * p + 2 - k];
        let a = rgba[4 * p + 3];
        assert(0 <= c as int * a as int <= 255 * a as int) by (nonlinear_arith)
            requires
                0 <= c <= 255,
                0 <= a <= 255,
        ;
    }
}

/// An opaque picture is only swizzled: blue, green, red, 255.
pub proof fn opaque_is_only_swizzled(rgba: Seq<u8>, p: int)
    requires
        rgba.len() % 4 == 0,
        0 <= p,
        4 * p + 3 < rgba.len(),
        rgba[4 * p + 3] == 255,
    ensures
        premultiplied(rgba)[4 * p] == rgba[4 * p + 2],
        premultiplied(rgba)[4 * p + 1] == rgba[4 * p + 1],
        premultiplied(rgba)[4 * p + 2] == rgba[4 * p],
        premultiplied(rgba)[4 * p + 3] == 255,
{
    assert((4 * p) % 4 == 0);
    assert((4 * p + 1) % 4 == 1);
    assert((4 * p + 2) % 4 == 2);
    assert((4 * p + 3) % 4 == 3);
}

} // verus!
