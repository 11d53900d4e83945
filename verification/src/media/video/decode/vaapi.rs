//! VA-API (Intel, AMD; NVIDIA through a driver of its own). Decoding itself lives in a helper
//! library, which is loaded with the first video on the GPU: without libva only VA-API is
//! missing.

use crate::clock::Nanos;
use crate::media::video::decode::{plane_len, Shape};
use crate::media::video::pipeline::{Codec, PipeResult};
use crate::media::video::yuv::{Chroma, Matrix};
use crate::text::{contains, joined};
use vstd::prelude::*;
use vstd::string::*;

verus! {

/// The version of the interface of the helper.
pub const HELPER_ABI: u32 = 1;

/// The number of a codec in the interface of the helper.
pub open spec fn code_of(codec: Codec) -> Option<u32> {
    match codec {
        Codec::H264 => Some(1),
        Codec::Hevc => Some(2),
        Codec::Vp8 => Some(3),
        Codec::Vp9 => Some(4),
        Codec::Av1 => Some(5),
        Codec::Other(_) => None,
    }
}

/// The number of a codec in the interface of the helper.
pub fn helper_codec(codec: &Codec) -> (r: Option<u32>)
    ensures
        r == code_of(*codec),
{
    match codec {
        Codec::H264 => Some(1),
        Codec::Hevc => Some(2),
        Codec::Vp8 => Some(3),
        Codec::Vp9 => Some(4),
        Codec::Av1 => Some(5),
        Codec::Other(_) => None,
    }
}

/// The number of a codec, or the message that VA-API does not know it.
pub fn supported(codec: &Codec) -> (r: PipeResult<u32>)
    ensures
        match r {
            Ok(c) => code_of(*codec) == Some(c),
            Err(e) => code_of(*codec) is None && e@ == "VA-API doesn't support "@ + codec.shown(),
        },
{
    match helper_codec(codec) {
        Some(c) => Ok(c),
        None => Err(joined("VA-API doesn't support ", codec.text().as_str())),
    }
}

/// A picture as the helper describes it: NV12 of eight bits.
pub struct VaPicture {
    pub width: u32,
    pub height: u32,
    /// Both planes are there.
    pub present: bool,
    pub y_stride: usize,
    pub uv_stride: usize,
    pub pts_ns: u64,
}

/// The bytes of the luma plane.
pub open spec fn luma_bytes(p: VaPicture) -> int {
    crate::media::video::decode::plane_bytes(p.y_stride as int, p.width as int, p.height as int)
}

/// The bytes of the chroma plane.
pub open spec fn chroma_bytes(p: VaPicture) -> int {
    crate::media::video::decode::plane_bytes(
        p.uv_stride as int,
        (p.width + 1) / 2 * 2,
        (p.height + 1) / 2,
    )
}

/// A picture that can be shown.
pub open spec fn is_shown(p: VaPicture) -> bool {
    &&& p.width > 0
    &&& p.height > 0
    &&& p.present
    &&& luma_bytes(p) <= usize::MAX
    &&& chroma_bytes(p) <= usize::MAX
}

/// The shape of a picture, `None` if it cannot be shown.
pub fn shape(p: &VaPicture) -> (r: Option<Shape>)
    ensures
        r is Some <==> is_shown(*p),
        r matches Some(s) ==> {
            &&& s.width == p.width
            &&& s.height == p.height
            &&& s.bit_depth == 8
            &&& s.chroma == Chroma::Sub420
            &&& s.matrix == crate::media::video::yuv::guessed_matrix(p.height)
            &&& !s.full_range
            &&& s.y_stride == p.y_stride
            &&& s.u_stride == p.uv_stride
            &&& s.y_len == luma_bytes(*p)
            &&& s.u_len == chroma_bytes(*p)
            &&& s.pts == p.pts_ns
        },
{
    if p.width == 0 || p.height == 0 || !p.present {
        return None;
    }
    let (w, h) = (p.width as usize, p.height as usize);
    let y_len: usize = match plane_len(p.y_stride, w, h) {
        Some(n) => n,
        None => {
            return None;
        },
    };
    let ch: usize = h / 2 + h % 2;
    proof {
        assert(p.uv_stride * (ch - 1) >= 0) by (nonlinear_arith)
            requires
                p.uv_stride >= 0,
                ch >= 1,
        ;
    }
    let row: usize = match (w / 2 + w % 2).checked_mul(2) {
        Some(n) => n,
        None => {
            return None;
        },
    };
    let c_len: usize = match plane_len(p.uv_stride, row, ch) {
        Some(n) => n,
        None => {
            return None;
        },
    };
    Some(
        Shape {
            width: p.width,
            height: p.height,
            bit_depth: 8,
            chroma: Chroma::Sub420,
            matrix: Matrix::guess(p.height),
            full_range: false,
            y_stride: p.y_stride,
            u_stride: p.uv_stride,
            v_stride: p.uv_stride,
            y_len,
            u_len: c_len,
            v_len: c_len,
            pts: p.pts_ns as u128,
        },
    )
}

/// The time of a packet as the helper takes it; it stops at the largest number.
pub fn to_nanos(pts: Nanos) -> (r: u64)
    ensures
        r == (if pts <= u64::MAX {
            pts
        } else {
            u64::MAX as u128
        }),
{
    if pts <= 0xffff_ffff_ffff_ffff {
        pts as u64
    } else {
        0xffff_ffff_ffff_ffff
    }
}

/// The message that the helper could not be loaded. A missing libva or libgbm is named as
/// such.
pub fn load_error(why: &str) -> (r: String)
    ensures
        r@ == (if crate::text::holds(why@, "libva"@) || crate::text::holds(why@, "libgbm"@) {
            "libva/libgbm not found for VA-API (install libva): "@
        } else {
            "failed to load VA-API helper: "@
        }) + why@,
{
    if contains(why, "libva") || contains(why, "libgbm") {
        joined("libva/libgbm not found for VA-API (install libva): ", why)
    } else {
        joined("failed to load VA-API helper: ", why)
    }
}

/// The message that the decoder could not be opened; the helper may have left one.
pub fn open_error(message: &str) -> (r: String)
    ensures
        r@ == (if message@.len() == 0 {
            "VA-API: failed to open"@
        } else {
            message@
        }),
{
    if message.unicode_len() == 0 {
        "VA-API: failed to open".to_owned()
    } else {
        message.to_owned()
    }
}

} // verus!
