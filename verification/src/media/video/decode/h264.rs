//! H.264 on the processor: the system's libopenh264, loaded at run time.
//!
//! The library is not built in, for H.264 is patented and distributions ship it as a package
//! of its own. Without the library there is an error, and the plugin lives on. Timestamps
//! travel through the library: it puts pictures into display order.

use crate::media::video::decode::{micros, not_found, plane_len, search, Shape};
use crate::media::video::yuv::{Chroma, Matrix};
use vstd::prelude::*;

verus! {

/// A picture as openh264 describes it.
pub struct H264Picture {
    /// 1 if there is a picture.
    pub status: i32,
    /// All planes are there.
    pub present: bool,
    pub width: i32,
    pub height: i32,
    /// Bytes per row of luma and of chroma.
    pub stride: (i32, i32),
    /// Microseconds.
    pub timestamp: u64,
}

/// The bytes of the luma plane.
pub open spec fn luma_bytes(p: H264Picture) -> int {
    crate::media::video::decode::plane_bytes(p.stride.0 as int, p.width as int, p.height as int)
}

/// The bytes of a chroma plane.
pub open spec fn chroma_bytes(p: H264Picture) -> int {
    crate::media::video::decode::plane_bytes(
        p.stride.1 as int,
        (p.width + 1) / 2,
        (p.height + 1) / 2,
    )
}

/// A picture that can be shown.
pub open spec fn is_shown(p: H264Picture) -> bool {
    &&& p.status == 1
    &&& p.present
    &&& p.width > 0
    &&& p.height > 0
    &&& p.stride.0 >= 0
    &&& p.stride.1 >= 0
    &&& luma_bytes(p) <= usize::MAX
    &&& chroma_bytes(p) <= usize::MAX
}

/// The shape of a picture, `None` if it cannot be shown. openh264 gives 4:2:0 of eight bits
/// and does not tell the matrix.
pub fn shape(p: &H264Picture) -> (r: Option<Shape>)
    ensures
        r is Some <==> is_shown(*p),
        r matches Some(s) ==> {
            &&& s.width == p.width
            &&& s.height == p.height
            &&& s.bit_depth == 8
            &&& s.chroma == Chroma::Sub420
            &&& s.matrix == crate::media::video::yuv::guessed_matrix(s.height)
            &&& !s.full_range
            &&& s.y_stride == p.stride.0
            &&& s.u_stride == p.stride.1
            &&& s.v_stride == p.stride.1
            &&& s.y_len == luma_bytes(*p)
            &&& s.u_len == chroma_bytes(*p)
            &&& s.v_len == s.u_len
            &&& s.pts == p.timestamp * 1000
        },
{
    if p.status != 1 || !p.present || p.width <= 0 || p.height <= 0 || p.stride.0 < 0 || p.stride.1
        < 0 {
        return None;
    }
    let (w, h) = (p.width as usize, p.height as usize);
    let y_stride: usize = p.stride.0 as usize;
    let c_stride: usize = p.stride.1 as usize;
    let y_len: usize = match plane_len(y_stride, w, h) {
        Some(n) => n,
        None => {
            return None;
        },
    };
    let c_len: usize = match plane_len(c_stride, w / 2 + w % 2, h / 2 + h % 2) {
        Some(n) => n,
        None => {
            return None;
        },
    };
    Some(
        Shape {
            width: p.width as u32,
            height: p.height as u32,
            bit_depth: 8,
            chroma: Chroma::Sub420,
            matrix: Matrix::guess(p.height as u32),
            full_range: false,
            y_stride,
            u_stride: c_stride,
            v_stride: c_stride,
            y_len,
            u_len: c_len,
            v_len: c_len,
            pts: micros(p.timestamp),
        },
    )
}

/// The length of a packet as openh264 takes it, `None` if it is too long.
pub fn packet_len(len: usize) -> (r: Option<i32>)
    ensures
        match r {
            Some(n) => n == len,
            None => len > i32::MAX,
        },
{
    if len <= 0x7fff_ffff {
        Some(len as i32)
    } else {
        None
    }
}

/// How many pictures openh264 still holds, by its answer.
pub fn remaining(code: i32, n: i32) -> (r: usize)
    ensures
        r == (if code == 0 && n >= 0 {
            n as int
        } else {
            0
        }),
{
    if code == 0 && n >= 0 {
        n as usize
    } else {
        0
    }
}

/// The usual names of the library: by its name first, then by full paths.
pub open spec fn usual_names() -> Seq<Seq<char>> {
    seq![
        "libopenh264.so.8"@,
        "libopenh264.so.7"@,
        "libopenh264.so"@,
        "/usr/lib/libopenh264.so"@,
        "/usr/lib64/libopenh264.so"@,
        "/usr/lib/x86_64-linux-gnu/libopenh264.so"@,
    ]
}

/// Where libopenh264 is looked for.
pub fn candidates(explicit: Option<&str>, built_in: Option<&str>) -> (r: Vec<String>)
    ensures
        crate::text::texts(r@) == crate::media::video::decode::search_of(
            crate::config::home_of(explicit),
            crate::config::home_of(built_in),
            usual_names(),
        ),
{
    let usual: [&'static str; 6] = [
        "libopenh264.so.8",
        "libopenh264.so.7",
        "libopenh264.so",
        "/usr/lib/libopenh264.so",
        "/usr/lib64/libopenh264.so",
        "/usr/lib/x86_64-linux-gnu/libopenh264.so",
    ];
    assert(crate::media::video::decode::literals(usual@) =~= usual_names());
    search(explicit, built_in, &usual)
}

/// The message that libopenh264 was not found.
pub fn missing(tried: &Vec<String>) -> (r: String)
    ensures
        r@
            == "libopenh264 не найден (поставьте пакет openh264 или задайте NOSHARE_COVER_OPENH264); пробовал: "@
            + crate::text::listed(crate::text::texts(tried@), "; "@),
{
    not_found(
        "libopenh264 не найден (поставьте пакет openh264 или задайте NOSHARE_COVER_OPENH264); пробовал: ",
        tried,
    )
}

} // verus!
