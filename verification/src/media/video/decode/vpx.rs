//! VP8 and VP9 on the processor: the system's libvpx, loaded at run time.
//!
//! The time of a packet travels through the library as an opaque tag: VP8 and VP9 do not
//! reorder pictures, but hidden ones give none, and the tag stays with its own picture.

use crate::clock::Nanos;
use crate::media::video::decode::{micros, not_found, plane_len, search, shrink, Shape};
use crate::media::video::pipeline::{Codec, PipeResult};
use crate::media::video::yuv::{Chroma, Matrix};
use crate::text::joined;
use vstd::prelude::*;
use vstd::string::*;

verus! {

/// The version of the interface of the library.
pub const DECODER_ABI_VERSION: i32 = 12;

/// A picture as libvpx describes it.
pub struct VpxPicture {
    pub fmt: i32,
    pub cs: i32,
    pub range: i32,
    pub bit_depth: u32,
    pub width: u32,
    pub height: u32,
    pub x_shift: u32,
    pub y_shift: u32,
    /// All planes are there.
    pub present: bool,
    /// Bytes per row.
    pub stride: [i32; 3],
    /// The tag of the packet.
    pub tag: u64,
}

/// The chroma of a format, whether U and V change places, and whether samples take two bytes.
pub open spec fn format_of(fmt: i32) -> Option<(Chroma, bool, bool)> {
    if fmt == 0x102 || fmt == 0x902 {
        Some((Chroma::Sub420, false, fmt == 0x902))
    } else if fmt == 0x301 || fmt == 0xb01 {
        Some((Chroma::Sub420, true, fmt == 0xb01))
    } else if fmt == 0x105 || fmt == 0x905 {
        Some((Chroma::Sub422, false, fmt == 0x905))
    } else if fmt == 0x106 || fmt == 0x906 {
        Some((Chroma::Full, false, fmt == 0x906))
    } else {
        None
    }
}

/// A format is one of four layouts, with or without the flag for two bytes per sample.
pub proof fn formats_are_layouts_with_a_flag(fmt: i32)
    ensures
        format_of(fmt) matches Some((_, _, wide)) ==> wide == (fmt & 0x800 != 0),
        format_of(fmt) is Some <==> (fmt & !0x800) == 0x102 || (fmt & !0x800) == 0x301 || (fmt
            & !0x800) == 0x105 || (fmt & !0x800) == 0x106,
{
    assert((fmt == 0x902 || fmt == 0xb01 || fmt == 0x905 || fmt == 0x906) ==> fmt & 0x800 != 0)
        by (bit_vector);
    assert((fmt == 0x102 || fmt == 0x301 || fmt == 0x105 || fmt == 0x106) ==> fmt & 0x800 == 0)
        by (bit_vector);
    assert((fmt & !0x800) == 0x102 <==> (fmt == 0x102 || fmt == 0x902)) by (bit_vector);
    assert((fmt & !0x800) == 0x301 <==> (fmt == 0x301 || fmt == 0xb01)) by (bit_vector);
    assert((fmt & !0x800) == 0x105 <==> (fmt == 0x105 || fmt == 0x905)) by (bit_vector);
    assert((fmt & !0x800) == 0x106 <==> (fmt == 0x106 || fmt == 0x906)) by (bit_vector);
}

/// The matrix of a colour space; an unknown one is guessed from the height.
pub open spec fn matrix_of(cs: i32, height: u32) -> Matrix {
    if cs == 2 {
        Matrix::Bt709
    } else if cs == 5 {
        Matrix::Bt2020
    } else if cs == 0 {
        crate::media::video::yuv::guessed_matrix(height)
    } else {
        Matrix::Bt601
    }
}

/// The bytes of plane `i`, luma (0) or chroma.
pub open spec fn bytes_of(p: VpxPicture, i: int, wide: bool) -> int {
    let size = if wide {
        2int
    } else {
        1
    };
    if i == 0 {
        crate::media::video::decode::plane_bytes(
            p.stride@[0] as int,
            p.width * size,
            p.height as int,
        )
    } else {
        crate::media::video::decode::plane_bytes(
            p.stride@[i] as int,
            crate::media::video::decode::halved_up(p.width as int, p.x_shift as nat) * size,
            crate::media::video::decode::halved_up(p.height as int, p.y_shift as nat),
        )
    }
}

/// A picture that can be shown.
pub open spec fn is_shown(p: VpxPicture) -> bool {
    &&& format_of(p.fmt) matches Some((_, _, wide)) && bytes_of(p, 0, wide) <= usize::MAX
        && bytes_of(p, 1, wide) <= usize::MAX && bytes_of(p, 2, wide) <= usize::MAX
    &&& p.width > 0
    &&& p.height > 0
    &&& p.present
    &&& p.stride@[0] >= 0
    &&& p.stride@[1] >= 0
    &&& p.stride@[2] >= 0
}

/// The layout of a format.
fn layout(fmt: i32) -> (r: Option<(Chroma, bool, bool)>)
    ensures
        r == format_of(fmt),
{
    if fmt == 0x102 || fmt == 0x902 {
        Some((Chroma::Sub420, false, fmt == 0x902))
    } else if fmt == 0x301 || fmt == 0xb01 {
        Some((Chroma::Sub420, true, fmt == 0xb01))
    } else if fmt == 0x105 || fmt == 0x905 {
        Some((Chroma::Sub422, false, fmt == 0x905))
    } else if fmt == 0x106 || fmt == 0x906 {
        Some((Chroma::Full, false, fmt == 0x906))
    } else {
        None
    }
}

/// The bytes of a plane of samples.
fn samples_len(stride: usize, width: usize, wide: bool, rows: usize) -> (r: Option<usize>)
    requires
        rows > 0,
    ensures
        ({
            let n = crate::media::video::decode::plane_bytes(
                stride as int,
                width * (if wide {
                    2int
                } else {
                    1
                }),
                rows as int,
            );
            match r {
                Some(k) => k == n,
                None => n > usize::MAX,
            }
        }),
{
    assert(stride * (rows - 1) >= 0) by (nonlinear_arith)
        requires
            stride >= 0,
            rows > 0,
    ;
    let row: usize = if wide {
        match width.checked_mul(2) {
            Some(n) => n,
            None => {
                return None;
            },
        }
    } else {
        width
    };
    plane_len(stride, row, rows)
}

proof fn halving_keeps_one(n: int, times: nat)
    requires
        n > 0,
    ensures
        crate::media::video::decode::halved_up(n, times) > 0,
    decreases times,
{
    if times > 0 {
        halving_keeps_one((n + 1) / 2, (times - 1) as nat);
    }
}

/// The shape of a picture, `None` if it cannot be shown. The second result tells which planes
/// hold U and V.
pub fn shape(p: &VpxPicture) -> (r: Option<(Shape, (usize, usize))>)
    ensures
        r is Some <==> is_shown(*p),
        r matches Some((s, (u, v))) ==> {
            let (chroma, flip, wide) = format_of(p.fmt)->0;
            &&& (u, v) == (if flip {
                (2usize, 1usize)
            } else {
                (1usize, 2usize)
            })
            &&& s.width == p.width
            &&& s.height == p.height
            &&& s.bit_depth == (if !wide {
                8
            } else if p.bit_depth < 9 {
                9
            } else {
                p.bit_depth
            })
            &&& s.chroma == chroma
            &&& s.matrix == matrix_of(p.cs, p.height)
            &&& s.full_range == (p.range == 1)
            &&& s.y_stride == p.stride@[0]
            &&& s.u_stride == p.stride@[u as int]
            &&& s.v_stride == p.stride@[v as int]
            &&& s.y_len == bytes_of(*p, 0, wide)
            &&& s.u_len == bytes_of(*p, u as int, wide)
            &&& s.v_len == bytes_of(*p, v as int, wide)
            &&& s.pts == p.tag * 1000
        },
{
    let (chroma, flip, wide) = match layout(p.fmt) {
        Some((c, f, w)) => (c, f, w),
        None => {
            return None;
        },
    };
    if p.width == 0 || p.height == 0 || !p.present {
        return None;
    }
    if p.stride[0] < 0 || p.stride[1] < 0 || p.stride[2] < 0 {
        return None;
    }
    let bit_depth: u32 = if !wide {
        8
    } else if p.bit_depth < 9 {
        9
    } else {
        p.bit_depth
    };
    let (w, h) = (p.width as usize, p.height as usize);
    let cw: usize = shrink(w, p.x_shift);
    let ch: usize = shrink(h, p.y_shift);
    proof {
        halving_keeps_one(h as int, p.y_shift as nat);
    }
    let matrix = if p.cs == 2 {
        Matrix::Bt709
    } else if p.cs == 5 {
        Matrix::Bt2020
    } else if p.cs == 0 {
        Matrix::guess(p.height)
    } else {
        Matrix::Bt601
    };
    let lens = (
        samples_len(p.stride[0] as usize, w, wide, h),
        samples_len(p.stride[1] as usize, cw, wide, ch),
        samples_len(p.stride[2] as usize, cw, wide, ch),
    );
    if let (Some(y_len), Some(one), Some(two)) = lens {
        let (u, v): (usize, usize) = if flip {
            (2, 1)
        } else {
            (1, 2)
        };
        let s = Shape {
            width: p.width,
            height: p.height,
            bit_depth,
            chroma,
            matrix,
            full_range: p.range == 1,
            y_stride: p.stride[0] as usize,
            u_stride: p.stride[u] as usize,
            v_stride: p.stride[v] as usize,
            y_len,
            u_len: if flip {
                two
            } else {
                one
            },
            v_len: if flip {
                one
            } else {
                two
            },
            pts: micros(p.tag),
        };
        return Some((s, (u, v)));
    }
    None
}

/// Whether libvpx decodes VP9 (`true`) or VP8; an error for another codec.
pub fn is_vp9(codec: &Codec) -> (r: PipeResult<bool>)
    ensures
        match r {
            Ok(v) => (v && codec is Vp9) || (!v && codec is Vp8),
            Err(e) => !(codec is Vp8) && !(codec is Vp9) && e@ == "libvpx cannot decode "@
                + codec.shown(),
        },
{
    match codec {
        Codec::Vp8 => Ok(false),
        Codec::Vp9 => Ok(true),
        _ => Err(joined("libvpx cannot decode ", codec.text().as_str())),
    }
}

/// The name of the decoder.
pub fn name(vp9: bool) -> (r: &'static str)
    ensures
        r@ == (if vp9 {
            "libvpx VP9 (CPU)"@
        } else {
            "libvpx VP8 (CPU)"@
        }),
{
    if vp9 {
        "libvpx VP9 (CPU)"
    } else {
        "libvpx VP8 (CPU)"
    }
}

/// The function of the library that describes the codec.
pub fn interface(vp9: bool) -> (r: &'static str)
    ensures
        r@ == (if vp9 {
            "vpx_codec_vp9_dx"@
        } else {
            "vpx_codec_vp8_dx"@
        }),
{
    if vp9 {
        "vpx_codec_vp9_dx"
    } else {
        "vpx_codec_vp8_dx"
    }
}

/// The message that a function of the library is missing.
pub fn missing_symbol(name: &str, why: &str) -> (r: String)
    ensures
        r@ == "libvpx: missing "@ + name@ + ": "@ + why@,
{
    let mut out = joined("libvpx: missing ", name);
    out.append(": ");
    out.append(why);
    out
}

/// What the library says when it is opened; `text` is its own word for the code.
pub fn opened(code: i32, text: Option<&str>) -> (r: PipeResult<()>)
    ensures
        match r {
            Ok(_) => code == 0,
            Err(e) => code != 0 && e@ == "vpx_codec_dec_init: "@ + match text {
                Some(t) => t@,
                None => "code "@ + crate::media::video::decode::signed_decimal(code),
            },
        },
{
    if code == 0 {
        return Ok(());
    }
    match text {
        Some(t) => Err(joined("vpx_codec_dec_init: ", t)),
        None => Err(
            joined(
                "vpx_codec_dec_init: ",
                crate::media::video::decode::code_error("code ", code).as_str(),
            ),
        ),
    }
}

/// The length of a packet as libvpx takes it, `None` if it is too long.
pub fn packet_len(len: usize) -> (r: Option<u32>)
    ensures
        match r {
            Some(n) => n == len,
            None => len > u32::MAX,
        },
{
    if len <= 0xffff_ffff {
        Some(len as u32)
    } else {
        None
    }
}

/// The tag of a packet: its time in microseconds, as far as a machine word holds it.
pub fn tag(pts: Nanos) -> (r: usize)
    ensures
        r == (if pts / 1000 <= usize::MAX {
            pts / 1000
        } else {
            usize::MAX as u128
        }),
{
    let us: u128 = pts / 1000;
    if us <= usize::MAX as u128 {
        us as usize
    } else {
        usize::MAX
    }
}

/// The usual names of the library. Its interface stays, but its version keeps growing.
pub open spec fn usual_names() -> Seq<Seq<char>> {
    seq![
        "libvpx.so.11"@,
        "libvpx.so.10"@,
        "libvpx.so.9"@,
        "libvpx.so.8"@,
        "libvpx.so.7"@,
        "libvpx.so.6"@,
        "libvpx.so"@,
    ]
}

/// Where libvpx is looked for.
pub fn candidates(explicit: Option<&str>, built_in: Option<&str>) -> (r: Vec<String>)
    ensures
        crate::text::texts(r@) == crate::media::video::decode::search_of(
            crate::config::home_of(explicit),
            crate::config::home_of(built_in),
            usual_names(),
        ),
{
    let usual: [&'static str; 7] = [
        "libvpx.so.11",
        "libvpx.so.10",
        "libvpx.so.9",
        "libvpx.so.8",
        "libvpx.so.7",
        "libvpx.so.6",
        "libvpx.so",
    ];
    assert(crate::media::video::decode::literals(usual@) =~= usual_names());
    search(explicit, built_in, &usual)
}

/// The message that libvpx was not found.
pub fn missing(tried: &Vec<String>) -> (r: String)
    ensures
        r@
            == "libvpx not found (install the libvpx package or set NOSHARE_COVER_LIBVPX); tried: "@
            + crate::text::listed(crate::text::texts(tried@), "; "@),
{
    not_found(
        "libvpx not found (install the libvpx package or set NOSHARE_COVER_LIBVPX); tried: ",
        tried,
    )
}

} // verus!
