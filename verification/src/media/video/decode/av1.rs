//! AV1 on the processor: rav1d. Pictures come out as YUV.

use crate::media::video::decode::{code_error, plane_len, signed_micros, Shape};
use crate::media::video::yuv::{Chroma, Matrix};
use vstd::prelude::*;

verus! {

/// What rav1d says when there is nothing to do.
pub const EAGAIN: i32 = -11;

/// A picture as rav1d describes it.
pub struct Av1Picture {
    pub w: i32,
    pub h: i32,
    /// Bits per sample.
    pub bpc: i32,
    /// 0 grey, 1 4:2:0, 2 4:2:2, 3 4:4:4.
    pub layout: u32,
    /// Matrix coefficients and colour range of the sequence, if it is known.
    pub color: Option<(u32, u8)>,
    /// Bytes per row of luma and of chroma.
    pub stride: (isize, isize),
    /// Microseconds.
    pub timestamp: i64,
}

/// The chroma of a layout.
pub open spec fn chroma_of(layout: u32) -> Option<Chroma> {
    if layout == 0 {
        Some(Chroma::Mono)
    } else if layout == 1 {
        Some(Chroma::Sub420)
    } else if layout == 2 {
        Some(Chroma::Sub422)
    } else if layout == 3 {
        Some(Chroma::Full)
    } else {
        None
    }
}

/// The matrix and the range of a picture; what is not told is guessed from the height.
pub open spec fn colors_of(color: Option<(u32, u8)>, height: u32) -> (Matrix, bool) {
    let guess = crate::media::video::yuv::guessed_matrix(height);
    match color {
        Some((m, range)) => (
            if m == 1 {
                Matrix::Bt709
            } else if m == 9 {
                Matrix::Bt2020
            } else if m == 2 {
                guess
            } else {
                Matrix::Bt601
            },
            range != 0,
        ),
        None => (guess, false),
    }
}

/// The bytes of one sample.
pub open spec fn sample_bytes(bpc: int) -> int {
    if bpc > 8 {
        2
    } else {
        1
    }
}

/// A length that is subsampled once or not at all.
pub open spec fn sampled(n: int, by: bool) -> int {
    if by {
        (n + 1) / 2
    } else {
        n
    }
}

/// The bytes of the luma plane.
pub open spec fn luma_bytes(p: Av1Picture) -> int {
    crate::media::video::decode::plane_bytes(
        p.stride.0 as int,
        p.w * sample_bytes(p.bpc as int),
        p.h as int,
    )
}

/// The bytes of a chroma plane.
pub open spec fn chroma_bytes(p: Av1Picture, c: Chroma) -> int {
    crate::media::video::decode::plane_bytes(
        p.stride.1 as int,
        sampled(p.w as int, c == Chroma::Sub420 || c == Chroma::Sub422) * sample_bytes(
            p.bpc as int,
        ),
        sampled(p.h as int, c == Chroma::Sub420),
    )
}

/// A picture that can be shown: its sizes are not negative, it has rows, its layout is known,
/// and its planes fit in memory.
pub open spec fn is_shown(p: Av1Picture) -> bool {
    &&& p.w >= 0
    &&& p.h > 0
    &&& p.bpc >= 0
    &&& chroma_of(p.layout) is Some
    &&& p.stride.0 >= 0
    &&& p.stride.1 >= 0
    &&& luma_bytes(p) <= usize::MAX
    &&& chroma_of(p.layout) != Some(Chroma::Mono) ==> chroma_bytes(p, chroma_of(p.layout)->0)
        <= usize::MAX
}

/// A length that is subsampled once or not at all.
fn half(n: usize, by: bool) -> (r: usize)
    ensures
        r == sampled(n as int, by),
{
    if by {
        n / 2 + n % 2
    } else {
        n
    }
}

/// The bytes of a row of samples.
fn row_len(width: usize, bpc: u32) -> (r: Option<usize>)
    ensures
        match r {
            Some(n) => n == width * sample_bytes(bpc as int),
            None => width * sample_bytes(bpc as int) > usize::MAX,
        },
{
    if bpc > 8 {
        width.checked_mul(2)
    } else {
        Some(width)
    }
}

/// The shape of a picture, `None` if it cannot be shown.
pub fn shape(p: &Av1Picture) -> (r: Option<Shape>)
    ensures
        r is Some <==> is_shown(*p),
        r matches Some(s) ==> {
            &&& s.width == p.w
            &&& s.height == p.h
            &&& s.bit_depth == p.bpc
            &&& Some(s.chroma) == chroma_of(p.layout)
            &&& (s.matrix, s.full_range) == colors_of(p.color, s.height)
            &&& s.y_stride == p.stride.0
            &&& s.u_stride == p.stride.1
            &&& s.v_stride == p.stride.1
            &&& s.y_len == luma_bytes(*p)
            &&& s.u_len == (if s.chroma == Chroma::Mono {
                0
            } else {
                chroma_bytes(*p, s.chroma)
            })
            &&& s.v_len == s.u_len
            &&& s.pts == crate::media::video::decode::micros_of(p.timestamp)
        },
{
    if p.w < 0 || p.h <= 0 || p.bpc < 0 {
        return None;
    }
    let width: u32 = p.w as u32;
    let height: u32 = p.h as u32;
    let bit_depth: u32 = p.bpc as u32;
    let chroma = if p.layout == 0 {
        Chroma::Mono
    } else if p.layout == 1 {
        Chroma::Sub420
    } else if p.layout == 2 {
        Chroma::Sub422
    } else if p.layout == 3 {
        Chroma::Full
    } else {
        return None;
    };
    let guess = Matrix::guess(height);
    let (matrix, full_range) = match p.color {
        Some((m, range)) => (
            if m == 1 {
                Matrix::Bt709
            } else if m == 9 {
                Matrix::Bt2020
            } else if m == 2 {
                guess
            } else {
                Matrix::Bt601
            },
            range != 0,
        ),
        None => (guess, false),
    };
    if p.stride.0 < 0 || p.stride.1 < 0 {
        return None;
    }
    let y_stride: usize = p.stride.0 as usize;
    let c_stride: usize = p.stride.1 as usize;
    let (w, h) = (width as usize, height as usize);
    let y_row: usize = match row_len(w, bit_depth) {
        Some(n) => n,
        None => {
            proof {
                assert(y_stride * (h - 1) >= 0) by (nonlinear_arith)
                    requires
                        y_stride >= 0,
                        h >= 1,
                ;
            }
            return None;
        },
    };
    let y_len: usize = match plane_len(y_stride, y_row, h) {
        Some(n) => n,
        None => {
            return None;
        },
    };
    let c_len: usize = if chroma == Chroma::Mono {
        0
    } else {
        let cw: usize = half(w, chroma == Chroma::Sub420 || chroma == Chroma::Sub422);
        let ch: usize = half(h, chroma == Chroma::Sub420);
        let row: usize = match row_len(cw, bit_depth) {
            Some(n) => n,
            None => {
                proof {
                    assert(c_stride * (ch - 1) >= 0) by (nonlinear_arith)
                        requires
                            c_stride >= 0,
                            ch >= 1,
                    ;
                }
                return None;
            },
        };
        match plane_len(c_stride, row, ch) {
            Some(n) => n,
            None => {
                return None;
            },
        }
    };
    Some(
        Shape {
            width,
            height,
            bit_depth,
            chroma,
            matrix,
            full_range,
            y_stride,
            u_stride: c_stride,
            v_stride: c_stride,
            y_len,
            u_len: c_len,
            v_len: c_len,
            pts: signed_micros(p.timestamp),
        },
    )
}

/// What rav1d says when it is asked for a picture: one is there (`true`), none is ready
/// (`false`), or an error.
pub fn got_picture(code: i32) -> (r: Result<bool, String>)
    ensures
        match r {
            Ok(ready) => (ready && code >= 0) || (!ready && code == EAGAIN),
            Err(e) => code < 0 && code != EAGAIN && e@ == "dav1d_get_picture: "@
                + crate::media::video::decode::signed_decimal(code),
        },
{
    if code == EAGAIN {
        Ok(false)
    } else if code < 0 {
        Err(code_error("dav1d_get_picture: ", code))
    } else {
        Ok(true)
    }
}

/// What rav1d says when it is fed: that it can wait is no error. `left` is how many bytes of the
/// packet it did not take yet; `true` means that it has to be fed again, once the pictures that
/// are ready are taken out.
pub fn sent(code: i32, left: usize) -> (r: Result<bool, String>)
    ensures
        match r {
            Ok(more) => (code >= 0 || code == EAGAIN) && more == (left > 0),
            Err(e) => code < 0 && code != EAGAIN && e@ == "dav1d_send_data: "@
                + crate::media::video::decode::signed_decimal(code),
        },
{
    if code < 0 && code != EAGAIN {
        Err(code_error("dav1d_send_data: ", code))
    } else {
        Ok(left > 0)
    }
}

/// What rav1d says when it is opened; `there` says whether it made a context.
pub fn opened(code: i32, there: bool) -> (r: Result<(), String>)
    ensures
        match r {
            Ok(_) => code >= 0 && there,
            Err(e) => (code < 0 || !there) && e@ == "dav1d_open: "@
                + crate::media::video::decode::signed_decimal(code),
        },
{
    if code < 0 || !there {
        Err(code_error("dav1d_open: ", code))
    } else {
        Ok(())
    }
}

} // verus!
