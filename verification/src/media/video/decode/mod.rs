//! Decoders. A decoder holds its pictures in memory of its own; here is told what shape such
//! a picture has, how long its planes are, and what frame it becomes.

pub mod av1;
pub mod h264;
pub mod nvdec;
pub mod vaapi;
pub mod vpx;

use crate::clock::Nanos;
use crate::frame::FrameData;
use crate::media::video::pipeline::DecodedFrame;
use crate::media::video::yuv::{to_bgra, Chroma, ChromaPlanes, Matrix, Plane, YuvImage};
use crate::text::{decimal, joined, list};
use vstd::prelude::*;
use vstd::string::*;

verus! {

/// The shape of a picture in the memory of a decoder.
pub struct Shape {
    pub width: u32,
    pub height: u32,
    pub bit_depth: u32,
    pub chroma: Chroma,
    pub matrix: Matrix,
    pub full_range: bool,
    /// Bytes per row of the planes.
    pub y_stride: usize,
    pub u_stride: usize,
    pub v_stride: usize,
    /// Bytes of the planes.
    pub y_len: usize,
    pub u_len: usize,
    pub v_len: usize,
    pub pts: Nanos,
}

/// The bytes of a plane of `rows` rows: whole rows, but for the last one.
pub open spec fn plane_bytes(stride: int, row: int, rows: int) -> int {
    stride * (rows - 1) + row
}

/// The bytes of a plane; `None` if it has no row or does not fit in memory.
pub fn plane_len(stride: usize, row: usize, rows: usize) -> (r: Option<usize>)
    ensures
        match r {
            Some(n) => rows > 0 && n == plane_bytes(stride as int, row as int, rows as int),
            None => rows == 0 || plane_bytes(stride as int, row as int, rows as int) > usize::MAX,
        },
{
    if rows == 0 {
        return None;
    }
    match stride.checked_mul(rows - 1) {
        Some(n) => n.checked_add(row),
        None => None,
    }
}

/// The planes of a picture, as it can be converted.
pub open spec fn image_of<'a>(s: Shape, y: &'a [u8], uv: ChromaPlanes<'a>) -> YuvImage<'a> {
    YuvImage {
        width: s.width,
        height: s.height,
        bit_depth: s.bit_depth,
        chroma: s.chroma,
        matrix: s.matrix,
        full_range: s.full_range,
        y: Plane { data: y, stride: s.y_stride },
        uv,
    }
}

/// The frame of a picture.
pub open spec fn is_frame_of(f: DecodedFrame, pts: Nanos, img: YuvImage<'_>) -> bool {
    &&& f.pts == pts
    &&& f.data matches FrameData::Cpu(c)
    &&& c.wf()
    &&& c.width == img.width
    &&& c.height == img.height
    &&& c.pixels@ == img.bgra()
}

impl Shape {
    /// The planes of a picture, as it can be converted.
    pub fn image<'a>(&self, y: &'a [u8], uv: ChromaPlanes<'a>) -> (r: YuvImage<'a>)
        ensures
            r == image_of(*self, y, uv),
    {
        YuvImage {
            width: self.width,
            height: self.height,
            bit_depth: self.bit_depth,
            chroma: self.chroma,
            matrix: self.matrix,
            full_range: self.full_range,
            y: Plane { data: y, stride: self.y_stride },
            uv,
        }
    }

    fn frame<'a>(&self, y: &'a [u8], uv: ChromaPlanes<'a>) -> (r: Option<DecodedFrame>)
        ensures
            match r {
                Some(f) => image_of(*self, y, uv).convertible() && is_frame_of(
                    f,
                    self.pts,
                    image_of(*self, y, uv),
                ),
                None => !image_of(*self, y, uv).convertible(),
            },
    {
        let img = self.image(y, uv);
        match to_bgra(&img) {
            Some(c) => Some(DecodedFrame { pts: self.pts, data: FrameData::Cpu(c) }),
            None => None,
        }
    }

    /// The frame of a picture with chroma in planes of its own.
    pub fn planar(&self, y: &[u8], u: &[u8], v: &[u8]) -> (r: Option<DecodedFrame>)
        ensures
            ({
                let img = image_of(
                    *self,
                    y,
                    ChromaPlanes::Planar {
                        u: Plane { data: u, stride: self.u_stride },
                        v: Plane { data: v, stride: self.v_stride },
                    },
                );
                match r {
                    Some(f) => img.convertible() && is_frame_of(f, self.pts, img),
                    None => !img.convertible(),
                }
            }),
    {
        self.frame(
            y,
            ChromaPlanes::Planar {
                u: Plane { data: u, stride: self.u_stride },
                v: Plane { data: v, stride: self.v_stride },
            },
        )
    }

    /// The frame of a picture with interleaved chroma.
    pub fn interleaved(&self, y: &[u8], uv: &[u8]) -> (r: Option<DecodedFrame>)
        ensures
            ({
                let img = image_of(
                    *self,
                    y,
                    ChromaPlanes::Interleaved(Plane { data: uv, stride: self.u_stride }),
                );
                match r {
                    Some(f) => img.convertible() && is_frame_of(f, self.pts, img),
                    None => !img.convertible(),
                }
            }),
    {
        self.frame(y, ChromaPlanes::Interleaved(Plane { data: uv, stride: self.u_stride }))
    }

    /// The frame of a picture without chroma.
    pub fn grey(&self, y: &[u8]) -> (r: Option<DecodedFrame>)
        ensures
            ({
                let img = image_of(*self, y, ChromaPlanes::Absent);
                match r {
                    Some(f) => img.convertible() && is_frame_of(f, self.pts, img),
                    None => !img.convertible(),
                }
            }),
    {
        self.frame(y, ChromaPlanes::Absent)
    }
}

/// Microseconds as a span of time.
pub fn micros(us: u64) -> (r: Nanos)
    ensures
        r == us * 1000,
{
    us as u128 * 1000
}

/// A signed number of microseconds as a span of time; a negative one counts as none.
pub open spec fn micros_of(us: i64) -> int {
    if us < 0 {
        0
    } else {
        us * 1000
    }
}

/// A signed number of microseconds as a span of time.
pub fn signed_micros(us: i64) -> (r: Nanos)
    ensures
        r == micros_of(us),
{
    if us < 0 {
        0
    } else {
        us as u128 * 1000
    }
}

/// A span of time in microseconds; it stops at `most`.
pub fn to_micros(pts: Nanos, most: u64) -> (r: u64)
    ensures
        r == (if pts / 1000 <= most {
            pts / 1000
        } else {
            most as u128
        }),
{
    let us: u128 = pts / 1000;
    if us <= most as u128 {
        us as u64
    } else {
        most
    }
}

/// Half of a length, rounded up, `times` times over.
pub open spec fn halved_up(n: int, times: nat) -> int
    decreases times,
{
    if times == 0 {
        n
    } else {
        halved_up((n + 1) / 2, (times - 1) as nat)
    }
}

/// A length of one stays.
proof fn one_stays(times: nat)
    ensures
        halved_up(1, times) == 1,
        halved_up(0, times) == 0,
    decreases times,
{
    if times > 0 {
        one_stays((times - 1) as nat);
    }
}

/// Half of a length, rounded up, `times` times over.
pub fn shrink(n: usize, times: u32) -> (r: usize)
    ensures
        r == halved_up(n as int, times as nat),
        r <= n,
{
    let mut left: u32 = times;
    let mut len: usize = n;
    while left > 0 && len > 1
        invariant
            len <= n,
            halved_up(n as int, times as nat) == halved_up(len as int, left as nat),
        decreases left,
    {
        len = len / 2 + len % 2;
        left = left - 1;
    }
    proof {
        one_stays(left as nat);
    }
    len
}

/// How many threads a decoder gets: a cover is a background picture, and the compositor needs
/// the processor more.
pub fn threads(available: Option<usize>) -> (r: u32)
    ensures
        r == match available {
            Some(n) => if n < 1 {
                1usize
            } else if n > 4 {
                4
            } else {
                n
            },
            None => 2,
        },
{
    match available {
        Some(n) => if n < 1 {
            1
        } else if n > 4 {
            4
        } else {
            n as u32
        },
        None => 2,
    }
}

/// Where a library is looked for: the path that was asked for, the one that was built in, the
/// usual names.
pub open spec fn search_of(
    explicit: Option<Seq<char>>,
    built_in: Option<Seq<char>>,
    usual: Seq<Seq<char>>,
) -> Seq<Seq<char>> {
    (match explicit {
        Some(p) => seq![p],
        None => Seq::empty(),
    }) + (match built_in {
        Some(p) => seq![p],
        None => Seq::empty(),
    }) + usual
}

/// The texts of a list of literals.
pub open spec fn literals(names: Seq<&'static str>) -> Seq<Seq<char>> {
    names.map_values(|s: &'static str| s@)
}

/// Where a library is looked for.
pub fn search(explicit: Option<&str>, built_in: Option<&str>, usual: &[&'static str]) -> (r: Vec<
    String,
>)
    ensures
        crate::text::texts(r@) == search_of(
            crate::config::home_of(explicit),
            crate::config::home_of(built_in),
            literals(usual@),
        ),
{
    let mut out: Vec<String> = Vec::new();
    let ghost a: Seq<Seq<char>> = match explicit {
        Some(p) => seq![p@],
        None => Seq::empty(),
    };
    let ghost b: Seq<Seq<char>> = match built_in {
        Some(p) => seq![p@],
        None => Seq::empty(),
    };
    if let Some(p) = explicit {
        out.push(p.to_owned());
    }
    assert(crate::text::texts(out@) =~= a);
    if let Some(p) = built_in {
        out.push(p.to_owned());
    }
    assert(crate::text::texts(out@) =~= a + b);
    let mut i: usize = 0;
    assert(literals(usual@).take(0) =~= Seq::empty());
    assert(a + b + literals(usual@).take(0) =~= a + b);
    while i < usual.len()
        invariant
            i <= usual@.len(),
            crate::text::texts(out@) == a + b + literals(usual@).take(i as int),
        decreases usual@.len() - i,
    {
        let ghost before = out@;
        out.push(usual[i].to_owned());
        i += 1;
        assert(crate::text::texts(out@) =~= crate::text::texts(before).push(usual@[i - 1]@));
        assert(literals(usual@).take(i as int) =~= literals(usual@).take(i - 1).push(
            usual@[i - 1]@,
        ));
        assert(crate::text::texts(out@) =~= a + b + literals(usual@).take(i as int));
    }
    assert(literals(usual@).take(i as int) =~= literals(usual@));
    out
}

/// A library was not found: what to do, and what was tried.
pub fn not_found(advice: &str, tried: &Vec<String>) -> (r: String)
    ensures
        r@ == advice@ + crate::text::listed(crate::text::texts(tried@), "; "@),
{
    joined(advice, list(tried, "; ").as_str())
}

/// A signed number in decimal digits.
pub open spec fn signed_decimal(n: i32) -> Seq<char> {
    if n < 0 {
        "-"@ + crate::text::decimal_of((-(n as int)) as nat)
    } else {
        crate::text::decimal_of(n as nat)
    }
}

/// The message about a code that a library returned.
pub fn code_error(what: &str, code: i32) -> (r: String)
    ensures
        r@ == what@ + signed_decimal(code),
{
    let mut out = what.to_owned();
    if code < 0 {
        out.append("-");
        out.append(decimal((-(code as i64)) as u64).as_str());
        assert(out@ =~= what@ + signed_decimal(code));
    } else {
        out.append(decimal(code as u64).as_str());
    }
    out
}

} // verus!
