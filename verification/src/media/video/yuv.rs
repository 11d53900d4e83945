//! YUV to premultiplied BGRA (video is opaque, so it is plain BGRA with alpha 255).
//!
//! Shared by all decoders: planar 4:2:0, 4:2:2, 4:4:4 and luma only, 8 to 16 bits,
//! and interleaved chroma (NV12, P016). Fixed-point integer math with 14 fractional bits,
//! and a fast path for the most common case: 8-bit planar 4:2:0.

use crate::frame::CpuFrame;
use std::sync::Arc;
use vstd::arithmetic::div_mod::{lemma_fundamental_div_mod_converse, lemma_div_is_ordered};
use vstd::arithmetic::mul::lemma_mul_inequality;
use vstd::arithmetic::power2::pow2;
use vstd::bits::lemma_u32_shr_is_div;
use vstd::prelude::*;

verus! {

/// The matrix that turns luma and chroma into red, green and blue.
#[derive(Debug, Clone, Copy, PartialEq, Eq, Structural)]
pub enum Matrix {
    Bt601,
    Bt709,
    Bt2020,
}

/// How much chroma there is.
#[derive(Debug, Clone, Copy, PartialEq, Eq, Structural)]
pub enum Chroma {
    /// 4:2:0: one chroma sample per 2x2 pixels
    Sub420,
    /// 4:2:2: one chroma sample per 2x1
    Sub422,
    /// 4:4:4
    Full,
    /// luma only
    Mono,
}

/// Plane: bytes and the row stride in bytes.
#[derive(Clone, Copy)]
pub struct Plane<'a> {
    pub data: &'a [u8],
    pub stride: usize,
}

/// Chroma plane layout.
#[derive(Clone, Copy)]
pub enum ChromaPlanes<'a> {
    /// separate U and V planes
    Planar { u: Plane<'a>, v: Plane<'a> },
    /// interleaved UV
    Interleaved(Plane<'a>),
    /// no chroma at all
    Absent,
}

/// A decoded picture before conversion.
pub struct YuvImage<'a> {
    pub width: u32,
    pub height: u32,
    /// 8 to 16. Above 8, samples are u16 little-endian.
    pub bit_depth: u32,
    pub chroma: Chroma,
    pub matrix: Matrix,
    pub full_range: bool,
    pub y: Plane<'a>,
    pub uv: ChromaPlanes<'a>,
}

/// Frame size at which conversion goes multithreaded (about a megapixel).
pub const PARALLEL_FROM_PIXELS: u64 = 1_000_000;

/// No more threads than this: the compositor and decoder need the processor too.
pub const MAX_THREADS: usize = 4;

// ------------------------------------------------------------------ coefficients

/// Fixed-point coefficients for 8-bit values.
pub struct Coefs {
    pub y_off: i32,
    pub y_mul: i32,
    pub rv: i32,
    pub gu: i32,
    pub gv: i32,
    pub bu: i32,
}

/// `num / den` rounded to the nearest integer.
pub open spec fn nearest(num: int, den: int) -> int {
    (2 * num + den) / (2 * den)
}

impl Matrix {
    /// The weight of red in luma, in ten-thousandths.
    pub open spec fn kr(self) -> int {
        match self {
            Matrix::Bt601 => 2990,
            Matrix::Bt709 => 2126,
            Matrix::Bt2020 => 2627,
        }
    }

    /// The weight of blue in luma, in ten-thousandths.
    pub open spec fn kb(self) -> int {
        match self {
            Matrix::Bt601 => 1140,
            Matrix::Bt709 => 722,
            Matrix::Bt2020 => 593,
        }
    }

    /// The weight of green in luma, in ten-thousandths.
    pub open spec fn kg(self) -> int {
        10000 - self.kr() - self.kb()
    }

    /// Heuristic when the stream does not say: HD and up is 709, everything else 601.
    pub fn guess(height: u32) -> (m: Matrix)
        ensures
            m == guessed_matrix(height),
    {
        if height >= 720 {
            Matrix::Bt709
        } else {
            Matrix::Bt601
        }
    }
}

/// The matrix taken for a stream that names none.
pub open spec fn guessed_matrix(height: u32) -> Matrix {
    if height >= 720 {
        Matrix::Bt709
    } else {
        Matrix::Bt601
    }
}

impl Coefs {
    /// The coefficients of `matrix` in units of 1/16384: with red, green and blue
    /// weighing `kr`, `kg` and `kb` in luma, red takes `2 (1 - kr)` of V, blue takes
    /// `2 (1 - kb)` of U, and green loses `2 (1 - kb) kb / kg` of U and
    /// `2 (1 - kr) kr / kg` of V. In limited range luma is stretched by 255/219
    /// from 16 on and chroma by 255/224.
    pub open spec fn follows(self, matrix: Matrix, full: bool) -> bool {
        let (kr, kg, kb) = (matrix.kr(), matrix.kg(), matrix.kb());
        let (cn, cd) = if full {
            (1int, 1int)
        } else {
            (255int, 224int)
        };
        &&& self.y_off == (if full {
            0int
        } else {
            16int
        })
        &&& self.y_mul == (if full {
            16384
        } else {
            nearest(16384int * 255, 219)
        })
        &&& self.rv == nearest(2 * (10000 - kr) * cn * 16384, 10000 * cd)
        &&& self.gu == nearest(2 * (10000 - kb) * kb * cn * 16384, 10000 * kg * cd)
        &&& self.gv == nearest(2 * (10000 - kr) * kr * cn * 16384, 10000 * kg * cd)
        &&& self.bu == nearest(2 * (10000 - kb) * cn * 16384, 10000 * cd)
    }

    /// The coefficients of a matrix for full or limited range.
    pub open spec fn of(matrix: Matrix, full: bool) -> Coefs {
        let (y_off, y_mul) = if full {
            (0i32, 16384i32)
        } else {
            (16i32, 19077i32)
        };
        let (rv, gu, gv, bu) = match (matrix, full) {
            (Matrix::Bt601, true) => (22970i32, 5638i32, 11700i32, 29032i32),
            (Matrix::Bt601, false) => (26149i32, 6419i32, 13320i32, 33050i32),
            (Matrix::Bt709, true) => (25802i32, 3069i32, 7670i32, 30402i32),
            (Matrix::Bt709, false) => (29372i32, 3494i32, 8731i32, 34610i32),
            (Matrix::Bt2020, true) => (24160i32, 2696i32, 9361i32, 30825i32),
            (Matrix::Bt2020, false) => (27503i32, 3069i32, 10657i32, 35091i32),
        };
        Coefs { y_off, y_mul, rv, gu, gv, bu }
    }

    /// The coefficients of a matrix for full or limited range.
    pub fn new(matrix: Matrix, full: bool) -> (c: Coefs)
        ensures
            c == Coefs::of(matrix, full),
            c.follows(matrix, full),
    {
        let (y_off, y_mul) = if full {
            (0i32, 16384i32)
        } else {
            (16i32, 19077i32)
        };
        let (rv, gu, gv, bu) = match (matrix, full) {
            (Matrix::Bt601, true) => (22970i32, 5638i32, 11700i32, 29032i32),
            (Matrix::Bt601, false) => (26149i32, 6419i32, 13320i32, 33050i32),
            (Matrix::Bt709, true) => (25802i32, 3069i32, 7670i32, 30402i32),
            (Matrix::Bt709, false) => (29372i32, 3494i32, 8731i32, 34610i32),
            (Matrix::Bt2020, true) => (24160i32, 2696i32, 9361i32, 30825i32),
            (Matrix::Bt2020, false) => (27503i32, 3069i32, 10657i32, 35091i32),
        };
        proof {
            coefficients_follow_the_formula(matrix, full);
        }
        Coefs { y_off, y_mul, rv, gu, gv, bu }
    }

    /// The coefficients stay small enough for 32-bit arithmetic on 8-bit samples.
    pub open spec fn small(self) -> bool {
        &&& 0 <= self.y_off <= 16
        &&& 0 <= self.y_mul <= 20000
        &&& 0 <= self.rv <= 40000
        &&& 0 <= self.gu <= 40000
        &&& 0 <= self.gv <= 40000
        &&& 0 <= self.bu <= 40000
    }

    /// Blue, green, red and opacity of one pixel.
    pub open spec fn bgra(self, y: int, u: int, v: int) -> Seq<u8> {
        let l = (y - self.y_off) * self.y_mul;
        seq![
            channel(l + self.bu * (u - 128)),
            channel(l - self.gu * (u - 128) - self.gv * (v - 128)),
            channel(l + self.rv * (v - 128)),
            255u8,
        ]
    }

    /// One pixel from its luma and chroma samples.
    pub fn px(&self, y: i32, u: i32, v: i32) -> (p: [u8; 4])
        requires
            self.small(),
            0 <= y <= 255,
            0 <= u <= 255,
            0 <= v <= 255,
        ensures
            p@ == self.bgra(y as int, u as int, v as int),
    {
        let (u, v) = (u - 128, v - 128);
        assert(-16 * 20000 <= (y - self.y_off) * self.y_mul <= 255 * 20000) by (nonlinear_arith)
            requires
                0 <= y <= 255,
                0 <= self.y_off <= 16,
                0 <= self.y_mul <= 20000,
        ;
        assert(-5120000 <= self.bu * u <= 5120000) by (nonlinear_arith)
            requires
                0 <= self.bu <= 40000,
                -128 <= u <= 127,
        ;
        assert(-5120000 <= self.gu * u <= 5120000) by (nonlinear_arith)
            requires
                0 <= self.gu <= 40000,
                -128 <= u <= 127,
        ;
        assert(-5120000 <= self.gv * v <= 5120000) by (nonlinear_arith)
            requires
                0 <= self.gv <= 40000,
                -128 <= v <= 127,
        ;
        assert(-5120000 <= self.rv * v <= 5120000) by (nonlinear_arith)
            requires
                0 <= self.rv <= 40000,
                -128 <= v <= 127,
        ;
        let l: i32 = (y - self.y_off) * self.y_mul;
        let b: u8 = clamp(l + self.bu * u);
        let g: u8 = clamp(l - self.gu * u - self.gv * v);
        let r: u8 = clamp(l + self.rv * v);
        let p: [u8; 4] = [b, g, r, 255];
        assert(p@ =~= self.bgra(y as int, u + 128, v + 128));
        p
    }
}

proof fn nearest_is(num: int, den: int, r: int)
    requires
        den > 0,
        (2 * den) * r <= 2 * num + den < (2 * den) * r + 2 * den,
    ensures
        nearest(num, den) == r,
{
    assert((2 * den) * r == r * (2 * den)) by (nonlinear_arith);
    lemma_fundamental_div_mod_converse(2 * num + den, 2 * den, r, 2 * num + den - (2 * den) * r);
}

/// The tabulated coefficients are the ones the formula gives.
pub proof fn coefficients_follow_the_formula(matrix: Matrix, full: bool)
    ensures
        Coefs::of(matrix, full).follows(matrix, full),
{
    nearest_is(16384int * 255, 219, 19077);
    match (matrix, full) {
        (Matrix::Bt601, true) => {
            nearest_is(2 * (10000 - 2990int) * 1 * 16384, 10000int * 1, 22970);
            nearest_is(2 * (10000 - 1140int) * 1140 * 1 * 16384, 10000int * 5870 * 1, 5638);
            nearest_is(2 * (10000 - 2990int) * 2990 * 1 * 16384, 10000int * 5870 * 1, 11700);
            nearest_is(2 * (10000 - 1140int) * 1 * 16384, 10000int * 1, 29032);
        },
        (Matrix::Bt601, false) => {
            nearest_is(2 * (10000 - 2990int) * 255 * 16384, 10000int * 224, 26149);
            nearest_is(2 * (10000 - 1140int) * 1140 * 255 * 16384, 10000int * 5870 * 224, 6419);
            nearest_is(2 * (10000 - 2990int) * 2990 * 255 * 16384, 10000int * 5870 * 224, 13320);
            nearest_is(2 * (10000 - 1140int) * 255 * 16384, 10000int * 224, 33050);
        },
        (Matrix::Bt709, true) => {
            nearest_is(2 * (10000 - 2126int) * 1 * 16384, 10000int * 1, 25802);
            nearest_is(2 * (10000 - 722int) * 722 * 1 * 16384, 10000int * 7152 * 1, 3069);
            nearest_is(2 * (10000 - 2126int) * 2126 * 1 * 16384, 10000int * 7152 * 1, 7670);
            nearest_is(2 * (10000 - 722int) * 1 * 16384, 10000int * 1, 30402);
        },
        (Matrix::Bt709, false) => {
            nearest_is(2 * (10000 - 2126int) * 255 * 16384, 10000int * 224, 29372);
            nearest_is(2 * (10000 - 722int) * 722 * 255 * 16384, 10000int * 7152 * 224, 3494);
            nearest_is(2 * (10000 - 2126int) * 2126 * 255 * 16384, 10000int * 7152 * 224, 8731);
            nearest_is(2 * (10000 - 722int) * 255 * 16384, 10000int * 224, 34610);
        },
        (Matrix::Bt2020, true) => {
            nearest_is(2 * (10000 - 2627int) * 1 * 16384, 10000int * 1, 24160);
            nearest_is(2 * (10000 - 593int) * 593 * 1 * 16384, 10000int * 6780 * 1, 2696);
            nearest_is(2 * (10000 - 2627int) * 2627 * 1 * 16384, 10000int * 6780 * 1, 9361);
            nearest_is(2 * (10000 - 593int) * 1 * 16384, 10000int * 1, 30825);
        },
        (Matrix::Bt2020, false) => {
            nearest_is(2 * (10000 - 2627int) * 255 * 16384, 10000int * 224, 27503);
            nearest_is(2 * (10000 - 593int) * 593 * 255 * 16384, 10000int * 6780 * 224, 3069);
            nearest_is(2 * (10000 - 2627int) * 2627 * 255 * 16384, 10000int * 6780 * 224, 10657);
            nearest_is(2 * (10000 - 593int) * 255 * 16384, 10000int * 224, 35091);
        },
    }
}

/// A fixed-point value rounded to the nearest integer and held in a byte.
pub open spec fn channel(x: int) -> u8 {
    let n = (x + 8192) / 16384;
    if n < 0 {
        0
    } else if n > 255 {
        255
    } else {
        n as u8
    }
}

fn clamp(x: i32) -> (r: u8)
    requires
        -100_000_000 <= x <= 100_000_000,
    ensures
        r == channel(x as int),
{
    let n: i32 = x + 8192;
    if n < 0 {
        0
    } else {
        let q: i32 = n / 16384;
        if q > 255 {
            255
        } else {
            q as u8
        }
    }
}

// ------------------------------------------------------------------ planes

impl Chroma {
    /// How far a luma coordinate is shifted right to find its chroma.
    pub open spec fn shifts(self) -> (u32, u32) {
        match self {
            Chroma::Sub420 => (1, 1),
            Chroma::Sub422 => (1, 0),
            Chroma::Full | Chroma::Mono => (0, 0),
        }
    }

    /// How far a luma coordinate is shifted right to find its chroma.
    pub fn shift(self) -> (r: (u32, u32))
        ensures
            r == self.shifts(),
    {
        match self {
            Chroma::Sub420 => (1, 1),
            Chroma::Sub422 => (1, 0),
            Chroma::Full | Chroma::Mono => (0, 0),
        }
    }
}

/// `n` halved `shift` times (`shift` is 0 or 1), rounded up.
pub open spec fn halved_up(n: int, shift: u32) -> int {
    if shift == 0 {
        n
    } else {
        (n + 1) / 2
    }
}

/// `n` halved `shift` times (`shift` is 0 or 1), rounded down.
pub open spec fn halved(n: int, shift: u32) -> int {
    if shift == 0 {
        n
    } else {
        n / 2
    }
}

impl<'a> Plane<'a> {
    /// The plane holds `h` rows of `w` samples of `bytes` bytes.
    pub open spec fn holds(&self, w: int, h: int, bytes: int) -> bool {
        h == 0 || (self.stride >= w * bytes && self.data@.len() >= self.stride * (h - 1) + w
            * bytes)
    }

    /// The sample in column `x` of row `y`, brought down to 8 bits by `down`.
    pub open spec fn sample(&self, x: int, y: int, down: u32) -> int {
        if down == 0 {
            self.data@[y * self.stride + x] as int
        } else {
            let i = y * self.stride + 2 * x;
            let v = (self.data@[i] + 256 * self.data@[i + 1]) / pow2(down as nat) as int;
            if v > 255 {
                255
            } else {
                v
            }
        }
    }
}

/// Whether the plane actually holds the picture (so that nothing is read past its end).
pub fn plane_ok(p: &Plane<'_>, w: u64, h: u64, bytes: u64) -> (r: bool)
    requires
        w <= 0x2_0000_0000,
        h <= u32::MAX,
        1 <= bytes <= 2,
    ensures
        r == p.holds(w as int, h as int, bytes as int),
{
    if h == 0 {
        return true;
    }
    assert(0 <= w * bytes <= 0x4_0000_0000) by (nonlinear_arith)
        requires
            0 <= w <= 0x2_0000_0000,
            1 <= bytes <= 2,
    ;
    let row: u64 = w * bytes;
    let s: u128 = p.stride as u128;
    assert(0 <= s * (h - 1) <= 0xffff_ffff_ffff_ffff * 0xffff_ffff) by (nonlinear_arith)
        requires
            0 <= s <= 0xffff_ffff_ffff_ffff,
            1 <= h <= 0xffff_ffff,
    ;
    let need: u128 = s * (h as u128 - 1) + row as u128;
    s >= row as u128 && p.data.len() as u128 >= need
}

/// A sample's bytes lie inside a plane that holds the picture.
proof fn sample_in_bounds(p: Plane<'_>, x: int, y: int, w: int, h: int, bytes: int)
    requires
        p.holds(w, h, bytes),
        0 <= x < w,
        0 <= y < h,
        1 <= bytes <= 2,
    ensures
        0 <= y * p.stride,
        0 <= y * p.stride + x * bytes,
        y * p.stride + x * bytes + bytes <= p.data@.len(),
{
    lemma_mul_inequality(y, h - 1, p.stride as int);
    lemma_mul_inequality(0, y, p.stride as int);
    lemma_mul_inequality(x + 1, w, bytes);
    assert((x + 1) * bytes == x * bytes + bytes) by (nonlinear_arith);
    assert(x * bytes >= 0) by (nonlinear_arith)
        requires
            x >= 0,
            bytes >= 1,
    ;
    assert(p.stride * (h - 1) == (h - 1) * p.stride) by (nonlinear_arith);
}

/// The sample in column `x` of row `y`, brought down to 8 bits by `down`.
fn sample(p: &Plane<'_>, x: usize, y: usize, down: u32, Ghost(w): Ghost<int>, Ghost(h): Ghost<int>) -> (r:
    i32)
    requires
        down <= 8,
        p.holds(
            w,
            h,
            (if down == 0 {
                1int
            } else {
                2int
            }),
        ),
        x < w,
        y < h,
    ensures
        r == p.sample(x as int, y as int, down),
        0 <= r <= 255,
{
    let n: usize = p.data.len();
    assert(n == p.data@.len());
    if down == 0 {
        proof {
            sample_in_bounds(*p, x as int, y as int, w, h, 1);
        }
        p.data[y * p.stride + x] as i32
    } else {
        proof {
            sample_in_bounds(*p, x as int, y as int, w, h, 2);
        }
        let i: usize = y * p.stride + x * 2;
        let v: u32 = p.data[i] as u32 + 256 * p.data[i + 1] as u32;
        let s: u32 = v >> down;
        proof {
            lemma_u32_shr_is_div(v, down);
        }
        if s > 255 {
            255
        } else {
            s as i32
        }
    }
}

// ------------------------------------------------------------------ pictures

impl<'a> YuvImage<'a> {
    /// Bytes per sample.
    pub open spec fn bytes(&self) -> int {
        if self.bit_depth > 8 {
            2
        } else {
            1
        }
    }

    /// How many bits a sample has too many.
    pub open spec fn down(&self) -> u32 {
        (self.bit_depth - 8) as u32
    }

    /// Width of the chroma planes in samples.
    pub open spec fn chroma_width(&self) -> int {
        halved_up(self.width as int, self.chroma.shifts().0)
    }

    /// Height of the chroma planes in rows.
    pub open spec fn chroma_height(&self) -> int {
        halved_up(self.height as int, self.chroma.shifts().1)
    }

    /// The chroma planes hold the picture; a picture without colour needs none.
    pub open spec fn chroma_fits(&self) -> bool {
        let (cw, ch) = (self.chroma_width(), self.chroma_height());
        if self.chroma == Chroma::Mono {
            true
        } else {
            match self.uv {
                ChromaPlanes::Planar { u, v } => u.holds(cw, ch, self.bytes()) && v.holds(
                    cw,
                    ch,
                    self.bytes(),
                ),
                ChromaPlanes::Interleaved(p) => p.holds(2 * cw, ch, self.bytes()),
                ChromaPlanes::Absent => false,
            }
        }
    }

    /// The picture can be converted: it is not empty, its depth is known, its planes hold
    /// it, and the result's row and buffer sizes are representable.
    pub open spec fn convertible(&self) -> bool {
        &&& self.width > 0
        &&& self.height > 0
        &&& 8 <= self.bit_depth <= 16
        &&& self.y.holds(self.width as int, self.height as int, self.bytes())
        &&& self.chroma_fits()
        &&& 4 * self.width <= u32::MAX
        &&& 4 * self.width * self.height <= usize::MAX
    }

    /// The U and V samples in column `cx` of chroma row `cy`.
    pub open spec fn chroma_at(&self, cx: int, cy: int) -> (int, int) {
        if self.chroma == Chroma::Mono {
            (128, 128)
        } else {
            match self.uv {
                ChromaPlanes::Planar { u, v } => (
                    u.sample(cx, cy, self.down()),
                    v.sample(cx, cy, self.down()),
                ),
                ChromaPlanes::Interleaved(p) => (
                    p.sample(2 * cx, cy, self.down()),
                    p.sample(2 * cx + 1, cy, self.down()),
                ),
                ChromaPlanes::Absent => (128, 128),
            }
        }
    }

    /// Blue, green, red and opacity of the pixel in column `x` of row `y`.
    pub open spec fn pixel(&self, x: int, y: int) -> Seq<u8> {
        let (sx, sy) = self.chroma.shifts();
        let (u, v) = self.chroma_at(halved(x, sx), halved(y, sy));
        Coefs::of(self.matrix, self.full_range).bgra(self.y.sample(x, y, self.down()), u, v)
    }

    /// The first `n` pixels of row `y`.
    pub open spec fn row_prefix(&self, y: int, n: nat) -> Seq<u8>
        decreases n,
    {
        if n == 0 {
            Seq::empty()
        } else {
            self.row_prefix(y, (n - 1) as nat) + self.pixel(n - 1, y)
        }
    }

    /// The pixels of `n` rows, from row `first` on.
    pub open spec fn rows(&self, first: int, n: nat) -> Seq<u8>
        decreases n,
    {
        if n == 0 {
            Seq::empty()
        } else {
            self.rows(first, (n - 1) as nat) + self.row_prefix(first + n - 1, self.width as nat)
        }
    }

    /// The whole picture, row by row from the top.
    pub open spec fn bgra(&self) -> Seq<u8> {
        self.rows(0, self.height as nat)
    }
}

proof fn row_prefix_len(img: YuvImage<'_>, y: int, n: nat)
    ensures
        img.row_prefix(y, n).len() == 4 * n,
    decreases n,
{
    if n > 0 {
        row_prefix_len(img, y, (n - 1) as nat);
    }
}

/// How many bytes the rows take.
pub proof fn rows_len(img: YuvImage<'_>, first: int, n: nat)
    ensures
        img.rows(first, n).len() == 4 * img.width * n,
    decreases n,
{
    if n > 0 {
        rows_len(img, first, (n - 1) as nat);
        row_prefix_len(img, first + n - 1, img.width as nat);
        assert(4 * img.width * (n - 1) + 4 * img.width == 4 * img.width * n) by (nonlinear_arith);
    } else {
        assert(4 * img.width * 0 == 0) by (nonlinear_arith);
    }
}

/// Converting a picture band by band gives the same bytes as converting it whole.
pub proof fn bands_join(img: YuvImage<'_>, first: int, n: nat, m: nat)
    ensures
        img.rows(first, n + m) == img.rows(first, n) + img.rows(first + n, m),
    decreases m,
{
    if m == 0 {
        assert(img.rows(first, n) + img.rows(first + n, 0) =~= img.rows(first, n));
    } else {
        bands_join(img, first, n, (m - 1) as nat);
        assert(n + m - 1 == n + (m - 1) as nat);
        assert(img.rows(first, n) + img.rows(first + n, m) =~= img.rows(first, n) + img.rows(
            first + n,
            (m - 1) as nat,
        ) + img.row_prefix(first + n + m - 1, img.width as nat));
    }
}

proof fn row_prefix_byte(img: YuvImage<'_>, y: int, n: nat, x: int, k: int)
    requires
        0 <= x < n,
        0 <= k < 4,
    ensures
        img.row_prefix(y, n)[4 * x + k] == img.pixel(x, y)[k],
    decreases n,
{
    row_prefix_len(img, y, (n - 1) as nat);
    if x < n - 1 {
        row_prefix_byte(img, y, (n - 1) as nat, x, k);
    }
}

/// Byte `k` of the pixel in column `x` of row `y` stands at `4 (y * width + x) + k`,
/// and it depends on the samples of that pixel alone.
pub proof fn byte_of_pixel(img: YuvImage<'_>, n: nat, x: int, y: int, k: int)
    requires
        0 <= x < img.width,
        0 <= y < n,
        0 <= k < 4,
    ensures
        4 * (y * img.width + x) + k < img.rows(0, n).len(),
        img.rows(0, n)[4 * (y * img.width + x) + k] == img.pixel(x, y)[k],
    decreases n,
{
    let w = img.width as int;
    rows_len(img, 0, n);
    rows_len(img, 0, (n - 1) as nat);
    let at = 4 * (y * w + x) + k;
    if y < n - 1 {
        byte_of_pixel(img, (n - 1) as nat, x, y, k);
        row_prefix_len(img, n - 1, w as nat);
        assert(img.rows(0, n)[at] == img.rows(0, (n - 1) as nat)[at]);
    } else {
        row_prefix_len(img, y, w as nat);
        row_prefix_byte(img, y, w as nat, x, k);
        assert(4 * w * (n - 1) == 4 * (y * w)) by (nonlinear_arith)
            requires
                y == n - 1,
        ;
        assert(at - img.rows(0, (n - 1) as nat).len() == 4 * x + k);
    }
}

/// Whether the picture can be converted.
pub fn is_convertible(img: &YuvImage<'_>) -> (r: bool)
    ensures
        r == img.convertible(),
{
    let (w, h) = (img.width as u64, img.height as u64);
    if w == 0 || h == 0 || img.bit_depth < 8 || img.bit_depth > 16 {
        return false;
    }
    let bytes: u64 = if img.bit_depth > 8 {
        2
    } else {
        1
    };
    let (sx, sy) = img.chroma.shift();
    let cw: u64 = if sx == 0 {
        w
    } else {
        (w + 1) / 2
    };
    let ch: u64 = if sy == 0 {
        h
    } else {
        (h + 1) / 2
    };
    if !plane_ok(&img.y, w, h, bytes) {
        return false;
    }
    if img.chroma != Chroma::Mono {
        let fits = match &img.uv {
            ChromaPlanes::Planar { u, v } => plane_ok(u, cw, ch, bytes) && plane_ok(
                v,
                cw,
                ch,
                bytes,
            ),
            ChromaPlanes::Interleaved(p) => plane_ok(p, 2 * cw, ch, bytes),
            ChromaPlanes::Absent => false,
        };
        if !fits {
            return false;
        }
    }
    assert(0 <= w * h <= 0xffff_ffff * 0xffff_ffff) by (nonlinear_arith)
        requires
            0 <= w <= 0xffff_ffff,
            0 <= h <= 0xffff_ffff,
    ;
    let total: u128 = 4 * (w as u128 * h as u128);
    assert(4 * (w * h) == 4 * img.width * img.height) by (nonlinear_arith)
        requires
            w == img.width,
            h == img.height,
    ;
    4 * w <= 0xffff_ffff && total <= usize::MAX as u128
}

fn push_pixel(out: &mut Vec<u8>, p: [u8; 4])
    ensures
        final(out)@ == old(out)@ + p@,
{
    out.push(p[0]);
    out.push(p[1]);
    out.push(p[2]);
    out.push(p[3]);
    assert(out@ =~= old(out)@ + p@);
}

/// Appends row `y` of an 8-bit planar 4:2:0 picture.
fn push_row_420(img: &YuvImage<'_>, u: &Plane<'_>, v: &Plane<'_>, c: &Coefs, y: usize, out: &mut Vec<u8>)
    requires
        img.convertible(),
        img.bit_depth == 8,
        img.chroma == Chroma::Sub420,
        img.uv == (ChromaPlanes::Planar { u: *u, v: *v }),
        *c == Coefs::of(img.matrix, img.full_range),
        y < img.height,
    ensures
        final(out)@ == old(out)@ + img.row_prefix(y as int, img.width as nat),
{
    let w: usize = img.width as usize;
    let cy: usize = y / 2;
    let (yn, un, vn) = (img.y.data.len(), u.data.len(), v.data.len());
    let ghost before = out@;
    let ghost cw = img.chroma_width();
    let ghost ch = img.chroma_height();
    proof {
        sample_in_bounds(img.y, 0, y as int, w as int, img.height as int, 1);
        sample_in_bounds(*u, 0, cy as int, cw, ch, 1);
        sample_in_bounds(*v, 0, cy as int, cw, ch, 1);
    }
    let yb: usize = y * img.y.stride;
    let ub: usize = cy * u.stride;
    let vb: usize = cy * v.stride;
    assert(out@ =~= before + img.row_prefix(y as int, 0));
    let mut x: usize = 0;
    while x < w
        invariant
            img.convertible(),
            img.bit_depth == 8,
            img.chroma == Chroma::Sub420,
            img.uv == (ChromaPlanes::Planar { u: *u, v: *v }),
            *c == Coefs::of(img.matrix, img.full_range),
            y < img.height,
            w == img.width,
            cy == y / 2,
            cw == img.chroma_width(),
            ch == img.chroma_height(),
            yb == y * img.y.stride,
            ub == cy * u.stride,
            vb == cy * v.stride,
            yn == img.y.data@.len(),
            un == u.data@.len(),
            vn == v.data@.len(),
            x <= w,
            out@ == before + img.row_prefix(y as int, x as nat),
        decreases w - x,
    {
        let cx: usize = x / 2;
        proof {
            sample_in_bounds(img.y, x as int, y as int, w as int, img.height as int, 1);
            sample_in_bounds(*u, cx as int, cy as int, cw, ch, 1);
            sample_in_bounds(*v, cx as int, cy as int, cw, ch, 1);
        }
        let p = c.px(
            img.y.data[yb + x] as i32,
            u.data[ub + cx] as i32,
            v.data[vb + cx] as i32,
        );
        push_pixel(out, p);
        assert(out@ =~= before + (img.row_prefix(y as int, x as nat) + img.pixel(
            x as int,
            y as int,
        )));
        x += 1;
    }
}

/// One pixel of any picture.
fn any_pixel(img: &YuvImage<'_>, c: &Coefs, x: usize, y: usize) -> (p: [u8; 4])
    requires
        img.convertible(),
        *c == Coefs::of(img.matrix, img.full_range),
        x < img.width,
        y < img.height,
    ensures
        p@ == img.pixel(x as int, y as int),
{
    let down: u32 = img.bit_depth - 8;
    let (sx, sy) = img.chroma.shift();
    let cx: usize = if sx == 0 {
        x
    } else {
        x / 2
    };
    let cy: usize = if sy == 0 {
        y
    } else {
        y / 2
    };
    let ghost cw = img.chroma_width();
    let ghost ch = img.chroma_height();
    let l: i32 = sample(&img.y, x, y, down, Ghost(img.width as int), Ghost(img.height as int));
    let (u, v): (i32, i32) = if img.chroma == Chroma::Mono {
        (128, 128)
    } else {
        match &img.uv {
            ChromaPlanes::Planar { u, v } => (
                sample(u, cx, cy, down, Ghost(cw), Ghost(ch)),
                sample(v, cx, cy, down, Ghost(cw), Ghost(ch)),
            ),
            ChromaPlanes::Interleaved(p) => (
                sample(p, cx * 2, cy, down, Ghost(2 * cw), Ghost(ch)),
                sample(p, cx * 2 + 1, cy, down, Ghost(2 * cw), Ghost(ch)),
            ),
            ChromaPlanes::Absent => (128, 128),
        }
    };
    c.px(l, u, v)
}

/// Appends row `y` of any picture.
fn push_row_any(img: &YuvImage<'_>, c: &Coefs, y: usize, out: &mut Vec<u8>)
    requires
        img.convertible(),
        *c == Coefs::of(img.matrix, img.full_range),
        y < img.height,
    ensures
        final(out)@ == old(out)@ + img.row_prefix(y as int, img.width as nat),
{
    let w: usize = img.width as usize;
    let ghost before = out@;
    assert(out@ =~= before + img.row_prefix(y as int, 0));
    let mut x: usize = 0;
    while x < w
        invariant
            img.convertible(),
            *c == Coefs::of(img.matrix, img.full_range),
            y < img.height,
            w == img.width,
            x <= w,
            out@ == before + img.row_prefix(y as int, x as nat),
        decreases w - x,
    {
        push_pixel(out, any_pixel(img, c, x, y));
        assert(out@ =~= before + (img.row_prefix(y as int, x as nat) + img.pixel(
            x as int,
            y as int,
        )));
        x += 1;
    }
}

/// Converts a band of a picture: `n` rows from row `first` on. Rows are independent,
/// so a large picture can be split into bands that are converted at the same time.
pub fn convert_band(img: &YuvImage<'_>, first: usize, n: usize) -> (out: Vec<u8>)
    requires
        img.convertible(),
        first + n <= img.height,
    ensures
        out@ == img.rows(first as int, n as nat),
        out@.len() == 4 * img.width * n,
{
    let c = Coefs::new(img.matrix, img.full_range);
    proof {
        lemma_mul_inequality(n as int, img.height as int, 4 * img.width as int);
        assert(4 * img.width * img.height == img.height * (4 * img.width)) by (nonlinear_arith);
        assert(img.width as usize * 4 * n == n * (4 * img.width)) by (nonlinear_arith);
    }
    let mut out: Vec<u8> = Vec::with_capacity(img.width as usize * 4 * n);
    let mut i: usize = 0;
    while i < n
        invariant
            img.convertible(),
            first + n <= img.height,
            c == Coefs::of(img.matrix, img.full_range),
            i <= n,
            out@ == img.rows(first as int, i as nat),
        decreases n - i,
    {
        let y: usize = first + i;
        if img.bit_depth == 8 && img.chroma == Chroma::Sub420 {
            match &img.uv {
                ChromaPlanes::Planar { u, v } => push_row_420(img, u, v, &c, y, &mut out),
                _ => push_row_any(img, &c, y, &mut out),
            }
        } else {
            push_row_any(img, &c, y, &mut out);
        }
        i += 1;
    }
    proof {
        rows_len(*img, first as int, n as nat);
    }
    out
}

/// Conversion. `None` means invalid plane sizes.
pub fn to_bgra(img: &YuvImage<'_>) -> (r: Option<CpuFrame>)
    ensures
        r is Some <==> img.convertible(),
        r matches Some(f) ==> f.wf() && f.width == img.width && f.height == img.height && f.pixels@
            == img.bgra(),
{
    if !is_convertible(img) {
        return None;
    }
    let out = convert_band(img, 0, img.height as usize);
    Some(CpuFrame::from_bgra(img.width, img.height, Arc::new(out)))
}

/// How many threads convert a picture of `w` by `h` pixels on a machine that can run
/// `available` of them at once (`None`: unknown).
pub fn threads_for(w: u32, h: u32, available: Option<usize>) -> (n: usize)
    ensures
        n == (if w * h >= PARALLEL_FROM_PIXELS {
            match available {
                Some(k) => if k < MAX_THREADS {
                    k
                } else {
                    MAX_THREADS
                },
                None => 1,
            }
        } else {
            1
        }),
{
    assert(0 <= w * h <= 0xffff_ffff * 0xffff_ffff) by (nonlinear_arith)
        requires
            0 <= w <= 0xffff_ffff,
            0 <= h <= 0xffff_ffff,
    ;
    if w as u64 * h as u64 >= PARALLEL_FROM_PIXELS {
        match available {
            Some(k) => if k < MAX_THREADS {
                k
            } else {
                MAX_THREADS
            },
            None => 1,
        }
    } else {
        1
    }
}

/// How `h` rows are shared out among `threads` bands: every band but the last has
/// `h / threads` rows, rounded up.
pub fn rows_per_band(h: usize, threads: usize) -> (n: usize)
    requires
        threads > 0,
    ensures
        n == (if h as int % threads as int == 0 {
            h as int / threads as int
        } else {
            h as int / threads as int + 1
        }),
{
    let q: usize = h / threads;
    if h % threads == 0 {
        q
    } else {
        proof {
            lemma_div_is_ordered(h as int, h as int, threads as int);
            assert(q < usize::MAX) by (nonlinear_arith)
                requires
                    q as int == h as int / threads as int,
                    h as int % threads as int != 0,
                    threads > 0,
                    h <= usize::MAX,
            ;
        }
        q + 1
    }
}

} // verus!
