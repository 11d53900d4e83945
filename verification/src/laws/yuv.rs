//! Laws of the conversion of decoded pictures.

use crate::frame::CpuFrame;
use crate::media::video::yuv::{
    convert_band, rows_per_band, threads_for, to_bgra, Chroma, ChromaPlanes, Coefs, Matrix, Plane,
    YuvImage,
};
use vstd::arithmetic::power2::pow2;
use vstd::prelude::*;

verus! {

/// How much red, green and blue weigh in luma, in ten-thousandths, by the standards.
pub open spec fn weights(m: Matrix) -> (int, int, int) {
    match m {
        Matrix::Bt601 => (2990, 5870, 1140),
        Matrix::Bt709 => (2126, 7152, 722),
        Matrix::Bt2020 => (2627, 6780, 593),
    }
}

/// The byte is the fraction `num / den`, held between 0 and 255 and rounded, to within one
/// fiftieth.
pub open spec fn is_near(byte: u8, num: int, den: int) -> bool {
    let held = if num < 0 {
        0
    } else if num > 255 * den {
        255 * den
    } else {
        num
    };
    -52 * den <= 100 * (byte * den - held) <= 52 * den
}

/// `p` is the pixel of luma `y` and chroma `u`, `v`: red and blue differ from luma by what V and U
/// say, green is what is left of luma when red and blue are taken out with their weights, and the
/// pixel is opaque. In limited range luma runs from 16 to 235 and chroma over 224 steps.
pub open spec fn is_colour(p: Seq<u8>, m: Matrix, full: bool, y: int, u: int, v: int) -> bool {
    let (kr, kg, kb) = weights(m);
    let (den, luma, step): (int, int, int) = if full {
        (10000, 10000 * y, 1)
    } else {
        (10000 * 219 * 224int, 10000 * 255 * 224 * (y - 16), 255 * 219int)
    };
    let red = luma + 2 * (10000 - kr) * step * (v - 128);
    let blue = luma + 2 * (10000 - kb) * step * (u - 128);
    let green = 10000 * luma - kr * red - kb * blue;
    &&& p.len() == 4
    &&& is_near(p[2], red, den)
    &&& is_near(p[0], blue, den)
    &&& is_near(p[1], green, kg * den)
    &&& p[3] == 255
}

proof fn pixels_have_their_colour(m: Matrix, full: bool, y: int, u: int, v: int)
    requires
        0 <= y <= 255,
        0 <= u <= 255,
        0 <= v <= 255,
    ensures
        is_colour(Coefs::of(m, full).bgra(y, u, v), m, full, y, u, v),
{
    let c = Coefs::of(m, full);
    let (a, b) = (u - 128, v - 128);
    let yo = y - c.y_off;
    assert(full ==> yo * c.y_mul == 16384 * y) by (nonlinear_arith)
        requires
            full ==> c.y_mul == 16384 && yo == y,
    ;
    assert(!full ==> yo * c.y_mul == 19077 * (y - 16)) by (nonlinear_arith)
        requires
            !full ==> c.y_mul == 19077 && yo == y - 16,
    ;
    let (rv, gu, gv, bu) = (c.rv as int, c.gu as int, c.gv as int, c.bu as int);
    let t = if full {
        y
    } else {
        y - 16
    };
    match (m, full) {
        (Matrix::Bt601, true) => {
            products(rv, gu, gv, bu, 22970, 5638, 11700, 29032, a, b);
            channel_near(16384 * t + 22970 * b, 10000 * t + 14020 * b, 10000);
            channel_near(16384 * t + 29032 * a, 10000 * t + 17720 * a, 10000);
            channel_near(
                16384 * t - 5638 * a - 11700 * b,
                58700000 * t - 20200800 * a - 41919800 * b,
                58700000,
            );
            let (r, g, l) = (10000 * t + 14020 * b, 10000 * t + 17720 * a, 10000 * t);
            assert(2 * (10000 - 2990int) * 1 * b == 14020 * b);
            assert(2 * (10000 - 1140int) * 1 * a == 17720 * a);
            assert(10000 * l - 2990 * r - 1140 * g == 58700000 * t - 20200800 * a - 41919800 * b);
            let p = c.bgra(y, u, v);
            assert(is_near(p[2], r, 10000));
            assert(is_near(p[0], g, 10000));
            assert(is_near(p[1], 58700000 * t - 20200800 * a - 41919800 * b, 58700000));
            assert(weights(m) == (2990int, 5870int, 1140int));
        },
        (Matrix::Bt601, false) => {
            products(rv, gu, gv, bu, 26149, 6419, 13320, 33050, a, b);
            channel_near(19077 * t + 26149 * b, 571200000 * t + 782946900 * b, 490560000);
            channel_near(19077 * t + 33050 * a, 571200000 * t + 989573400 * a, 490560000);
            channel_near(
                19077 * t - 6419 * a - 13320 * b,
                3352944000000 * t - 1128113676000 * a - 2341011231000 * b,
                2879587200000,
            );
            let (r, g, l) = (571200000 * t + 782946900 * b, 571200000 * t + 989573400 * a, 571200000 * t);
            assert(2 * (10000 - 2990int) * 55845 * b == 782946900 * b);
            assert(2 * (10000 - 1140int) * 55845 * a == 989573400 * a);
            assert(10000 * l - 2990 * r - 1140 * g == 3352944000000 * t - 1128113676000 * a - 2341011231000 * b);
            let p = c.bgra(y, u, v);
            assert(is_near(p[2], r, 490560000));
            assert(is_near(p[0], g, 490560000));
            assert(is_near(p[1], 3352944000000 * t - 1128113676000 * a - 2341011231000 * b, 2879587200000));
            assert(weights(m) == (2990int, 5870int, 1140int));
        },
        (Matrix::Bt709, true) => {
            products(rv, gu, gv, bu, 25802, 3069, 7670, 30402, a, b);
            channel_near(16384 * t + 25802 * b, 10000 * t + 15748 * b, 10000);
            channel_near(16384 * t + 30402 * a, 10000 * t + 18556 * a, 10000);
            channel_near(
                16384 * t - 3069 * a - 7670 * b,
                71520000 * t - 13397432 * a - 33480248 * b,
                71520000,
            );
            let (r, g, l) = (10000 * t + 15748 * b, 10000 * t + 18556 * a, 10000 * t);
            assert(2 * (10000 - 2126int) * 1 * b == 15748 * b);
            assert(2 * (10000 - 722int) * 1 * a == 18556 * a);
            assert(10000 * l - 2126 * r - 722 * g == 71520000 * t - 13397432 * a - 33480248 * b);
            let p = c.bgra(y, u, v);
            assert(is_near(p[2], r, 10000));
            assert(is_near(p[0], g, 10000));
            assert(is_near(p[1], 71520000 * t - 13397432 * a - 33480248 * b, 71520000));
            assert(weights(m) == (2126int, 7152int, 722int));
        },
        (Matrix::Bt709, false) => {
            products(rv, gu, gv, bu, 29372, 3494, 8731, 34610, a, b);
            channel_near(19077 * t + 29372 * b, 571200000 * t + 879447060 * b, 490560000);
            channel_near(19077 * t + 34610 * a, 571200000 * t + 1036259820 * a, 490560000);
            channel_near(
                19077 * t - 3494 * a - 8731 * b,
                4085222400000 * t - 748179590040 * a - 1869704449560 * b,
                3508485120000,
            );
            let (r, g, l) = (571200000 * t + 879447060 * b, 571200000 * t + 1036259820 * a, 571200000 * t);
            assert(2 * (10000 - 2126int) * 55845 * b == 879447060 * b);
            assert(2 * (10000 - 722int) * 55845 * a == 1036259820 * a);
            assert(10000 * l - 2126 * r - 722 * g == 4085222400000 * t - 748179590040 * a - 1869704449560 * b);
            let p = c.bgra(y, u, v);
            assert(is_near(p[2], r, 490560000));
            assert(is_near(p[0], g, 490560000));
            assert(is_near(p[1], 4085222400000 * t - 748179590040 * a - 1869704449560 * b, 3508485120000));
            assert(weights(m) == (2126int, 7152int, 722int));
        },
        (Matrix::Bt2020, true) => {
            products(rv, gu, gv, bu, 24160, 2696, 9361, 30825, a, b);
            channel_near(16384 * t + 24160 * b, 10000 * t + 14746 * b, 10000);
            channel_near(16384 * t + 30825 * a, 10000 * t + 18814 * a, 10000);
            channel_near(
                16384 * t - 2696 * a - 9361 * b,
                67800000 * t - 11156702 * a - 38737742 * b,
                67800000,
            );
            let (r, g, l) = (10000 * t + 14746 * b, 10000 * t + 18814 * a, 10000 * t);
            assert(2 * (10000 - 2627int) * 1 * b == 14746 * b);
            assert(2 * (10000 - 593int) * 1 * a == 18814 * a);
            assert(10000 * l - 2627 * r - 593 * g == 67800000 * t - 11156702 * a - 38737742 * b);
            let p = c.bgra(y, u, v);
            assert(is_near(p[2], r, 10000));
            assert(is_near(p[0], g, 10000));
            assert(is_near(p[1], 67800000 * t - 11156702 * a - 38737742 * b, 67800000));
            assert(weights(m) == (2627int, 6780int, 593int));
        },
        (Matrix::Bt2020, false) => {
            products(rv, gu, gv, bu, 27503, 3069, 10657, 35091, a, b);
            channel_near(19077 * t + 27503 * b, 571200000 * t + 823490370 * b, 490560000);
            channel_near(19077 * t + 35091 * a, 571200000 * t + 1050667830 * a, 490560000);
            channel_near(
                19077 * t - 3069 * a - 10657 * b,
                3872736000000 * t - 623046023190 * a - 2163309201990 * b,
                3325996800000,
            );
            let (r, g, l) = (571200000 * t + 823490370 * b, 571200000 * t + 1050667830 * a, 571200000 * t);
            assert(2 * (10000 - 2627int) * 55845 * b == 823490370 * b);
            assert(2 * (10000 - 593int) * 55845 * a == 1050667830 * a);
            assert(10000 * l - 2627 * r - 593 * g == 3872736000000 * t - 623046023190 * a - 2163309201990 * b);
            let p = c.bgra(y, u, v);
            assert(is_near(p[2], r, 490560000));
            assert(is_near(p[0], g, 490560000));
            assert(is_near(p[1], 3872736000000 * t - 623046023190 * a - 2163309201990 * b, 3325996800000));
            assert(weights(m) == (2627int, 6780int, 593int));
        },
    }
}

proof fn rounded(x: int, n: int, num: int, den: int)
    by (nonlinear_arith)
    requires
        den > 0,
        -8192 <= 16384 * n - x <= 8192,
        -2 * 16384 * den <= 100 * (x * den - 16384 * num) <= 2 * 16384 * den,
    ensures
        -52 * den <= 100 * (n * den - num) <= 52 * den,
{
}

proof fn channel_near(x: int, num: int, den: int)
    requires
        den > 0,
        -2 * 16384 * den <= 100 * (x * den - 16384 * num) <= 2 * 16384 * den,
    ensures
        is_near(crate::media::video::yuv::channel(x), num, den),
{
    let n = (x + 8192) / 16384;
    rounded(x, n, num, den);
    let byte = crate::media::video::yuv::channel(x);
    if n < 0 {
        assert(n * den <= -den) by (nonlinear_arith)
            requires
                n <= -1,
                den > 0,
        ;
    } else if n > 255 {
        assert(n * den >= 256 * den) by (nonlinear_arith)
            requires
                n >= 256,
                den > 0,
        ;
    } else {
        assert(byte == n);
        assert(0 <= n * den <= 255 * den) by (nonlinear_arith)
            requires
                0 <= n <= 255,
                den > 0,
        ;
    }
}

proof fn products(
    rv: int,
    gu: int,
    gv: int,
    bu: int,
    r: int,
    g: int,
    h: int,
    b: int,
    u: int,
    v: int,
)
    requires
        rv == r,
        gu == g,
        gv == h,
        bu == b,
    ensures
        rv * v == r * v,
        gu * u == g * u,
        gv * v == h * v,
        bu * u == b * u,
{
}

/// A pixel has the colour that its luma and chroma stand for.
pub proof fn a_pixel_has_its_colour(
    m: Matrix,
    full: bool,
    c: Coefs,
    y: i32,
    u: i32,
    v: i32,
    p: [u8; 4],
)
    requires
        0 <= y <= 255,
        0 <= u <= 255,
        0 <= v <= 255,
        call_ensures(Coefs::new, (m, full), c),
        call_ensures(Coefs::px, (&c, y, u, v), p),
    ensures
        is_colour(p@, m, full, y as int, u as int, v as int),
{
    pixels_have_their_colour(m, full, y as int, u as int, v as int);
}

proof fn channels_grow(a: int, b: int)
    requires
        a <= b,
    ensures
        crate::media::video::yuv::channel(a) <= crate::media::video::yuv::channel(b),
{
}

/// More luma makes no channel darker. More U makes blue no darker and green no brighter, and
/// leaves red alone; more V makes red no darker and green no brighter, and leaves blue alone.
pub proof fn channels_follow_luma_and_chroma(
    m: Matrix,
    full: bool,
    c: Coefs,
    y: i32,
    u: i32,
    v: i32,
    p: [u8; 4],
    y2: i32,
    u2: i32,
    v2: i32,
    q: [u8; 4],
)
    requires
        0 <= y <= 255,
        0 <= u <= 255,
        0 <= v <= 255,
        0 <= y2 <= 255,
        0 <= u2 <= 255,
        0 <= v2 <= 255,
        call_ensures(Coefs::new, (m, full), c),
        call_ensures(Coefs::px, (&c, y, u, v), p),
        call_ensures(Coefs::px, (&c, y2, u2, v2), q),
    ensures
        y <= y2 && u == u2 && v == v2 ==> p@[0] <= q@[0] && p@[1] <= q@[1] && p@[2] <= q@[2],
        y == y2 && u <= u2 && v == v2 ==> p@[0] <= q@[0] && p@[1] >= q@[1] && p@[2] == q@[2],
        y == y2 && u == u2 && v <= v2 ==> p@[0] == q@[0] && p@[1] >= q@[1] && p@[2] <= q@[2],
        p@[3] == 255 && q@[3] == 255,
{
    let (l, l2) = ((y - c.y_off) * c.y_mul, (y2 - c.y_off) * c.y_mul);
    let (a, b, a2, b2) = (u - 128, v - 128, u2 - 128, v2 - 128);
    grows(c.y_mul as int, y - c.y_off, y2 - c.y_off);
    grows(c.bu as int, a, a2);
    grows(c.gu as int, a, a2);
    grows(c.gv as int, b, b2);
    grows(c.rv as int, b, b2);
    assert(l == c.y_mul * (y - c.y_off) && l2 == c.y_mul * (y2 - c.y_off)) by (nonlinear_arith)
        requires
            l == (y - c.y_off) * c.y_mul,
            l2 == (y2 - c.y_off) * c.y_mul,
    ;
    if y <= y2 && u == u2 && v == v2 {
        channels_grow(l + c.bu * a, l2 + c.bu * a2);
        channels_grow(l - c.gu * a - c.gv * b, l2 - c.gu * a2 - c.gv * b2);
        channels_grow(l + c.rv * b, l2 + c.rv * b2);
    }
    if y == y2 && u <= u2 && v == v2 {
        channels_grow(l + c.bu * a, l2 + c.bu * a2);
        channels_grow(l2 - c.gu * a2 - c.gv * b2, l - c.gu * a - c.gv * b);
    }
    if y == y2 && u == u2 && v <= v2 {
        channels_grow(l2 - c.gu * a2 - c.gv * b2, l - c.gu * a - c.gv * b);
        channels_grow(l + c.rv * b, l2 + c.rv * b2);
    }
}

proof fn grows(k: int, a: int, b: int)
    by (nonlinear_arith)
    requires
        k >= 0,
    ensures
        a <= b ==> k * a <= k * b,
{
}

/// `v` is the sample in column `x` of row `y` of a plane whose samples have `depth` bits, brought
/// down to eight. Samples of more than eight bits take two bytes, the low one first; their low bits
/// are dropped, and what is still too large counts as 255.
pub open spec fn reads(p: Plane<'_>, x: int, y: int, depth: u32, v: int) -> bool {
    if depth == 8 {
        v == p.data@[p.stride * y + x]
    } else {
        let word = p.data@[p.stride * y + 2 * x] + 256 * p.data@[p.stride * y + 2 * x + 1];
        let unit = pow2((depth - 8) as nat) as int;
        0 <= v <= 255 && v * unit <= word && (v < 255 ==> word < (v + 1) * unit)
    }
}

/// `u` and `v` are the chroma samples for column `x` of row `y` of the picture: with 4:2:0 two by
/// two pixels share them, with 4:2:2 two pixels of a row do. Without colour both are 128.
pub open spec fn reads_chroma(img: YuvImage<'_>, x: int, y: int, u: int, v: int) -> bool {
    let (cx, cy) = match img.chroma {
        Chroma::Sub420 => (x / 2, y / 2),
        Chroma::Sub422 => (x / 2, y),
        _ => (x, y),
    };
    if img.chroma == Chroma::Mono {
        u == 128 && v == 128
    } else {
        match img.uv {
            ChromaPlanes::Planar { u: a, v: b } => reads(a, cx, cy, img.bit_depth, u) && reads(
                b,
                cx,
                cy,
                img.bit_depth,
                v,
            ),
            ChromaPlanes::Interleaved(p) => reads(p, 2 * cx, cy, img.bit_depth, u) && reads(
                p,
                2 * cx + 1,
                cy,
                img.bit_depth,
                v,
            ),
            ChromaPlanes::Absent => true,
        }
    }
}

proof fn samples_are_read(p: Plane<'_>, x: int, y: int, depth: u32)
    requires
        8 <= depth <= 16,
        x >= 0,
        y >= 0,
    ensures
        reads(p, x, y, depth, p.sample(x, y, (depth - 8) as u32)),
        0 <= p.sample(x, y, (depth - 8) as u32) <= 255,
{
    assert(p.stride * y == y * p.stride) by (nonlinear_arith);
    if depth > 8 {
        let i = y * p.stride + 2 * x;
        let word = p.data@[i] + 256 * p.data@[i + 1];
        let unit = pow2((depth - 8) as nat) as int;
        vstd::arithmetic::power2::lemma_pow2_pos((depth - 8) as nat);
        vstd::arithmetic::div_mod::lemma_fundamental_div_mod(word, unit);
        let q = word / unit;
        assert(unit * q == q * unit && (q + 1) * unit == q * unit + unit) by (nonlinear_arith);
        assert(q >= 0) by (nonlinear_arith)
            requires
                q == word / unit,
                word >= 0,
                unit > 0,
        ;
        if q > 255 {
            assert(255 * unit <= q * unit) by (nonlinear_arith)
                requires
                    q >= 255,
                    unit > 0,
            ;
        }
    }
}

/// Every pixel of the result stands where it stood in the picture, rows from the top and pixels
/// from the left, four bytes each, in the colour of its samples.
pub proof fn a_picture_keeps_its_pixels(img: YuvImage<'_>, f: CpuFrame, x: int, y: int)
    requires
        call_ensures(to_bgra, (&img,), Some(f)),
        0 <= x < img.width,
        0 <= y < img.height,
    ensures
        f.width == img.width,
        f.height == img.height,
        f.stride == 4 * img.width,
        f.pixels@.len() == 4 * img.width * img.height,
        ({
            let at = 4 * (y * img.width + x);
            exists|l: int, u: int, v: int|
                #![trigger reads(img.y, x, y, img.bit_depth, l), reads_chroma(img, x, y, u, v)]
                reads(img.y, x, y, img.bit_depth, l) && reads_chroma(img, x, y, u, v) && is_colour(
                    f.pixels@.subrange(at, at + 4),
                    img.matrix,
                    img.full_range,
                    l,
                    u,
                    v,
                )
        }),
{
    rows_keep_their_pixels(img, img.height as nat, x, y, f.pixels@);
}

proof fn rows_keep_their_pixels(
    img: YuvImage<'_>,
    n: nat,
    x: int,
    y: int,
    out: Seq<u8>,
)
    requires
        img.convertible(),
        out == img.rows(0, n),
        0 <= x < img.width,
        0 <= y < n <= img.height,
    ensures
        out.len() == 4 * img.width * n,
        ({
            let at = 4 * (y * img.width + x);
            exists|l: int, u: int, v: int|
                #![trigger reads(img.y, x, y, img.bit_depth, l), reads_chroma(img, x, y, u, v)]
                reads(img.y, x, y, img.bit_depth, l) && reads_chroma(img, x, y, u, v) && is_colour(
                    out.subrange(at, at + 4),
                    img.matrix,
                    img.full_range,
                    l,
                    u,
                    v,
                )
        }),
{
    let down = img.down();
    let at = 4 * (y * img.width + x);
    let l = img.y.sample(x, y, down);
    samples_are_read(img.y, x, y, img.bit_depth);
    let (sx, sy) = img.chroma.shifts();
    let (cx, cy) = (
        crate::media::video::yuv::halved(x, sx),
        crate::media::video::yuv::halved(y, sy),
    );
    let (u, v) = img.chroma_at(cx, cy);
    match img.uv {
        ChromaPlanes::Planar { u: a, v: b } => {
            samples_are_read(a, cx, cy, img.bit_depth);
            samples_are_read(b, cx, cy, img.bit_depth);
        },
        ChromaPlanes::Interleaved(p) => {
            samples_are_read(p, 2 * cx, cy, img.bit_depth);
            samples_are_read(p, 2 * cx + 1, cy, img.bit_depth);
        },
        ChromaPlanes::Absent => {},
    }
    pixels_have_their_colour(img.matrix, img.full_range, l, u, v);
    crate::media::video::yuv::byte_of_pixel(img, n, x, y, 0);
    crate::media::video::yuv::byte_of_pixel(img, n, x, y, 1);
    crate::media::video::yuv::byte_of_pixel(img, n, x, y, 2);
    crate::media::video::yuv::byte_of_pixel(img, n, x, y, 3);
    assert(y * img.width >= 0) by (nonlinear_arith)
        requires
            y >= 0,
            img.width >= 0,
    ;
    assert(out.subrange(at, at + 4) =~= img.pixel(x, y));
    crate::media::video::yuv::rows_len(img, 0, n);
    assert(reads(img.y, x, y, img.bit_depth, l));
    assert(reads_chroma(img, x, y, u, v));
}

/// A band is its part of the whole picture.
pub proof fn a_band_is_a_part_of_the_picture(
    img: YuvImage<'_>,
    first: usize,
    n: usize,
    band: Vec<u8>,
    f: CpuFrame,
)
    requires
        call_ensures(to_bgra, (&img,), Some(f)),
        first + n <= img.height,
        call_ensures(convert_band, (&img, first, n), band),
    ensures
        band@ == f.pixels@.subrange(4 * img.width * first, 4 * img.width * (first + n)),
{
    let h = img.height as int;
    let (a, b, c) = (first as nat, n as nat, (h - first - n) as nat);
    crate::media::video::yuv::bands_join(img, 0, a, b);
    crate::media::video::yuv::bands_join(img, 0, a + b, c);
    crate::media::video::yuv::rows_len(img, 0, a);
    crate::media::video::yuv::rows_len(img, first as int, b);
    crate::media::video::yuv::rows_len(img, 0, a + b);
    assert(f.pixels@ == img.rows(0, a) + img.rows(a as int, b) + img.rows(a + b as int, c));
    assert(f.pixels@.subrange(4 * img.width * first, 4 * img.width * (first + n)) =~= band@);
}

/// The last byte of the last of `h` rows of `w` samples is there, and rows do not overlap.
pub open spec fn reaches(p: Plane<'_>, w: int, h: int, depth: u32) -> bool {
    let row = if depth > 8 {
        2 * w
    } else {
        w
    };
    row <= p.stride && p.stride * (h - 1) + row <= p.data@.len()
}

/// The picture has pixels, a known depth, and planes that reach to its last row; chroma planes are
/// half as wide and, with 4:2:0, half as high, rounded up.
pub open spec fn is_whole(img: YuvImage<'_>) -> bool {
    let (w, h) = (img.width as int, img.height as int);
    let cw = if img.chroma == Chroma::Sub420 || img.chroma == Chroma::Sub422 {
        (w + 1) / 2
    } else {
        w
    };
    let ch = if img.chroma == Chroma::Sub420 {
        (h + 1) / 2
    } else {
        h
    };
    &&& w >= 1 && h >= 1
    &&& 8 <= img.bit_depth <= 16
    &&& reaches(img.y, w, h, img.bit_depth)
    &&& img.chroma != Chroma::Mono ==> match img.uv {
        ChromaPlanes::Planar { u, v } => reaches(u, cw, ch, img.bit_depth) && reaches(
            v,
            cw,
            ch,
            img.bit_depth,
        ),
        ChromaPlanes::Interleaved(p) => reaches(p, 2 * cw, ch, img.bit_depth),
        ChromaPlanes::Absent => false,
    }
}

/// A picture is converted if and only if it is whole and the result can be held: rows of less than
/// 4 GiB, and a buffer that memory can address.
pub proof fn whole_pictures_are_converted(img: YuvImage<'_>, r: Option<CpuFrame>)
    requires
        call_ensures(to_bgra, (&img,), r),
    ensures
        r is Some <==> is_whole(img) && 4 * img.width <= u32::MAX && 4 * img.width * img.height
            <= usize::MAX,
{
    let (w, h) = (img.width as int, img.height as int);
    let (cw, ch) = (img.chroma_width(), img.chroma_height());
    let bytes = img.bytes();
    assert(w * bytes == (if img.bit_depth > 8 {
        2 * w
    } else {
        w
    }));
    assert(cw * bytes == (if img.bit_depth > 8 {
        2 * cw
    } else {
        cw
    }));
    assert((2 * cw) * bytes == (if img.bit_depth > 8 {
        2 * (2 * cw)
    } else {
        2 * cw
    }));
}

/// Small pictures are converted by one thread, pictures of a million pixels and more by as many as
/// the machine runs at once, at most four.
pub proof fn large_pictures_are_shared_out(w: u32, h: u32, available: Option<usize>, n: usize)
    requires
        call_ensures(threads_for, (w, h, available), n),
    ensures
        w * h < 1_000_000 ==> n == 1,
        available is None ==> n == 1,
        w * h >= 1_000_000 ==> (available matches Some(k) ==> n <= 4 && n <= k && (n == 4 || n
            == k)),
{
}

/// Bands of that many rows reach to the end, and with one row less they would not.
pub proof fn bands_reach_to_the_end(h: usize, threads: usize, n: usize)
    requires
        threads > 0,
        call_ensures(rows_per_band, (h, threads), n),
    ensures
        n * threads >= h,
        n > 0 ==> (n - 1) * threads < h,
{
    let (q, r) = (h as int / threads as int, h as int % threads as int);
    vstd::arithmetic::div_mod::lemma_fundamental_div_mod(h as int, threads as int);
    assert(threads as int * q == q * threads && (q + 1) * threads == q * threads + threads && (q
        - 1) * threads == q * threads - threads) by (nonlinear_arith);
}

/// Streams that do not name their matrix: 720 rows and more are taken for HD.
pub proof fn high_pictures_are_hd(height: u32, m: Matrix)
    requires
        call_ensures(Matrix::guess, (height,), m),
    ensures
        m == Matrix::Bt709 <==> height >= 720,
        m == Matrix::Bt601 <==> height < 720,
{
}

/// Chroma lies at the pixel's place, halved as the layout says.
pub proof fn chroma_is_halved(c: Chroma, r: (u32, u32))
    requires
        call_ensures(Chroma::shift, (c,), r),
    ensures
        r.0 == 1 <==> c == Chroma::Sub420 || c == Chroma::Sub422,
        r.1 == 1 <==> c == Chroma::Sub420,
        r.0 <= 1 && r.1 <= 1,
{
}

/// A plane that is as high as it has to be reaches to its last row; a picture that can be converted
/// is one that is.
pub proof fn what_can_be_converted_is(
    p: Plane<'_>,
    w: u64,
    h: u64,
    depth: u32,
    ok: bool,
    img: YuvImage<'_>,
    r: bool,
    f: Option<CpuFrame>,
)
    requires
        call_ensures(
            crate::media::video::yuv::plane_ok,
            (&p, w, h, if depth > 8 {
                2u64
            } else {
                1u64
            }),
            ok,
        ),
        call_ensures(crate::media::video::yuv::is_convertible, (&img,), r),
        call_ensures(to_bgra, (&img,), f),
    ensures
        h > 0 ==> (ok <==> reaches(p, w as int, h as int, depth)),
        h == 0 ==> ok,
        r <==> f is Some,
{
    assert(w * 1 == w && w * 2 == 2 * w);
}

} // verus!
