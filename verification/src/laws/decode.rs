//! Laws of decoders: what their pictures look like in memory, and what is told of them.

use crate::clock::Nanos;
use crate::frame::{CpuFrame, FrameData};
use crate::media::video::decode::{
    av1, code_error, h264, micros, not_found, plane_len, search, shrink, signed_micros, threads,
    to_micros, vaapi, vpx, Shape,
};
use crate::media::video::pipeline::{Codec, DecodedFrame, PipeResult};
use crate::media::video::yuv::{to_bgra, Chroma, ChromaPlanes, Matrix, YuvImage};
use crate::text::{contains, decimal, list};
use vstd::prelude::*;

verus! {

/// The bytes from the start of the first row to the end of the last.
pub open spec fn extent(stride: int, row: int, rows: int) -> int {
    stride * (rows - 1) + row
}

/// A plane reaches from its first row to the end of its last, if that can be told.
pub proof fn a_plane_reaches_to_its_last_row(stride: usize, row: usize, rows: usize, r: Option<usize>)
    requires
        call_ensures(plane_len, (stride, row, rows), r),
    ensures
        r is Some <==> rows > 0 && extent(stride as int, row as int, rows as int) <= usize::MAX,
        r matches Some(n) ==> n == extent(stride as int, row as int, rows as int),
{
}

/// The planes of a picture are told as they are.
pub open spec fn is_image(s: Shape, y: &[u8], uv: ChromaPlanes<'_>, img: YuvImage<'_>) -> bool {
    &&& img.width == s.width
    &&& img.height == s.height
    &&& img.bit_depth == s.bit_depth
    &&& img.chroma == s.chroma
    &&& img.matrix == s.matrix
    &&& img.full_range == s.full_range
    &&& img.y.data == y
    &&& img.y.stride == s.y_stride
    &&& img.uv == uv
}

/// The frame has the time of the picture and the pixels of its conversion.
pub open spec fn is_converted(r: Option<DecodedFrame>, pts: Nanos, c: Option<CpuFrame>) -> bool {
    match c {
        None => r is None,
        Some(p) => r matches Some(f) && f.pts == pts && (f.data matches FrameData::Cpu(d) && d.width
            == p.width && d.height == p.height && d.stride == p.stride && d.pixels@ == p.pixels@),
    }
}

/// A picture is converted with the planes that it has: chroma in two planes, in one, or none.
pub proof fn a_picture_becomes_a_frame(
    s: Shape,
    y: &[u8],
    u: &[u8],
    v: &[u8],
    uv: ChromaPlanes<'_>,
    img: YuvImage<'_>,
    c: Option<CpuFrame>,
    r: Option<DecodedFrame>,
)
    requires
        is_image(s, y, uv, img),
        call_ensures(to_bgra, (&img,), c),
    ensures
        call_ensures(Shape::planar, (&s, y, u, v), r) && (uv matches ChromaPlanes::Planar {
            u: a,
            v: b,
        } && a.data == u && a.stride == s.u_stride && b.data == v && b.stride == s.v_stride)
            ==> is_converted(r, s.pts, c),
        call_ensures(Shape::interleaved, (&s, y, u), r) && (uv matches ChromaPlanes::Interleaved(a)
            && a.data == u && a.stride == s.u_stride) ==> is_converted(r, s.pts, c),
        call_ensures(Shape::grey, (&s, y), r) && uv is Absent ==> is_converted(r, s.pts, c),
{
    let same = crate::media::video::decode::image_of(s, y, uv);
    assert(same == img);
}

/// The planes of a shape make the image that is converted.
pub proof fn a_shape_has_its_image(s: Shape, y: &[u8], uv: ChromaPlanes<'_>, r: YuvImage<'_>)
    requires
        call_ensures(Shape::image, (&s, y, uv), r),
    ensures
        is_image(s, y, uv, r),
{
}

/// A microsecond has a thousand nanoseconds; there is no time before the start.
pub proof fn microseconds_are_nanoseconds(
    us: u64,
    a: Nanos,
    signed: i64,
    b: Nanos,
    pts: Nanos,
    most: u64,
    c: u64,
)
    requires
        call_ensures(micros, (us,), a),
        call_ensures(signed_micros, (signed,), b),
        call_ensures(to_micros, (pts, most), c),
    ensures
        a == us * 1000,
        signed >= 0 ==> b == signed * 1000,
        signed < 0 ==> b == 0,
        c <= most,
        c < most ==> c * 1000 <= pts < c * 1000 + 1000,
        c == most ==> most * 1000 <= pts,
{
}

/// Halving rounds up, and is done as often as it is told.
pub proof fn halving_rounds_up(n: usize, times: u32, r: usize, half: usize, q: usize)
    requires
        call_ensures(shrink, (n, times), r),
        half == (n + 1) / 2,
        times > 0 ==> call_ensures(shrink, (half, (times - 1) as u32), q),
    ensures
        times == 0 ==> r == n,
        times > 0 ==> r == q,
{
}

/// A decoder gets between one and four threads, and two if nobody knows how many there are.
pub proof fn a_decoder_gets_few_threads(available: Option<usize>, r: u32)
    requires
        call_ensures(threads, (available,), r),
    ensures
        available is None ==> r == 2,
        available matches Some(n) ==> 1 <= r <= 4 && (1 <= n <= 4 ==> r == n) && (n > 4 ==> r == 4)
            && (n == 0 ==> r == 1),
{
}

/// How many places come before the usual ones.
pub open spec fn places(a: Option<&str>, b: Option<&str>) -> int {
    (if a is Some {
        1int
    } else {
        0
    }) + (if b is Some {
        1int
    } else {
        0
    })
}

/// The path that is asked for comes first, then the one that is built in, then `usual`, in its
/// order.
pub open spec fn is_search(
    explicit: Option<&str>,
    built_in: Option<&str>,
    usual: Seq<Seq<char>>,
    r: Seq<String>,
) -> bool {
    &&& r.len() == places(explicit, built_in) + usual.len()
    &&& explicit matches Some(p) ==> r[0]@ == p@
    &&& built_in matches Some(p) ==> r[places(explicit, None)]@ == p@
    &&& forall|i: int|
        0 <= i < usual.len() ==> r[places(explicit, built_in) + i]@ == #[trigger] usual[i]
}

proof fn searched(
    explicit: Option<&str>,
    built_in: Option<&str>,
    usual: Seq<Seq<char>>,
    r: Seq<String>,
)
    requires
        crate::text::texts(r) == crate::media::video::decode::search_of(
            crate::config::home_of(explicit),
            crate::config::home_of(built_in),
            usual,
        ),
    ensures
        is_search(explicit, built_in, usual, r),
{
    let t = crate::text::texts(r);
    assert(t.len() == r.len());
    assert forall|i: int| 0 <= i < r.len() implies (#[trigger] r[i])@ == t[i] by {}
}

/// A library is looked for where it is asked for, where it was built in, and where it usually is.
pub proof fn libraries_are_looked_for_in_order(
    explicit: Option<&str>,
    built_in: Option<&str>,
    usual: &[&'static str],
    names: Seq<Seq<char>>,
    r: Vec<String>,
)
    requires
        call_ensures(search, (explicit, built_in, usual), r),
        names.len() == usual@.len(),
        forall|i: int| 0 <= i < names.len() ==> #[trigger] names[i] == usual@[i]@,
    ensures
        is_search(explicit, built_in, names, r@),
{
    assert(crate::media::video::decode::literals(usual@) =~= names);
    searched(explicit, built_in, names, r@);
}

/// The names of libopenh264 and of libvpx, newer ones first.
pub proof fn newer_libraries_come_first(
    explicit: Option<&str>,
    built_in: Option<&str>,
    a: Vec<String>,
    b: Vec<String>,
)
    requires
        call_ensures(h264::candidates, (explicit, built_in), a),
        call_ensures(vpx::candidates, (explicit, built_in), b),
    ensures
        is_search(
            explicit,
            built_in,
            seq![
                "libopenh264.so.8"@,
                "libopenh264.so.7"@,
                "libopenh264.so"@,
                "/usr/lib/libopenh264.so"@,
                "/usr/lib64/libopenh264.so"@,
                "/usr/lib/x86_64-linux-gnu/libopenh264.so"@,
            ],
            a@,
        ),
        is_search(
            explicit,
            built_in,
            seq![
                "libvpx.so.11"@,
                "libvpx.so.10"@,
                "libvpx.so.9"@,
                "libvpx.so.8"@,
                "libvpx.so.7"@,
                "libvpx.so.6"@,
                "libvpx.so"@,
            ],
            b@,
        ),
{
    searched(explicit, built_in, h264::usual_names(), a@);
    searched(explicit, built_in, vpx::usual_names(), b@);
}

/// What was tried is told, one after the other.
pub proof fn what_was_tried_is_told(
    tried: Vec<String>,
    all: String,
    advice: &str,
    a: String,
    b: String,
    c: String,
)
    requires
        call_ensures(list, (&tried, "; "), all),
        call_ensures(not_found, (advice, &tried), a),
        call_ensures(h264::missing, (&tried,), b),
        call_ensures(vpx::missing, (&tried,), c),
    ensures
        a@ == advice@ + all@,
        b@
            == "libopenh264 не найден (поставьте пакет openh264 или задайте NOSHARE_COVER_OPENH264); пробовал: "@
            + all@,
        c@
            == "libvpx not found (install the libvpx package or set NOSHARE_COVER_LIBVPX); tried: "@
            + all@,
{
}

/// A code is told in decimal, with a minus in front of what is below zero.
pub open spec fn is_code(text: Seq<char>, code: i32) -> bool {
    if code < 0 {
        text == "-"@ + crate::text::decimal_of((-(code as int)) as nat)
    } else {
        text == crate::text::decimal_of(code as nat)
    }
}

/// Codes are told behind what was called.
pub proof fn codes_are_told(what: &str, code: i32, r: String, digits: Seq<char>)
    requires
        call_ensures(code_error, (what, code), r),
        is_code(digits, code),
    ensures
        r@ == what@ + digits,
{
}

// ------------------------------------------------------------------ AV1

/// The bytes of a sample: two for more than eight bits.
pub open spec fn sample(bits: int) -> int {
    if bits > 8 {
        2
    } else {
        1
    }
}

/// Half of `n`, rounded up, if `yes`.
pub open spec fn half_if(n: int, yes: bool) -> int {
    if yes {
        (n + 1) / 2
    } else {
        n
    }
}

/// The bytes of luma of an AV1 picture.
pub open spec fn av1_luma(p: av1::Av1Picture) -> int {
    extent(p.stride.0 as int, p.w * sample(p.bpc as int), p.h as int)
}

/// The bytes of chroma of an AV1 picture: layouts 1 and 2 have half the columns, layout 1 half the
/// rows.
pub open spec fn av1_chroma(p: av1::Av1Picture) -> int {
    extent(
        p.stride.1 as int,
        half_if(p.w as int, p.layout == 1 || p.layout == 2) * sample(p.bpc as int),
        half_if(p.h as int, p.layout == 1),
    )
}

/// An AV1 picture is shown as it is told; what is not told of its colours is guessed from its height.
pub proof fn an_av1_picture_is_as_it_is_told(p: av1::Av1Picture, r: Option<Shape>, guess: Matrix)
    requires
        call_ensures(av1::shape, (&p,), r),
        p.h >= 0 ==> call_ensures(Matrix::guess, (p.h as u32,), guess),
    ensures
        r is Some <==> p.w >= 0 && p.h > 0 && p.bpc >= 0 && p.layout <= 3 && p.stride.0 >= 0
            && p.stride.1 >= 0 && av1_luma(p) <= usize::MAX && (p.layout != 0 ==> av1_chroma(p)
            <= usize::MAX),
        r matches Some(s) ==> {
            &&& s.width == p.w && s.height == p.h && s.bit_depth == p.bpc
            &&& s.chroma is Mono <==> p.layout == 0
            &&& s.chroma is Sub420 <==> p.layout == 1
            &&& s.chroma is Sub422 <==> p.layout == 2
            &&& s.chroma is Full <==> p.layout == 3
            &&& p.color is None ==> s.matrix == guess && !s.full_range
            &&& p.color matches Some(c) ==> (s.full_range <==> c.1 != 0)
            &&& p.color matches Some(c) ==> c.0 == 2 ==> s.matrix == guess
            &&& p.color matches Some(c) ==> c.0 == 1 ==> s.matrix is Bt709
            &&& p.color matches Some(c) ==> c.0 == 9 ==> s.matrix is Bt2020
            &&& p.color matches Some(c) ==> c.0 != 1 && c.0 != 2 && c.0 != 9 ==> s.matrix is Bt601
            &&& s.y_stride == p.stride.0 && s.u_stride == p.stride.1 && s.v_stride == p.stride.1
            &&& s.y_len == av1_luma(p)
            &&& p.layout == 0 ==> s.u_len == 0 && s.v_len == 0
            &&& p.layout != 0 ==> s.u_len == av1_chroma(p) && s.v_len == av1_chroma(p)
            &&& p.timestamp >= 0 ==> s.pts == p.timestamp * 1000
            &&& p.timestamp < 0 ==> s.pts == 0
        },
{
}

/// Of the codes of rav1d, -11 means that it is not yet time; others below zero are errors.
pub proof fn codes_of_rav1d(
    code: i32,
    digits: Seq<char>,
    a: Result<bool, String>,
    left: usize,
    b: Result<bool, String>,
    there: bool,
    c: Result<(), String>,
)
    requires
        is_code(digits, code),
        call_ensures(av1::got_picture, (code,), a),
        call_ensures(av1::sent, (code, left), b),
        call_ensures(av1::opened, (code, there), c),
    ensures
        code >= 0 ==> a == Ok::<bool, String>(true),
        code == -11 ==> a == Ok::<bool, String>(false),
        code < 0 && code != -11 ==> (a matches Err(e) && e@ == "dav1d_get_picture: "@ + digits),
        code >= 0 || code == -11 ==> b == Ok::<bool, String>(left > 0),
        code < 0 && code != -11 ==> (b matches Err(e) && e@ == "dav1d_send_data: "@ + digits),
        c is Ok <==> code >= 0 && there,
        c matches Err(e) ==> e@ == "dav1d_open: "@ + digits,
{
}

// ------------------------------------------------------------------ H.264

/// An H.264 picture is 4:2:0 of eight bits; a chroma plane has half the columns and rows.
pub proof fn an_h264_picture_is_as_it_is_told(p: h264::H264Picture, r: Option<Shape>, guess: Matrix)
    requires
        call_ensures(h264::shape, (&p,), r),
        p.height >= 0 ==> call_ensures(Matrix::guess, (p.height as u32,), guess),
    ensures
        r is Some <==> p.status == 1 && p.present && p.width > 0 && p.height > 0 && p.stride.0 >= 0
            && p.stride.1 >= 0 && extent(p.stride.0 as int, p.width as int, p.height as int)
            <= usize::MAX && extent(
            p.stride.1 as int,
            half_if(p.width as int, true),
            half_if(p.height as int, true),
        ) <= usize::MAX,
        r matches Some(s) ==> {
            &&& s.width == p.width && s.height == p.height && s.bit_depth == 8
            &&& s.chroma is Sub420 && s.matrix == guess && !s.full_range
            &&& s.y_stride == p.stride.0 && s.u_stride == p.stride.1 && s.v_stride == p.stride.1
            &&& s.y_len == extent(p.stride.0 as int, p.width as int, p.height as int)
            &&& s.u_len == extent(
                p.stride.1 as int,
                half_if(p.width as int, true),
                half_if(p.height as int, true),
            )
            &&& s.v_len == s.u_len
            &&& s.pts == p.timestamp * 1000
        },
{
}

/// Packets are as long as the libraries can take them; openh264 holds as many pictures as it says.
pub proof fn libraries_count_in_their_words(
    len: usize,
    a: Option<i32>,
    b: Option<u32>,
    code: i32,
    n: i32,
    left: usize,
)
    requires
        call_ensures(h264::packet_len, (len,), a),
        call_ensures(vpx::packet_len, (len,), b),
        call_ensures(h264::remaining, (code, n), left),
    ensures
        a is Some <==> len <= 0x7fff_ffff,
        a matches Some(k) ==> k == len,
        b is Some <==> len <= 0xffff_ffff,
        b matches Some(k) ==> k == len,
        code == 0 && n >= 0 ==> left == n,
        code != 0 || n < 0 ==> left == 0,
{
}

// ------------------------------------------------------------------ VP8, VP9

/// The layouts of libvpx; 0x800 stands for two bytes per sample.
pub open spec fn is_layout(fmt: i32, base: i32) -> bool {
    fmt == base || fmt == base + 0x800
}

/// The bytes of plane `i` of a picture whose chroma has `cw` columns and `ch` rows.
pub open spec fn vpx_bytes(p: vpx::VpxPicture, i: int, cw: int, ch: int) -> int {
    let size: int = if p.fmt >= 0x800 {
        2
    } else {
        1
    };
    if i == 0 {
        extent(p.stride@[0] as int, p.width * size, p.height as int)
    } else {
        extent(p.stride@[i] as int, cw * size, ch)
    }
}

/// A picture of libvpx is shown as it is told. In one layout V comes before U.
pub proof fn a_vpx_picture_is_as_it_is_told(
    p: vpx::VpxPicture,
    r: Option<(Shape, (usize, usize))>,
    guess: Matrix,
    w: usize,
    h: usize,
    cw: usize,
    ch: usize,
)
    requires
        call_ensures(vpx::shape, (&p,), r),
        call_ensures(Matrix::guess, (p.height,), guess),
        w == p.width && h == p.height,
        call_ensures(shrink, (w, p.x_shift), cw),
        call_ensures(shrink, (h, p.y_shift), ch),
    ensures
        r is Some <==> (is_layout(p.fmt, 0x102) || is_layout(p.fmt, 0x301) || is_layout(p.fmt, 0x105)
            || is_layout(p.fmt, 0x106)) && p.width > 0 && p.height > 0 && p.present && p.stride@[0]
            >= 0 && p.stride@[1] >= 0 && p.stride@[2] >= 0 && vpx_bytes(p, 0, cw as int, ch as int)
            <= usize::MAX && vpx_bytes(p, 1, cw as int, ch as int) <= usize::MAX && vpx_bytes(
            p,
            2,
            cw as int,
            ch as int,
        ) <= usize::MAX,
        r matches Some(t) ==> {
            let (s, u, v) = (t.0, (t.1).0, (t.1).1);
            &&& is_layout(p.fmt, 0x301) ==> u == 2 && v == 1
            &&& !is_layout(p.fmt, 0x301) ==> u == 1 && v == 2
            &&& s.width == p.width && s.height == p.height
            &&& p.fmt < 0x800 ==> s.bit_depth == 8
            &&& p.fmt >= 0x800 && p.bit_depth >= 9 ==> s.bit_depth == p.bit_depth
            &&& p.fmt >= 0x800 && p.bit_depth < 9 ==> s.bit_depth == 9
            &&& s.chroma is Sub420 <==> is_layout(p.fmt, 0x102) || is_layout(p.fmt, 0x301)
            &&& s.chroma is Sub422 <==> is_layout(p.fmt, 0x105)
            &&& s.chroma is Full <==> is_layout(p.fmt, 0x106)
            &&& p.cs == 0 ==> s.matrix == guess
            &&& p.cs == 2 ==> s.matrix is Bt709
            &&& p.cs == 5 ==> s.matrix is Bt2020
            &&& p.cs != 0 && p.cs != 2 && p.cs != 5 ==> s.matrix is Bt601
            &&& s.full_range <==> p.range == 1
            &&& s.y_stride == p.stride@[0] && s.u_stride == p.stride@[u as int] && s.v_stride
                == p.stride@[v as int]
            &&& s.y_len == vpx_bytes(p, 0, cw as int, ch as int)
            &&& s.u_len == vpx_bytes(p, u as int, cw as int, ch as int)
            &&& s.v_len == vpx_bytes(p, v as int, cw as int, ch as int)
            &&& s.pts == p.tag * 1000
        },
{
}

/// libvpx decodes VP8 and VP9, and says so.
pub proof fn libvpx_decodes_vp8_and_vp9(
    codec: Codec,
    r: PipeResult<bool>,
    vp9: bool,
    name: &'static str,
    symbol: &'static str,
    code: i32,
    digits: Seq<char>,
    text: Option<&str>,
    o: PipeResult<()>,
    pts: Nanos,
    tag: usize,
    f: &str,
    why: &str,
    missing: String,
)
    requires
        call_ensures(vpx::is_vp9, (&codec,), r),
        call_ensures(vpx::name, (vp9,), name),
        call_ensures(vpx::interface, (vp9,), symbol),
        call_ensures(vpx::opened, (code, text), o),
        is_code(digits, code),
        call_ensures(vpx::tag, (pts,), tag),
        call_ensures(vpx::missing_symbol, (f, why), missing),
    ensures
        vpx::DECODER_ABI_VERSION == 12,
        codec is Vp8 ==> r == Ok::<bool, String>(false),
        codec is Vp9 ==> r == Ok::<bool, String>(true),
        !(codec is Vp8) && !(codec is Vp9) ==> (r matches Err(e) && e@ == "libvpx cannot decode "@
            + codec.shown()),
        vp9 ==> name@ == "libvpx VP9 (CPU)"@ && symbol@ == "vpx_codec_vp9_dx"@,
        !vp9 ==> name@ == "libvpx VP8 (CPU)"@ && symbol@ == "vpx_codec_vp8_dx"@,
        o is Ok <==> code == 0,
        o matches Err(e) ==> e@ == "vpx_codec_dec_init: "@ + (match text {
            Some(t) => t@,
            None => "code "@ + digits,
        }),
        tag < usize::MAX ==> tag * 1000 <= pts < tag * 1000 + 1000,
        tag == usize::MAX ==> usize::MAX * 1000 <= pts,
        missing@ == "libvpx: missing "@ + f@ + ": "@ + why@,
{
}

// ------------------------------------------------------------------ VA-API

/// A picture of VA-API is NV12: chroma rows hold two bytes for every second column.
pub proof fn a_va_picture_is_as_it_is_told(p: vaapi::VaPicture, r: Option<Shape>, guess: Matrix)
    requires
        call_ensures(vaapi::shape, (&p,), r),
        call_ensures(Matrix::guess, (p.height,), guess),
    ensures
        r is Some <==> p.width > 0 && p.height > 0 && p.present && extent(
            p.y_stride as int,
            p.width as int,
            p.height as int,
        ) <= usize::MAX && extent(
            p.uv_stride as int,
            half_if(p.width as int, true) * 2,
            half_if(p.height as int, true),
        ) <= usize::MAX,
        r matches Some(s) ==> {
            &&& s.width == p.width && s.height == p.height && s.bit_depth == 8
            &&& s.chroma is Sub420 && s.matrix == guess && !s.full_range
            &&& s.y_stride == p.y_stride && s.u_stride == p.uv_stride
            &&& s.y_len == extent(p.y_stride as int, p.width as int, p.height as int)
            &&& s.u_len == extent(
                p.uv_stride as int,
                half_if(p.width as int, true) * 2,
                half_if(p.height as int, true),
            )
            &&& s.pts == p.pts_ns
        },
{
}

/// The helper has numbers for codecs, takes times of 64 bits, and explains itself.
pub proof fn the_helper_has_its_words(
    codec: Codec,
    a: Option<u32>,
    b: PipeResult<u32>,
    pts: Nanos,
    ns: u64,
    why: &str,
    va: bool,
    gbm: bool,
    load: String,
    open: String,
)
    requires
        call_ensures(vaapi::helper_codec, (&codec,), a),
        call_ensures(vaapi::supported, (&codec,), b),
        call_ensures(vaapi::to_nanos, (pts,), ns),
        call_ensures(contains, (why, "libva"), va),
        call_ensures(contains, (why, "libgbm"), gbm),
        call_ensures(vaapi::load_error, (why,), load),
        call_ensures(vaapi::open_error, (why,), open),
    ensures
        codec is H264 ==> a == Some(1u32),
        codec is Hevc ==> a == Some(2u32),
        codec is Vp8 ==> a == Some(3u32),
        codec is Vp9 ==> a == Some(4u32),
        codec is Av1 ==> a == Some(5u32),
        codec is Other ==> a is None,
        a matches Some(n) ==> b == Ok::<u32, String>(n),
        a is None ==> (b matches Err(e) && e@ == "VA-API doesn't support "@ + codec.shown()),
        pts <= 0xffff_ffff_ffff_ffff ==> ns == pts,
        pts > 0xffff_ffff_ffff_ffff ==> ns == 0xffff_ffff_ffff_ffff,
        va || gbm ==> load@ == "libva/libgbm not found for VA-API (install libva): "@ + why@,
        !va && !gbm ==> load@ == "failed to load VA-API helper: "@ + why@,
        why@.len() == 0 ==> open@ == "VA-API: failed to open"@,
        why@.len() > 0 ==> open@ == why@,
{
}

} // verus!
