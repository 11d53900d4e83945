//! Laws of NVDEC.

use crate::laws::config::is_below;
use crate::laws::decode::{is_code, is_converted, is_image, is_search};
use crate::media::video::decode::nvdec::{
    capable, check, cuda_codec, cuda_names, cuvid_names, device_count, device_link, flushed, is_nvidia,
    is_wanted, no_device, not_loaded, pci_address, supported, vendor_file, Copy2D, Plan, Sequence,
    State, VideoFormat, CLOCK_RATE,
};
use crate::media::video::decode::Shape;
use crate::media::video::pipeline::{Codec, DecodedFrame, PipeResult};
use crate::media::video::yuv::{to_bgra, ChromaPlanes, Matrix, YuvImage};
use crate::path::file_name;
use crate::text::{ends_with, list, to_lower, trim, trim_front};
use vstd::prelude::*;

verus! {

/// The driver counts codecs and time in its own way, and its errors are told in words.
pub proof fn the_driver_has_its_words(
    codec: Codec,
    a: Option<i32>,
    b: PipeResult<i32>,
    can: u8,
    c: PipeResult<()>,
    what: &str,
    code: i32,
    digits: Seq<char>,
    text: Option<&str>,
    d: PipeResult<()>,
)
    requires
        call_ensures(cuda_codec, (&codec,), a),
        call_ensures(supported, (&codec,), b),
        call_ensures(capable, (&codec, can), c),
        call_ensures(check, (what, code, text), d),
        is_code(digits, code),
    ensures
        CLOCK_RATE == 1_000_000,
        codec is H264 ==> a == Some(4i32),
        codec is Hevc ==> a == Some(8i32),
        codec is Vp8 ==> a == Some(9i32),
        codec is Vp9 ==> a == Some(10i32),
        codec is Av1 ==> a == Some(11i32),
        codec is Other ==> a is None,
        a matches Some(n) ==> b == Ok::<i32, String>(n),
        a is None ==> (b matches Err(e) && e@ == "NVDEC doesn't support "@ + codec.shown()),
        c is Ok <==> can != 0,
        c matches Err(e) ==> e@ == "this GPU can't decode "@ + codec.shown() + " via NVDEC"@,
        d is Ok <==> code == 0,
        d matches Err(e) ==> e@ == what@ + ": "@ + (match text {
            Some(t) => t@,
            None => "code "@ + digits,
        }),
{
}

/// The libraries of the driver are looked for under three names each; what was tried is told.
pub proof fn the_driver_has_two_libraries(
    a: Vec<String>,
    b: Vec<String>,
    what: &str,
    tried: Vec<String>,
    all: String,
    r: String,
)
    requires
        call_ensures(cuda_names, (), a),
        call_ensures(cuvid_names, (), b),
        call_ensures(list, (&tried, "; "), all),
        call_ensures(not_loaded, (what, &tried), r),
    ensures
        is_search(
            None,
            None,
            seq!["libcuda.so.1"@, "libcuda.so"@, "/run/opengl-driver/lib/libcuda.so.1"@],
            a@,
        ),
        is_search(
            None,
            None,
            seq![
                "libnvcuvid.so.1"@,
                "libnvcuvid.so"@,
                "/run/opengl-driver/lib/libnvcuvid.so.1"@,
            ],
            b@,
        ),
        r@ == what@ + " not found ("@ + all@ + ")"@,
{
    let (x, y) = (crate::text::texts(a@), crate::text::texts(b@));
    assert(x.len() == a@.len() && y.len() == b@.len());
    assert forall|i: int| 0 <= i < a@.len() implies (#[trigger] a@[i])@ == x[i] by {}
    assert forall|i: int| 0 <= i < b@.len() implies (#[trigger] b@[i])@ == y[i] by {}
}

/// The device behind a render node is told below `/sys/class/drm`, under the name of the node.
pub proof fn the_system_tells_the_device(
    node: &str,
    name: Option<String>,
    link: Option<String>,
    vendor: Option<String>,
)
    requires
        call_ensures(file_name, (node,), name),
        call_ensures(device_link, (node,), link),
        call_ensures(vendor_file, (node,), vendor),
    ensures
        name is None ==> link is None && vendor is None,
        name matches Some(n) ==> exists|dir: Seq<char>| #[trigger]
            is_below("/sys/class/drm"@, n@, dir) && (link matches Some(l) && is_below(
                dir,
                "device"@,
                l@,
            )) && (vendor matches Some(v) && is_below(dir, "device/vendor"@, v@)),
{
    if let Some(n) = name {
        let dir = crate::path::joined("/sys/class/drm"@, n@);
        crate::laws::config::joined_is_below("/sys/class/drm"@, n@);
        crate::laws::config::joined_is_below(dir, "device"@);
        crate::laws::config::joined_is_below(dir, "device/vendor"@);
    }
}

/// The address of a device is the name behind its link, in lower case; the vendor of NVIDIA is
/// 0x10de.
pub proof fn devices_have_addresses(
    target: &str,
    name: Option<String>,
    n: &str,
    low: String,
    r: Option<String>,
    vendor: &str,
    t: &str,
    w: String,
    nvidia: bool,
)
    requires
        call_ensures(file_name, (target,), name),
        name matches Some(x) ==> x@ == n@,
        call_ensures(to_lower, (n,), low),
        call_ensures(pci_address, (target,), r),
        call_ensures(trim, (vendor,), t),
        call_ensures(to_lower, (t,), w),
        call_ensures(is_nvidia, (vendor,), nvidia),
    ensures
        r is Some <==> name is Some,
        r matches Some(a) ==> a@ == low@,
        nvidia <==> w@ == seq!['0', 'x', '1', '0', 'd', 'e'],
{
    reveal_strlit("0x10de");
    assert("0x10de"@ =~= seq!['0', 'x', '1', '0', 'd', 'e']);
}

/// A device is the wanted one if one of the two addresses ends with the other, whatever zeros CUDA
/// writes in front; any will do if none is wanted.
pub proof fn addresses_are_compared_from_the_end(
    id: &str,
    want: &str,
    low: String,
    l: &str,
    short: &str,
    a: bool,
    b: bool,
    r: bool,
    any: Option<&str>,
    free: bool,
    blind: bool,
)
    requires
        call_ensures(to_lower, (id,), low),
        l@ == low@,
        call_ensures(trim_front, (l, '0'), short),
        call_ensures(ends_with, (l, want), a),
        call_ensures(ends_with, (want, short), b),
        call_ensures(is_wanted, (Some(id), Some(want)), r),
        call_ensures(is_wanted, (any, None), free),
        call_ensures(is_wanted, (None, Some(want)), blind),
    ensures
        r <==> a || b,
        free,
        !blind,
{
}

/// CUDA has to see a device, and the right one.
pub proof fn cuda_has_to_see_a_device(
    count: i32,
    r: PipeResult<i32>,
    node: Option<&str>,
    m: String,
)
    requires
        call_ensures(device_count, (count,), r),
        call_ensures(no_device, (node,), m),
    ensures
        count > 0 ==> r == Ok::<i32, String>(count),
        count <= 0 ==> (r matches Err(e) && e@ == "CUDA sees no GPUs"@),
        node matches Some(n) ==> m@ == n@ + " is not an NVIDIA/CUDA device"@,
        node is None ==> m@ == " is not an NVIDIA/CUDA device"@,
{
    if node is None {
        assert(Seq::<char>::empty() + " is not an NVIDIA/CUDA device"@
            =~= " is not an NVIDIA/CUDA device"@);
    }
}

/// The side of a picture from `from` to `to`, at least one.
pub open spec fn is_side(from: i32, to: i32, n: int) -> bool {
    &&& to > from ==> n == to - from
    &&& to <= from ==> n == 1
}

/// How many surfaces a format gets: two more than it needs, and it needs one at least.
pub open spec fn surfaces(f: VideoFormat) -> int {
    if f.min_num_decode_surfaces == 0 {
        3
    } else {
        f.min_num_decode_surfaces + 2
    }
}

/// The decoder that is created for a format: it shows the part that is to be shown, in two bytes
/// per sample (1) where it has more than eight bits, else in one (0); interlaced pictures are
/// deinterlaced (2), others woven (0).
pub open spec fn is_plan(p: Plan, f: VideoFormat) -> bool {
    &&& p.surfaces == surfaces(f)
    &&& p.codec == f.codec
    &&& p.chroma_format == f.chroma_format
    &&& p.coded_width == f.coded_width
    &&& p.coded_height == f.coded_height
    &&& p.bit_depth_minus8 == f.bit_depth_luma_minus8
    &&& p.area.0 == f.display_area.left as i16
    &&& p.area.1 == f.display_area.top as i16
    &&& p.area.2 == f.display_area.right as i16
    &&& p.area.3 == f.display_area.bottom as i16
    &&& f.bit_depth_luma_minus8 == 0 ==> p.output_format == 0
    &&& f.bit_depth_luma_minus8 > 0 ==> p.output_format == 1
    &&& f.progressive ==> p.deinterlace_mode == 0
    &&& !f.progressive ==> p.deinterlace_mode == 2
    &&& is_side(f.display_area.left, f.display_area.right, p.target_width as int)
    &&& is_side(f.display_area.top, f.display_area.bottom, p.target_height as int)
}

/// The stream goes on as it was: size, chroma and depth are the same.
pub open spec fn goes_on(st: State, f: VideoFormat) -> bool {
    st.fmt matches Some(g) && g.coded_width == f.coded_width && g.coded_height == f.coded_height
        && g.chroma_format == f.chroma_format && g.bit_depth_luma_minus8 == f.bit_depth_luma_minus8
}

/// What the start of a sequence means: the decoder stays if the stream goes on; else, for grey (0)
/// and 4:2:0 (1) streams, a new one takes its place.
pub open spec fn is_sequence(a: State, b: State, f: VideoFormat, r: PipeResult<Sequence>) -> bool {
    &&& b.ready == a.ready && b.error == a.error
    &&& goes_on(a, f) ==> b == a && (r matches Ok(Sequence::Keep(n)) && n == surfaces(f))
    &&& !goes_on(a, f) && f.chroma_format != 0 && f.chroma_format != 1 ==> b == a && (
    r matches Err(e) && e@ == "the plugin's NVDEC path supports 4:2:0 only"@)
    &&& !goes_on(a, f) && (f.chroma_format == 0 || f.chroma_format == 1) ==> !b.decoder
        && b.fmt is None && (r matches Ok(Sequence::Create(p)) && is_plan(p, f) && p.replaces
        == a.decoder)
}

/// What the creation of a decoder means.
pub open spec fn is_created(
    a: State,
    b: State,
    f: VideoFormat,
    p: Plan,
    outcome: PipeResult<()>,
    r: PipeResult<i32>,
) -> bool {
    &&& b.ready == a.ready && b.error == a.error
    &&& outcome matches Err(e) ==> b == a && r == Err::<i32, String>(e)
    &&& outcome is Ok ==> {
        &&& r == Ok::<i32, String>(p.surfaces)
        &&& b.decoder
        &&& b.fmt == Some(f)
        &&& b.out_w == p.target_width
        &&& b.out_h == p.target_height
        &&& b.surface_h == p.target_height
        &&& b.high_depth <==> f.bit_depth_luma_minus8 > 0
    }
}

/// A decoder stays as long as its stream goes on, and else is made anew for the new one.
pub proof fn a_decoder_stays_with_its_stream(st: State)
    ensures
        call_ensures(State::new, (), st) ==> !st.decoder && st.fmt is None && st.ready@.len() == 0
            && st.error is None,
        forall|s: &mut State, f: &VideoFormat, r: PipeResult<Sequence>| #[trigger]
            call_ensures(State::sequence, (s, f), r) ==> is_sequence(*s, *final(s), *f, r),
        forall|
            s: &mut State,
            f: &VideoFormat,
            p: &Plan,
            outcome: PipeResult<()>,
            r: PipeResult<i32>,
        | #[trigger]
            call_ensures(State::created, (s, f, p, outcome), r) ==> is_created(
                *s,
                *final(s),
                *f,
                *p,
                outcome,
                r,
            ),
{
}

/// The bytes of a row of the picture.
pub open spec fn row_bytes(s: State) -> int {
    s.out_w * (if s.high_depth {
        2int
    } else {
        1
    })
}

/// The rows of chroma: half of the picture's, rounded up.
pub open spec fn chroma_rows(s: State) -> int {
    (s.out_h + 1) / 2
}

/// A picture is copied row by row, luma and then chroma, without gaps; in video memory chroma
/// stands behind an even number of rows.
pub proof fn a_picture_is_copied_without_gaps(s: State, dptr: u64, pitch: u32, r: Option<Copy2D>)
    requires
        call_ensures(State::copy_plan, (&s, dptr, pitch), r),
    ensures
        r is None ==> row_bytes(s) * (s.out_h + chroma_rows(s)) > usize::MAX || dptr + pitch * ((
        s.surface_h + 1) / 2 * 2) > u64::MAX,
        r matches Some(c) ==> {
            &&& c.row == row_bytes(s)
            &&& c.luma_rows == s.out_h
            &&& c.chroma_rows == chroma_rows(s)
            &&& c.chroma_at == c.row * c.luma_rows
            &&& c.size == c.row * (c.luma_rows + c.chroma_rows)
            &&& c.chroma_src == dptr + pitch * ((s.surface_h + 1) / 2 * 2)
        },
{
}

/// The matrix that a stream tells by a code.
pub open spec fn is_matrix(code: u8, guess: Matrix, m: Matrix) -> bool {
    &&& code == 1 ==> m is Bt709
    &&& code == 9 || code == 10 ==> m is Bt2020
    &&& code == 5 || code == 6 ==> m is Bt601
    &&& code != 1 && code != 5 && code != 6 && code != 9 && code != 10 ==> m == guess
}

/// The shape of a picture of a stream.
pub open spec fn is_shape(st: State, f: VideoFormat, guess: Matrix, timestamp: i64, s: Shape) -> bool {
    &&& s.width == st.out_w && s.height == st.out_h
    &&& st.high_depth ==> s.bit_depth == 16
    &&& !st.high_depth ==> s.bit_depth == 8
    &&& s.chroma is Mono <==> f.chroma_format == 0
    &&& s.chroma is Sub420 <==> f.chroma_format != 0
    &&& is_matrix(f.signal@[3], guess, s.matrix)
    &&& s.full_range <==> (f.signal@[0] / 8) % 2 == 1
    &&& s.y_stride == row_bytes(st) && s.u_stride == row_bytes(st)
    &&& timestamp >= 0 ==> s.pts == timestamp * 1000
    &&& timestamp < 0 ==> s.pts == 0
}

/// The picture of shape `s` was added behind the others, if it can be converted.
pub open spec fn is_added(
    s: Shape,
    y: &[u8],
    uv: &[u8],
    before: Seq<DecodedFrame>,
    after: Seq<DecodedFrame>,
    img: YuvImage<'_>,
    c: Option<crate::frame::CpuFrame>,
) -> bool {
    is_image(s, y, img.uv, img) && (img.uv matches ChromaPlanes::Interleaved(p) && p.data == uv
        && p.stride == s.u_stride) && call_ensures(to_bgra, (&img,), c) ==> {
        if c is Some {
            &&& after.len() == before.len() + 1
            &&& forall|i: int| 0 <= i < before.len() ==> #[trigger] after[i] == before[i]
            &&& is_converted(Some(after.last()), s.pts, c)
        } else {
            after == before
        }
    }
}

/// What becomes of a copied picture.
pub open spec fn is_displayed(
    a: State,
    b: State,
    host: Seq<u8>,
    timestamp: i64,
    copied: PipeResult<()>,
    r: PipeResult<()>,
    guess: Matrix,
    img: YuvImage<'_>,
    c: Option<crate::frame::CpuFrame>,
) -> bool {
    &&& b.decoder == a.decoder && b.fmt == a.fmt && b.out_w == a.out_w && b.out_h == a.out_h
        && b.surface_h == a.surface_h && b.high_depth == a.high_depth && b.error == a.error
    &&& copied matches Err(e) ==> r == Err::<(), String>(e) && b.ready == a.ready
    &&& copied is Ok ==> r is Ok && exists|s: Shape, y: &[u8], uv: &[u8]| #[trigger]
        is_added(s, y, uv, a.ready@, b.ready@, img, c) && is_shape(a, a.fmt->0, guess, timestamp, s)
            && y@ + uv@ == host && y@.len() == row_bytes(a) * a.out_h
}

proof fn displayed(
    a: State,
    b: State,
    host: Seq<u8>,
    timestamp: i64,
    copied: PipeResult<()>,
    r: PipeResult<()>,
    guess: Matrix,
    img: YuvImage<'_>,
    c: Option<crate::frame::CpuFrame>,
)
    requires
        b.same_setup(&a),
        b.error == a.error,
        match copied {
            Err(e) => r == Err::<(), String>(e) && b.ready == a.ready,
            Ok(_) => r is Ok && exists|s: Shape, y: &[u8], uv: &[u8]| #[trigger]
                crate::media::video::decode::nvdec::shown_as(s, y, uv, a.ready@, b.ready@)
                    && a.shows(s, a.fmt->0, timestamp) && y@ + uv@ == host && y@.len() == a.row()
                    * a.out_h,
        },
        guess == crate::media::video::yuv::guessed_matrix(a.out_h),
    ensures
        is_displayed(a, b, host, timestamp, copied, r, guess, img, c),
{
    if copied is Ok {
        let (s, y, uv) = choose|s: Shape, y: &[u8], uv: &[u8]| #[trigger]
            crate::media::video::decode::nvdec::shown_as(s, y, uv, a.ready@, b.ready@) && a.shows(
                s,
                a.fmt->0,
                timestamp,
            ) && y@ + uv@ == host && y@.len() == a.row() * a.out_h;
        let same = crate::media::video::decode::image_of(
            s,
            y,
            ChromaPlanes::Interleaved(
                crate::media::video::yuv::Plane { data: uv, stride: s.u_stride },
            ),
        );
        if is_image(s, y, img.uv, img) && (img.uv matches ChromaPlanes::Interleaved(p) && p.data
            == uv && p.stride == s.u_stride) {
            assert(img == same);
            if same.convertible() {
                assert forall|i: int| 0 <= i < a.ready@.len() implies #[trigger] b.ready@[i]
                    == a.ready@[i] by {
                    assert(b.ready@.drop_last()[i] == b.ready@[i]);
                }
            }
        }
        assert(is_added(s, y, uv, a.ready@, b.ready@, img, c));
    }
}

/// A picture that was copied is converted as NV12 and waits behind the others; a copy that failed
/// is an error.
pub proof fn a_copied_picture_is_shown(img: YuvImage<'_>, c: Option<crate::frame::CpuFrame>)
    ensures
        forall|
            s: &mut State,
            host: &[u8],
            timestamp: i64,
            copied: PipeResult<()>,
            r: PipeResult<()>,
            guess: Matrix,
        |
            #![trigger call_ensures(State::display, (s, host, timestamp, copied), r), call_ensures(Matrix::guess, (s.out_h,), guess)]
            call_ensures(State::display, (s, host, timestamp, copied), r) && call_ensures(
                Matrix::guess,
                (s.out_h,),
                guess,
            ) ==> is_displayed(*s, *final(s), host@, timestamp, copied, r, guess, img, c),
{
    assert forall|
        s: &mut State,
        host: &[u8],
        timestamp: i64,
        copied: PipeResult<()>,
        r: PipeResult<()>,
        guess: Matrix,
    |
        #![trigger call_ensures(State::display, (s, host, timestamp, copied), r), call_ensures(Matrix::guess, (s.out_h,), guess)]
        call_ensures(State::display, (s, host, timestamp, copied), r) && call_ensures(
            Matrix::guess,
            (s.out_h,),
            guess,
        ) implies is_displayed(*s, *final(s), host@, timestamp, copied, r, guess, img, c) by {
        displayed(*s, *final(s), host@, timestamp, copied, r, guess, img, c);
    }
}

/// The decoder and its format are the same.
pub open spec fn is_same_setup(a: State, b: State) -> bool {
    b.decoder == a.decoder && b.fmt == a.fmt && b.out_w == a.out_w && b.out_h == a.out_h
        && b.surface_h == a.surface_h && b.high_depth == a.high_depth
}

/// The first error of a packet is told, and told once; without one the pictures that wait are
/// handed out, in their order.
pub proof fn errors_come_before_pictures(
    out: PipeResult<Vec<DecodedFrame>>,
    parser: PipeResult<()>,
    all: PipeResult<Vec<DecodedFrame>>,
)
    ensures
        forall|s: &mut State, r: PipeResult<i32>, code: i32| #[trigger]
            call_ensures(State::answer, (s, r), code) ==> is_same_setup(*s, *final(s)) && final(s).ready == s.ready && (match r {
                Ok(v) => code == v && final(s).error == s.error,
                Err(e) => code == 0 && final(s).error == Some(e),
            }),
        forall|s: &mut State, asked: Option<PipeResult<()>>, code: i32| #[trigger]
            call_ensures(State::decode, (s, asked), code) ==> is_same_setup(*s, *final(s)) && final(s).ready == s.ready && (match asked {
                None => code == 0 && final(s).error == s.error,
                Some(Ok(_)) => code == 1 && final(s).error == s.error,
                Some(Err(e)) => code == 0 && final(s).error == Some(e),
            }),
        forall|s: &mut State, parsed: PipeResult<()>, r: PipeResult<Vec<DecodedFrame>>| #[trigger]
            call_ensures(State::collect, (s, parsed), r) ==> is_same_setup(*s, *final(s)) && final(s).error is None && (s.error matches Some(e) ==> r == Err::<Vec<DecodedFrame>, String>(e)
                && final(s).ready == s.ready) && (s.error is None ==> (match parsed {
                Err(e) => r == Err::<Vec<DecodedFrame>, String>(e) && final(s).ready == s.ready,
                Ok(_) => (r matches Ok(v) && v@ == s.ready@) && final(s).ready@.len() == 0,
            })),
        forall|s: &mut State, p: PipeResult<()>| #[trigger]
            call_ensures(State::reset, (s, p), ()) ==> is_same_setup(*s, *final(s)) && final(s).ready@.len() == 0 && (match p {
                Ok(_) => final(s).error is None,
                Err(e) => final(s).error == Some(e),
            }),
        call_ensures(flushed, (out, parser), all) ==> (parser matches Err(e) ==> all == Err::<
            Vec<DecodedFrame>,
            String,
        >(e)) && (parser is Ok ==> all == out),
{
}

} // verus!
