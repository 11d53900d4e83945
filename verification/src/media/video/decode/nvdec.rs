//! NVIDIA: NVDEC, through the driver's libcuda and libnvcuvid, loaded at run time.
//!
//! The driver's own parser reads the stream; it keeps the reference pictures, the display
//! order and the timestamps. It calls back when a sequence starts and when a picture is to be
//! shown. A picture is copied out of video memory as NV12 or P016 and converted like all
//! others. Calls into the driver are the program's; what is asked of it, and what becomes of
//! its answers, is decided here.

use crate::media::video::decode::{code_error, search, signed_micros, Shape};
use crate::media::video::pipeline::{Codec, DecodedFrame, PipeResult};
use crate::media::video::yuv::{Chroma, Matrix};
use crate::path::{file_name, join};
use crate::text::{ends_with, joined, list, same, to_lower, trim, trim_front};
use vstd::prelude::*;
use vstd::string::*;

verus! {

/// Ticks per second of the timestamps: microseconds.
pub const CLOCK_RATE: u32 = 1_000_000;

/// Chroma formats of the driver.
pub const CHROMA_MONO: i32 = 0;

pub const CHROMA_420: i32 = 1;

/// Surface formats of the driver.
pub const SURFACE_NV12: i32 = 0;

pub const SURFACE_P016: i32 = 1;

/// What is done with interlaced pictures.
pub const DEINTERLACE_WEAVE: i32 = 0;

pub const DEINTERLACE_ADAPTIVE: i32 = 2;

/// The number of a codec in the driver's interface.
pub open spec fn code_of(codec: Codec) -> Option<i32> {
    match codec {
        Codec::H264 => Some(4),
        Codec::Hevc => Some(8),
        Codec::Vp8 => Some(9),
        Codec::Vp9 => Some(10),
        Codec::Av1 => Some(11),
        Codec::Other(_) => None,
    }
}

/// The number of a codec in the driver's interface.
pub fn cuda_codec(codec: &Codec) -> (r: Option<i32>)
    ensures
        r == code_of(*codec),
{
    match codec {
        Codec::H264 => Some(4),
        Codec::Hevc => Some(8),
        Codec::Vp8 => Some(9),
        Codec::Vp9 => Some(10),
        Codec::Av1 => Some(11),
        Codec::Other(_) => None,
    }
}

/// The number of a codec, or the message that NVDEC does not know it.
pub fn supported(codec: &Codec) -> (r: PipeResult<i32>)
    ensures
        match r {
            Ok(c) => code_of(*codec) == Some(c),
            Err(e) => code_of(*codec) is None && e@ == "NVDEC doesn't support "@ + codec.shown(),
        },
{
    match cuda_codec(codec) {
        Some(c) => Ok(c),
        None => Err(joined("NVDEC doesn't support ", codec.text().as_str())),
    }
}

/// Whether the GPU can decode a codec, by the driver's answer.
pub fn capable(codec: &Codec, is_supported: u8) -> (r: PipeResult<()>)
    ensures
        match r {
            Ok(_) => is_supported != 0,
            Err(e) => is_supported == 0 && e@ == "this GPU can't decode "@ + codec.shown()
                + " via NVDEC"@,
        },
{
    if is_supported != 0 {
        Ok(())
    } else {
        let mut msg = joined("this GPU can't decode ", codec.text().as_str());
        msg.append(" via NVDEC");
        Err(msg)
    }
}

/// What a call of the driver says. `text` is the driver's own word for the code.
pub fn check(what: &str, code: i32, text: Option<&str>) -> (r: PipeResult<()>)
    ensures
        match r {
            Ok(_) => code == 0,
            Err(e) => code != 0 && e@ == what@ + ": "@ + match text {
                Some(t) => t@,
                None => "code "@ + crate::media::video::decode::signed_decimal(code),
            },
        },
{
    if code == 0 {
        return Ok(());
    }
    let mut msg = joined(what, ": ");
    match text {
        Some(t) => msg.append(t),
        None => msg.append(code_error("code ", code).as_str()),
    }
    Err(msg)
}

/// Where libcuda is looked for.
pub fn cuda_names() -> (r: Vec<String>)
    ensures
        crate::text::texts(r@) == seq![
            "libcuda.so.1"@,
            "libcuda.so"@,
            "/run/opengl-driver/lib/libcuda.so.1"@,
        ],
{
    let names: [&'static str; 3] = [
        "libcuda.so.1",
        "libcuda.so",
        "/run/opengl-driver/lib/libcuda.so.1",
    ];
    let r = search(None, None, &names);
    assert(crate::text::texts(r@) =~= seq![
        "libcuda.so.1"@,
        "libcuda.so"@,
        "/run/opengl-driver/lib/libcuda.so.1"@,
    ]);
    r
}

/// Where libnvcuvid is looked for.
pub fn cuvid_names() -> (r: Vec<String>)
    ensures
        crate::text::texts(r@) == seq![
            "libnvcuvid.so.1"@,
            "libnvcuvid.so"@,
            "/run/opengl-driver/lib/libnvcuvid.so.1"@,
        ],
{
    let names: [&'static str; 3] = [
        "libnvcuvid.so.1",
        "libnvcuvid.so",
        "/run/opengl-driver/lib/libnvcuvid.so.1",
    ];
    let r = search(None, None, &names);
    assert(crate::text::texts(r@) =~= seq![
        "libnvcuvid.so.1"@,
        "libnvcuvid.so"@,
        "/run/opengl-driver/lib/libnvcuvid.so.1"@,
    ]);
    r
}

/// The message that a library of the driver was not found.
pub fn not_loaded(what: &str, tried: &Vec<String>) -> (r: String)
    ensures
        r@ == what@ + " not found ("@ + crate::text::listed(crate::text::texts(tried@), "; "@)
            + ")"@,
{
    let mut msg = joined(what, " not found (");
    msg.append(list(tried, "; ").as_str());
    msg.append(")");
    msg
}

// ------------------------------------------------------------------ devices

/// Where the system tells the device behind a render node.
pub open spec fn sysfs(node: Seq<char>, what: Seq<char>) -> Option<Seq<char>> {
    match crate::path::file_name_of(node) {
        Some(name) => Some(
            crate::path::joined(crate::path::joined("/sys/class/drm"@, name), what),
        ),
        None => None,
    }
}

fn sysfs_path(node: &str, what: &str) -> (r: Option<String>)
    ensures
        crate::config::text_of(r) == sysfs(node@, what@),
{
    match file_name(node) {
        Some(name) => Some(join(join("/sys/class/drm", name.as_str()).as_str(), what)),
        None => None,
    }
}

/// The link to the device behind a render node.
pub fn device_link(node: &str) -> (r: Option<String>)
    ensures
        crate::config::text_of(r) == sysfs(node@, "device"@),
{
    sysfs_path(node, "device")
}

/// The file with the vendor of the device behind a render node.
pub fn vendor_file(node: &str) -> (r: Option<String>)
    ensures
        crate::config::text_of(r) == sysfs(node@, "device/vendor"@),
{
    sysfs_path(node, "device/vendor")
}

/// The PCI address at which the link to a device points, in lower case.
pub fn pci_address(target: &str) -> (r: Option<String>)
    ensures
        crate::config::text_of(r) == match crate::path::file_name_of(target@) {
            Some(name) => Some(crate::text::lowered(name)),
            None => None,
        },
{
    match file_name(target) {
        Some(name) => Some(to_lower(name.as_str())),
        None => None,
    }
}

/// Whether a vendor file names NVIDIA.
pub fn is_nvidia(vendor: &str) -> (r: bool)
    ensures
        r == (crate::text::lowered(crate::text::trimmed(vendor@)) == "0x10de"@),
{
    same(to_lower(trim(vendor)).as_str(), "0x10de")
}

/// The address that CUDA tells is the one that the system tells. CUDA writes the domain with
/// more digits than the system does.
pub open spec fn same_device(id: Seq<char>, want: Seq<char>) -> bool {
    let low = crate::text::lowered(id);
    crate::text::finishes(low, want) || crate::text::finishes(
        want,
        crate::text::without_front(low, '0'),
    )
}

/// Whether a device is the one that is wanted. `want` is the PCI address behind the render
/// node, `None` if any will do; `id` is what CUDA tells, `None` if it tells nothing.
pub fn is_wanted(id: Option<&str>, want: Option<&str>) -> (r: bool)
    ensures
        r == match (want, id) {
            (None, _) => true,
            (Some(w), Some(i)) => same_device(i@, w@),
            (Some(_), None) => false,
        },
{
    match (want, id) {
        (None, _) => true,
        (Some(w), Some(i)) => {
            let low = to_lower(i);
            ends_with(low.as_str(), w) || ends_with(w, trim_front(low.as_str(), '0'))
        },
        (Some(_), None) => false,
    }
}

/// How many devices CUDA sees, or the message that it sees none.
pub fn device_count(count: i32) -> (r: PipeResult<i32>)
    ensures
        match r {
            Ok(n) => n == count && count > 0,
            Err(e) => count <= 0 && e@ == "CUDA sees no GPUs"@,
        },
{
    if count <= 0 {
        Err("CUDA sees no GPUs".to_owned())
    } else {
        Ok(count)
    }
}

/// The message that no device of CUDA is behind the render node.
pub fn no_device(node: Option<&str>) -> (r: String)
    ensures
        r@ == (match node {
            Some(n) => n@,
            None => Seq::empty(),
        }) + " is not an NVIDIA/CUDA device"@,
{
    match node {
        Some(n) => joined(n, " is not an NVIDIA/CUDA device"),
        None => {
            let none = String::new();
            joined(none.as_str(), " is not an NVIDIA/CUDA device")
        },
    }
}

// ------------------------------------------------------------------ sequences

/// A rectangle of the driver.
#[derive(Clone, Copy)]
pub struct Area {
    pub left: i32,
    pub top: i32,
    pub right: i32,
    pub bottom: i32,
}

/// The format of a stream, as the parser tells it.
#[derive(Clone, Copy)]
pub struct VideoFormat {
    pub codec: i32,
    pub progressive: bool,
    pub bit_depth_luma_minus8: u8,
    pub min_num_decode_surfaces: u8,
    pub coded_width: u32,
    pub coded_height: u32,
    pub display_area: Area,
    pub chroma_format: i32,
    /// Format and range, primaries, transfer, matrix.
    pub signal: [u8; 4],
}

/// What a decoder is created with.
#[derive(Clone, Copy)]
pub struct Plan {
    pub surfaces: i32,
    pub codec: i32,
    pub chroma_format: i32,
    pub coded_width: u32,
    pub coded_height: u32,
    pub bit_depth_minus8: u8,
    /// The part of the picture that is shown: left, top, right, bottom.
    pub area: (i16, i16, i16, i16),
    pub output_format: i32,
    pub deinterlace_mode: i32,
    pub target_width: u32,
    pub target_height: u32,
    /// An older decoder has to be destroyed first.
    pub replaces: bool,
}

/// What to do when a sequence starts.
pub enum Sequence {
    /// The decoder stays; the number of surfaces is told to the parser.
    Keep(i32),
    /// A decoder is created.
    Create(Plan),
}

/// Everything that the parser's calls touch.
pub struct State {
    /// There is a decoder.
    pub decoder: bool,
    /// The format for which the decoder was created.
    pub fmt: Option<VideoFormat>,
    pub out_w: u32,
    pub out_h: u32,
    pub surface_h: u32,
    pub high_depth: bool,
    pub ready: Vec<DecodedFrame>,
    pub error: Option<String>,
}

/// How many surfaces a stream gets: what it needs, and two more.
pub open spec fn surfaces_of(f: VideoFormat) -> int {
    (if f.min_num_decode_surfaces == 0 {
        1int
    } else {
        f.min_num_decode_surfaces as int
    }) + 2
}

/// A decoder for one format can go on with the other.
pub open spec fn same_stream(a: VideoFormat, b: VideoFormat) -> bool {
    &&& a.coded_width == b.coded_width
    &&& a.coded_height == b.coded_height
    &&& a.chroma_format == b.chroma_format
    &&& a.bit_depth_luma_minus8 == b.bit_depth_luma_minus8
}

/// The length of a side of the shown part, at least one.
pub open spec fn side(from: i32, to: i32) -> int {
    if to - from < 1 {
        1
    } else {
        to - from
    }
}

/// The decoder that a format needs.
pub open spec fn is_plan_for(p: Plan, f: VideoFormat) -> bool {
    &&& p.surfaces == surfaces_of(f)
    &&& p.codec == f.codec
    &&& p.chroma_format == f.chroma_format
    &&& p.coded_width == f.coded_width
    &&& p.coded_height == f.coded_height
    &&& p.bit_depth_minus8 == f.bit_depth_luma_minus8
    &&& p.area == (
        f.display_area.left as i16,
        f.display_area.top as i16,
        f.display_area.right as i16,
        f.display_area.bottom as i16,
    )
    &&& p.output_format == (if f.bit_depth_luma_minus8 > 0 {
        SURFACE_P016
    } else {
        SURFACE_NV12
    })
    &&& p.deinterlace_mode == (if f.progressive {
        DEINTERLACE_WEAVE
    } else {
        DEINTERLACE_ADAPTIVE
    })
    &&& p.target_width == side(f.display_area.left, f.display_area.right)
    &&& p.target_height == side(f.display_area.top, f.display_area.bottom)
}

fn side_len(from: i32, to: i32) -> (r: u32)
    ensures
        r == side(from, to),
        r > 0,
{
    let d: i64 = to as i64 - from as i64;
    if d < 1 {
        1
    } else {
        d as u32
    }
}

/// How a picture is copied out of video memory: luma, then chroma, without gaps.
#[derive(Clone, Copy)]
pub struct Copy2D {
    /// Bytes of a row.
    pub row: usize,
    /// Rows of luma and of chroma.
    pub luma_rows: usize,
    pub chroma_rows: usize,
    /// Where chroma starts in the copy.
    pub chroma_at: usize,
    /// Bytes of the copy.
    pub size: usize,
    /// Where chroma is in video memory.
    pub chroma_src: u64,
}

impl State {
    /// There is a format exactly while there is a decoder, and pictures are not empty.
    pub open spec fn wf(&self) -> bool {
        &&& self.decoder <==> self.fmt is Some
        &&& self.decoder ==> self.out_w > 0 && self.out_h > 0 && self.surface_h == self.out_h
    }

    /// The pictures and the error are the same.
    pub open spec fn same_results(&self, other: &State) -> bool {
        self.ready == other.ready && self.error == other.error
    }

    /// The decoder and its format are the same.
    pub open spec fn same_setup(&self, other: &State) -> bool {
        &&& self.decoder == other.decoder
        &&& self.fmt == other.fmt
        &&& self.out_w == other.out_w
        &&& self.out_h == other.out_h
        &&& self.surface_h == other.surface_h
        &&& self.high_depth == other.high_depth
    }

    /// No stream yet.
    pub fn new() -> (r: State)
        ensures
            r.wf(),
            !r.decoder,
            r.ready@.len() == 0,
            r.error is None,
    {
        State {
            decoder: false,
            fmt: None,
            out_w: 0,
            out_h: 0,
            surface_h: 0,
            high_depth: false,
            ready: Vec::new(),
            error: None,
        }
    }

    /// A sequence starts. A decoder for the same stream stays; else it is replaced. Only 4:2:0
    /// and grey streams are decoded.
    pub fn sequence(&mut self, f: &VideoFormat) -> (r: PipeResult<Sequence>)
        requires
            old(self).wf(),
        ensures
            final(self).wf(),
            final(self).same_results(old(self)),
            if old(self).fmt matches Some(now) && same_stream(now, *f) {
                &&& *final(self) == *old(self)
                &&& r matches Ok(Sequence::Keep(n)) && n == surfaces_of(*f)
            } else if f.chroma_format != CHROMA_420 && f.chroma_format != CHROMA_MONO {
                &&& *final(self) == *old(self)
                &&& r matches Err(e) && e@ == "the plugin's NVDEC path supports 4:2:0 only"@
            } else {
                &&& !final(self).decoder
                &&& r matches Ok(Sequence::Create(p)) && is_plan_for(p, *f) && p.replaces
                    == old(self).decoder
            },
    {
        let least: u8 = if f.min_num_decode_surfaces == 0 {
            1
        } else {
            f.min_num_decode_surfaces
        };
        let surfaces: i32 = least as i32 + 2;
        if let Some(now) = &self.fmt {
            if now.coded_width == f.coded_width && now.coded_height == f.coded_height
                && now.chroma_format == f.chroma_format && now.bit_depth_luma_minus8
                == f.bit_depth_luma_minus8 {
                return Ok(Sequence::Keep(surfaces));
            }
        }
        if f.chroma_format != CHROMA_420 && f.chroma_format != CHROMA_MONO {
            return Err("the plugin's NVDEC path supports 4:2:0 only".to_owned());
        }
        let replaces = self.decoder;
        self.decoder = false;
        self.fmt = None;
        let a = f.display_area;
        Ok(
            Sequence::Create(
                Plan {
                    surfaces,
                    codec: f.codec,
                    chroma_format: f.chroma_format,
                    coded_width: f.coded_width,
                    coded_height: f.coded_height,
                    bit_depth_minus8: f.bit_depth_luma_minus8,
                    area: (
                        #[verifier::truncate]
                        (a.left as i16),
                        #[verifier::truncate]
                        (a.top as i16),
                        #[verifier::truncate]
                        (a.right as i16),
                        #[verifier::truncate]
                        (a.bottom as i16),
                    ),
                    output_format: if f.bit_depth_luma_minus8 > 0 {
                        SURFACE_P016
                    } else {
                        SURFACE_NV12
                    },
                    deinterlace_mode: if f.progressive {
                        DEINTERLACE_WEAVE
                    } else {
                        DEINTERLACE_ADAPTIVE
                    },
                    target_width: side_len(a.left, a.right),
                    target_height: side_len(a.top, a.bottom),
                    replaces,
                },
            ),
        )
    }

    /// The driver created a decoder, or did not. The number of surfaces is told to the parser.
    pub fn created(&mut self, f: &VideoFormat, plan: &Plan, outcome: PipeResult<()>) -> (r:
        PipeResult<i32>)
        requires
            old(self).wf(),
            !old(self).decoder,
            is_plan_for(*plan, *f),
        ensures
            final(self).wf(),
            final(self).same_results(old(self)),
            match outcome {
                Err(e) => *final(self) == *old(self) && r == Err::<i32, String>(e),
                Ok(_) => {
                    &&& r == Ok::<i32, String>(plan.surfaces)
                    &&& final(self).fmt == Some(*f)
                    &&& final(self).out_w == plan.target_width
                    &&& final(self).out_h == plan.target_height
                    &&& final(self).high_depth == (f.bit_depth_luma_minus8 > 0)
                },
            },
    {
        match outcome {
            Err(e) => Err(e),
            Ok(_) => {
                self.decoder = true;
                self.fmt = Some(*f);
                self.out_w = plan.target_width;
                self.out_h = plan.target_height;
                self.surface_h = plan.target_height;
                self.high_depth = f.bit_depth_luma_minus8 > 0;
                Ok(plan.surfaces)
            },
        }
    }

    // -------------------------------------------------------------- pictures

    /// The bytes of a row.
    pub open spec fn row(&self) -> int {
        self.out_w * (if self.high_depth {
            2int
        } else {
            1
        })
    }

    /// Rows of chroma.
    pub open spec fn chroma_rows(&self) -> int {
        (self.out_h + 1) / 2
    }

    /// The bytes of a picture.
    pub open spec fn size(&self) -> int {
        self.row() * (self.out_h + self.chroma_rows())
    }

    /// Where chroma is in video memory: behind an even number of luma rows.
    pub open spec fn chroma_src(&self, dptr: u64, pitch: u32) -> int {
        dptr + pitch * ((self.surface_h + 1) / 2 * 2)
    }

    /// How a picture is copied out of video memory, where it lies at `dptr` with `pitch` bytes
    /// per row. `None`: it does not fit in memory.
    pub fn copy_plan(&self, dptr: u64, pitch: u32) -> (r: Option<Copy2D>)
        requires
            self.wf(),
            self.decoder,
        ensures
            match r {
                Some(c) => {
                    &&& c.row == self.row()
                    &&& c.luma_rows == self.out_h
                    &&& c.chroma_rows == self.chroma_rows()
                    &&& c.chroma_at == self.row() * self.out_h
                    &&& c.size == self.size()
                    &&& c.chroma_src == self.chroma_src(dptr, pitch)
                },
                None => self.size() > usize::MAX || self.chroma_src(dptr, pitch) > u64::MAX,
            },
    {
        let w: usize = self.out_w as usize;
        let h: usize = self.out_h as usize;
        let ch: usize = h / 2 + h % 2;
        let ghost all = self.out_h + self.chroma_rows();
        proof {
            assert(self.row() <= self.row() * all && all <= self.row() * all && 0 <= self.row()
                * self.out_h <= self.row() * all) by (nonlinear_arith)
                requires
                    self.row() >= 1,
                    1 <= self.out_h <= all,
            ;
        }
        let rows: usize = match h.checked_add(ch) {
            Some(n) => n,
            None => {
                return None;
            },
        };
        let row: usize = if self.high_depth {
            match w.checked_mul(2) {
                Some(n) => n,
                None => {
                    return None;
                },
            }
        } else {
            w
        };
        let size: usize = match row.checked_mul(rows) {
            Some(n) => n,
            None => {
                return None;
            },
        };
        let even: u64 = (self.surface_h as u64 + 1) / 2 * 2;
        assert(0 <= pitch * even <= 0xffff_ffff * 0x1_0000_0000) by (nonlinear_arith)
            requires
                0 <= pitch <= 0xffff_ffff,
                0 <= even <= 0x1_0000_0000,
        ;
        let chroma_src: u64 = match dptr.checked_add(pitch as u64 * even) {
            Some(n) => n,
            None => {
                return None;
            },
        };
        Some(
            Copy2D {
                row,
                luma_rows: h,
                chroma_rows: ch,
                chroma_at: row * h,
                size,
                chroma_src,
            },
        )
    }

    /// The shape of a picture of the format `f`.
    pub open spec fn shows(&self, s: Shape, f: VideoFormat, timestamp: i64) -> bool {
        &&& s.width == self.out_w
        &&& s.height == self.out_h
        // samples of more than eight bits lie in the high bits of a word
        &&& s.bit_depth == (if self.high_depth {
            16u32
        } else {
            8u32
        })
        &&& s.chroma == (if f.chroma_format == CHROMA_MONO {
            Chroma::Mono
        } else {
            Chroma::Sub420
        })
        &&& s.matrix == matrix_of(f.signal@[3], self.out_h)
        &&& s.full_range == ((f.signal@[0] / 8) % 2 == 1)
        &&& s.y_stride == self.row()
        &&& s.u_stride == self.row()
        &&& s.pts == crate::media::video::decode::micros_of(timestamp)
    }

    /// A picture was copied out of video memory, or was not. `host` is the copy.
    pub fn display(&mut self, host: &[u8], timestamp: i64, copied: PipeResult<()>) -> (r: PipeResult<
        (),
    >)
        requires
            old(self).wf(),
            old(self).decoder,
            host@.len() == old(self).size(),
        ensures
            final(self).wf(),
            final(self).same_setup(old(self)),
            final(self).error == old(self).error,
            match copied {
                Err(e) => r == Err::<(), String>(e) && final(self).ready == old(self).ready,
                Ok(_) => {
                    &&& r is Ok
                    &&& exists|s: Shape, y: &[u8], uv: &[u8]| #[trigger]
                        shown_as(s, y, uv, old(self).ready@, final(self).ready@) && old(self).shows(
                            s,
                            old(self).fmt->0,
                            timestamp,
                        ) && y@ + uv@ == host@ && y@.len() == old(self).row() * old(self).out_h
                },
            },
    {
        if let Err(e) = copied {
            return Err(e);
        }
        let f: VideoFormat = match self.fmt {
            Some(f) => f,
            None => {
                return Err("frame without a format".to_owned());
            },
        };
        let ghost all = self.out_h + self.chroma_rows();
        proof {
            assert(self.row() <= self.row() * all && 0 <= self.row() * self.out_h <= self.row()
                * all) by (nonlinear_arith)
                requires
                    self.row() >= 1,
                    1 <= self.out_h <= all,
            ;
        }
        let n: usize = host.len();
        let row: usize = if self.high_depth {
            self.out_w as usize * 2
        } else {
            self.out_w as usize
        };
        let at: usize = row * self.out_h as usize;
        let y = vstd::slice::slice_subrange(host, 0, at);
        let uv = vstd::slice::slice_subrange(host, at, n);
        assert(y@ + uv@ =~= host@);
        let m: u8 = f.signal[3];
        let matrix = if m == 1 {
            Matrix::Bt709
        } else if m == 9 || m == 10 {
            Matrix::Bt2020
        } else if m == 5 || m == 6 {
            Matrix::Bt601
        } else {
            Matrix::guess(self.out_h)
        };
        let s = Shape {
            width: self.out_w,
            height: self.out_h,
            bit_depth: if self.high_depth {
                16
            } else {
                8
            },
            chroma: if f.chroma_format == CHROMA_MONO {
                Chroma::Mono
            } else {
                Chroma::Sub420
            },
            matrix,
            full_range: (f.signal[0] / 8) % 2 == 1,
            y_stride: row,
            u_stride: row,
            v_stride: row,
            y_len: at,
            u_len: n - at,
            v_len: n - at,
            pts: signed_micros(timestamp),
        };
        if let Some(frame) = s.interleaved(y, uv) {
            self.ready.push(frame);
            assert(self.ready@.drop_last() =~= old(self).ready@);
        }
        assert(shown_as(s, y, uv, old(self).ready@, self.ready@));
        Ok(())
    }

    // -------------------------------------------------------------- answers

    /// What a call of the parser gets back: the answer, or 0 after an error, which is kept.
    pub fn answer(&mut self, r: PipeResult<i32>) -> (code: i32)
        requires
            old(self).wf(),
        ensures
            final(self).wf(),
            final(self).same_setup(old(self)),
            final(self).ready == old(self).ready,
            match r {
                Ok(v) => code == v && final(self).error == old(self).error,
                Err(e) => code == 0 && final(self).error == Some(e),
            },
    {
        match r {
            Ok(v) => v,
            Err(e) => {
                self.error = Some(e);
                0
            },
        }
    }

    /// A picture is to be decoded. `asked` is what the driver said; without a decoder it is not
    /// asked.
    pub fn decode(&mut self, asked: Option<PipeResult<()>>) -> (code: i32)
        requires
            old(self).wf(),
        ensures
            final(self).wf(),
            final(self).same_setup(old(self)),
            final(self).ready == old(self).ready,
            match asked {
                None => code == 0 && final(self).error == old(self).error,
                Some(Ok(_)) => code == 1 && final(self).error == old(self).error,
                Some(Err(e)) => code == 0 && final(self).error == Some(e),
            },
    {
        match asked {
            None => 0,
            Some(Ok(_)) => 1,
            Some(Err(e)) => {
                self.error = Some(e);
                0
            },
        }
    }

    /// The parser took a packet. An error of one of its calls comes first, then its own; else
    /// the pictures that are ready are handed out.
    pub fn collect(&mut self, parsed: PipeResult<()>) -> (r: PipeResult<Vec<DecodedFrame>>)
        requires
            old(self).wf(),
        ensures
            final(self).wf(),
            final(self).same_setup(old(self)),
            final(self).error is None,
            match old(self).error {
                Some(e) => r == Err::<Vec<DecodedFrame>, String>(e) && final(self).ready
                    == old(self).ready,
                None => match parsed {
                    Err(e) => r == Err::<Vec<DecodedFrame>, String>(e) && final(self).ready
                        == old(self).ready,
                    Ok(_) => r == Ok::<Vec<DecodedFrame>, String>(old(self).ready)
                        && final(self).ready@.len() == 0,
                },
            },
    {
        if let Some(e) = self.error.take() {
            return Err(e);
        }
        match parsed {
            Err(e) => Err(e),
            Ok(_) => {
                let mut out: Vec<DecodedFrame> = Vec::new();
                std::mem::swap(&mut out, &mut self.ready);
                Ok(out)
            },
        }
    }

    /// The stream starts over. `parser` is what making a new parser gave.
    pub fn reset(&mut self, parser: PipeResult<()>)
        requires
            old(self).wf(),
        ensures
            final(self).wf(),
            final(self).same_setup(old(self)),
            final(self).ready@.len() == 0,
            match parser {
                Ok(_) => final(self).error is None,
                Err(e) => final(self).error == Some(e),
            },
    {
        self.ready.clear();
        self.error = match parser {
            Ok(_) => None,
            Err(e) => Some(e),
        };
    }
}

/// What the end of the stream gives: an error of the new parser comes first.
pub fn flushed(out: PipeResult<Vec<DecodedFrame>>, parser: PipeResult<()>) -> (r: PipeResult<
    Vec<DecodedFrame>,
>)
    ensures
        match parser {
            Err(e) => r == Err::<Vec<DecodedFrame>, String>(e),
            Ok(_) => r == out,
        },
{
    match parser {
        Err(e) => Err(e),
        Ok(_) => out,
    }
}

/// The matrix that a stream tells; an unknown one is guessed from the height.
pub open spec fn matrix_of(code: u8, height: u32) -> Matrix {
    if code == 1 {
        Matrix::Bt709
    } else if code == 9 || code == 10 {
        Matrix::Bt2020
    } else if code == 5 || code == 6 {
        Matrix::Bt601
    } else {
        crate::media::video::yuv::guessed_matrix(height)
    }
}

/// The picture was added to the ready ones, if it can be converted.
pub open spec fn shown_as(
    s: Shape,
    y: &[u8],
    uv: &[u8],
    before: Seq<DecodedFrame>,
    after: Seq<DecodedFrame>,
) -> bool {
    let img = crate::media::video::decode::image_of(
        s,
        y,
        crate::media::video::yuv::ChromaPlanes::Interleaved(
            crate::media::video::yuv::Plane { data: uv, stride: s.u_stride },
        ),
    );
    if img.convertible() {
        &&& after.len() == before.len() + 1
        &&& after.drop_last() == before
        &&& crate::media::video::decode::is_frame_of(after.last(), s.pts, img)
    } else {
        after == before
    }
}

/// Going on with one decoder carries over: if it can go on from the first format to the second
/// and from the second to the third, it can go on from the first to the third.
pub proof fn a_stream_keeps_its_decoder(f: VideoFormat, g: VideoFormat, h: VideoFormat)
    requires
        same_stream(f, g),
        same_stream(g, h),
    ensures
        same_stream(f, f),
        same_stream(f, h),
{
}

} // verus!
