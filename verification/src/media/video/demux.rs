//! Demuxers: MP4/MOV and WebM/MKV.
//!
//! A file is never read into memory whole: of an MP4 only the index is taken, and samples are
//! read by their offset. Packets come out in the form that decoders expect: H.264 and HEVC as
//! Annex-B with parameter sets before keyframes, AV1, VP8 and VP9 as the container holds them.
//! Reading the file is the program's; what is read and what becomes of it is decided here.

use crate::clock::Nanos;
use crate::media::video::bitstream::{parse_avcc, parse_hvcc, to_annexb, NalConfig};
use crate::media::video::pipeline::{Codec, Packet, PipeResult, VideoInfo};
use crate::path::extension;
use crate::text::{decimal, head, joined, same, to_lower};
use vstd::prelude::*;
use vstd::string::*;

verus! {

/// How a sample of the container becomes a packet.
pub enum Framing {
    /// NAL units with their lengths become Annex-B.
    Nal(NalConfig),
    /// As it is (AV1, VP8, VP9).
    Raw,
}

/// What the codec configuration of a container says of H.264 and HEVC: the size of the length
/// field and the parameter sets.
pub open spec fn nal_content(codec: Codec, config: Option<Seq<u8>>) -> Option<
    (int, Seq<Seq<u8>>),
> {
    match (codec, config) {
        (Codec::H264, Some(raw)) => crate::media::video::bitstream::avcc_content(raw),
        (Codec::Hevc, Some(raw)) => crate::media::video::bitstream::hvcc_content(raw),
        _ => None,
    }
}

/// A byte string, if there is one.
pub open spec fn bytes_of(b: Option<&[u8]>) -> Option<Seq<u8>> {
    match b {
        Some(s) => Some(s@),
        None => None,
    }
}

/// What becomes of a sample: the bytes of the packet, `None` if the sample is broken.
pub open spec fn framed(f: Framing, sample: Seq<u8>, keyframe: bool) -> Option<Seq<u8>> {
    match f {
        Framing::Nal(cfg) => crate::media::video::bitstream::annexb(
            sample,
            cfg.length_size as int,
            cfg.sets(),
            keyframe,
        ),
        Framing::Raw => Some(sample),
    }
}

impl Framing {
    /// Lengths take at least one byte.
    pub open spec fn wf(&self) -> bool {
        self matches Framing::Nal(cfg) ==> cfg.length_size > 0
    }

    /// The framing says what the container's configuration says.
    pub open spec fn follows(&self, codec: Codec, config: Option<Seq<u8>>) -> bool {
        if codec is H264 || codec is Hevc {
            &&& self matches Framing::Nal(cfg)
            &&& nal_content(codec, config) == Some((cfg.length_size as int, cfg.sets()))
        } else {
            *self is Raw
        }
    }

    /// The framing of a codec. `config` is the codec configuration of the container.
    pub fn for_codec(codec: &Codec, config: Option<&[u8]>) -> (r: PipeResult<Framing>)
        ensures
            match r {
                Ok(f) => f.wf() && f.follows(*codec, bytes_of(config)),
                Err(e) => {
                    &&& nal_content(*codec, bytes_of(config)) is None
                    &&& (codec is H264 && e@ == "H.264 avcC missing or broken"@) || (codec is Hevc
                        && e@ == "HEVC hvcC missing or broken"@)
                },
            },
    {
        match codec {
            Codec::H264 => {
                if let Some(raw) = config {
                    if let Some(cfg) = parse_avcc(raw) {
                        return Ok(Framing::Nal(cfg));
                    }
                }
                Err("H.264 avcC missing or broken".to_owned())
            },
            Codec::Hevc => {
                if let Some(raw) = config {
                    if let Some(cfg) = parse_hvcc(raw) {
                        return Ok(Framing::Nal(cfg));
                    }
                }
                Err("HEVC hvcC missing or broken".to_owned())
            },
            _ => Ok(Framing::Raw),
        }
    }

    /// The packet of a sample, `None` if the sample is broken.
    pub fn packet(&self, data: Vec<u8>, pts: Nanos, keyframe: bool) -> (r: Option<Packet>)
        requires
            self.wf(),
        ensures
            match framed(*self, data@, keyframe) {
                Some(bytes) => r matches Some(p) && p.pts == pts && p.keyframe == keyframe && p.data@
                    == bytes,
                None => r is None,
            },
    {
        let data = match self {
            Framing::Nal(cfg) => match to_annexb(data.as_slice(), cfg, keyframe) {
                Some(d) => d,
                None => {
                    return None;
                },
            },
            Framing::Raw => data,
        };
        Some(Packet { pts, keyframe, data })
    }
}

/// What a file is packed in.
#[derive(Debug, Clone, Copy, PartialEq, Eq, Structural)]
pub enum Container {
    Mp4,
    Matroska,
}

/// How many bytes of a file are looked at.
pub const HEAD: usize = 12;

/// The four letters of the first box of an MP4 or MOV file.
pub open spec fn is_mp4_box(b: Seq<u8>) -> bool {
    ||| b == seq![0x66u8, 0x74u8, 0x79u8, 0x70u8]
    ||| b == seq![0x6du8, 0x6fu8, 0x6fu8, 0x76u8]
    ||| b == seq![0x6du8, 0x64u8, 0x61u8, 0x74u8]
    ||| b == seq![0x77u8, 0x69u8, 0x64u8, 0x65u8]
    ||| b == seq![0x66u8, 0x72u8, 0x65u8, 0x65u8]
    ||| b == seq![0x73u8, 0x6bu8, 0x69u8, 0x70u8]
}

/// The container by the first bytes of a file, `None` if they say nothing.
pub open spec fn container_in(head: Seq<u8>) -> Option<Container> {
    if head.len() >= 4 && head.take(4) == seq![0x1au8, 0x45u8, 0xdfu8, 0xa3u8] {
        Some(Container::Matroska)
    } else if head.len() >= 8 && is_mp4_box(head.subrange(4, 8)) {
        Some(Container::Mp4)
    } else {
        None
    }
}

/// The extension of a path in lower case, nothing if there is none.
pub open spec fn lower_extension(path: Seq<char>) -> Seq<char> {
    match crate::path::extension_of(path) {
        Some(e) => crate::text::lowered(e),
        None => ""@,
    }
}

/// The container by the extension of the file.
pub open spec fn container_named(ext: Seq<char>) -> Option<Container> {
    if ext == "mp4"@ || ext == "m4v"@ || ext == "mov"@ {
        Some(Container::Mp4)
    } else if ext == "webm"@ || ext == "mkv"@ {
        Some(Container::Matroska)
    } else {
        None
    }
}

/// Four bytes at `at`.
fn four(b: &[u8], at: usize, v: [u8; 4]) -> (r: bool)
    requires
        at + 4 <= b@.len(),
    ensures
        r == (b@.subrange(at as int, at + 4) == v@),
{
    let n: usize = b.len();
    let r = b[at] == v[0] && b[at + 1] == v[1] && b[at + 2] == v[2] && b[at + 3] == v[3];
    let ghost s = b@.subrange(at as int, at + 4);
    proof {
        if r {
            assert(s =~= v@);
        } else if s == v@ {
            assert(s[0] == v@[0] && s[1] == v@[1] && s[2] == v@[2] && s[3] == v@[3]);
        }
    }
    r
}

/// Whether `b` holds the four letters of an MP4 box at 4.
fn mp4_box(b: &[u8]) -> (r: bool)
    requires
        b@.len() >= 8,
    ensures
        r == is_mp4_box(b@.subrange(4, 8)),
{
    let boxes: [[u8; 4]; 6] = [
        [0x66, 0x74, 0x79, 0x70],
        [0x6d, 0x6f, 0x6f, 0x76],
        [0x6d, 0x64, 0x61, 0x74],
        [0x77, 0x69, 0x64, 0x65],
        [0x66, 0x72, 0x65, 0x65],
        [0x73, 0x6b, 0x69, 0x70],
    ];
    assert(boxes[0]@ =~= seq![0x66u8, 0x74u8, 0x79u8, 0x70u8]);
    assert(boxes[1]@ =~= seq![0x6du8, 0x6fu8, 0x6fu8, 0x76u8]);
    assert(boxes[2]@ =~= seq![0x6du8, 0x64u8, 0x61u8, 0x74u8]);
    assert(boxes[3]@ =~= seq![0x77u8, 0x69u8, 0x64u8, 0x65u8]);
    assert(boxes[4]@ =~= seq![0x66u8, 0x72u8, 0x65u8, 0x65u8]);
    assert(boxes[5]@ =~= seq![0x73u8, 0x6bu8, 0x69u8, 0x70u8]);
    four(b, 4, boxes[0]) || four(b, 4, boxes[1]) || four(b, 4, boxes[2]) || four(b, 4, boxes[3])
        || four(b, 4, boxes[4]) || four(b, 4, boxes[5])
}

/// What a look at a file says. Its first bytes decide, for extensions cannot be trusted; if
/// they say nothing, the extension does.
pub open spec fn sniffed(r: PipeResult<Container>, path: Seq<char>, head: Result<&[u8], String>) -> bool {
    match head {
        Err(e) => r == Err::<Container, String>(e),
        Ok(b) => match container_in(b@) {
            Some(c) => r == Ok::<Container, String>(c),
            None => match container_named(lower_extension(path)) {
                Some(c) => r == Ok::<Container, String>(c),
                None => r matches Err(e) && e@ == "container ."@ + lower_extension(path)
                    + " is not supported"@,
            },
        },
    }
}

/// The container of a file. `head` is its first bytes, or why they cannot be read.
pub fn sniff(path: &str, head: Result<&[u8], String>) -> (r: PipeResult<Container>)
    ensures
        sniffed(r, path@, head),
{
    let b = match head {
        Ok(b) => b,
        Err(e) => {
            return Err(e);
        },
    };
    let n: usize = b.len();
    if n >= 4 {
        assert(b@.take(4) =~= b@.subrange(0, 4));
        let magic: [u8; 4] = [0x1a, 0x45, 0xdf, 0xa3];
        assert(magic@ =~= seq![0x1au8, 0x45u8, 0xdfu8, 0xa3u8]);
        if four(b, 0, magic) {
            return Ok(Container::Matroska);
        }
    }
    if n >= 8 && mp4_box(b) {
        return Ok(Container::Mp4);
    }
    let ext = match extension(path) {
        Some(e) => to_lower(e.as_str()),
        None => "".to_owned(),
    };
    let e = ext.as_str();
    if same(e, "mp4") || same(e, "m4v") || same(e, "mov") {
        Ok(Container::Mp4)
    } else if same(e, "webm") || same(e, "mkv") {
        Ok(Container::Matroska)
    } else {
        let mut msg = "container .".to_owned();
        msg.append(e);
        msg.append(" is not supported");
        Err(msg)
    }
}

/// Which demuxer opens a file. `first` is what reading from its start gave: at most the first
/// bytes are looked at.
pub fn open(path: &str, first: Result<Vec<u8>, String>) -> (r: PipeResult<Container>)
    ensures
        match first {
            Err(e) => r == Err::<Container, String>(e),
            Ok(b) => exists|head: &[u8]| #[trigger]
                sniffed(r, path@, Ok(head)) && head@ == (if b@.len() <= HEAD {
                    b@
                } else {
                    b@.take(HEAD as int)
                }),
        },
{
    match first {
        Err(e) => Err(e),
        Ok(b) => {
            let n: usize = if b.len() <= HEAD {
                b.len()
            } else {
                HEAD
            };
            let head = vstd::slice::slice_subrange(b.as_slice(), 0, n);
            assert(head@ =~= (if b@.len() <= HEAD {
                b@
            } else {
                b@.take(HEAD as int)
            }));
            let r = sniff(path, Ok(head));
            assert(sniffed(r, path@, Ok(head)));
            r
        },
    }
}

// ------------------------------------------------------------------ MP4 / MOV

/// What the sample description of an MP4 track is.
pub enum Mp4Content {
    Av01,
    Avc1,
    Hev1,
    Hvc1,
    Vp08,
    Vp09,
    /// Something else; the text describes it.
    Unknown(String),
}

/// How many characters of a foreign description are kept.
pub const SHORT: usize = 16;

/// One sample of a track, as the index of the file gives it.
#[derive(Debug, Clone, Copy)]
pub struct Sample {
    pub id: u32,
    pub offset: u64,
    pub size: u64,
    /// Units of time per second; 0 if the track does not say.
    pub timescale: u64,
    /// The moment of the sample in units of time, as a span; what it is without units does
    /// not matter.
    pub stamp: Nanos,
    pub is_sync: bool,
}

/// A track of an MP4 file, as its index gives it.
pub struct Mp4Track {
    pub video: bool,
    pub width: u16,
    pub height: u16,
    pub content: Mp4Content,
    pub config: Option<Vec<u8>>,
    /// Units of time per second.
    pub timescale: u64,
    /// The length in units of time.
    pub duration: u64,
    /// The length as a span; what it is without units does not matter.
    pub length: Nanos,
    pub samples: Vec<Sample>,
}

/// The largest sample that is read.
pub const LARGEST_SAMPLE: u64 = 268_435_456;

/// A sample of this size is read.
pub open spec fn is_usable(s: Sample) -> bool {
    0 < s.size <= LARGEST_SAMPLE
}

/// The first usable sample from `from` on, the number of samples if there is none.
pub open spec fn next_usable(samples: Seq<Sample>, from: int) -> int
    decreases samples.len() - from,
{
    if from < 0 || from >= samples.len() {
        samples.len() as int
    } else if is_usable(samples[from]) {
        from
    } else {
        next_usable(samples, from + 1)
    }
}

/// The codec that a sample description stands for.
pub open spec fn is_codec_of(c: Codec, content: Mp4Content) -> bool {
    match content {
        Mp4Content::Av01 => c is Av1,
        Mp4Content::Avc1 => c is H264,
        Mp4Content::Hev1 => c is Hevc,
        Mp4Content::Hvc1 => c is Hevc,
        Mp4Content::Vp08 => c is Vp8,
        Mp4Content::Vp09 => c is Vp9,
        Mp4Content::Unknown(text) => c matches Codec::Other(t) && t@ == crate::text::first_chars(
            text@,
            SHORT as nat,
        ),
    }
}

/// The codec of an MP4 track.
pub fn codec_from_mp4(content: &Mp4Content) -> (r: Codec)
    ensures
        is_codec_of(r, *content),
{
    match content {
        Mp4Content::Av01 => Codec::Av1,
        Mp4Content::Avc1 => Codec::H264,
        Mp4Content::Hev1 => Codec::Hevc,
        Mp4Content::Hvc1 => Codec::Hevc,
        Mp4Content::Vp08 => Codec::Vp8,
        Mp4Content::Vp09 => Codec::Vp9,
        Mp4Content::Unknown(text) => Codec::Other(head(text.as_str(), SHORT).to_owned()),
    }
}

/// The index of an MP4 file, and where in it the reader is.
pub struct Mp4Demux {
    pub info: VideoInfo,
    pub framing: Framing,
    pub samples: Vec<Sample>,
    pub next: usize,
}

/// The first video track, the number of tracks if there is none.
pub open spec fn first_video(tracks: Seq<Mp4Track>, from: int) -> int
    decreases tracks.len() - from,
{
    if from < 0 || from >= tracks.len() {
        tracks.len() as int
    } else if tracks[from].video {
        from
    } else {
        first_video(tracks, from + 1)
    }
}

/// A configuration, if there is one.
pub open spec fn config_of(c: Option<Vec<u8>>) -> Option<Seq<u8>> {
    match c {
        Some(v) => Some(v@),
        None => None,
    }
}

impl Mp4Demux {
    /// The reader is inside the index or at its end.
    pub open spec fn wf(&self) -> bool {
        self.framing.wf() && self.next <= self.samples@.len()
    }

    /// The reader of a track, at its start.
    pub open spec fn reads(&self, t: Mp4Track) -> bool {
        &&& self.info.width == t.width
        &&& self.info.height == t.height
        &&& self.info.duration == (if t.timescale > 0 && t.duration > 0 {
            Some(t.length)
        } else {
            None
        })
        &&& is_codec_of(self.info.codec, t.content)
        &&& self.framing.follows(self.info.codec, config_of(t.config))
        &&& self.samples == t.samples
        &&& self.next == 0
    }

    /// The reader of the first video track.
    pub fn open(tracks: Vec<Mp4Track>) -> (r: PipeResult<Mp4Demux>)
        ensures
            ({
                let i = first_video(tracks@, 0);
                if i >= tracks@.len() {
                    r matches Err(e) && e@ == "no video track in MP4"@
                } else {
                    match r {
                        Ok(d) => d.wf() && d.reads(tracks@[i]),
                        Err(e) => {
                            ||| tracks@[i].content is Avc1 && nal_content(
                                Codec::H264,
                                config_of(tracks@[i].config),
                            ) is None && e@ == "H.264 avcC missing or broken"@
                            ||| (tracks@[i].content is Hev1 || tracks@[i].content is Hvc1)
                                && nal_content(Codec::Hevc, config_of(tracks@[i].config)) is None
                                && e@ == "HEVC hvcC missing or broken"@
                        },
                    }
                }
            }),
    {
        let mut tracks = tracks;
        let ghost all = tracks@;
        let mut i: usize = 0;
        while i < tracks.len() && !tracks[i].video
            invariant
                tracks@ == all,
                i <= all.len(),
                first_video(all, 0) == first_video(all, i as int),
            decreases all.len() - i,
        {
            i += 1;
        }
        if i >= tracks.len() {
            return Err("no video track in MP4".to_owned());
        }
        let t = tracks.swap_remove(i);
        let codec = codec_from_mp4(&t.content);
        let config: Option<&[u8]> = match &t.config {
            Some(c) => Some(c.as_slice()),
            None => None,
        };
        assert(bytes_of(config) == config_of(t.config));
        let framing = match Framing::for_codec(&codec, config) {
            Ok(f) => f,
            Err(e) => {
                return Err(e);
            },
        };
        let duration = if t.timescale > 0 && t.duration > 0 {
            Some(t.length)
        } else {
            None
        };
        Ok(
            Mp4Demux {
                info: VideoInfo {
                    width: t.width as u32,
                    height: t.height as u32,
                    duration,
                    codec,
                },
                framing,
                samples: t.samples,
                next: 0,
            },
        )
    }

    /// The sample to read next, `None` at the end. Samples that are empty or too large are
    /// left out.
    pub fn next_sample(&mut self) -> (r: Option<Sample>)
        requires
            old(self).wf(),
        ensures
            final(self).wf(),
            final(self).info == old(self).info,
            final(self).framing == old(self).framing,
            final(self).samples == old(self).samples,
            ({
                let i = next_usable(old(self).samples@, old(self).next as int);
                if i < old(self).samples@.len() {
                    r == Some(old(self).samples@[i]) && final(self).next == i + 1
                } else {
                    r is None && final(self).next == old(self).samples@.len()
                }
            }),
    {
        let n: usize = self.samples.len();
        while self.next < n
            invariant
                n == self.samples@.len(),
                self.wf(),
                self.info == old(self).info,
                self.framing == old(self).framing,
                self.samples == old(self).samples,
                next_usable(old(self).samples@, old(self).next as int) == next_usable(
                    self.samples@,
                    self.next as int,
                ),
            decreases n - self.next,
        {
            let s = self.samples[self.next];
            self.next = self.next + 1;
            if s.size > 0 && s.size <= LARGEST_SAMPLE {
                return Some(s);
            }
        }
        None
    }

    /// The packet of a sample whose bytes were read, `None` if they are broken: then the next
    /// sample is due.
    pub fn packet(&self, s: &Sample, data: Vec<u8>) -> (r: Option<Packet>)
        requires
            self.wf(),
        ensures
            match framed(self.framing, data@, s.is_sync) {
                Some(bytes) => r matches Some(p) && p.pts == (if s.timescale > 0 {
                    s.stamp
                } else {
                    0
                }) && p.keyframe == s.is_sync && p.data@ == bytes,
                None => r is None,
            },
    {
        let pts: Nanos = if s.timescale > 0 {
            s.stamp
        } else {
            0
        };
        self.framing.packet(data, pts, s.is_sync)
    }

    /// Back to the start.
    pub fn rewind(&mut self)
        requires
            old(self).wf(),
        ensures
            final(self).wf(),
            final(self).next == 0,
            final(self).info == old(self).info,
            final(self).framing == old(self).framing,
            final(self).samples == old(self).samples,
    {
        self.next = 0;
    }
}

/// Why a sample could not be read.
pub fn sample_error(id: u32, why: &str) -> (r: String)
    ensures
        r@ == "MP4 sample "@ + crate::text::decimal_of(id as nat) + ": "@ + why@,
{
    let number = decimal(id as u64);
    let mut out = joined("MP4 sample ", number.as_str());
    out.append(": ");
    out.append(why);
    out
}

// ------------------------------------------------------------------ WebM / MKV

/// A track of a Matroska file.
pub struct MkvTrack {
    pub video: bool,
    pub number: u64,
    pub codec_id: String,
    pub private: Option<Vec<u8>>,
    /// Width and height in pixels.
    pub size: Option<(u64, u64)>,
}

/// A frame of a Matroska file.
pub struct MkvFrame {
    pub track: u64,
    pub timestamp: u64,
    pub is_invisible: bool,
    /// Known only for simple blocks.
    pub is_keyframe: Option<bool>,
    pub data: Vec<u8>,
}

/// What a Matroska demuxer knows of its file.
pub struct MkvDemux {
    pub track: u64,
    /// Nanoseconds per unit of time.
    pub scale_ns: u64,
    pub info: VideoInfo,
    pub framing: Framing,
    /// No packet came out yet, since the file was opened or rewound.
    pub at_start: bool,
}

/// The codec that a Matroska name stands for.
pub open spec fn is_codec_named(c: Codec, id: Seq<char>) -> bool {
    if id == "V_AV1"@ {
        c is Av1
    } else if id == "V_MPEG4/ISO/AVC"@ {
        c is H264
    } else if id == "V_MPEGH/ISO/HEVC"@ {
        c is Hevc
    } else if id == "V_VP8"@ {
        c is Vp8
    } else if id == "V_VP9"@ {
        c is Vp9
    } else {
        c matches Codec::Other(name) && name@ == id
    }
}

/// The codec that a Matroska name stands for.
pub fn codec_from_mkv(id: &str) -> (r: Codec)
    ensures
        is_codec_named(r, id@),
{
    if same(id, "V_AV1") {
        Codec::Av1
    } else if same(id, "V_MPEG4/ISO/AVC") {
        Codec::H264
    } else if same(id, "V_MPEGH/ISO/HEVC") {
        Codec::Hevc
    } else if same(id, "V_VP8") {
        Codec::Vp8
    } else if same(id, "V_VP9") {
        Codec::Vp9
    } else {
        Codec::Other(id.to_owned())
    }
}

/// The first video track, the number of tracks if there is none.
pub open spec fn first_mkv_video(tracks: Seq<MkvTrack>, from: int) -> int
    decreases tracks.len() - from,
{
    if from < 0 || from >= tracks.len() {
        tracks.len() as int
    } else if tracks[from].video {
        from
    } else {
        first_mkv_video(tracks, from + 1)
    }
}

/// The lower 32 bits of a number.
pub open spec fn low32(v: u64) -> u32 {
    (v % 0x1_0000_0000) as u32
}

/// The moment of a frame; it stops at the largest number of 64 bits.
pub open spec fn mkv_time(timestamp: u64, scale_ns: u64) -> Nanos {
    if timestamp * scale_ns > u64::MAX {
        u64::MAX as u128
    } else {
        (timestamp * scale_ns) as u128
    }
}

fn mkv_stamp(timestamp: u64, scale_ns: u64) -> (r: Nanos)
    ensures
        r == mkv_time(timestamp, scale_ns),
{
    match timestamp.checked_mul(scale_ns) {
        Some(v) => v as u128,
        None => u64::MAX as u128,
    }
}

impl MkvDemux {
    /// The reader of a track.
    pub open spec fn reads(&self, t: MkvTrack, scale_ns: u64, duration: Option<Nanos>) -> bool {
        &&& self.track == t.number
        &&& self.scale_ns == scale_ns
        &&& self.info.duration == duration
        &&& (self.info.width, self.info.height) == match t.size {
            Some((w, h)) => (low32(w), low32(h)),
            None => (0u32, 0u32),
        }
        &&& is_codec_named(self.info.codec, t.codec_id@)
        &&& self.framing.follows(self.info.codec, config_of(t.private))
    }

    /// The reader of the first video track. `scale_ns` is the nanoseconds per unit of time and
    /// `duration` the length of the file.
    pub fn open(tracks: &Vec<MkvTrack>, scale_ns: u64, duration: Option<Nanos>) -> (r: PipeResult<
        MkvDemux,
    >)
        ensures
            ({
                let i = first_mkv_video(tracks@, 0);
                if i >= tracks@.len() {
                    r matches Err(e) && e@ == "no video track in MKV"@
                } else {
                    match r {
                        Ok(d) => d.framing.wf() && d.reads(tracks@[i], scale_ns, duration)
                            && d.at_start,
                        Err(e) => {
                            ||| is_codec_named(Codec::H264, tracks@[i].codec_id@) && nal_content(
                                Codec::H264,
                                config_of(tracks@[i].private),
                            ) is None && e@ == "H.264 avcC missing or broken"@
                            ||| is_codec_named(Codec::Hevc, tracks@[i].codec_id@) && nal_content(
                                Codec::Hevc,
                                config_of(tracks@[i].private),
                            ) is None && e@ == "HEVC hvcC missing or broken"@
                        },
                    }
                }
            }),
    {
        let mut i: usize = 0;
        while i < tracks.len() && !tracks[i].video
            invariant
                i <= tracks@.len(),
                first_mkv_video(tracks@, 0) == first_mkv_video(tracks@, i as int),
            decreases tracks@.len() - i,
        {
            i += 1;
        }
        if i >= tracks.len() {
            return Err("no video track in MKV".to_owned());
        }
        let t = &tracks[i];
        let codec = codec_from_mkv(t.codec_id.as_str());
        let config: Option<&[u8]> = match &t.private {
            Some(c) => Some(c.as_slice()),
            None => None,
        };
        assert(bytes_of(config) == config_of(t.private));
        let framing = match Framing::for_codec(&codec, config) {
            Ok(f) => f,
            Err(e) => {
                return Err(e);
            },
        };
        let (width, height) = match t.size {
            Some((w, h)) => ((w % 0x1_0000_0000) as u32, (h % 0x1_0000_0000) as u32),
            None => (0u32, 0u32),
        };
        Ok(
            MkvDemux {
                track: t.number,
                scale_ns,
                info: VideoInfo { width, height, duration, codec },
                framing,
                at_start: true,
            },
        )
    }

    /// The file was rewound.
    pub fn rewind(&mut self)
        ensures
            *final(self) == (MkvDemux { at_start: true, ..*old(self) }),
    {
        self.at_start = true;
    }

    /// The packet of a frame; `None` for a frame of another track, an invisible or a broken
    /// one: then the next frame is due. Where the file does not tell the key frames, the first
    /// frame is one.
    pub fn accept(&mut self, f: MkvFrame) -> (r: Option<Packet>)
        requires
            old(self).framing.wf(),
        ensures
            *final(self) == (MkvDemux { at_start: final(self).at_start, ..*old(self) }),
            final(self).at_start == (old(self).at_start && r is None),
            ({
                let key = match f.is_keyframe {
                    Some(k) => k,
                    None => old(self).at_start,
                };
                match framed(old(self).framing, f.data@, key) {
                    Some(bytes) if f.track == old(self).track && !f.is_invisible => r matches Some(
                        p,
                    ) && p.pts == mkv_time(f.timestamp, old(self).scale_ns) && p.keyframe == key
                        && p.data@ == bytes,
                    _ => r is None,
                }
            }),
    {
        if f.track != self.track || f.is_invisible {
            return None;
        }
        let key = match f.is_keyframe {
            Some(k) => k,
            None => self.at_start,
        };
        let packet = self.framing.packet(f.data, mkv_stamp(f.timestamp, self.scale_ns), key);
        if packet.is_some() {
            self.at_start = false;
        }
        packet
    }
}

/// The first bytes of a file decide, whatever it is called.
pub proof fn the_name_does_not_matter(head: Seq<u8>)
    requires
        head.len() >= 4,
        head.take(4) == seq![0x1au8, 0x45u8, 0xdfu8, 0xa3u8],
    ensures
        container_in(head) == Some(Container::Matroska),
{
}

/// Every usable sample is read once, in order: between a sample and the next one that is read
/// there is none that could be.
pub proof fn no_usable_sample_is_left_out(samples: Seq<Sample>, from: int, j: int)
    requires
        0 <= from <= j < next_usable(samples, from),
        j < samples.len(),
    ensures
        !is_usable(samples[j]),
    decreases samples.len() - from,
{
    if !is_usable(samples[from]) && from < j {
        no_usable_sample_is_left_out(samples, from + 1, j);
    }
}

} // verus!
