//! Laws of the demuxers.

use crate::clock::Nanos;
use crate::media::video::bitstream::{
    avcc_record, be_bytes, byte_range, frameable, framed, hvcc_record, parse_avcc, parse_hvcc,
    to_annexb, NalConfig,
};
use crate::media::video::demux::{
    codec_from_mkv, codec_from_mp4, sniff, Container, Framing, MkvDemux, MkvFrame, MkvTrack,
    Mp4Content, Mp4Demux, Mp4Track, Sample,
};
use crate::media::video::pipeline::{Codec, Packet, PipeResult};
use vstd::prelude::*;

verus! {

/// The NALs, each behind the start code `00 00 00 01`.
pub open spec fn with_start_codes(nals: Seq<Seq<u8>>) -> Seq<u8>
    decreases nals.len(),
{
    if nals.len() == 0 {
        Seq::empty()
    } else {
        seq![0u8, 0u8, 0u8, 1u8] + nals[0] + with_start_codes(nals.drop_first())
    }
}

proof fn starts_from_the_front(nals: Seq<Seq<u8>>)
    ensures
        crate::media::video::bitstream::started(nals) == with_start_codes(nals),
    decreases nals.len(),
{
    if nals.len() > 0 {
        let (one, rest) = (seq![nals[0]], nals.drop_first());
        assert(one + rest =~= nals);
        crate::media::video::bitstream::started_joins(one, rest);
        starts_from_the_front(rest);
        assert(one.drop_last() =~= Seq::empty());
        assert(crate::media::video::bitstream::started(one.drop_last()) =~= Seq::empty());
        assert(crate::media::video::bitstream::started(one) =~= seq![0u8, 0u8, 0u8, 1u8]
            + nals[0]);
    }
}

/// `config` holds, of an H.264 or HEVC track, the parameter sets `sets` and says that lengths take
/// `n` bytes; bits that the record reserves and bytes behind it do not matter.
pub open spec fn is_record(codec: Codec, config: Seq<u8>, n: nat, sets: Seq<Seq<u8>>) -> bool {
    match codec {
        Codec::H264 => exists|
            profile: Seq<u8>,
            size: u8,
            count: u8,
            sps: Seq<Seq<u8>>,
            pps: Seq<Seq<u8>>,
            tail: Seq<u8>,
        |
            config == #[trigger] (avcc_record(profile, size, count, sps, pps) + tail)
                && profile.len() == 3 && count % 32 == sps.len() && pps.len() < 256
                && crate::media::video::bitstream::storable(sps)
                && crate::media::video::bitstream::storable(pps) && size % 4 != 2 && n == size % 4
                + 1 && sets == sps + pps,
        Codec::Hevc => exists|
            head: Seq<u8>,
            size: u8,
            arrays: Seq<(u8, Seq<Seq<u8>>)>,
            tail: Seq<u8>,
        |
            config == #[trigger] (hvcc_record(head, size, arrays) + tail) && head.len() == 20
                && arrays.len() < 256 && crate::media::video::bitstream::arrays_storable(arrays)
                && size % 4 != 2 && n == size % 4 + 1 && sets
                == crate::media::video::bitstream::flat(arrays),
        _ => false,
    }
}

proof fn records_say(codec: Codec, config: Seq<u8>, n: nat, sets: Seq<Seq<u8>>)
    requires
        is_record(codec, config, n, sets),
    ensures
        n == 1 || n == 2 || n == 4,
        crate::media::video::demux::nal_content(codec, Some(config)) == Some((n as int, sets)),
{
    match codec {
        Codec::H264 => {
            let (profile, size, count, sps, pps, tail) = choose|
                profile: Seq<u8>,
                size: u8,
                count: u8,
                sps: Seq<Seq<u8>>,
                pps: Seq<Seq<u8>>,
                tail: Seq<u8>,
            |
                config == #[trigger] (avcc_record(profile, size, count, sps, pps) + tail)
                    && profile.len() == 3 && count % 32 == sps.len() && pps.len() < 256
                    && crate::media::video::bitstream::storable(sps)
                    && crate::media::video::bitstream::storable(pps) && size % 4 != 2 && n == size
                    % 4 + 1 && sets == sps + pps;
            crate::media::video::bitstream::avcc_record_reads_back(
                profile,
                size,
                count,
                sps,
                pps,
                tail,
            );
        },
        Codec::Hevc => {
            let (head, size, arrays, tail) = choose|
                head: Seq<u8>,
                size: u8,
                arrays: Seq<(u8, Seq<Seq<u8>>)>,
                tail: Seq<u8>,
            |
                config == #[trigger] (hvcc_record(head, size, arrays) + tail) && head.len() == 20
                    && arrays.len() < 256 && crate::media::video::bitstream::arrays_storable(arrays)
                    && size % 4 != 2 && n == size % 4 + 1 && sets
                    == crate::media::video::bitstream::flat(arrays);
            crate::media::video::bitstream::hvcc_record_reads_back(head, size, arrays, tail);
        },
        _ => {},
    }
}

/// `p` is the packet of a sample of `nals`: each NAL behind a start code, and before a keyframe the
/// parameter sets, each behind a start code too.
pub open spec fn is_packet(
    p: Packet,
    pts: Nanos,
    key: bool,
    sets: Seq<Seq<u8>>,
    nals: Seq<Seq<u8>>,
) -> bool {
    &&& p.pts == pts
    &&& p.keyframe == key
    &&& p.data@ == (if key {
        with_start_codes(sets) + with_start_codes(nals)
    } else {
        with_start_codes(nals)
    })
}

proof fn packets_are_made(
    codec: Codec,
    config: Seq<u8>,
    f: Framing,
    n: nat,
    sets: Seq<Seq<u8>>,
    nals: Seq<Seq<u8>>,
    key: bool,
)
    requires
        is_record(codec, config, n, sets),
        f.follows(codec, Some(config)),
        frameable(nals, n),
    ensures
        crate::media::video::demux::framed(f, framed(nals, n), key) == Some(
            if key {
                with_start_codes(sets) + with_start_codes(nals)
            } else {
                with_start_codes(nals)
            },
        ),
{
    records_say(codec, config, n, sets);
    crate::media::video::bitstream::framed_nals_come_out_started(nals, n, sets);
    starts_from_the_front(sets);
    starts_from_the_front(nals);
}

/// The packet of an H.264 or HEVC sample: start codes in place of lengths, and the parameter sets
/// of the track's record before a keyframe and nowhere else.
pub proof fn keyframes_carry_the_parameter_sets(
    codec: Codec,
    config: &[u8],
    opened: PipeResult<Framing>,
    n: nat,
    sets: Seq<Seq<u8>>,
    nals: Seq<Seq<u8>>,
)
    requires
        is_record(codec, config@, n, sets),
        call_ensures(Framing::for_codec, (&codec, Some(config)), opened),
        frameable(nals, n),
    ensures
        opened matches Ok(f) && forall|data: Vec<u8>, pts: Nanos, key: bool, r: Option<Packet>|
            data@ == framed(nals, n) && #[trigger] call_ensures(
                Framing::packet,
                (&f, data, pts, key),
                r,
            ) ==> (r matches Some(p) && is_packet(p, pts, key, sets, nals)),
{
    records_say(codec, config@, n, sets);
    if let Ok(f) = opened {
        packets_are_made(codec, config@, f, n, sets, nals, true);
        packets_are_made(codec, config@, f, n, sets, nals, false);
    }
}

/// Samples of the other codecs come out as the container holds them.
pub proof fn other_samples_stay_as_they_are(
    codec: Codec,
    config: Option<&[u8]>,
    opened: PipeResult<Framing>,
)
    requires
        !(codec is H264) && !(codec is Hevc),
        call_ensures(Framing::for_codec, (&codec, config), opened),
    ensures
        opened matches Ok(f) && forall|data: Vec<u8>, pts: Nanos, key: bool, r: Option<Packet>|
            #[trigger]
            call_ensures(Framing::packet, (&f, data, pts, key), r) ==> (r matches Some(p) && p.pts
                == pts && p.keyframe == key && p.data@ == data@),
{
}

/// Track `i` is the first with video.
pub open spec fn is_first(video: Seq<bool>, i: int) -> bool {
    0 <= i < video.len() && video[i] && forall|j: int| 0 <= j < i ==> !#[trigger] video[j]
}

proof fn first_mp4(tracks: Seq<Mp4Track>, from: int, i: int)
    requires
        is_first(tracks.map_values(|t: Mp4Track| t.video), i),
        0 <= from <= i,
    ensures
        crate::media::video::demux::first_video(tracks, from) == i,
    decreases i - from,
{
    let video = tracks.map_values(|t: Mp4Track| t.video);
    assert(video[from] == tracks[from].video);
    if from < i {
        first_mp4(tracks, from + 1, i);
    }
}

proof fn first_mkv(tracks: Seq<MkvTrack>, from: int, i: int)
    requires
        is_first(tracks.map_values(|t: MkvTrack| t.video), i),
        0 <= from <= i,
    ensures
        crate::media::video::demux::first_mkv_video(tracks, from) == i,
    decreases i - from,
{
    let video = tracks.map_values(|t: MkvTrack| t.video);
    assert(video[from] == tracks[from].video);
    if from < i {
        first_mkv(tracks, from + 1, i);
    }
}

/// The codec that an MP4 sample description stands for.
pub open spec fn mp4_codec(content: Mp4Content, c: Codec) -> bool {
    &&& content is Av01 <==> c is Av1
    &&& content is Avc1 <==> c is H264
    &&& content is Hev1 || content is Hvc1 <==> c is Hevc
    &&& content is Vp08 <==> c is Vp8
    &&& content is Vp09 <==> c is Vp9
}

/// An MP4 file is read by its first video track: its size, length, codec and samples, from the
/// first sample on. A sample of an H.264 or HEVC track becomes a packet of its NALs, at its time,
/// with the parameter sets of the track if it is a sync sample.
pub proof fn an_mp4_track_is_read_as_it_is(
    tracks: Vec<Mp4Track>,
    i: int,
    d: Mp4Demux,
    n: nat,
    sets: Seq<Seq<u8>>,
    nals: Seq<Seq<u8>>,
)
    requires
        is_first(tracks@.map_values(|t: Mp4Track| t.video), i),
        call_ensures(Mp4Demux::open, (tracks,), Ok(d)),
    ensures
        d.wf() && d.next == 0,
        d.samples@ == tracks@[i].samples@,
        d.info.width == tracks@[i].width && d.info.height == tracks@[i].height,
        d.info.duration is Some <==> tracks@[i].timescale > 0 && tracks@[i].duration > 0,
        d.info.duration matches Some(t) ==> t == tracks@[i].length,
        mp4_codec(tracks@[i].content, d.info.codec),
        tracks@[i].config matches Some(c) && is_record(d.info.codec, c@, n, sets) && frameable(
            nals,
            n,
        ) ==> forall|s: &Sample, data: Vec<u8>, r: Option<Packet>|
            data@ == framed(nals, n) && #[trigger] call_ensures(
                Mp4Demux::packet,
                (&d, s, data),
                r,
            ) ==> (r matches Some(p) && is_packet(
                p,
                if s.timescale > 0 {
                    s.stamp
                } else {
                    0
                },
                s.is_sync,
                sets,
                nals,
            )),
        tracks@[i].content is Av01 || tracks@[i].content is Vp08 || tracks@[i].content is Vp09
            ==> forall|s: &Sample, data: Vec<u8>, r: Option<Packet>| #[trigger]
            call_ensures(Mp4Demux::packet, (&d, s, data), r) ==> (r matches Some(p) && p.data@
                == data@ && p.keyframe == s.is_sync),
{
    first_mp4(tracks@, 0, i);
    if let Some(c) = tracks@[i].config {
        if is_record(d.info.codec, c@, n, sets) && frameable(nals, n) {
            packets_are_made(d.info.codec, c@, d.framing, n, sets, nals, true);
            packets_are_made(d.info.codec, c@, d.framing, n, sets, nals, false);
        }
    }
}

/// A file without a video track says so; of H.264 and HEVC a record that can be read is enough to
/// open a track, and the other codecs need none.
pub proof fn an_mp4_file_opens(
    tracks: Vec<Mp4Track>,
    r: PipeResult<Mp4Demux>,
    i: int,
    n: nat,
    sets: Seq<Seq<u8>>,
)
    requires
        call_ensures(Mp4Demux::open, (tracks,), r),
    ensures
        (forall|i: int| 0 <= i < tracks@.len() ==> !(#[trigger] tracks@[i]).video) ==> (
        r matches Err(e) && e@ == "no video track in MP4"@),
        is_first(tracks@.map_values(|t: Mp4Track| t.video), i) ==> match tracks@[i].content {
            Mp4Content::Avc1 => (tracks@[i].config matches Some(c) && is_record(
                Codec::H264,
                c@,
                n,
                sets,
            )) ==> r is Ok,
            Mp4Content::Hev1 | Mp4Content::Hvc1 => (tracks@[i].config matches Some(c) && is_record(
                Codec::Hevc,
                c@,
                n,
                sets,
            )) ==> r is Ok,
            _ => r is Ok,
        },
{
    if forall|i: int| 0 <= i < tracks@.len() ==> !(#[trigger] tracks@[i]).video {
        no_mp4_video(tracks@, 0);
    }
    if is_first(tracks@.map_values(|t: Mp4Track| t.video), i) {
        first_mp4(tracks@, 0, i);
        if let Some(c) = tracks@[i].config {
            if is_record(Codec::H264, c@, n, sets) {
                records_say(Codec::H264, c@, n, sets);
            }
            if is_record(Codec::Hevc, c@, n, sets) {
                records_say(Codec::Hevc, c@, n, sets);
            }
        }
    }
}

proof fn no_mp4_video(tracks: Seq<Mp4Track>, from: int)
    requires
        forall|i: int| 0 <= i < tracks.len() ==> !(#[trigger] tracks[i]).video,
        0 <= from <= tracks.len(),
    ensures
        crate::media::video::demux::first_video(tracks, from) == tracks.len(),
    decreases tracks.len() - from,
{
    if from < tracks.len() {
        assert(!tracks[from].video);
        no_mp4_video(tracks, from + 1);
    }
}

/// A record says what it was made of; a sample converts NAL by NAL.
pub proof fn records_and_samples_are_read(
    codec: Codec,
    raw: &[u8],
    n: nat,
    sets: Seq<Seq<u8>>,
    nals: Seq<Seq<u8>>,
    cfg: Option<NalConfig>,
    sample: &[u8],
    key: bool,
    out: Option<Vec<u8>>,
)
    requires
        is_record(codec, raw@, n, sets),
        codec is H264 ==> call_ensures(parse_avcc, (raw,), cfg),
        codec is Hevc ==> call_ensures(parse_hvcc, (raw,), cfg),
        frameable(nals, n),
        sample@ == framed(nals, n),
        cfg matches Some(c) ==> call_ensures(to_annexb, (sample, &c, key), out),
    ensures
        cfg matches Some(c) && c.length_size == n && c.parameter_sets@.len() == sets.len()
            && forall|i: int| 0 <= i < sets.len() ==> (#[trigger] c.parameter_sets@[i])@ == sets[i],
        out matches Some(v) && v@ == (if key {
            with_start_codes(sets) + with_start_codes(nals)
        } else {
            with_start_codes(nals)
        }),
{
    records_say(codec, raw@, n, sets);
    let c = cfg->0;
    assert(c.sets() == sets);
    assert forall|i: int| 0 <= i < sets.len() implies (#[trigger] c.parameter_sets@[i])@
        == sets[i] by {
        assert(c.sets()[i] == c.parameter_sets@[i]@);
    }
    packets_are_made(codec, raw@, Framing::Nal(c), n, sets, nals, key);
}

/// A sample whose last NAL is cut short is broken: nothing comes out of it.
pub proof fn a_cut_sample_is_broken(
    nals: Seq<Seq<u8>>,
    n: nat,
    len: nat,
    rest: Seq<u8>,
    sample: &[u8],
    cfg: NalConfig,
    key: bool,
    out: Option<Vec<u8>>,
)
    requires
        n > 0,
        frameable(nals, n),
        cfg.length_size == n,
        len < byte_range(n),
        len <= usize::MAX,
        rest.len() < len,
        sample@ == framed(nals, n) + (be_bytes(len, n) + rest),
        call_ensures(to_annexb, (sample, &cfg, key), out),
    ensures
        out is None,
{
    let (a, b) = (framed(nals, n), be_bytes(len, n) + rest);
    crate::media::video::bitstream::framed_nals_come_out_started(nals, n, cfg.sets());
    crate::media::video::bitstream::samples_convert_one_by_one(
        a,
        b,
        n as int,
        cfg.sets(),
        key,
    );
    crate::media::video::bitstream::be_bytes_value(len, n);
    assert(b.subrange(0, n as int) =~= be_bytes(len, n));
}

/// The samples of a track come one after the other, each once, but for those that are empty or of
/// more than 256 MiB; behind the last one there is none until the file is rewound.
pub proof fn samples_come_one_after_the_other()
    ensures
        forall|m: &mut Mp4Demux, r: Option<Sample>| #[trigger]
            call_ensures(Mp4Demux::next_sample, (m,), r) && m.wf() ==> {
                &&& final(m).samples == m.samples && final(m).info == m.info && final(m).framing
                    == m.framing
                &&& next_comes(*m, *final(m), r)
            },
        forall|m: &mut Mp4Demux| #[trigger]
            call_ensures(Mp4Demux::rewind, (m,), ()) ==> final(m).next == 0 && final(m).samples
                == m.samples && final(m).framing == m.framing && final(m).info == m.info,
{
    assert forall|m: &mut Mp4Demux, r: Option<Sample>| #[trigger]
        call_ensures(Mp4Demux::next_sample, (m,), r) && m.wf() implies next_comes(
        *m,
        *final(m),
        r,
    ) by {
        usable_from(m.samples@, m.next as int);
    }
}

/// A sample that is worth reading.
pub open spec fn is_worth(s: Sample) -> bool {
    1 <= s.size <= 256 * 1024 * 1024
}

/// The reader `a` became `b` and gave `r`.
pub open spec fn next_comes(a: Mp4Demux, b: Mp4Demux, r: Option<Sample>) -> bool {
    let to = match r {
        Some(_) => b.next - 1,
        None => a.samples@.len() as int,
    };
    &&& a.next <= to <= a.samples@.len()
    &&& forall|j: int| a.next <= j < to ==> !is_worth(#[trigger] a.samples@[j])
    &&& r is None ==> b.next == a.samples@.len()
    &&& r matches Some(s) ==> to < a.samples@.len() && s == a.samples@[to] && is_worth(s)
}

proof fn usable_from(samples: Seq<Sample>, from: int)
    requires
        0 <= from <= samples.len(),
    ensures
        ({
            let i = crate::media::video::demux::next_usable(samples, from);
            &&& from <= i <= samples.len()
            &&& i < samples.len() ==> is_worth(samples[i])
            &&& forall|j: int| from <= j < i ==> !is_worth(#[trigger] samples[j])
        }),
    decreases samples.len() - from,
{
    if from < samples.len() {
        usable_from(samples, from + 1);
    }
}

/// The codec that a Matroska name stands for; another name is kept.
pub open spec fn mkv_codec(id: Seq<char>, c: Codec) -> bool {
    &&& id == "V_MPEG4/ISO/AVC"@ ==> c is H264
    &&& id == "V_MPEGH/ISO/HEVC"@ ==> c is Hevc
    &&& id == "V_AV1"@ ==> c is Av1
    &&& id == "V_VP8"@ ==> c is Vp8
    &&& id == "V_VP9"@ ==> c is Vp9
    &&& c is H264 ==> id == "V_MPEG4/ISO/AVC"@
    &&& c is Hevc ==> id == "V_MPEGH/ISO/HEVC"@
    &&& c is Av1 ==> id == "V_AV1"@
    &&& c is Vp8 ==> id == "V_VP8"@
    &&& c is Vp9 ==> id == "V_VP9"@
    &&& c matches Codec::Other(name) ==> name@ == id
}

proof fn names_are_apart()
    ensures
        "V_AV1"@ != "V_VP8"@ && "V_AV1"@ != "V_VP9"@ && "V_VP8"@ != "V_VP9"@,
        "V_MPEG4/ISO/AVC"@ != "V_MPEGH/ISO/HEVC"@,
        "V_MPEG4/ISO/AVC"@ != "V_AV1"@ && "V_MPEG4/ISO/AVC"@ != "V_VP8"@ && "V_MPEG4/ISO/AVC"@
            != "V_VP9"@,
        "V_MPEGH/ISO/HEVC"@ != "V_AV1"@ && "V_MPEGH/ISO/HEVC"@ != "V_VP8"@ && "V_MPEGH/ISO/HEVC"@
            != "V_VP9"@,
{
    reveal_strlit("V_AV1");
    reveal_strlit("V_VP8");
    reveal_strlit("V_VP9");
    reveal_strlit("V_MPEG4/ISO/AVC");
    reveal_strlit("V_MPEGH/ISO/HEVC");
    assert("V_AV1"@[2] != "V_VP8"@[2]);
    assert("V_AV1"@[2] != "V_VP9"@[2]);
    assert("V_VP8"@[4] != "V_VP9"@[4]);
    assert("V_MPEG4/ISO/AVC"@.len() != "V_MPEGH/ISO/HEVC"@.len());
}

/// The codecs of both containers by their names.
pub proof fn names_stand_for_codecs(id: &str, c: Codec, content: Mp4Content, d: Codec)
    requires
        call_ensures(codec_from_mkv, (id,), c),
        call_ensures(codec_from_mp4, (&content,), d),
    ensures
        mkv_codec(id@, c),
        mp4_codec(content, d),
        content matches Mp4Content::Unknown(text) ==> (d matches Codec::Other(name) && name@
            == text@.take(if text@.len() < 16 {
            text@.len() as int
        } else {
            16
        })),
{
    names_are_apart();
}

/// The moment of a Matroska frame; it stops at the largest number of 64 bits.
pub open spec fn is_mkv_time(pts: Nanos, stamp: u64, scale: u64) -> bool {
    if stamp * scale < 0x1_0000_0000_0000_0000 {
        pts == stamp * scale
    } else {
        pts == 0xffff_ffff_ffff_ffff
    }
}

/// What the reader `a` of a Matroska track makes of a frame. Frames of other tracks and invisible
/// ones are left out. Where the file does not tell the keyframes, the first frame that comes out
/// after the start is one. `sets` are the parameter sets of the track and `nals` what the frame
/// is made of, with lengths of `n` bytes.
pub open spec fn mkv_took(
    a: MkvDemux,
    b: MkvDemux,
    f: MkvFrame,
    r: Option<Packet>,
    n: nat,
    sets: Seq<Seq<u8>>,
    nals: Seq<Seq<u8>>,
) -> bool {
    let key = f.is_keyframe == Some(true) || (f.is_keyframe is None && a.at_start);
    &&& b.track == a.track && b.scale_ns == a.scale_ns && b.framing == a.framing && b.info == a.info
    &&& b.at_start == (a.at_start && r is None)
    &&& f.track != a.track || f.is_invisible ==> r is None
    &&& f.track == a.track && !f.is_invisible && f.data@ == framed(nals, n) ==> (r matches Some(p)
        && is_mkv_time(p.pts, f.timestamp, a.scale_ns) && is_packet(p, p.pts, key, sets, nals))
}

proof fn mkv_takes(
    a: MkvDemux,
    b: MkvDemux,
    f: MkvFrame,
    r: Option<Packet>,
    config: Seq<u8>,
    n: nat,
    sets: Seq<Seq<u8>>,
    nals: Seq<Seq<u8>>,
)
    requires
        is_record(a.info.codec, config, n, sets),
        a.framing.follows(a.info.codec, Some(config)),
        frameable(nals, n),
        b == (MkvDemux { at_start: b.at_start, ..a }),
        b.at_start == (a.at_start && r is None),
        ({
            let key = match f.is_keyframe {
                Some(k) => k,
                None => a.at_start,
            };
            match crate::media::video::demux::framed(a.framing, f.data@, key) {
                Some(bytes) if f.track == a.track && !f.is_invisible => r matches Some(p) && p.pts
                    == crate::media::video::demux::mkv_time(f.timestamp, a.scale_ns) && p.keyframe
                    == key && p.data@ == bytes,
                _ => r is None,
            }
        }),
    ensures
        mkv_took(a, b, f, r, n, sets, nals),
{
    packets_are_made(a.info.codec, config, a.framing, n, sets, nals, true);
    packets_are_made(a.info.codec, config, a.framing, n, sets, nals, false);
}

/// A Matroska file is read by its first video track: its number, size, codec and units of time.
/// A frame of an H.264 or HEVC track becomes a packet of its NALs, with the parameter sets of the
/// track before a keyframe.
pub proof fn a_matroska_track_is_read_as_it_is(
    tracks: Vec<MkvTrack>,
    scale: u64,
    duration: Option<Nanos>,
    i: int,
    d: MkvDemux,
    n: nat,
    sets: Seq<Seq<u8>>,
    nals: Seq<Seq<u8>>,
)
    requires
        is_first(tracks@.map_values(|t: MkvTrack| t.video), i),
        call_ensures(MkvDemux::open, (&tracks, scale, duration), Ok(d)),
    ensures
        d.framing.wf() && d.at_start,
        d.track == tracks@[i].number && d.scale_ns == scale && d.info.duration == duration,
        mkv_codec(tracks@[i].codec_id@, d.info.codec),
        tracks@[i].size is None ==> d.info.width == 0 && d.info.height == 0,
        tracks@[i].size matches Some((w, h)) ==> (w <= u32::MAX ==> d.info.width == w) && (h
            <= u32::MAX ==> d.info.height == h),
        tracks@[i].private matches Some(c) && is_record(d.info.codec, c@, n, sets) && frameable(
            nals,
            n,
        ) ==> forall|m: &mut MkvDemux, f: MkvFrame, r: Option<Packet>|
            m.framing == d.framing && m.info == d.info && #[trigger] call_ensures(
                MkvDemux::accept,
                (m, f),
                r,
            ) ==> mkv_took(*m, *final(m), f, r, n, sets, nals),
{
    names_are_apart();
    first_mkv(tracks@, 0, i);
    if let Some(c) = tracks@[i].private {
        if is_record(d.info.codec, c@, n, sets) && frameable(nals, n) {
            assert forall|m: &mut MkvDemux, f: MkvFrame, r: Option<Packet>|
                m.framing == d.framing && m.info == d.info && #[trigger] call_ensures(
                    MkvDemux::accept,
                    (m, f),
                    r,
                ) implies mkv_took(*m, *final(m), f, r, n, sets, nals) by {
                mkv_takes(*m, *final(m), f, r, c@, n, sets, nals);
            }
        }
    }
}

/// Frames of other codecs come out as the file holds them, and a rewind is a start.
pub proof fn other_frames_stay_as_they_are()
    ensures
        forall|m: &mut MkvDemux, f: MkvFrame, r: Option<Packet>|
            m.framing is Raw && f.track == m.track && !f.is_invisible && #[trigger] call_ensures(
                MkvDemux::accept,
                (m, f),
                r,
            ) ==> (r matches Some(p) && p.data@ == f.data@ && is_mkv_time(
                p.pts,
                f.timestamp,
                m.scale_ns,
            ) && p.keyframe == (f.is_keyframe == Some(true) || (f.is_keyframe is None
                && m.at_start))),
        forall|m: &mut MkvDemux| #[trigger]
            call_ensures(MkvDemux::rewind, (m,), ()) ==> final(m).at_start && final(m).track
                == m.track && final(m).scale_ns == m.scale_ns && final(m).framing == m.framing
                && final(m).info == m.info,
{
}

/// The bytes from `at` on are these four.
pub open spec fn has_word(b: Seq<u8>, at: int, w: (u8, u8, u8, u8)) -> bool {
    b.len() >= at + 4 && b[at] == w.0 && b[at + 1] == w.1 && b[at + 2] == w.2 && b[at + 3] == w.3
}

/// Matroska files begin with `1A 45 DF A3`.
pub open spec fn begins_as_matroska(b: Seq<u8>) -> bool {
    has_word(b, 0, (0x1a, 0x45, 0xdf, 0xa3))
}

/// MP4 and MOV files have one of six words behind their first four bytes: `ftyp`, `moov`, `mdat`,
/// `wide`, `free` or `skip`.
pub open spec fn begins_as_mp4(b: Seq<u8>) -> bool {
    ||| has_word(b, 4, (102, 116, 121, 112))
    ||| has_word(b, 4, (109, 111, 111, 118))
    ||| has_word(b, 4, (109, 100, 97, 116))
    ||| has_word(b, 4, (119, 105, 100, 101))
    ||| has_word(b, 4, (102, 114, 101, 101))
    ||| has_word(b, 4, (115, 107, 105, 112))
}

/// `r` is the container that an extension, in lower case, stands for.
pub open spec fn is_container_named(r: PipeResult<Container>, ext: Seq<char>) -> bool {
    let mp4 = ext == seq!['m', 'p', '4'] || ext == seq!['m', '4', 'v'] || ext == seq!['m', 'o', 'v'];
    let mkv = ext == seq!['w', 'e', 'b', 'm'] || ext == seq!['m', 'k', 'v'];
    &&& mp4 ==> r == Ok::<Container, String>(Container::Mp4)
    &&& mkv ==> r == Ok::<Container, String>(Container::Matroska)
    &&& !mp4 && !mkv ==> (r matches Err(e) && e@ == "container ."@ + ext + " is not supported"@)
}

/// `r` is the container of a file that begins with `b`; `ext` is its extension in lower case.
pub open spec fn is_container(r: PipeResult<Container>, b: Seq<u8>, ext: Seq<char>) -> bool {
    if begins_as_matroska(b) {
        r == Ok::<Container, String>(Container::Matroska)
    } else if begins_as_mp4(b) {
        r == Ok::<Container, String>(Container::Mp4)
    } else {
        is_container_named(r, ext)
    }
}

proof fn words_are_bytes(b: Seq<u8>)
    ensures
        b.len() >= 4 ==> (b.take(4) == seq![0x1au8, 0x45u8, 0xdfu8, 0xa3u8] <==> begins_as_matroska(
            b,
        )),
        b.len() >= 8 ==> (crate::media::video::demux::is_mp4_box(b.subrange(4, 8))
            <==> begins_as_mp4(b)),
{
    if b.len() >= 4 {
        let s = b.take(4);
        assert(s[0] == b[0] && s[1] == b[1] && s[2] == b[2] && s[3] == b[3]);
        if begins_as_matroska(b) {
            assert(s =~= seq![0x1au8, 0x45u8, 0xdfu8, 0xa3u8]);
        }
    }
    if b.len() >= 8 {
        let s = b.subrange(4, 8);
        assert(s[0] == b[4] && s[1] == b[5] && s[2] == b[6] && s[3] == b[7]);
        assert(has_word(b, 4, (102, 116, 121, 112)) ==> s =~= seq![0x66u8, 0x74u8, 0x79u8, 0x70u8]);
        assert(has_word(b, 4, (109, 111, 111, 118)) ==> s =~= seq![0x6du8, 0x6fu8, 0x6fu8, 0x76u8]);
        assert(has_word(b, 4, (109, 100, 97, 116)) ==> s =~= seq![0x6du8, 0x64u8, 0x61u8, 0x74u8]);
        assert(has_word(b, 4, (119, 105, 100, 101)) ==> s =~= seq![0x77u8, 0x69u8, 0x64u8, 0x65u8]);
        assert(has_word(b, 4, (102, 114, 101, 101)) ==> s =~= seq![0x66u8, 0x72u8, 0x65u8, 0x65u8]);
        assert(has_word(b, 4, (115, 107, 105, 112)) ==> s =~= seq![0x73u8, 0x6bu8, 0x69u8, 0x70u8]);
    }
}

proof fn sniffed_is_container(
    r: PipeResult<Container>,
    path: Seq<char>,
    head: &[u8],
    b: Seq<u8>,
    ext: Seq<char>,
)
    requires
        crate::media::video::demux::sniffed(r, path, Ok(head)),
        ext == crate::media::video::demux::lower_extension(path),
        b.len() >= head@.len(),
        b.take(head@.len() as int) == head@,
        b.len() == head@.len() || head@.len() >= 8,
    ensures
        is_container(r, b, ext),
{
    reveal_strlit("mp4");
    reveal_strlit("m4v");
    reveal_strlit("mov");
    reveal_strlit("webm");
    reveal_strlit("mkv");
    assert("mp4"@ =~= seq!['m', 'p', '4']);
    assert("m4v"@ =~= seq!['m', '4', 'v']);
    assert("mov"@ =~= seq!['m', 'o', 'v']);
    assert("webm"@ =~= seq!['w', 'e', 'b', 'm']);
    assert("mkv"@ =~= seq!['m', 'k', 'v']);
    assert("mp4"@[1] == 'p' && "m4v"@[1] == '4' && "mov"@[1] == 'o' && "mkv"@[1] == 'k');
    assert("webm"@.len() == 4 && "mkv"@.len() == 3 && "mp4"@.len() == 3);
    words_are_bytes(head@);
    let h = head@;
    assert forall|k: int| 0 <= k < h.len() implies #[trigger] b[k] == h[k] by {
        assert(b.take(h.len() as int)[k] == b[k]);
    }
    assert(begins_as_matroska(h) <==> begins_as_matroska(b));
    assert(begins_as_mp4(h) <==> begins_as_mp4(b));
}

/// The first bytes of a file tell its container; only where they tell nothing, the extension does. A
/// file that cannot be read has none.
pub proof fn the_first_bytes_tell_the_container(
    path: &str,
    name: Option<String>,
    e: &str,
    ext: String,
    head: &[u8],
    r: PipeResult<Container>,
    first: Vec<u8>,
    o: PipeResult<Container>,
    why: String,
    s: PipeResult<Container>,
    t: PipeResult<Container>,
)
    requires
        call_ensures(crate::path::extension, (path,), name),
        name matches Some(x) ==> x@ == e@,
        name is None ==> e@.len() == 0,
        call_ensures(crate::text::to_lower, (e,), ext),
        call_ensures(sniff, (path, Ok(head)), r),
        call_ensures(crate::media::video::demux::open, (path, Ok(first)), o),
        call_ensures(sniff, (path, Err(why)), s),
        call_ensures(crate::media::video::demux::open, (path, Err(why)), t),
    ensures
        is_container(r, head@, ext@),
        is_container(o, first@, ext@),
        crate::media::video::demux::HEAD == 12,
        s == Err::<Container, String>(why),
        t == Err::<Container, String>(why),
{
    reveal_strlit("");
    if name is None {
        assert(ext@ =~= ""@);
    }
    assert(head@.take(head@.len() as int) =~= head@);
    sniffed_is_container(r, path@, head, head@, ext@);
    let h = choose|h: &[u8]| #[trigger]
        crate::media::video::demux::sniffed(o, path@, Ok(h)) && h@ == (if first@.len()
            <= crate::media::video::demux::HEAD {
            first@
        } else {
            first@.take(crate::media::video::demux::HEAD as int)
        });
    assert(first@.take(h@.len() as int) =~= h@);
    sniffed_is_container(o, path@, h, first@, ext@);
}

/// An error of a sample is told with its number.
pub proof fn a_broken_sample_is_told(id: u32, why: &str, r: String)
    requires
        call_ensures(crate::media::video::demux::sample_error, (id, why), r),
    ensures
        r@ == "MP4 sample "@ + crate::text::decimal_of(id as nat) + ": "@ + why@,
{
}

/// A record is of version 1, and its lengths take one, two or four bytes, as the two low bits of its
/// fifth byte (H.264) or of its 22nd (HEVC) say.
pub proof fn other_records_are_refused(raw: &[u8], a: Option<NalConfig>, h: Option<NalConfig>)
    requires
        call_ensures(parse_avcc, (raw,), a),
        call_ensures(parse_hvcc, (raw,), h),
    ensures
        raw@.len() < 7 || raw@[0] != 1 || raw@[4] % 4 == 2 ==> a is None,
        a matches Some(c) ==> c.length_size == raw@[4] % 4 + 1 && c.parameter_sets@.len() >= raw@[5]
            % 32,
        raw@.len() < 23 || raw@[0] != 1 || raw@[21] % 4 == 2 ==> h is None,
        h matches Some(c) ==> c.length_size == raw@[21] % 4 + 1,
{
    if let Some(c) = a {
        if let Some((sps, mid)) = crate::media::video::bitstream::sets_at(
            raw@,
            6,
            (raw@[5] % 32) as nat,
        ) {
            so_many_sets(raw@, 6, (raw@[5] % 32) as nat);
            assert(c.sets().len() == c.parameter_sets@.len());
        }
    }
}

proof fn so_many_sets(s: Seq<u8>, pos: int, n: nat)
    requires
        crate::media::video::bitstream::sets_at(s, pos, n) is Some,
    ensures
        (crate::media::video::bitstream::sets_at(s, pos, n)->0).0.len() == n,
        pos >= 0 ==> (crate::media::video::bitstream::sets_at(s, pos, n)->0).1 >= pos,
    decreases n,
{
    if n > 0 {
        let next = pos + 2 + crate::media::video::bitstream::be16(s, pos);
        so_many_sets(s, next, (n - 1) as nat);
    }
}

/// The framing of a codec is that of its record; without one, or with a broken one, H.264 and HEVC
/// are told as such.
pub proof fn the_record_gives_the_framing(
    config: Option<&[u8]>,
    raw: &[u8],
    a: Option<NalConfig>,
    h: Option<NalConfig>,
    avc: PipeResult<Framing>,
    hevc: PipeResult<Framing>,
)
    requires
        config matches Some(c) ==> c@ == raw@,
        call_ensures(parse_avcc, (raw,), a),
        call_ensures(parse_hvcc, (raw,), h),
        call_ensures(Framing::for_codec, (&Codec::H264, config), avc),
        call_ensures(Framing::for_codec, (&Codec::Hevc, config), hevc),
    ensures
        config is None || a is None ==> (avc matches Err(e) && e@
            == "H.264 avcC missing or broken"@),
        config is None || h is None ==> (hevc matches Err(e) && e@
            == "HEVC hvcC missing or broken"@),
        config is Some && a is Some ==> (avc matches Ok(Framing::Nal(f)) && f.length_size == (
        a->0).length_size && f.sets() == (a->0).sets()),
        config is Some && h is Some ==> (hevc matches Ok(Framing::Nal(f)) && f.length_size == (
        h->0).length_size && f.sets() == (h->0).sets()),
{
}

/// A track whose framing is refused is refused with the same words.
pub proof fn a_track_without_its_record_is_refused(
    tracks: Vec<Mp4Track>,
    r: PipeResult<Mp4Demux>,
    i: int,
    others: Vec<MkvTrack>,
    scale_ns: u64,
    duration: Option<Nanos>,
    q: PipeResult<MkvDemux>,
    j: int,
    config: Option<&[u8]>,
    avc: PipeResult<Framing>,
    hevc: PipeResult<Framing>,
)
    requires
        call_ensures(Mp4Demux::open, (tracks,), r),
        call_ensures(MkvDemux::open, (&others, scale_ns, duration), q),
        call_ensures(Framing::for_codec, (&Codec::H264, config), avc),
        call_ensures(Framing::for_codec, (&Codec::Hevc, config), hevc),
    ensures
        is_first(tracks@.map_values(|t: Mp4Track| t.video), i) && is_config(
            config,
            tracks@[i].config,
        ) ==> (tracks@[i].content is Avc1 ==> is_refused(avc, r)) && ((tracks@[i].content is Hev1
            || tracks@[i].content is Hvc1) ==> is_refused(hevc, r)),
        is_first(others@.map_values(|t: MkvTrack| t.video), j) && is_config(
            config,
            others@[j].private,
        ) ==> (others@[j].codec_id@ == "V_MPEG4/ISO/AVC"@ ==> is_refused(avc, q)) && (
        others@[j].codec_id@ == "V_MPEGH/ISO/HEVC"@ ==> is_refused(hevc, q)),
        (forall|k: int| 0 <= k < others@.len() ==> !(#[trigger] others@[k]).video) ==> (q matches Err(
            e,
        ) && e@ == "no video track in MKV"@),
{
    names_are_apart();
    if is_first(tracks@.map_values(|t: Mp4Track| t.video), i) {
        first_mp4(tracks@, 0, i);
    }
    if is_first(others@.map_values(|t: MkvTrack| t.video), j) {
        first_mkv(others@, 0, j);
    }
    if forall|k: int| 0 <= k < others@.len() ==> !(#[trigger] others@[k]).video {
        no_mkv_video(others@, 0);
    }
}

/// `a` is the configuration `b`.
pub open spec fn is_config(a: Option<&[u8]>, b: Option<Vec<u8>>) -> bool {
    match (a, b) {
        (Some(x), Some(y)) => x@ == y@,
        (None, None) => true,
        _ => false,
    }
}

/// What is refused with words is refused with the same ones.
pub open spec fn is_refused<T>(f: PipeResult<Framing>, r: PipeResult<T>) -> bool {
    &&& f is Ok ==> r is Ok
    &&& f matches Err(e) ==> (r matches Err(x) && x@ == e@)
}

proof fn no_mkv_video(tracks: Seq<MkvTrack>, from: int)
    requires
        0 <= from <= tracks.len(),
        forall|k: int| 0 <= k < tracks.len() ==> !(#[trigger] tracks[k]).video,
    ensures
        crate::media::video::demux::first_mkv_video(tracks, from) == tracks.len(),
    decreases tracks.len() - from,
{
    if from < tracks.len() {
        no_mkv_video(tracks, from + 1);
    }
}

proof fn zeros_are_zero(s: Seq<u8>)
    requires
        forall|i: int| 0 <= i < s.len() ==> #[trigger] s[i] == 0,
    ensures
        crate::media::video::bitstream::field_value(s) == 0,
    decreases s.len(),
{
    if s.len() > 0 {
        let d = s.drop_last();
        assert forall|i: int| 0 <= i < d.len() implies #[trigger] d[i] == 0 by {
            assert(d[i] == s[i]);
        }
        zeros_are_zero(d);
        assert(s.last() == 0);
        vstd::arithmetic::div_mod::lemma_small_mod(0, (usize::MAX + 1) as nat);
    }
}

/// A length of zero in front of a sample stands for nothing.
pub proof fn an_empty_unit_stands_for_nothing(
    a: &[u8],
    b: &[u8],
    zeros: Seq<u8>,
    cfg: NalConfig,
    keyframe: bool,
    r: Option<Vec<u8>>,
    q: Option<Vec<u8>>,
)
    requires
        call_ensures(to_annexb, (a, &cfg, keyframe), r),
        call_ensures(to_annexb, (b, &cfg, keyframe), q),
        zeros.len() == cfg.length_size,
        cfg.length_size > 0,
        forall|i: int| 0 <= i < zeros.len() ==> #[trigger] zeros[i] == 0,
        a@ == zeros + b@,
    ensures
        r is Some <==> q is Some,
        r matches Some(x) ==> q matches Some(y) && x@ == y@,
{
    let n = cfg.length_size as int;
    zeros_are_zero(zeros);
    assert(a@.subrange(0, n) =~= zeros);
    crate::media::video::bitstream::nals_shift(zeros, b@, 0, n);
}

} // verus!
