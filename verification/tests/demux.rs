use noshare_cover::media::video::demux::{
    codec_from_mkv, codec_from_mp4, open, sample_error, sniff, Container, Framing, MkvDemux,
    MkvFrame, MkvTrack, Mp4Content, Mp4Demux, Mp4Track, Sample, LARGEST_SAMPLE,
};
use noshare_cover::media::video::pipeline::Codec;
use std::path::Path;

#[test]
fn codec_ids() {
    assert_eq!(codec_from_mkv("V_AV1"), Codec::Av1);
    assert_eq!(codec_from_mkv("V_MPEG4/ISO/AVC"), Codec::H264);
    assert_eq!(codec_from_mkv("V_VP9"), Codec::Vp9);
    assert!(matches!(codec_from_mkv("V_THEORA"), Codec::Other(_)));
}

/// What reading the start of a file gives, as far as this test goes.
fn start_of(path: &str) -> Result<Vec<u8>, String> {
    if Path::new(path).exists() {
        Ok(Vec::new())
    } else {
        Err("No such file or directory (os error 2)".to_string())
    }
}

#[test]
fn missing_file_is_error() {
    for path in ["/nonexistent/x.mp4", "/nonexistent/x.avi"] {
        assert!(open(path, start_of(path)).is_err());
        assert_eq!(
            open(path, start_of(path)),
            Err("No such file or directory (os error 2)".to_string())
        );
    }
}

#[test]
fn h264_without_avcc_is_error() {
    assert!(Framing::for_codec(&Codec::H264, None).is_err());
    assert!(Framing::for_codec(&Codec::Av1, None).is_ok());
}

#[test]
fn broken_configurations_say_which() {
    assert_eq!(
        Framing::for_codec(&Codec::H264, Some(&[1, 2])).err().as_deref(),
        Some("H.264 avcC missing or broken")
    );
    assert_eq!(
        Framing::for_codec(&Codec::Hevc, None).err().as_deref(),
        Some("HEVC hvcC missing or broken")
    );
}

#[test]
fn the_first_bytes_decide() {
    let mkv = [0x1a, 0x45, 0xdf, 0xa3, 0, 0];
    assert_eq!(open("/x.mp4", Ok(mkv.to_vec())), Ok(Container::Matroska));
    for name in [b"ftyp", b"moov", b"mdat", b"wide", b"free", b"skip"] {
        let mut head = vec![0, 0, 0, 20];
        head.extend(name);
        head.extend([1; 30]);
        assert_eq!(open("/x.mkv", Ok(head)), Ok(Container::Mp4));
    }
    assert_eq!(open("/x.MOV", Ok(vec![0; 12])), Ok(Container::Mp4));
    assert_eq!(open("/x.webm", Ok(vec![])), Ok(Container::Matroska));
    assert_eq!(
        sniff("/x.AVI", Ok(&[0; 12])),
        Err("container .avi is not supported".to_string())
    );
    assert_eq!(
        open("/x", Ok(vec![9; 12])),
        Err("container . is not supported".to_string())
    );
}

#[test]
fn mp4_sample_descriptions() {
    assert_eq!(codec_from_mp4(&Mp4Content::Hev1), Codec::Hevc);
    assert_eq!(codec_from_mp4(&Mp4Content::Hvc1), Codec::Hevc);
    assert_eq!(codec_from_mp4(&Mp4Content::Vp08), Codec::Vp8);
    assert_eq!(
        codec_from_mp4(&Mp4Content::Unknown("Mp4a(Mp4aBox { data".into())),
        Codec::Other("Mp4a(Mp4aBox { d".into())
    );
}

fn sample(id: u32, size: u64, sync: bool) -> Sample {
    Sample {
        id,
        offset: u64::from(id) * 100,
        size,
        timescale: 1000,
        stamp: u128::from(id) * 5,
        is_sync: sync,
    }
}

fn track(video: bool, samples: Vec<Sample>) -> Mp4Track {
    Mp4Track {
        video,
        width: 640,
        height: 360,
        content: Mp4Content::Vp09,
        config: None,
        timescale: 1000,
        duration: 10_000,
        length: 10_000_000_000,
        samples,
    }
}

#[test]
fn mp4_reads_usable_samples_in_order() {
    let samples = vec![
        sample(1, 0, true),
        sample(2, 7, true),
        sample(3, LARGEST_SAMPLE + 1, false),
        sample(4, LARGEST_SAMPLE, false),
    ];
    let mut d = Mp4Demux::open(vec![track(false, vec![]), track(true, samples)]).ok().unwrap();
    assert_eq!((d.info.width, d.info.height), (640, 360));
    assert_eq!(d.info.duration, Some(10_000_000_000));
    assert_eq!(d.info.codec, Codec::Vp9);
    for _ in 0..2 {
        let s = d.next_sample().unwrap();
        assert_eq!((s.id, s.offset), (2, 200));
        let p = d.packet(&s, vec![1, 2, 3]).unwrap();
        assert_eq!((p.pts, p.keyframe, p.data), (10, true, vec![1, 2, 3]));
        assert_eq!(d.next_sample().unwrap().id, 4);
        assert!(d.next_sample().is_none());
        assert!(d.next_sample().is_none());
        d.rewind();
    }
    let odd = Sample { timescale: 0, ..sample(9, 1, false) };
    assert_eq!(d.packet(&odd, vec![1]).unwrap().pts, 0);
    assert_eq!(sample_error(17, "eof"), "MP4 sample 17: eof");
}

#[test]
fn mp4_without_video() {
    assert_eq!(
        Mp4Demux::open(vec![track(false, vec![])]).err().as_deref(),
        Some("no video track in MP4")
    );
    let avc = Mp4Track { content: Mp4Content::Avc1, ..track(true, vec![]) };
    assert_eq!(
        Mp4Demux::open(vec![avc]).err().as_deref(),
        Some("H.264 avcC missing or broken")
    );
    let live = Mp4Track { timescale: 0, ..track(true, vec![]) };
    assert_eq!(Mp4Demux::open(vec![live]).ok().unwrap().info.duration, None);
}

fn mkv(video: bool, codec_id: &str) -> MkvTrack {
    MkvTrack {
        video,
        number: 7,
        codec_id: codec_id.into(),
        private: None,
        size: Some((640, 0x1_0000_0168)),
    }
}

fn mkv_frame(track: u64, timestamp: u64) -> MkvFrame {
    MkvFrame {
        track,
        timestamp,
        is_invisible: false,
        is_keyframe: None,
        data: vec![1, 2],
    }
}

#[test]
fn mkv_takes_visible_frames_of_its_track() {
    let tracks = vec![mkv(false, "A_OPUS"), mkv(true, "V_VP9")];
    let mut d = MkvDemux::open(&tracks, 1_000_000, Some(5)).ok().unwrap();
    assert_eq!((d.info.width, d.info.height, d.info.duration), (640, 360, Some(5)));
    assert_eq!(d.info.codec, Codec::Vp9);
    assert!(d.accept(mkv_frame(8, 0)).is_none(), "another track");
    let first = d.accept(mkv_frame(7, 0)).unwrap();
    assert!(first.keyframe, "the first frame of the track");
    let p = d.accept(mkv_frame(7, 40)).unwrap();
    assert_eq!((p.pts, p.keyframe, p.data), (40_000_000, false, vec![1, 2]));
    let key = MkvFrame { is_keyframe: Some(true), ..mkv_frame(7, 0) };
    assert!(d.accept(key).unwrap().keyframe);
    assert!(d.accept(mkv_frame(8, 40)).is_none(), "another track");
    let hidden = MkvFrame { is_invisible: true, ..mkv_frame(7, 40) };
    assert!(d.accept(hidden).is_none());
    assert_eq!(d.accept(mkv_frame(7, u64::MAX)).unwrap().pts, u128::from(u64::MAX));
    d.rewind();
    let told = MkvFrame { is_keyframe: Some(false), ..mkv_frame(7, 0) };
    assert!(!d.accept(told).unwrap().keyframe, "the file tells");
    d.rewind();
    assert!(d.accept(mkv_frame(7, 0)).unwrap().keyframe);
    assert!(!d.accept(mkv_frame(7, 40)).unwrap().keyframe);
}

#[test]
fn mkv_without_video() {
    assert_eq!(
        MkvDemux::open(&vec![mkv(false, "A_OPUS")], 1, None).err().as_deref(),
        Some("no video track in MKV")
    );
    let d = MkvDemux::open(&vec![MkvTrack { size: None, ..mkv(true, "V_AV1") }], 1, None);
    assert_eq!(d.ok().unwrap().info.width, 0);
}
