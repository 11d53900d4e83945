use noshare_cover::frame::FrameData;
use noshare_cover::media::video::decode::av1::{self, Av1Picture};
use noshare_cover::media::video::decode::h264::{self, H264Picture};
use noshare_cover::media::video::decode::nvdec::{
    self, Area, Sequence, State, VideoFormat, CHROMA_420, CHROMA_MONO, DEINTERLACE_ADAPTIVE,
    DEINTERLACE_WEAVE, SURFACE_NV12, SURFACE_P016,
};
use noshare_cover::media::video::decode::vaapi::{self, helper_codec, VaPicture};
use noshare_cover::media::video::decode::vpx::{self, VpxPicture};
use noshare_cover::media::video::decode::{code_error, plane_len, shrink, threads, to_micros};
use noshare_cover::media::video::pipeline::{Codec, DecodedFrame};
use noshare_cover::media::video::yuv::{Chroma, Matrix};
use noshare_cover::vaapi_helper::{check_planes, codec, error_len, Feed, HelperCodec, Step, Took};

fn pixels(f: DecodedFrame) -> Vec<u8> {
    match f.data {
        FrameData::Cpu(c) => c.pixels.to_vec(),
        FrameData::DmaBuf(_) => panic!("pixels in memory"),
    }
}

// ------------------------------------------------------------------ common

#[test]
fn planes_end_with_their_last_row() {
    assert_eq!(plane_len(10, 7, 3), Some(27));
    assert_eq!(plane_len(10, 7, 0), None);
    assert_eq!(plane_len(usize::MAX, 1, 3), None);
    assert_eq!(shrink(5, 1), 3);
    assert_eq!(shrink(5, 0), 5);
    assert_eq!(shrink(9, 2), 3);
    assert_eq!(shrink(5, 200), 1);
    assert_eq!((threads(None), threads(Some(1)), threads(Some(3)), threads(Some(64))), (2, 1, 3, 4));
    assert_eq!(to_micros(1_999, u64::MAX), 1);
    assert_eq!(to_micros(u128::MAX, 99), 99);
    assert_eq!(code_error("x: ", -2147483648), "x: -2147483648");
    assert_eq!(code_error("x: ", 30), "x: 30");
}

// ------------------------------------------------------------------ AV1

fn av1_picture() -> Av1Picture {
    Av1Picture {
        w: 3,
        h: 3,
        bpc: 8,
        layout: 1,
        color: None,
        stride: (8, 4),
        timestamp: 40,
    }
}

#[test]
fn av1_pictures_have_shapes() {
    let s = av1::shape(&av1_picture()).unwrap();
    assert_eq!((s.width, s.height, s.bit_depth), (3, 3, 8));
    assert_eq!((s.chroma, s.matrix, s.full_range), (Chroma::Sub420, Matrix::Bt601, false));
    assert_eq!((s.y_len, s.u_len, s.v_len), (8 * 2 + 3, 4 + 2, 6));
    assert_eq!(s.pts, 40_000);
    let f = s.planar(&[235; 19], &[128; 6], &[128; 6]).unwrap();
    assert_eq!(f.pts, 40_000);
    assert_eq!(pixels(f), vec![255; 36]);
    assert!(s.planar(&[235; 18], &[128; 6], &[128; 6]).is_none(), "a plane is too short");
}

#[test]
fn av1_colours_and_depths() {
    let deep = Av1Picture { bpc: 10, layout: 2, color: Some((9, 1)), timestamp: -5, ..av1_picture() };
    let s = av1::shape(&deep).unwrap();
    assert_eq!((s.chroma, s.matrix, s.full_range, s.pts), (Chroma::Sub422, Matrix::Bt2020, true, 0));
    assert_eq!((s.y_len, s.u_len), (8 * 2 + 6, 4 * 2 + 4));
    for (m, want) in [(1, Matrix::Bt709), (2, Matrix::Bt601), (6, Matrix::Bt601)] {
        let p = Av1Picture { color: Some((m, 0)), ..av1_picture() };
        assert_eq!(av1::shape(&p).unwrap().matrix, want);
    }
    let grey = av1::shape(&Av1Picture { layout: 0, stride: (8, 0), ..av1_picture() }).unwrap();
    assert_eq!((grey.chroma, grey.u_len), (Chroma::Mono, 0));
    assert_eq!(pixels(grey.grey(&[16; 19]).unwrap())[..4], [0, 0, 0, 255]);
    assert_eq!(av1::shape(&Av1Picture { layout: 3, ..av1_picture() }).unwrap().chroma, Chroma::Full);
}

#[test]
fn av1_refuses_odd_pictures() {
    for p in [
        Av1Picture { w: -1, ..av1_picture() },
        Av1Picture { h: 0, ..av1_picture() },
        Av1Picture { bpc: -8, ..av1_picture() },
        Av1Picture { layout: 4, ..av1_picture() },
        Av1Picture { stride: (-8, 4), ..av1_picture() },
        Av1Picture { stride: (8, -4), ..av1_picture() },
    ] {
        assert!(av1::shape(&p).is_none());
    }
}

#[test]
fn av1_codes() {
    assert_eq!(av1::got_picture(0), Ok(true));
    assert_eq!(av1::got_picture(av1::EAGAIN), Ok(false));
    assert_eq!(av1::got_picture(-22), Err("dav1d_get_picture: -22".to_string()));
    assert_eq!(av1::sent(av1::EAGAIN, 3), Ok(true), "it takes the rest later");
    assert_eq!(av1::sent(0, 3), Ok(true));
    assert_eq!(av1::sent(0, 0), Ok(false));
    assert_eq!(av1::sent(-5, 3), Err("dav1d_send_data: -5".to_string()));
    assert_eq!(av1::opened(0, true), Ok(()));
    assert_eq!(av1::opened(0, false), Err("dav1d_open: 0".to_string()));
    assert_eq!(av1::opened(-12, true), Err("dav1d_open: -12".to_string()));
}

// ------------------------------------------------------------------ H.264

fn h264_picture() -> H264Picture {
    H264Picture {
        status: 1,
        present: true,
        width: 4,
        height: 2,
        stride: (4, 2),
        timestamp: 7,
    }
}

#[test]
fn h264_pictures_have_shapes() {
    let s = h264::shape(&h264_picture()).unwrap();
    assert_eq!((s.y_len, s.u_len, s.v_len, s.pts), (8, 2, 2, 7_000));
    assert_eq!((s.bit_depth, s.chroma, s.matrix), (8, Chroma::Sub420, Matrix::Bt601));
    assert_eq!(pixels(s.planar(&[16; 8], &[128; 2], &[128; 2]).unwrap())[..4], [0, 0, 0, 255]);
    for p in [
        H264Picture { status: 0, ..h264_picture() },
        H264Picture { present: false, ..h264_picture() },
        H264Picture { width: 0, ..h264_picture() },
        H264Picture { height: -2, ..h264_picture() },
        H264Picture { stride: (4, -1), ..h264_picture() },
    ] {
        assert!(h264::shape(&p).is_none());
    }
}

#[test]
fn h264_numbers() {
    assert_eq!(h264::packet_len(5), Some(5));
    assert_eq!(h264::packet_len(0x8000_0000), None);
    assert_eq!((h264::remaining(0, 3), h264::remaining(1, 3), h264::remaining(0, -1)), (3, 0, 0));
}

#[test]
fn libraries_are_looked_for_in_order() {
    let names = h264::candidates(Some("/my/lib.so"), Some("/nix/lib.so"));
    assert_eq!(names[..3], ["/my/lib.so", "/nix/lib.so", "libopenh264.so.8"]);
    assert_eq!(names.len(), 8);
    assert_eq!(vpx::candidates(None, None)[0], "libvpx.so.11");
    assert_eq!(vpx::candidates(None, None).len(), 7);
    let tried = vec!["a: no".to_string(), "b: no".to_string()];
    assert_eq!(
        h264::missing(&tried),
        "libopenh264 не найден (поставьте пакет openh264 или задайте NOSHARE_COVER_OPENH264); пробовал: a: no; b: no"
    );
    assert_eq!(
        vpx::missing(&tried),
        "libvpx not found (install the libvpx package or set NOSHARE_COVER_LIBVPX); tried: a: no; b: no"
    );
    assert_eq!(nvdec::not_loaded("NVIDIA driver", &tried), "NVIDIA driver not found (a: no; b: no)");
    assert_eq!(nvdec::cuda_names()[2], "/run/opengl-driver/lib/libcuda.so.1");
    assert_eq!(nvdec::cuvid_names()[0], "libnvcuvid.so.1");
}

// ------------------------------------------------------------------ VP8 and VP9

fn vpx_picture() -> VpxPicture {
    VpxPicture {
        fmt: 0x102,
        cs: 2,
        range: 0,
        bit_depth: 8,
        width: 3,
        height: 3,
        x_shift: 1,
        y_shift: 1,
        present: true,
        stride: [8, 4, 5],
        tag: 9,
    }
}

#[test]
fn vpx_pictures_have_shapes() {
    let (s, planes) = vpx::shape(&vpx_picture()).unwrap();
    assert_eq!(planes, (1, 2));
    assert_eq!((s.bit_depth, s.chroma, s.matrix, s.full_range), (8, Chroma::Sub420, Matrix::Bt709, false));
    assert_eq!((s.y_len, s.u_len, s.v_len), (19, 6, 7));
    assert_eq!(s.pts, 9_000);
    let (s, planes) = vpx::shape(&VpxPicture { fmt: 0x301, ..vpx_picture() }).unwrap();
    assert_eq!((planes, s.u_stride, s.v_stride, s.u_len), ((2, 1), 5, 4, 7));
    let deep = VpxPicture { fmt: 0x902, bit_depth: 8, range: 1, cs: 5, ..vpx_picture() };
    let (s, _) = vpx::shape(&deep).unwrap();
    assert_eq!((s.bit_depth, s.full_range, s.matrix, s.y_len), (9, true, Matrix::Bt2020, 22));
    let (s, _) = vpx::shape(&VpxPicture { fmt: 0x906, bit_depth: 12, x_shift: 0, y_shift: 0, cs: 0, ..vpx_picture() }).unwrap();
    assert_eq!((s.bit_depth, s.chroma, s.matrix), (12, Chroma::Full, Matrix::Bt601));
    assert_eq!(vpx::shape(&VpxPicture { fmt: 0x105, cs: 1, ..vpx_picture() }).unwrap().0.chroma, Chroma::Sub422);
    for p in [
        VpxPicture { fmt: 0x103, ..vpx_picture() },
        VpxPicture { width: 0, ..vpx_picture() },
        VpxPicture { present: false, ..vpx_picture() },
        VpxPicture { stride: [8, -4, 5], ..vpx_picture() },
    ] {
        assert!(vpx::shape(&p).is_none());
    }
}

#[test]
fn vpx_words() {
    assert_eq!(vpx::is_vp9(&Codec::Vp9), Ok(true));
    assert_eq!(vpx::is_vp9(&Codec::Vp8), Ok(false));
    assert_eq!(vpx::is_vp9(&Codec::Av1), Err("libvpx cannot decode Av1".to_string()));
    assert_eq!(vpx::name(true), "libvpx VP9 (CPU)");
    assert_eq!(vpx::interface(false), "vpx_codec_vp8_dx");
    assert_eq!(vpx::missing_symbol("f", "gone"), "libvpx: missing f: gone");
    assert_eq!(vpx::opened(0, None), Ok(()));
    assert_eq!(vpx::opened(4, None), Err("vpx_codec_dec_init: code 4".to_string()));
    assert_eq!(vpx::opened(4, Some("bad")), Err("vpx_codec_dec_init: bad".to_string()));
    assert_eq!(vpx::packet_len(9), Some(9));
    assert_eq!(vpx::tag(5_999), 5);
    assert_eq!(vpx::tag(u128::MAX), usize::MAX);
    assert_eq!(vpx::DECODER_ABI_VERSION, 12);
}

// ------------------------------------------------------------------ VA-API

#[test]
fn codes_match_helper() {
    assert_eq!(helper_codec(&Codec::H264), Some(1));
    assert_eq!(helper_codec(&Codec::Av1), Some(5));
    assert_eq!(helper_codec(&Codec::Other("x".into())), None);
}

#[test]
fn helper_and_plugin_mean_the_same_codecs() {
    for (c, want) in [
        (Codec::H264, HelperCodec::H264),
        (Codec::Hevc, HelperCodec::Hevc),
        (Codec::Vp8, HelperCodec::Vp8),
        (Codec::Vp9, HelperCodec::Vp9),
        (Codec::Av1, HelperCodec::Av1),
    ] {
        assert_eq!(codec(vaapi::supported(&c).unwrap()), Ok(want));
    }
    assert_eq!(codec(6), Err("неизвестный кодек 6".to_string()));
    assert_eq!(
        vaapi::supported(&Codec::Other("a\"b".into())),
        Err("VA-API doesn't support Other(\"a\\\"b\")".to_string())
    );
}

#[test]
fn vaapi_pictures_have_shapes() {
    let p = VaPicture { width: 3, height: 3, present: true, y_stride: 4, uv_stride: 4, pts_ns: 11 };
    let s = vaapi::shape(&p).unwrap();
    assert_eq!((s.y_len, s.u_len, s.pts), (11, 8, 11));
    assert_eq!(pixels(s.interleaved(&[235; 11], &[128; 8]).unwrap()), vec![255; 36]);
    assert!(vaapi::shape(&VaPicture { width: 0, ..p }).is_none());
    assert!(vaapi::shape(&VaPicture { present: false, ..p }).is_none());
    assert_eq!(vaapi::to_nanos(5), 5);
    assert_eq!(vaapi::to_nanos(u128::MAX), u64::MAX);
}

#[test]
fn vaapi_messages() {
    assert_eq!(
        vaapi::load_error("libva.so.2: cannot open"),
        "libva/libgbm not found for VA-API (install libva): libva.so.2: cannot open"
    );
    assert_eq!(vaapi::load_error("libgbm?"), "libva/libgbm not found for VA-API (install libva): libgbm?");
    assert_eq!(vaapi::load_error("noexec"), "failed to load VA-API helper: noexec");
    assert_eq!(vaapi::open_error(""), "VA-API: failed to open");
    assert_eq!(vaapi::open_error("VA-API on x"), "VA-API on x");
}

#[test]
fn a_packet_goes_in_piece_by_piece() {
    let mut f = Feed::new(10);
    assert!(f.is_more());
    assert!(matches!(f.took(Took::Bytes(4)), Step::More));
    for _ in 0..3 {
        assert!(matches!(f.took(Took::Blocked), Step::Drain));
        assert!(matches!(f.drained(false), Step::More));
    }
    assert!(matches!(f.drained(true), Step::More));
    match f.drained(false) {
        Step::Fail(e) => assert_eq!(e, "VA-API: декодеру не хватает кадров"),
        _ => panic!("patience is over"),
    }
    assert!(matches!(f.took(Took::Bytes(0)), Step::Done), "a decoder that takes nothing");
    assert!(matches!(f.took(Took::Bytes(6)), Step::Done));
    assert_eq!((f.off, f.stalls), (10, 0));
    match Feed::new(1).took(Took::Failed("bad".into())) {
        Step::Fail(e) => assert_eq!(e, "VA-API: bad"),
        _ => panic!("an error"),
    }
    assert!(!Feed::new(0).is_more());
}

#[test]
fn helper_odds_and_ends() {
    assert_eq!(check_planes(2, 2), Ok(()));
    assert_eq!(check_planes(2, 1), Err("кадр без двух плоскостей NV12".to_string()));
    assert_eq!((error_len(5, 0), error_len(5, 3), error_len(5, 6)), (None, Some(2), Some(5)));
}

// ------------------------------------------------------------------ NVDEC

#[test]
fn codecs_map() {
    assert_eq!(nvdec::cuda_codec(&Codec::H264), Some(4));
    assert_eq!(nvdec::cuda_codec(&Codec::Av1), Some(11));
    assert_eq!(nvdec::cuda_codec(&Codec::Other("x".into())), None);
}

fn format() -> VideoFormat {
    VideoFormat {
        codec: 4,
        progressive: true,
        bit_depth_luma_minus8: 0,
        min_num_decode_surfaces: 3,
        coded_width: 16,
        coded_height: 16,
        display_area: Area { left: 0, top: 0, right: 2, bottom: 3 },
        chroma_format: CHROMA_420,
        signal: [0, 0, 0, 0],
    }
}

fn started(f: &VideoFormat) -> State {
    let mut s = State::new();
    match s.sequence(f) {
        Ok(Sequence::Create(plan)) => {
            assert_eq!(s.created(f, &plan, Ok(())), Ok(plan.surfaces));
        }
        _ => panic!("a decoder is needed"),
    }
    s
}

#[test]
fn sequences_create_decoders() {
    let mut s = State::new();
    let f = format();
    let Ok(Sequence::Create(p)) = s.sequence(&f) else { panic!("first sequence") };
    assert_eq!((p.surfaces, p.codec, p.chroma_format), (5, 4, CHROMA_420));
    assert_eq!((p.target_width, p.target_height, p.area), (2, 3, (0, 0, 2, 3)));
    assert_eq!((p.output_format, p.deinterlace_mode, p.replaces), (SURFACE_NV12, DEINTERLACE_WEAVE, false));
    assert_eq!(s.created(&f, &p, Err("no".into())), Err("no".to_string()));
    assert!(!s.decoder);

    let mut s = started(&f);
    assert_eq!((s.out_w, s.out_h, s.high_depth), (2, 3, false));
    assert!(matches!(s.sequence(&VideoFormat { min_num_decode_surfaces: 0, ..f }), Ok(Sequence::Keep(3))));
    let deep = VideoFormat {
        bit_depth_luma_minus8: 2,
        progressive: false,
        display_area: Area { left: 5, top: 70000, right: 3, bottom: 70004 },
        ..f
    };
    let Ok(Sequence::Create(p)) = s.sequence(&deep) else { panic!("another depth") };
    assert_eq!((p.output_format, p.deinterlace_mode, p.replaces), (SURFACE_P016, DEINTERLACE_ADAPTIVE, true));
    assert_eq!((p.target_width, p.target_height), (1, 4));
    assert_eq!(p.area, (5, 70000i32 as i16, 3, 70004i32 as i16));
    assert!(!s.decoder, "the old one is gone");
    assert_eq!(
        s.sequence(&VideoFormat { chroma_format: 2, ..f }).err().as_deref(),
        Some("the plugin's NVDEC path supports 4:2:0 only")
    );
}

#[test]
fn pictures_are_copied_and_shown() {
    let mut s = started(&format());
    let c = s.copy_plan(0x1000, 512).unwrap();
    assert_eq!((c.row, c.luma_rows, c.chroma_rows, c.chroma_at, c.size), (2, 3, 2, 6, 10));
    assert_eq!(c.chroma_src, 0x1000 + 512 * 4, "behind an even number of rows");
    assert!(s.copy_plan(u64::MAX, 512).is_none());

    let mut host = vec![235; 6];
    host.extend([128; 4]);
    assert_eq!(s.display(&host, 3, Err("cuMemcpy2D: bad".into())), Err("cuMemcpy2D: bad".to_string()));
    assert_eq!(s.display(&host, 3, Ok(())), Ok(()));
    assert_eq!(s.display(&host, -3, Ok(())), Ok(()));
    let out = s.collect(Ok(())).ok().unwrap();
    assert_eq!((out.len(), out[0].pts, out[1].pts), (2, 3_000, 0));
    assert_eq!(pixels(out.into_iter().next().unwrap()), vec![255; 24]);
    assert!(s.collect(Ok(())).ok().unwrap().is_empty());
}

#[test]
fn deep_and_grey_pictures() {
    let f = VideoFormat { bit_depth_luma_minus8: 2, chroma_format: CHROMA_MONO, signal: [8, 0, 0, 1], ..format() };
    let mut s = started(&f);
    let c = s.copy_plan(0, 0).unwrap();
    assert_eq!((c.row, c.size), (4, 20));
    assert_eq!(s.display(&[0xff; 20], 0, Ok(())), Ok(()));
    assert_eq!(pixels(s.collect(Ok(())).ok().unwrap().remove(0))[..4], [255; 4]);
}

#[test]
fn errors_of_calls_come_first() {
    let mut s = State::new();
    assert_eq!(s.answer(Ok(7)), 7);
    assert_eq!(s.answer(Err("sequence".into())), 0);
    assert_eq!(s.collect(Err("parse".into())).err().as_deref(), Some("sequence"));
    assert_eq!(s.collect(Err("parse".into())).err().as_deref(), Some("parse"));
    assert_eq!((s.decode(None), s.decode(Some(Ok(())))), (0, 1));
    assert_eq!(s.decode(Some(Err("picture".into()))), 0);
    assert_eq!(s.error.as_deref(), Some("picture"));
    s.reset(Err("parser".into()));
    assert_eq!(s.error.as_deref(), Some("parser"));
    s.reset(Ok(()));
    assert!(s.error.is_none() && s.ready.is_empty());
    assert_eq!(nvdec::flushed(Ok(vec![]), Err("new".into())).err().as_deref(), Some("new"));
    assert!(nvdec::flushed(Ok(vec![]), Ok(())).is_ok());
}

#[test]
fn devices_are_found_by_their_address() {
    assert_eq!(nvdec::device_link("/dev/dri/renderD128").as_deref(), Some("/sys/class/drm/renderD128/device"));
    assert_eq!(nvdec::vendor_file("/dev/dri/renderD128").as_deref(), Some("/sys/class/drm/renderD128/device/vendor"));
    assert_eq!(nvdec::device_link("/"), None);
    assert_eq!(nvdec::pci_address("../../../0000:0A:00.0").as_deref(), Some("0000:0a:00.0"));
    assert!(nvdec::is_nvidia("0x10DE\n"));
    assert!(!nvdec::is_nvidia("0x8086"));
    let want = Some("0000:0a:00.0");
    assert!(nvdec::is_wanted(Some("00000000:0A:00.0"), want));
    assert!(!nvdec::is_wanted(Some("00000000:0B:00.0"), want));
    assert!(!nvdec::is_wanted(None, want));
    assert!(nvdec::is_wanted(None, None));
    assert_eq!(nvdec::device_count(2), Ok(2));
    assert_eq!(nvdec::device_count(0), Err("CUDA sees no GPUs".to_string()));
    assert_eq!(nvdec::no_device(Some("/n")), "/n is not an NVIDIA/CUDA device");
    assert_eq!(nvdec::no_device(None), " is not an NVIDIA/CUDA device");
}

#[test]
fn nvdec_messages() {
    assert_eq!(nvdec::check("cuInit", 0, None), Ok(()));
    assert_eq!(nvdec::check("cuInit", 100, None), Err("cuInit: code 100".to_string()));
    assert_eq!(nvdec::check("cuInit", 100, Some("no device")), Err("cuInit: no device".to_string()));
    assert_eq!(nvdec::supported(&Codec::Hevc), Ok(8));
    assert_eq!(
        nvdec::supported(&Codec::Other("x".into())),
        Err("NVDEC doesn't support Other(\"x\")".to_string())
    );
    assert_eq!(nvdec::capable(&Codec::Av1, 1), Ok(()));
    assert_eq!(
        nvdec::capable(&Codec::Av1, 0),
        Err("this GPU can't decode Av1 via NVDEC".to_string())
    );
}
