use noshare_cover::frame::{premul, CpuFrame, DmaBufFrame, FrameData, DRM_FORMAT_ARGB8888};
use std::sync::Arc;

#[test]
fn premultiply_and_swizzle() {
    // semi-transparent red becomes premultiplied BGRA
    let f = CpuFrame::from_rgba(1, 1, &[255, 0, 0, 128]);
    assert_eq!(&**f.pixels, &[0, 0, 128, 128]);
    assert_eq!(f.stride, 4);
}

#[test]
fn opaque_is_untouched() {
    let f = CpuFrame::from_rgba(1, 1, &[10, 20, 30, 255]);
    assert_eq!(&**f.pixels, &[30, 20, 10, 255]);
}

#[test]
fn fourcc_matches_drm() {
    assert_eq!(DRM_FORMAT_ARGB8888, 0x3432_5241);
    assert_eq!(DRM_FORMAT_ARGB8888, u32::from_le_bytes(*b"AR24"));
}

#[test]
fn premultiplied_colours_stay_below_alpha() {
    for c in 0..=255u8 {
        for a in 0..=255u8 {
            let p = premul(c, a);
            assert!(p <= a);
            assert_eq!(u32::from(p), (u32::from(c) * u32::from(a) + 127) / 255);
        }
    }
    assert_eq!(premul(200, 100), 78);
}

#[test]
fn sizes_of_both_kinds() {
    let cpu = FrameData::Cpu(CpuFrame::from_bgra(2, 1, Arc::new(vec![7; 8])));
    assert_eq!(cpu.size(), (2, 1));
    let gpu = FrameData::DmaBuf(Arc::new(DmaBufFrame {
        width: 640,
        height: 360,
        fourcc: 1,
        modifier: 2,
        planes: vec![],
    }));
    assert_eq!(gpu.size(), (640, 360));
}
