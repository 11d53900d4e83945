use noshare_cover::media::video::yuv::{
    convert_band, rows_per_band, threads_for, to_bgra, Chroma, ChromaPlanes, Coefs, Matrix, Plane,
    YuvImage,
};

fn solid420(y: u8, u: u8, v: u8, w: usize, h: usize, matrix: Matrix, full: bool) -> [u8; 4] {
    let yp = vec![y; w * h];
    let (cw, ch) = (w.div_ceil(2), h.div_ceil(2));
    let up = vec![u; cw * ch];
    let vp = vec![v; cw * ch];
    let img = YuvImage {
        width: w as u32,
        height: h as u32,
        bit_depth: 8,
        chroma: Chroma::Sub420,
        matrix,
        full_range: full,
        y: Plane {
            data: &yp,
            stride: w,
        },
        uv: ChromaPlanes::Planar {
            u: Plane {
                data: &up,
                stride: cw,
            },
            v: Plane {
                data: &vp,
                stride: cw,
            },
        },
    };
    let f = to_bgra(&img).unwrap();
    f.pixels[..4].try_into().unwrap()
}

fn close(a: [u8; 4], b: [u8; 4]) -> bool {
    a.iter()
        .zip(b)
        .all(|(x, y)| (i16::from(*x) - i16::from(y)).abs() <= 2)
}

#[test]
fn limited_range_black_white() {
    assert_eq!(
        solid420(16, 128, 128, 4, 4, Matrix::Bt601, false),
        [0, 0, 0, 255]
    );
    assert_eq!(
        solid420(235, 128, 128, 4, 4, Matrix::Bt601, false),
        [255, 255, 255, 255]
    );
    assert_eq!(
        solid420(255, 128, 128, 4, 4, Matrix::Bt601, true),
        [255, 255, 255, 255]
    );
}

#[test]
fn bt601_and_bt709_red() {
    // pure red in limited range
    assert!(close(
        solid420(81, 90, 240, 4, 4, Matrix::Bt601, false),
        [0, 0, 255, 255]
    ));
    assert!(close(
        solid420(63, 102, 240, 4, 4, Matrix::Bt709, false),
        [0, 0, 255, 255]
    ));
}

#[test]
fn odd_sizes_and_nv12() {
    // 3x3, NV12 with stride larger than width
    let yp = vec![235u8; 4 * 3];
    let uvp = vec![128u8; 4 * 2];
    let img = YuvImage {
        width: 3,
        height: 3,
        bit_depth: 8,
        chroma: Chroma::Sub420,
        matrix: Matrix::Bt709,
        full_range: false,
        y: Plane {
            data: &yp,
            stride: 4,
        },
        uv: ChromaPlanes::Interleaved(Plane {
            data: &uvp,
            stride: 4,
        }),
    };
    let f = to_bgra(&img).unwrap();
    assert_eq!((f.width, f.height, f.pixels.len()), (3, 3, 36));
    assert!(f.pixels.chunks(4).all(|p| p == [255, 255, 255, 255]));
}

#[test]
fn ten_bit_and_mono() {
    let yp: Vec<u8> = std::iter::repeat_n(940u16.to_le_bytes(), 4)
        .flatten()
        .collect();
    let img = YuvImage {
        width: 2,
        height: 2,
        bit_depth: 10,
        chroma: Chroma::Mono,
        matrix: Matrix::Bt709,
        full_range: false,
        y: Plane {
            data: &yp,
            stride: 4,
        },
        uv: ChromaPlanes::Absent,
    };
    let f = to_bgra(&img).unwrap();
    assert_eq!(&f.pixels[..4], &[255, 255, 255, 255]);
}

#[test]
fn short_planes_are_rejected() {
    let yp = vec![0u8; 3];
    let img = YuvImage {
        width: 4,
        height: 4,
        bit_depth: 8,
        chroma: Chroma::Mono,
        matrix: Matrix::Bt601,
        full_range: false,
        y: Plane {
            data: &yp,
            stride: 4,
        },
        uv: ChromaPlanes::Absent,
    };
    assert!(to_bgra(&img).is_none());
}

#[test]
fn parallel_matches_single_thread() {
    // 1600x900 > threshold: bands must match the row-by-row result
    let (w, h) = (1600usize, 900usize);
    let yp: Vec<u8> = (0..w * h).map(|i| (i * 7 % 251) as u8).collect();
    let (cw, ch) = (w / 2, h / 2);
    let up: Vec<u8> = (0..cw * ch).map(|i| (i * 3 % 241) as u8).collect();
    let vp: Vec<u8> = (0..cw * ch).map(|i| (i * 5 % 239) as u8).collect();
    let img = YuvImage {
        width: w as u32,
        height: h as u32,
        bit_depth: 8,
        chroma: Chroma::Sub420,
        matrix: Matrix::Bt709,
        full_range: false,
        y: Plane {
            data: &yp,
            stride: w,
        },
        uv: ChromaPlanes::Planar {
            u: Plane {
                data: &up,
                stride: cw,
            },
            v: Plane {
                data: &vp,
                stride: cw,
            },
        },
    };
    let f = to_bgra(&img).unwrap();
    let c = Coefs::new(Matrix::Bt709, false);
    for &(x, y) in &[
        (0usize, 0usize),
        (1599, 0),
        (800, 450),
        (0, 899),
        (1599, 899),
        (777, 333),
    ] {
        let want = c.px(
            i32::from(yp[y * w + x]),
            i32::from(up[(y / 2) * cw + x / 2]),
            i32::from(vp[(y / 2) * cw + x / 2]),
        );
        assert_eq!(&f.pixels[(y * w + x) * 4..][..4], &want, "({x},{y})");
    }
    // the bands of four threads, one after the other, are the whole picture
    let threads = threads_for(w as u32, h as u32, Some(16));
    assert_eq!(threads, 4);
    let band = rows_per_band(h, threads);
    assert_eq!(band, 225);
    let mut joined = Vec::new();
    let mut first = 0;
    while first < h {
        let n = band.min(h - first);
        joined.extend(convert_band(&img, first, n));
        first += n;
    }
    assert_eq!(joined, **f.pixels);
}

#[test]
fn threads_are_for_large_pictures() {
    assert_eq!(threads_for(1000, 999, Some(8)), 1);
    assert_eq!(threads_for(1000, 1000, Some(8)), 4);
    assert_eq!(threads_for(1000, 1000, Some(2)), 2);
    assert_eq!(threads_for(1000, 1000, None), 1);
}

#[test]
fn small_pictures_are_taken_for_standard_definition() {
    assert_eq!(Matrix::guess(576), Matrix::Bt601);
    assert_eq!(Matrix::guess(720), Matrix::Bt709);
}
