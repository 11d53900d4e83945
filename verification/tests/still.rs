use noshare_cover::frame::FrameData;
use noshare_cover::media::still::{Picture, StillSource};
use noshare_cover::media::{Kind, MediaError, Source};

fn png(w: u32, h: u32, px: [u8; 4]) -> Vec<u8> {
    let mut out = std::io::Cursor::new(Vec::new());
    image::RgbaImage::from_pixel(w, h, image::Rgba(px))
        .write_to(&mut out, image::ImageFormat::Png)
        .unwrap();
    out.into_inner()
}

#[test]
fn png_roundtrip_once() {
    let mut s = StillSource::open("/t.png", &png(3, 2, [255, 0, 0, 255])).unwrap();
    let f = s.poll(0).unwrap().expect("first poll gives frame");
    assert_eq!(f.data.size(), (3, 2));
    assert!(s.poll(1).unwrap().is_none(), "still image is sent once");
}

#[test]
fn garbage_is_an_error_not_a_panic() {
    assert!(matches!(
        StillSource::open("/bad.png", b"not a png"),
        Err(MediaError::Open { .. })
    ));
}

#[test]
fn pixels_are_premultiplied_bgra() {
    let mut s = StillSource::open("/t.png", &png(1, 1, [200, 100, 50, 128])).unwrap();
    assert_eq!(s.kind(), Kind::Still);
    let f = s.poll(0).unwrap().unwrap();
    assert_eq!(f.generation, 1);
    let FrameData::Cpu(c) = f.data else { panic!("pixels in memory") };
    assert_eq!(c.pixels.as_slice(), &[25, 50, 100, 128]);
}

#[test]
fn the_content_decides_on_the_format() {
    assert!(StillSource::open("/t.jpg", &png(1, 1, [1, 2, 3, 255])).is_ok());
    assert!(StillSource::open("/t", &png(1, 1, [1, 2, 3, 255])).is_ok());
    let text = |path: &str| match StillSource::open(path, b"????") {
        Err(MediaError::Open { path: p, reason }) => {
            assert_eq!(p, path);
            reason
        }
        _ => panic!("{path}"),
    };
    assert!(text("/t.xyz").contains("xyz"), "an unknown extension is named");
    assert_ne!(text("/t.png"), text("/t.xyz"), "a known one is tried");
    assert_eq!(text("/t."), text("/t"), "an empty one is none");
    assert_eq!(
        text("/t."),
        image::load_from_memory(b"????").unwrap_err().to_string(),
        "then nothing is known of the format"
    );
}

#[test]
fn empty_pictures_are_refused() {
    let p = Picture { width: 0, height: 3, rgba: vec![] };
    match StillSource::from_picture("/e.png", &p) {
        Err(e) => assert_eq!(e.text(), "failed to open /e.png: пустая картинка"),
        Ok(_) => panic!("no picture"),
    }
}
