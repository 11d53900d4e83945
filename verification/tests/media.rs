use noshare_cover::config::PlayParams;
use noshare_cover::media::{kind_for, ms, open, open_err, Kind, MediaError};

fn play(path: &str) -> PlayParams {
    PlayParams {
        path: path.into(),
        speed: 1.0f64.to_bits(),
        looped: true,
    }
}

#[test]
fn kinds_by_extension() {
    assert_eq!(kind_for("a.GIF"), Some(Kind::Gif));
    assert_eq!(kind_for("/x/y.jpeg"), Some(Kind::Still));
    assert_eq!(kind_for("clip.MKV"), Some(Kind::Video));
    assert_eq!(kind_for("clip.avi"), None);
    assert_eq!(kind_for("noext"), None);
}

#[test]
fn every_supported_extension() {
    for e in ["png", "jpg", "jpeg"] {
        assert_eq!(kind_for(&format!("f.{e}")), Some(Kind::Still));
    }
    for e in ["mp4", "m4v", "mov", "webm", "mkv"] {
        assert_eq!(kind_for(&format!("f.{e}")), Some(Kind::Video));
    }
    assert_eq!(kind_for(".gif"), None, "a hidden file has no extension");
}

#[test]
fn opening_decides_by_name_and_presence() {
    assert_eq!(open(&play("/a.gif"), true), Ok(Kind::Gif));
    assert_eq!(
        open(&play("/a.gif"), false),
        Err(MediaError::Missing("/a.gif".into()))
    );
    assert_eq!(
        open(&play("/a.XyZ"), true),
        Err(MediaError::UnknownFormat(".XyZ".into()))
    );
    assert_eq!(
        open(&play("/noext"), true),
        Err(MediaError::UnknownFormat("/noext".into()))
    );
}

#[test]
fn messages_for_the_user() {
    assert_eq!(MediaError::Missing("/a".into()).text(), "file not found: /a");
    assert_eq!(MediaError::UnknownFormat(".x".into()).text(), "unsupported format .x");
    assert_eq!(open_err("/a", "why").text(), "failed to open /a: why");
    assert_eq!(
        MediaError::Video { path: "/v".into(), reason: "r".into() }.text(),
        "video /v: r"
    );
}

#[test]
fn milliseconds() {
    assert_eq!(ms(7), 7_000_000);
    assert_eq!(ms(u64::MAX), u128::from(u64::MAX) * 1_000_000);
}
