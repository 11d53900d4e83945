use noshare_cover::config::{
    config_dir, default_media_path, default_media_path_in, default_media_paths, expand_home,
    home_dir, sanitize_speed, truthy, Backend, ConfigError, PlayParams, RawSettings, Settings,
};
use noshare_cover::double;

fn bits(v: f64) -> u64 {
    v.to_bits()
}

#[test]
fn backend_parse() {
    assert_eq!(Backend::parse(""), Some(Backend::Auto));
    assert_eq!(Backend::parse(" GPU "), Some(Backend::Gpu));
    assert_eq!(Backend::parse("cpu"), Some(Backend::Cpu));
    assert_eq!(Backend::parse("cuda"), None);
}

#[test]
fn backends_have_several_names() {
    for name in ["auto", "AUTO", "\tauto\n"] {
        assert_eq!(Backend::parse(name), Some(Backend::Auto));
    }
    for name in ["hw", "Hardware"] {
        assert_eq!(Backend::parse(name), Some(Backend::Gpu));
    }
    for name in ["sw", "SOFTWARE"] {
        assert_eq!(Backend::parse(name), Some(Backend::Cpu));
    }
    assert_eq!(Backend::default(), Backend::Auto);
}

#[test]
fn unknown_backend_falls_back_with_error() {
    let raw = RawSettings {
        path_cover: "/x.gif",
        looped: true,
        speed: bits(1.0),
        backend: "vulkan",
        gpu_device: "",
    };
    let (s, err) = Settings::from_raw(&raw, None, "/default.gif");
    assert_eq!(s.backend, Backend::Auto);
    assert_eq!(err, Some(ConfigError::UnknownBackend("vulkan".into())));
    assert_eq!(
        err.unwrap().text(),
        "noshare-cover: неизвестный backend «vulkan», жду auto, gpu или cpu"
    );
}

#[test]
fn speed_is_sanitized() {
    assert_eq!(sanitize_speed(bits(0.0)), bits(1.0));
    assert_eq!(sanitize_speed(bits(-2.0)), bits(1.0));
    assert_eq!(sanitize_speed(bits(f64::NAN)), bits(1.0));
    assert_eq!(sanitize_speed(bits(2.5)), bits(2.5));
}

#[test]
fn speed_sanity_agrees_with_the_numbers() {
    let mut v = 1u64;
    for i in 0..20_000u64 {
        v = v.wrapping_mul(6364136223846793005).wrapping_add(1442695040888963407 + i);
        let f = f64::from_bits(v);
        let want = if f.is_finite() && f > 0.0 { f } else { 1.0 };
        assert_eq!(sanitize_speed(v), bits(want));
        assert_eq!(double::finite(v), f.is_finite());
        assert_eq!(double::equal(v, v), f == f);
    }
    for f in [0.0, -0.0, f64::INFINITY, f64::NEG_INFINITY, f64::MIN_POSITIVE, f64::MAX, 5e-324] {
        let want = if f.is_finite() && f > 0.0 { f } else { 1.0 };
        assert_eq!(sanitize_speed(bits(f)), bits(want));
    }
    assert!(double::equal(bits(0.0), bits(-0.0)));
    assert!(!double::equal(bits(1.0), bits(-1.0)));
}

#[test]
fn truthy_matches_original_plugin() {
    for f in ["0", "false", "No", " off "] {
        assert!(!truthy(f), "{f}");
    }
    for t in ["1", "true", "yes", "on", "whatever"] {
        assert!(truthy(t), "{t}");
    }
}

#[test]
fn rule_overrides_only_non_empty() {
    let base = PlayParams {
        path: "/a.gif".into(),
        speed: bits(1.0),
        looped: true,
    };
    let p = base.clone().with_rule(Some(""), Some("2"), Some(bits(2.0)), Some("off"), None);
    assert_eq!(p.path, "/a.gif");
    assert_eq!(p.speed, bits(2.0));
    assert!(!p.looped);
    let bad = base.with_rule(None, Some("-1"), Some(bits(-1.0)), None, None);
    assert_eq!(bad.speed, bits(1.0));
}

#[test]
fn rule_values_are_trimmed() {
    let base = PlayParams {
        path: "/a.gif".into(),
        speed: bits(3.0),
        looped: false,
    };
    let p = base.clone().with_rule(Some("  ~/b.png "), Some("  "), Some(bits(9.0)), Some(" "), Some("/home/u"));
    assert_eq!(p.path, "/home/u/b.png");
    assert_eq!(p.speed, bits(3.0), "a blank speed is not given");
    assert!(!p.looped);
    let words = base.with_rule(None, Some("fast"), None, Some("yes"), None);
    assert_eq!(words.speed, bits(1.0), "a word that is no number");
    assert!(words.looped);
}

#[test]
fn default_media_prefers_first_existing() {
    let dir = "/cfg";
    assert_eq!(
        default_media_path_in(dir, &[false; 5]),
        "/cfg/noshare-cover.gif"
    );
    assert_eq!(
        default_media_path_in(dir, &[false, false, false, true, false]),
        "/cfg/noshare-cover.png"
    );
}

#[test]
fn default_media_candidates_in_order() {
    assert_eq!(
        default_media_paths("/cfg/"),
        vec![
            "/cfg/noshare-cover.gif",
            "/cfg/noshare-cover.jpg",
            "/cfg/noshare-cover.jpeg",
            "/cfg/noshare-cover.png",
            "/cfg/noshare-cover.mp4",
        ]
    );
    assert_eq!(
        default_media_path(Some("/home/u"), &[false, true, true, false, false]),
        "/home/u/.config/hypr/noshare-cover.jpg"
    );
}

#[test]
fn home_is_expanded() {
    assert_eq!(expand_home("~", Some("/home/u")), "/home/u");
    assert_eq!(expand_home("~/x/y.gif", Some("/home/u")), "/home/u/x/y.gif");
    assert_eq!(expand_home("~/x", Some("/")), "/x");
    assert_eq!(expand_home("~other/x", Some("/home/u")), "~other/x");
    assert_eq!(expand_home("/a/~/x", Some("/home/u")), "/a/~/x");
    assert_eq!(expand_home("~", None), "~");
    assert_eq!(expand_home("~/x", None), "~/x");
    assert_eq!(home_dir(Some("")), None);
    assert_eq!(home_dir(Some("/home/u")), Some("/home/u".to_string()));
    assert_eq!(home_dir(None), None);
    assert_eq!(config_dir(Some("/home/u")), "/home/u/.config/hypr");
    assert_eq!(config_dir(None), ".config/hypr");
}

#[test]
fn settings_from_raw_values() {
    let raw = RawSettings {
        path_cover: "  ",
        looped: false,
        speed: bits(-1.0),
        backend: "gpu",
        gpu_device: " auto ",
    };
    let (s, err) = Settings::from_raw(&raw, Some("/home/u"), "/d.gif");
    assert_eq!(s.path_cover, "/d.gif");
    assert!(!s.looped);
    assert_eq!(s.speed, bits(1.0));
    assert_eq!(s.backend, Backend::Gpu);
    assert_eq!(s.gpu_device, None);
    assert_eq!(err, None);

    let raw = RawSettings {
        path_cover: "~/c.mp4",
        gpu_device: "/dev/dri/renderD129",
        ..raw
    };
    let (s, _) = Settings::from_raw(&raw, Some("/home/u"), "/d.gif");
    assert_eq!(s.path_cover, "/home/u/c.mp4");
    assert_eq!(s.gpu_device.as_deref(), Some("/dev/dri/renderD129"));
    let play = s.default_play();
    assert_eq!((play.path.as_str(), play.speed, play.looped), ("/home/u/c.mp4", bits(1.0), false));
}

#[test]
fn settings_compare_by_value() {
    let a = Settings::defaults("/x".into());
    assert!(a.looped && a.speed == bits(1.0) && a.backend == Backend::Auto && a.gpu_device.is_none());
    assert!(a.same(&a.copy()));
    let b = Settings { speed: bits(2.0), ..a.copy() };
    assert!(!a.same(&b));
    let nan = Settings { speed: bits(f64::NAN), ..a.copy() };
    assert!(!nan.same(&nan), "a NaN differs from itself");
    let dev = Settings { gpu_device: Some("/d".into()), ..a.copy() };
    assert!(!a.same(&dev) && dev.same(&dev.copy()));
}

#[test]
fn windows_with_equal_parameters_share() {
    let a = PlayParams { path: "/a".into(), speed: bits(1.0), looped: true };
    assert!(a.same(&a.copy()));
    assert!(!a.same(&PlayParams { speed: bits(1.0000001), ..a.copy() }));
    assert!(!a.same(&PlayParams { looped: false, ..a.copy() }));
    assert!(!a.same(&PlayParams { path: "/b".into(), ..a.copy() }));
}

#[test]
fn paths_compare_by_component() {
    let at = |path: &str| PlayParams { path: path.into(), speed: bits(1.0), looped: true };
    assert!(at("/a//b").same(&at("/a/b")));
    assert!(at("/a/./b/").same(&at("/a/b")));
    assert!(!at("/a/../b").same(&at("/b")), "the disk decides on that");
    assert!(!at("a/b").same(&at("/a/b")));
    let a = Settings::defaults("/a/b".into());
    let dev = |path: &str| Settings { gpu_device: Some(path.into()), ..a.copy() };
    assert!(a.same(&Settings::defaults("/a//b".into())));
    assert!(dev("/dev//dri/x").same(&dev("/dev/dri/x")));
    assert!(!dev("/dev/dri/x").same(&dev("/dev/dri/y")));
}
