use noshare_cover::path::{extension, file_name, join, parts, same_path};
use noshare_cover::text::{
    char_is_space, contains, decimal, ends_with, head, list, parse_u32, same, strip_prefix,
    to_lower, trim, trim_front,
};
use std::path::Path;

#[test]
fn white_space_is_unicode_white_space() {
    for n in 0..=0x10ffffu32 {
        if let Some(c) = char::from_u32(n) {
            assert_eq!(char_is_space(c), c.is_whitespace(), "{n:x}");
        }
    }
}

#[test]
fn texts_behave_like_strings() {
    for s in ["", " ", "a", "  Ab cD\t", "\u{3000}жЖ\u{a0}", "ÄÖÜ", "0x10DE\n", "..", "+1"] {
        assert_eq!(trim(s), s.trim());
        assert_eq!(to_lower(s), s.to_ascii_lowercase());
        assert_eq!(trim_front(s, '0'), s.trim_start_matches('0'));
        for t in ["", "a", "Ab", "\t", "Ж", "10DE"] {
            assert_eq!(same(s, t), s == t);
            assert_eq!(strip_prefix(s, t), s.strip_prefix(t));
            assert_eq!(ends_with(s, t), s.ends_with(t));
            assert_eq!(contains(s, t), s.contains(t));
        }
        for n in 0..5 {
            assert_eq!(head(s, n), s.chars().take(n).collect::<String>());
        }
    }
}

#[test]
fn numbers_are_written_and_read() {
    for n in [0u64, 7, 10, 99, 100, 4_294_967_295, u64::MAX] {
        assert_eq!(decimal(n), n.to_string());
    }
    for s in [
        "", "+", "0", "+0", "007", "128", "4294967295", "4294967296", "99999999999", "-1", "1x", "++1", " 1",
    ] {
        assert_eq!(parse_u32(s), s.parse::<u32>().ok(), "{s}");
    }
}

#[test]
fn lists_have_separators() {
    let v = |p: &[&str]| p.iter().map(|s| s.to_string()).collect::<Vec<_>>();
    assert_eq!(list(&v(&[]), "; "), "");
    assert_eq!(list(&v(&["a"]), "; "), "a");
    assert_eq!(list(&v(&["a", "b", "c"]), "; "), "a; b; c");
}

#[test]
fn paths_behave_like_paths() {
    for p in [
        "", "/", ".", "..", "a", "a.gif", "/x/y.jpeg", "a/b/", "a/b/.", "a/b/..", "./", "/.", "a//b.c.d",
        ".hidden", ".hidden.gif", "a.", "dir.d/file", "dir.d/file/", "..gif", "...", "/x/./y.png/.",
    ] {
        let path = Path::new(p);
        assert_eq!(file_name(p).as_deref(), path.file_name().and_then(|s| s.to_str()), "{p}");
        assert_eq!(extension(p).as_deref(), path.extension().and_then(|s| s.to_str()), "{p}");
        for q in ["", "x", "/x", "x/y"] {
            assert_eq!(join(p, q), path.join(q).to_str().unwrap(), "{p} {q}");
        }
    }
}

#[test]
fn paths_are_equal_like_paths() {
    let all = [
        "", "/", ".", "..", "a", "./a", "a/", "a/.", "/a", "//a", "/./a", "a//b", "a/b", "a/./b", "a/b/..",
        "./", ".//./a", "a/../b", "b", "/.", "/..", "..a", "a/b/.",
    ];
    for p in all {
        for q in all {
            assert_eq!(same_path(p, q), Path::new(p) == Path::new(q), "{p} {q}");
        }
    }
    assert_eq!(parts("./x//./y/"), vec![".", "x", "y"]);
}
