use gargo::std_calls::{char_is_whitespace, path_is_absolute, path_join};

#[test]
fn joins_paths_as_unix_does() {
    assert_eq!(path_join("/repo", "src/main.rs"), "/repo/src/main.rs");
    assert_eq!(path_join("/repo/", "src"), "/repo/src");
    assert_eq!(path_join("", "src"), "src");
    assert_eq!(path_join("/repo", "/etc/hosts"), "/etc/hosts");
    assert_eq!(path_join("a", ""), "a/");
    for (base, rel) in [("/repo", "x/y"), ("/repo/", "z"), ("", "w"), ("a", "/b"), ("a", "")] {
        let expected = std::path::Path::new(base).join(rel).to_string_lossy().into_owned();
        assert_eq!(path_join(base, rel), expected);
    }
}

#[test]
fn absolute_paths_start_at_the_root() {
    assert!(path_is_absolute("/usr"));
    assert!(!path_is_absolute("usr"));
    assert!(!path_is_absolute(""));
}

#[test]
fn whitespace_is_the_unicode_white_space_set() {
    for c in ['\t', '\n', '\u{b}', '\u{c}', '\r', ' ', '\u{85}', '\u{a0}', '\u{1680}', '\u{2000}', '\u{200a}', '\u{2028}', '\u{2029}', '\u{202f}', '\u{205f}', '\u{3000}'] {
        assert!(char_is_whitespace(c));
    }
    for c in ['a', '0', '_', '\u{200b}', '\u{feff}', 'あ'] {
        assert!(!char_is_whitespace(c));
    }
    for u in 0u32..0x4000 {
        if let Some(c) = char::from_u32(u) {
            assert_eq!(char_is_whitespace(c), c.is_whitespace());
        }
    }
}
