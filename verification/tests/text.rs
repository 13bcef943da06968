use bigsound::paths::{
    config_base, join_path, output_device_state_path, profiles_dir, user_profiles_dir,
    SYSTEM_PROFILES_DIR,
};
use bigsound::text::{
    contains, decimal, eq_ignore_case, is_alphanumeric, is_graphic, is_white_space, lines,
    sort_order, starts_with, str_eq, str_precedes, strip_prefix, trim, trim_start,
};

#[test]
fn decimal_form() {
    for n in [0u32, 7, 9, 10, 99, 100, 4_294_967_295] {
        assert_eq!(decimal(n), n.to_string());
    }
}

#[test]
fn white_space_is_that_of_unicode() {
    for u in 0..=0x10ffffu32 {
        if let Some(c) = char::from_u32(u) {
            assert_eq!(is_white_space(c), c.is_whitespace(), "U+{u:04X}");
        }
    }
}

#[test]
fn ascii_classes() {
    for u in 0..0x300u32 {
        let c = char::from_u32(u).unwrap();
        assert_eq!(is_graphic(c), c.is_ascii_graphic());
        assert_eq!(is_alphanumeric(c), c.is_ascii_alphanumeric());
    }
}

#[test]
fn trimming() {
    for s in ["", " ", "a", "  a b \t\n", "\u{a0}x\u{3000}", "\u{200b}x"] {
        assert_eq!(trim(s), s.trim());
        assert_eq!(trim_start(s), s.trim_start());
    }
}

#[test]
fn line_splitting() {
    for s in ["", "\n", "a", "a\n", "a\r\nb", "\r\n", "a\n\nb\r", "a\rb\nc\r\r\n"] {
        let expected: Vec<String> = s.lines().map(|l| l.to_string()).collect();
        assert_eq!(lines(s), expected);
    }
}

#[test]
fn searching() {
    assert!(contains("pw: no global 42", "no global"));
    assert!(!contains("no  global", "no global"));
    assert!(contains("x", ""));
    assert!(!contains("", "x"));
    assert!(contains("aab", "ab"));
    assert!(starts_with("BigSound::port", "BigSound::"));
    assert!(!starts_with("BigSound:", "BigSound::"));
    assert_eq!(strip_prefix("Name: x", "Name: "), Some("x".to_string()));
    assert_eq!(strip_prefix("name: x", "Name: "), None);
}

#[test]
fn comparing() {
    assert!(str_eq("é", "é"));
    assert!(!str_eq("a", "ab"));
    assert!(eq_ignore_case("AuToMaTic", "automatic"));
    assert!(!eq_ignore_case("É", "é"));
    assert!(!eq_ignore_case("auto", "autom"));
    let words = ["", "A", "Bluetooth", "HDMI / TV", "Headphones", "a", "ab", "é", "\u{10000}", "\u{ffff}"];
    for a in words {
        for b in words {
            assert_eq!(str_precedes(a, b), a < b, "{a:?} {b:?}");
        }
    }
}

#[test]
fn sorting_is_stable() {
    let keys: Vec<String> = ["b", "a", "b", "", "a", "c"].iter().map(|s| s.to_string()).collect();
    assert_eq!(sort_order(&keys), vec![3, 1, 4, 0, 2, 5]);
    assert_eq!(sort_order(&Vec::new()), Vec::<usize>::new());
}

#[test]
fn path_joining() {
    assert_eq!(join_path("/a", "b"), "/a/b");
    assert_eq!(join_path("/a/", "b"), "/a/b");
    assert_eq!(join_path("", "b"), "b");
    assert_eq!(join_path("/a", "/b"), "/b");
    for (base, part) in [("/a", "b"), ("/a/", "b"), ("", "b"), ("/a", "/b"), ("a", "")] {
        let expected = std::path::Path::new(base).join(part);
        assert_eq!(join_path(base, part), expected.to_str().unwrap());
    }
}

#[test]
fn configuration_paths() {
    assert_eq!(config_base(Some("/x"), Some("/home/u")), "/x");
    assert_eq!(config_base(None, Some("/home/u")), "/home/u/.config");
    assert_eq!(config_base(None, None), "./.config");
    assert_eq!(user_profiles_dir(None, Some("/home/u")), "/home/u/.config/bigsound/profiles");
    assert_eq!(profiles_dir(Some("/x"), None), "/x/bigsound/profiles");
    assert_eq!(output_device_state_path(Some("/x"), None), "/x/bigsound/output-device");
    assert_eq!(SYSTEM_PROFILES_DIR, "/usr/share/bigsound/profiles");
}
