use postgres_browser_proxy::{
    chars_of, i32_text, is_space_char, replace_all, same_text, starts_with, trim, usize_text,
};

#[test]
fn trim_matches_std() {
    for s in ["", "  ", " a ", "\t12\r\n", "\u{a0}x\u{3000}", "a b", "\u{2028}\u{85}z"] {
        assert_eq!(trim(s), s.trim());
    }
}

#[test]
fn white_space_matches_std() {
    for u in 0u32..0x3100 {
        if let Some(c) = char::from_u32(u) {
            assert_eq!(is_space_char(c), c.is_whitespace(), "{:x}", u);
        }
    }
}

#[test]
fn prefixes() {
    assert!(starts_with("GET / HTTP/1.1", "GET / HTTP/"));
    assert!(starts_with("abc", ""));
    assert!(!starts_with("ab", "abc"));
    assert!(!starts_with("xbc", "a"));
}

#[test]
fn replace_matches_std() {
    let cases = [
        ("fetch('http://localhost:3000/query')", "3000", "8080"),
        ("aaaa", "aa", "b"),
        ("aaa", "aa", "b"),
        ("db error: ERROR: relation does not exist", "db error: ERROR: ", ""),
        ("abc", "", "-"),
        ("", "", "x"),
        ("", "a", "x"),
        ("no match", "zz", "y"),
    ];
    for (s, from, to) in cases {
        assert_eq!(replace_all(s, from, to), s.replace(from, to));
    }
}

#[test]
fn decimal_texts() {
    assert_eq!(usize_text(0), "0");
    assert_eq!(usize_text(12582912), "12582912");
    assert_eq!(usize_text(usize::MAX), usize::MAX.to_string());
    assert_eq!(i32_text(-1), "-1");
    assert_eq!(i32_text(i32::MIN), "-2147483648");
    assert_eq!(i32_text(i32::MAX), "2147483647");
    assert_eq!(i32_text(24), "24");
}

#[test]
fn text_equality_and_chars() {
    assert!(same_text("HOST", "HOST"));
    assert!(!same_text("HOST", "HOSTS"));
    assert!(!same_text("HOST", "host"));
    assert_eq!(chars_of("héllo"), vec!['h', 'é', 'l', 'l', 'o']);
}
