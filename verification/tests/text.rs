use safestream::text::{chars_of, contains_char, is_unicode_white_space, str_equal, string_of, trim_chars};

#[test]
fn white_space_matches_std() {
    for u in 0u32..=0x10FFFF {
        if let Some(c) = char::from_u32(u) {
            assert_eq!(is_unicode_white_space(c), c.is_whitespace(), "U+{u:04X}");
        }
    }
}

#[test]
fn trimming_matches_std() {
    for s in ["", "   ", " a ", "\u{3000}x y\u{2029}", "ab", "\n\tq\r", "\u{200b}z\u{200b}"] {
        let v = chars_of(s);
        let t = trim_chars(&v);
        assert_eq!(string_of(&t), s.trim());
    }
}

#[test]
fn char_helpers() {
    let v = chars_of("héllo");
    assert_eq!(v, vec!['h', 'é', 'l', 'l', 'o']);
    assert_eq!(string_of(&v), "héllo");
    assert!(contains_char(&v, 'é'));
    assert!(!contains_char(&v, ':'));
    assert!(str_equal("abc", "abc"));
    assert!(!str_equal("abc", "abd"));
    assert!(!str_equal("abc", "ab"));
}
