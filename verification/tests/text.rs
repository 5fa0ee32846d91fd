use lyxcat::text::{chars_of, contains, is_whitespace, push_decimal, starts_with, string_of, trimmed};

#[test]
fn whitespace_agrees_with_char_is_whitespace() {
    for c in (0u32..0x3100).filter_map(char::from_u32) {
        assert_eq!(is_whitespace(c), c.is_whitespace(), "{:?}", c);
    }
    assert!(!is_whitespace('\u{feff}'));
    assert!(!is_whitespace('\u{200b}'));
}

#[test]
fn trimming() {
    let t = |s: &str| string_of(&trimmed(&chars_of(s)));
    assert_eq!(t("  a b  "), "a b");
    assert_eq!(t("\u{a0}\u{3000}x\u{2028}"), "x");
    assert_eq!(t(" \t\n"), "");
    assert_eq!(t(""), "");
    assert_eq!(t("\u{200b}x"), "\u{200b}x");
    for s in ["  mixed\t text \n", "\u{85}é\u{85}", "x"] {
        assert_eq!(t(s), s.trim());
    }
}

#[test]
fn search() {
    let s = chars_of("abc \\begin_inset Note");
    assert!(contains(&s, "\\begin_inset Note"));
    assert!(contains(&s, ""));
    assert!(!contains(&s, "\\begin_inset Foot"));
    assert!(starts_with(&s, "abc"));
    assert!(!starts_with(&s, "\\begin"));
    assert!(!contains(&chars_of("ab"), "abc"));
}

#[test]
fn decimals() {
    for n in [0u32, 7, 10, 99, 123, 2147483647, 4294967295] {
        let mut v = vec!['#'];
        push_decimal(&mut v, n);
        assert_eq!(string_of(&v), format!("#{}", n));
    }
}

#[test]
fn chars_round_trip() {
    for s in ["", "plain", "ünïcödé €𝄞"] {
        assert_eq!(chars_of(s), s.chars().collect::<Vec<char>>());
        assert_eq!(string_of(&chars_of(s)), s);
    }
}
