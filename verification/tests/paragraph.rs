use lyxcat::paragraph::process_paragraph;
use lyxcat::special::SpecialCharMap;
use regex::Regex;
use std::collections::HashMap;

fn clean(p: &str) -> String {
    process_paragraph(p, &SpecialCharMap::lyx_defaults())
}

#[test]
fn special_chars_of_the_table() {
    assert_eq!(clean("\\SpecialChar LyX "), "LyX ");
    assert_eq!(clean("\\SpecialChar LaTeX"), "LaTeX");
    assert_eq!(clean("\\SpecialChar TeX"), "TeX");
    assert_eq!(clean("File\\SpecialChar menuseparator Open"), "File> Open");
    assert_eq!(clean("\\SpecialChar softhyphen"), "-");
    assert_eq!(clean("\\SpecialChar copyright"), "(c)");
    assert_eq!(clean("\\SpecialChar registered"), "(R)");
    assert_eq!(clean("\\SpecialChar trademark"), "TM");
    assert_eq!(clean("a \\SpecialChar le b"), "a <= b");
}

#[test]
fn unknown_special_char_in_brackets() {
    assert_eq!(clean("\\SpecialChar endofsentence"), "[endofsentence]");
    assert_eq!(clean("\\SpecialChar foo{}{} x"), "[foo] x");
    assert_eq!(clean("\\SpecialChar ldots"), "[ldots]");
    // A plain name ends at whitespace.
    assert_eq!(clean("\\SpecialChar em-dash x"), "[em-dash] x");
}

#[test]
fn table_names_with_backslash_or_space() {
    assert_eq!(clean("\\SpecialChar \\ldots"), "...");
    assert_eq!(clean("\\SpecialChar \\ldots{}"), "...");
    assert_eq!(clean("and so on\\SpecialChar \\ldots{} more"), "and so on... more");
    assert_eq!(clean("\\SpecialChar em dash"), "--");
    assert_eq!(clean("\\SpecialChar en dash"), "-");
    assert_eq!(clean("a\\SpecialChar  em dash b"), "a-- b");
    // The longest name written there counts.
    assert_eq!(clean("\\SpecialChar \\ldots{}{}"), "...{}");
    // A plain name that merely begins like a spaced one.
    assert_eq!(clean("\\SpecialChar em"), "[em]");
}

#[test]
fn special_char_needs_whitespace_and_a_name() {
    assert_eq!(clean("\\SpecialCharLyX"), "\\SpecialCharLyX");
    assert_eq!(clean("\\SpecialChar "), "\\SpecialChar ");
    // A plain name cannot begin with a backslash.
    assert_eq!(clean("\\SpecialChar \\foo{}"), "\\SpecialChar \\foo{}");
    // Any whitespace, several characters of it, may separate the name.
    assert_eq!(clean("\\SpecialChar\t\u{a0} TeX"), "TeX");
    // The name stops at a backslash.
    assert_eq!(clean("\\SpecialChar le\\SpecialChar ge"), "<=>=");
}

#[test]
fn inline_insets_removed() {
    assert_eq!(clean("a\\inset x}b"), "ab");
    assert_eq!(clean("a\\inset x y z}b\\inset q}c"), "abc");
    assert_eq!(clean("\\inset }"), "\\inset }");
    assert_eq!(clean("\\inset abc"), "\\inset abc");
    assert_eq!(clean("\\inset\tx}"), "\\inset\tx}");
}

#[test]
fn special_char_replaced_before_insets_removed() {
    // The replacement of a special character can complete inline formatting.
    let mut m = SpecialCharMap::new();
    m.insert("x", "\\inset a");
    assert_eq!(process_paragraph("<\\SpecialChar x }>", &m), "<>");
}

#[test]
fn plain_text_unchanged() {
    for p in ["", "Hello world ", "  two  spaces ", "{braces} and } more {", "ünïcödé €"] {
        assert_eq!(clean(p), p);
    }
}

fn regex_clean(p: &str, map: &HashMap<&str, &str>, special: &Regex, inset: &Regex) -> String {
    let replaced = special.replace_all(p, |caps: &regex::Captures| {
        let name = &caps[1];
        match map.get(name) {
            Some(v) => v.to_string(),
            None => format!("[{}]", name.trim_start_matches('\\').trim_end_matches("{}")),
        }
    });
    inset.replace_all(&replaced, "").into()
}

#[test]
fn agrees_with_regular_expressions_for_plain_names() {
    // With a table of plain names only, a special character is exactly what
    // the pattern `\\SpecialChar\s+([^\\\s]+)` matches.
    let map: HashMap<&str, &str> =
        [("LyX", "LyX"), ("le", "<="), ("x", "\\inset a"), ("em", "--")].iter().cloned().collect();
    let mut m = SpecialCharMap::new();
    for (k, v) in map.iter() {
        m.insert(k, v);
    }
    let tokens = [
        "\\", "\\SpecialChar", "\\inset ", "\\inset", " ", "\t", "\n", "\u{a0}", "\u{2003}", "x",
        "LyX", "le", "em", "}", "{", "{}", "a", "é",
    ];
    let special = Regex::new(r"\\SpecialChar\s+([^\\\s]+)").unwrap();
    let inset = Regex::new(r"\\inset [^}]+}").unwrap();
    let mut state: u64 = 0x2545F4914F6CDD1D;
    for _ in 0..5000 {
        let mut p = String::new();
        state ^= state << 13;
        state ^= state >> 7;
        state ^= state << 17;
        let n = state % 10;
        for _ in 0..n {
            state ^= state << 13;
            state ^= state >> 7;
            state ^= state << 17;
            p.push_str(tokens[(state % tokens.len() as u64) as usize]);
        }
        assert_eq!(process_paragraph(&p, &m), regex_clean(&p, &map, &special, &inset), "{:?}", p);
    }
}
