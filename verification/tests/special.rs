use lyxcat::special::SpecialCharMap;

#[test]
fn defaults_table() {
    let m = SpecialCharMap::lyx_defaults();
    let cases = [
        ("menuseparator", ">"),
        ("softhyphen", "-"),
        ("LyX", "LyX"),
        ("LaTeX", "LaTeX"),
        ("TeX", "TeX"),
        ("\\ldots{}", "..."),
        ("\\ldots", "..."),
        ("em dash", "--"),
        ("en dash", "-"),
        ("leftarrow", "<- "),
        ("rightarrow", " ->"),
        ("le", "<="),
        ("ge", ">="),
        ("neq", "!="),
        ("approx", "~="),
        ("pm", "+"),
        ("times", "x"),
        ("div", "/"),
        ("copyright", "(c)"),
        ("registered", "(R)"),
        ("trademark", "TM"),
    ];
    for (k, v) in cases {
        assert_eq!(m.get(k), Some(v.to_string()), "{}", k);
    }
    assert_eq!(m.get("ldots"), None);
    assert_eq!(m.get(""), None);
    assert_eq!(m.get("lyx"), None);
}

#[test]
fn later_entry_counts() {
    let mut m = SpecialCharMap::new();
    assert_eq!(m.get("a"), None);
    m.insert("a", "1");
    m.insert("b", "2");
    m.insert("a", "3");
    assert_eq!(m.get("a"), Some("3".to_string()));
    assert_eq!(m.get("b"), Some("2".to_string()));
    assert_eq!(m.get("c"), None);
}
