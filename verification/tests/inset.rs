use lyxcat::inset::InsetType;

#[test]
fn from_line_kinds() {
    let cases = [
        ("\\begin_inset Note Note", InsetType::Note),
        ("\\begin_inset Foot", InsetType::Foot),
        ("\\begin_inset Quotes eld", InsetType::Quotes),
        ("\\begin_inset Flex URL", InsetType::FlexUrl),
        ("\\begin_inset Newline newline", InsetType::Newline),
        ("\\begin_inset space ~", InsetType::Space),
        ("\\begin_inset Info", InsetType::Info),
        ("\\begin_inset CommandInset label", InsetType::CommandInset),
        ("\\begin_inset href", InsetType::Href),
    ];
    for (line, expected) in cases {
        assert_eq!(InsetType::from_line(line), Some(expected), "{}", line);
    }
}

#[test]
fn from_line_none() {
    for line in ["", "\\begin_inset Graphics", "\\begin_inset", "Note", "\\begin_inset  Note", "\\begin_inset note"] {
        assert_eq!(InsetType::from_line(line), None, "{:?}", line);
    }
}

#[test]
fn from_line_anywhere_and_first_kind_wins() {
    assert_eq!(InsetType::from_line("text \\begin_inset Foot more"), Some(InsetType::Foot));
    // A line naming two kinds is the one checked first.
    assert_eq!(
        InsetType::from_line("\\begin_inset Quotes \\begin_inset Note"),
        Some(InsetType::Note)
    );
    assert_eq!(InsetType::from_line("\\begin_inset Footnote"), Some(InsetType::Foot));
}
