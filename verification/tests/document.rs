use lyxcat::converter::{convert_lines, Converter};

fn convert(lines: &[&str]) -> String {
    let v: Vec<String> = lines.iter().map(|s| s.to_string()).collect();
    convert_lines(&v)
}

#[test]
fn empty_document() {
    assert_eq!(convert(&[]), "");
}

#[test]
fn standard_paragraph() {
    assert_eq!(
        convert(&["\\begin_layout Standard", "Hello", "world", "\\end_layout"]),
        "Hello world\n\n"
    );
}

#[test]
fn section_then_paragraph() {
    assert_eq!(
        convert(&[
            "\\begin_layout Section",
            "Intro",
            "\\end_layout",
            "",
            "\\begin_layout Standard",
            "Body text.",
            "\\end_layout",
        ]),
        "Intro\n\nBody text.\n\n"
    );
}

#[test]
fn itemize_items() {
    assert_eq!(
        convert(&[
            "\\begin_layout Standard",
            "Intro",
            "\\end_layout",
            "\\begin_layout Itemize",
            "First",
            "\\end_layout",
            "\\begin_layout Itemize",
            "Second",
            "\\end_layout",
        ]),
        "Intro\n\n- First\n\n- Second\n\n"
    );
}

#[test]
fn list_item_prints_pending_paragraph() {
    assert_eq!(
        convert(&["\\begin_layout Standard", "Pending", "\\begin_layout Enumerate", "Item", "\\end_layout"]),
        "Pending\n\n* Item\n\n"
    );
}

#[test]
fn layout_name_after_several_spaces() {
    assert_eq!(
        convert(&["\\begin_layout \t Itemize  ", "a", "\\end_layout"]),
        "- a\n\n"
    );
}

#[test]
fn note_and_footnote_markers_are_numbered() {
    assert_eq!(
        convert(&[
            "\\begin_layout Standard",
            "A",
            "\\begin_inset Note Note",
            "\\end_inset",
            "B",
            "\\begin_inset Foot",
            "\\end_inset",
            "C",
            "\\begin_inset Note Note",
            "\\end_inset",
            "\\end_layout",
        ]),
        "A [note 1]B [footnote 1]C [note 2]\n\n"
    );
}

#[test]
fn note_block_is_listed_at_the_end() {
    assert_eq!(
        convert(&[
            "\\begin_layout Standard",
            "See",
            "\\begin_inset Note Note",
            "status open",
            "",
            "\\begin_layout Plain Layout",
            "hidden",
            "\\end_layout",
            "",
            "\\end_inset",
            "after",
            "\\end_layout",
        ]),
        // The layout inside the note prints the pending paragraph, and the
        // text after the note waits for the next layout.
        "See [note 1]\n\n\nNote1: hidden\n"
    );
}

#[test]
fn notes_then_footnotes_listed_in_order() {
    assert_eq!(
        convert(&[
            "\\begin_layout Standard",
            "A",
            "\\begin_inset Foot",
            "status collapsed",
            "\\begin_layout Plain Layout",
            "first footnote",
            "\\end_layout",
            "\\end_inset",
            "B",
            "\\begin_inset Note Note",
            "\\begin_layout Plain Layout",
            "a note",
            "\\end_layout",
            "\\begin_layout Plain Layout",
            "  second line",
            "\\end_layout",
            "\\end_inset",
            "C",
            "\\begin_inset Note Note",
            "\\begin_layout Plain Layout",
            "",
            "\\end_layout",
            "\\end_inset",
            "\\begin_inset Note Note",
            "\\begin_layout Plain Layout",
            "third",
            "\\end_layout",
            "\\end_inset",
            "\\end_layout",
        ]),
        "A [footnote 1]\n\n[note 1]\n\n[note 2]\n\n[note 3]\n\n\nNote1: a note   second line\nNote2: \nNote3: third\nFootnote1: first footnote\n"
    );
}

#[test]
fn note_between_text() {
    assert_eq!(
        convert(&[
            "\\begin_layout Standard",
            "Before",
            "\\begin_inset Note Note",
            "status open",
            "",
            "\\begin_layout Plain Layout",
            "secret",
            "\\end_layout",
            "",
            "\\end_inset",
            " after",
            "\\end_layout",
        ]),
        "Before [note 1]\n\n\nNote1: secret\n"
    );
}

#[test]
fn inset_inside_a_note_leaves_it_open() {
    assert_eq!(
        convert(&[
            "\\begin_layout Standard",
            "x",
            "\\begin_inset Note Note",
            "\\begin_layout Plain Layout",
            "He said",
            "\\begin_inset Quotes eld",
            "\\end_inset",
            "hi",
            "\\begin_inset Flex URL",
            "status open",
            "\\begin_layout Plain Layout",
            "url",
            "\\end_layout",
            "\\end_inset",
            "\\end_layout",
            "\\end_inset",
            "y",
            "\\end_layout",
        ]),
        "x [note 1]\"\"\n\n"
    );
}

#[test]
fn note_marker_in_running_text() {
    assert_eq!(
        convert(&["\\begin_layout Standard", "see \\begin_inset Note", "hidden", "\\end_layout", "x"]),
        "[note 1]\n\n"
    );
    assert_eq!(
        convert(&["\\begin_layout Standard", "see \\begin_inset Foot", "hidden", "\\end_layout"]),
        "[footnote 1]\n\n"
    );
}

#[test]
fn math() {
    assert_eq!(
        convert(&["\\begin_layout Standard", "x", "\\begin_math", "a+b", "\\end_math", "y", "\\end_layout"]),
        "x $$y\n\n"
    );
    assert_eq!(
        convert(&[
            "\\begin_layout Standard",
            "x",
            "\\begin_display_math",
            "a+b",
            "\\end_display_math",
            "y",
            "\\end_layout",
        ]),
        "x \n$$$$\ny\n\n"
    );
}

#[test]
fn quotes_newline_and_space() {
    assert_eq!(
        convert(&[
            "\\begin_layout Standard",
            "He said",
            "\\begin_inset Quotes eld",
            "\\end_inset",
            "hi",
            "\\begin_inset Quotes erd",
            "\\end_inset",
            "\\end_layout",
        ]),
        "He said \"\"hi \"\"\n\n"
    );
    assert_eq!(
        convert(&[
            "\\begin_layout Standard",
            "a",
            "\\begin_inset Newline newline",
            "\\end_inset",
            "b",
            "\\begin_inset space ~",
            "\\end_inset",
            "c",
            "\\end_layout",
        ]),
        "a \nb  c\n\n"
    );
}

#[test]
fn special_chars_and_commands_in_text() {
    assert_eq!(
        convert(&[
            "\\begin_layout Standard",
            "Use \\SpecialChar LyX now",
            "\\lang english",
            "\\SpecialChar LaTeX",
            "\\end_layout",
        ]),
        "Use LyX now LaTeX\n\n"
    );
}

#[test]
fn text_outside_layout_and_inside_insets_is_dropped() {
    assert_eq!(
        convert(&[
            "outside",
            "\\begin_layout Standard",
            "in",
            "\\begin_inset Flex URL",
            "url text",
            "\\end_inset",
            "\\end_layout",
            "after",
        ]),
        "in\n\n"
    );
}

#[test]
fn indented_text_is_kept_and_paragraph_trimmed() {
    assert_eq!(
        convert(&["\\begin_layout Standard", "   indented   ", "  more", "\\end_layout"]),
        "indented      more\n\n"
    );
}

#[test]
fn pending_paragraph_printed_at_end() {
    assert_eq!(convert(&["\\begin_layout Standard", "tail"]), "tail\n\n");
}

#[test]
fn line_by_line() {
    let mut c = Converter::lyx();
    let lines = ["\\begin_layout Standard", "one", "\\end_layout", "\\begin_layout Itemize", "two"];
    let mut printed = Vec::new();
    for l in lines {
        assert!(c.fits(l));
        printed.push(c.feed_line(l));
    }
    assert_eq!(printed, vec!["", "", "one\n\n", "", ""]);
    assert_eq!(c.finish(), "- two\n\n");
}

#[test]
fn line_prints_only_the_pending_paragraph() {
    let mut c = Converter::lyx();
    assert_eq!(c.feed_line("\\begin_layout Standard"), "");
    assert_eq!(c.feed_line("\\end_layout"), "");
    assert_eq!(c.feed_line("\\begin_layout Description"), "");
    assert_eq!(c.feed_line("term"), "");
    assert_eq!(c.feed_line("\\begin_layout Itemize"), "term\n\n");
    assert_eq!(c.finish(), "-\n\n");
}
