//! The reading of a LyX document, line by line: which lines are text, which
//! open or close insets, notes, math and layouts, and what gets printed.
use vstd::prelude::*;
use crate::text::{trim, has_prefix, has_infix, occurs_at, decimal};
use crate::paragraph::{clean_paragraph, ws_run};
use crate::layout::{LayoutType, layout_of_name, layout_is_list, layout_prefix, layout_suffix};
use crate::inset::{InsetType, inset_of_line};

verus! {

/// What the reader knows after a number of lines.
#[verifier::ext_equal]
pub struct DocState {
    /// The table of special characters.
    pub specials: Map<Seq<char>, Seq<char>>,
    pub in_layout: bool,
    pub current_layout: LayoutType,
    pub in_note: bool,
    pub in_footnote: bool,
    pub in_math: bool,
    pub in_display_math: bool,
    pub in_inset: bool,
    pub inset_type: InsetType,
    /// The text of the paragraph read so far, not yet printed.
    pub paragraph: Seq<char>,
    /// The notes, each as it is printed at the end.
    pub notes: Seq<Seq<char>>,
    /// The footnotes, each as it is printed at the end.
    pub footnotes: Seq<Seq<char>>,
    pub note_counter: nat,
    pub footnote_counter: nat,
    pub note_content: Seq<char>,
    pub footnote_content: Seq<char>,
    /// Whether a layout is open inside the note or footnote inset.
    pub in_aside_layout: bool,
}

/// The state before the first line.
pub open spec fn initial_state(specials: Map<Seq<char>, Seq<char>>) -> DocState {
    DocState {
        specials,
        in_layout: false,
        current_layout: LayoutType::Unknown,
        in_note: false,
        in_footnote: false,
        in_math: false,
        in_display_math: false,
        in_inset: false,
        inset_type: InsetType::Unknown,
        paragraph: Seq::empty(),
        notes: Seq::empty(),
        footnotes: Seq::empty(),
        note_counter: 0,
        footnote_counter: 0,
        note_content: Seq::empty(),
        footnote_content: Seq::empty(),
        in_aside_layout: false,
    }
}

/// What is printed for the paragraph `p`: its clean text, trimmed, then a
/// blank line.
pub open spec fn emitted(specials: Map<Seq<char>, Seq<char>>, p: Seq<char>) -> Seq<char> {
    trim(clean_paragraph(specials, p)) + seq!['\n', '\n']
}

/// The marker left in the text where note `n` stands.
pub open spec fn note_marker(n: nat) -> Seq<char> {
    "[note "@ + decimal(n) + "]"@
}

/// The marker left in the text where footnote `n` stands.
pub open spec fn footnote_marker(n: nat) -> Seq<char> {
    "[footnote "@ + decimal(n) + "]"@
}

/// How note `n` with the text `content` is printed at the end.
pub open spec fn note_entry(n: nat, content: Seq<char>) -> Seq<char> {
    "Note"@ + decimal(n) + ": "@ + trim(content)
}

/// How footnote `n` with the text `content` is printed at the end.
pub open spec fn footnote_entry(n: nat, content: Seq<char>) -> Seq<char> {
    "Footnote"@ + decimal(n) + ": "@ + trim(content)
}

/// A new note begins: it is numbered and its marker goes into the text.
pub open spec fn open_note(st: DocState) -> DocState {
    DocState {
        in_note: true,
        note_counter: st.note_counter + 1,
        paragraph: st.paragraph + note_marker(st.note_counter + 1),
        note_content: Seq::empty(),
        in_aside_layout: false,
        ..st
    }
}

/// A new footnote begins: it is numbered and its marker goes into the text.
pub open spec fn open_footnote(st: DocState) -> DocState {
    DocState {
        in_footnote: true,
        footnote_counter: st.footnote_counter + 1,
        paragraph: st.paragraph + footnote_marker(st.footnote_counter + 1),
        footnote_content: Seq::empty(),
        in_aside_layout: false,
        ..st
    }
}

/// The current note ends; it is kept if it holds any text.
pub open spec fn close_note(st: DocState) -> DocState {
    DocState {
        in_note: false,
        notes: if st.note_content.len() > 0 {
            st.notes.push(note_entry(st.note_counter, st.note_content))
        } else {
            st.notes
        },
        note_content: Seq::empty(),
        ..st
    }
}

/// The current footnote ends; it is kept if it holds any text.
pub open spec fn close_footnote(st: DocState) -> DocState {
    DocState {
        in_footnote: false,
        footnotes: if st.footnote_content.len() > 0 {
            st.footnotes.push(footnote_entry(st.footnote_counter, st.footnote_content))
        } else {
            st.footnotes
        },
        footnote_content: Seq::empty(),
        ..st
    }
}

/// `st` with `c` appended to the paragraph.
pub open spec fn push_paragraph(st: DocState, c: Seq<char>) -> DocState {
    DocState { paragraph: st.paragraph + c, ..st }
}

/// A line `\begin_inset ...` announcing an inset of kind `it`.
pub open spec fn begin_inset(st: DocState, it: InsetType) -> DocState {
    let st = DocState { inset_type: it, ..st };
    match it {
        InsetType::Note => open_note(st),
        InsetType::Foot => open_footnote(st),
        InsetType::Quotes => push_paragraph(st, seq!['"']),
        InsetType::Newline => push_paragraph(st, seq!['\n']),
        InsetType::Space => push_paragraph(st, seq![' ']),
        _ => st,
    }
}

/// A line `\end_inset`.
pub open spec fn end_inset(st: DocState) -> DocState {
    let st = DocState { in_inset: false, ..st };
    let st = match st.inset_type {
        InsetType::Note => close_note(st),
        InsetType::Foot => close_footnote(st),
        InsetType::Quotes => push_paragraph(st, seq!['"']),
        _ => st,
    };
    DocState { inset_type: InsetType::Unknown, ..st }
}

/// Whether a line (trimmed: `t`) holds text to be kept: it does not begin
/// with a backslash, or it holds a special character.
pub open spec fn is_text_line(t: Seq<char>) -> bool {
    !has_prefix(t, seq!['\\']) || has_infix(t, "\\SpecialChar"@)
}

/// A line (`line`, trimmed: `t`) while a note is open and no inset is: the
/// text lines are gathered into the note.
pub open spec fn note_line(st: DocState, line: Seq<char>, t: Seq<char>) -> DocState {
    if has_prefix(t, "\\end_inset"@) {
        close_note(st)
    } else if has_prefix(t, "\\begin_layout"@) {
        st
    } else if has_prefix(t, "\\end_layout"@) {
        if st.note_content.len() > 0 {
            DocState { note_content: st.note_content.push(' '), ..st }
        } else {
            st
        }
    } else if is_text_line(t) {
        DocState { note_content: st.note_content + line + seq![' '], ..st }
    } else {
        st
    }
}

/// A line (`line`, trimmed: `t`) while a footnote is open and no inset is:
/// the text lines are gathered into the footnote.
pub open spec fn footnote_line(st: DocState, line: Seq<char>, t: Seq<char>) -> DocState {
    if has_prefix(t, "\\end_inset"@) {
        close_footnote(st)
    } else if has_prefix(t, "\\begin_layout"@) {
        st
    } else if has_prefix(t, "\\end_layout"@) {
        if st.footnote_content.len() > 0 {
            DocState { footnote_content: st.footnote_content.push(' '), ..st }
        } else {
            st
        }
    } else if is_text_line(t) {
        DocState { footnote_content: st.footnote_content + line + seq![' '], ..st }
    } else {
        st
    }
}

/// Whether the open inset is a note or a footnote.
pub open spec fn in_aside_inset(st: DocState) -> bool {
    st.in_inset && (st.inset_type is Note || st.inset_type is Foot)
}

/// A line (trimmed: `t`) that mentions `\begin_math` or `\end_math`.
pub open spec fn math_line(st: DocState, t: Seq<char>) -> DocState {
    if has_prefix(t, "\\begin_math"@) {
        DocState { in_math: true, paragraph: st.paragraph.push('$'), ..st }
    } else if has_prefix(t, "\\end_math"@) {
        DocState { in_math: false, paragraph: st.paragraph.push('$'), ..st }
    } else {
        st
    }
}

/// A line (trimmed: `t`) that mentions `\begin_display_math` or `\end_display_math`.
pub open spec fn display_math_line(st: DocState, t: Seq<char>) -> DocState {
    if has_prefix(t, "\\begin_display_math"@) {
        DocState { in_display_math: true, paragraph: st.paragraph + "\n$$"@, ..st }
    } else if has_prefix(t, "\\end_display_math"@) {
        DocState { in_display_math: false, paragraph: st.paragraph + "$$\n"@, ..st }
    } else {
        st
    }
}

/// The number of characters other than a line feed of `s` from `q` on.
pub open spec fn line_run(s: Seq<char>, q: int) -> nat
    decreases s.len() - q,
{
    if 0 <= q < s.len() && s[q] != '\n' {
        1 + line_run(s, q + 1)
    } else {
        0
    }
}

/// The position `p + k` with the largest `k` in `1..=k0` at which a character
/// other than a line feed stands.
pub open spec fn last_text_start(s: Seq<char>, p: int, k0: int) -> Option<int>
    decreases k0,
{
    if k0 < 1 {
        None
    } else if p + k0 < s.len() && s[p + k0] != '\n' {
        Some(p + k0)
    } else {
        last_text_start(s, p, k0 - 1)
    }
}

/// The layout name of `\begin_layout`, whitespace, name, where it is written at
/// `i` of `s` (the pattern `\\begin_layout\s+(.+)`: the whitespace run is as
/// long as it can be while a name of at least one character, up to a line
/// feed, follows).
pub open spec fn layout_name_at(s: Seq<char>, i: int) -> Option<Seq<char>> {
    if occurs_at(s, i, "\\begin_layout"@) {
        let p: int = i + "\\begin_layout"@.len();
        match last_text_start(s, p, ws_run(s, p) as int) {
            Some(q) => Some(s.subrange(q, q + line_run(s, q))),
            None => None,
        }
    } else {
        None
    }
}

/// The layout name at the leftmost place in `s`, from `i` on, where one is written.
pub open spec fn layout_name_from(s: Seq<char>, i: int) -> Option<Seq<char>>
    decreases s.len() - i,
{
    if i < 0 || i >= s.len() {
        None
    } else {
        match layout_name_at(s, i) {
            Some(n) => Some(n),
            None => layout_name_from(s, i + 1),
        }
    }
}

/// The layout name that the line `t` announces, if any.
pub open spec fn layout_name(t: Seq<char>) -> Option<Seq<char>> {
    layout_name_from(t, 0)
}

/// A line announcing a layout named `name`: a list item prints the pending
/// paragraph and starts a fresh one with its prefix.
pub open spec fn layout_start(st: DocState, name: Seq<char>) -> (DocState, Seq<char>) {
    let l = layout_of_name(name);
    let st1 = DocState {
        current_layout: l,
        in_layout: true,
        in_aside_layout: in_aside_inset(st),
        ..st
    };
    if layout_is_list(l) {
        if st.paragraph.len() > 0 {
            (
                DocState { paragraph: layout_prefix(l), ..st1 },
                emitted(st.specials, st.paragraph),
            )
        } else {
            (DocState { paragraph: layout_prefix(l), ..st1 }, Seq::empty())
        }
    } else {
        (st1, Seq::empty())
    }
}

/// A line `\end_layout`: the pending paragraph, if any, is printed.
pub open spec fn layout_end(st: DocState) -> (DocState, Seq<char>) {
    if st.paragraph.len() > 0 {
        (
            DocState {
                in_layout: false,
                in_aside_layout: false,
                paragraph: Seq::empty(),
                current_layout: LayoutType::Unknown,
                ..st
            },
            emitted(st.specials, st.paragraph + layout_suffix(st.current_layout)),
        )
    } else {
        (
            DocState {
                in_layout: false,
                in_aside_layout: false,
                current_layout: LayoutType::Unknown,
                ..st
            },
            Seq::empty(),
        )
    }
}

/// Any other line (`line`, trimmed: `t`): text inside a layout, outside
/// insets and math, is added to the paragraph, followed by a space; text
/// inside a layout of a note (footnote) inset is added to the note
/// (footnote), followed by a space.
pub open spec fn other_line(st: DocState, line: Seq<char>, t: Seq<char>) -> DocState {
    if st.in_layout && !st.in_inset && !st.in_math && !st.in_display_math && is_text_line(t) {
        push_paragraph(st, line + seq![' '])
    } else if in_aside_inset(st) && st.in_aside_layout && is_text_line(t) {
        if st.inset_type is Note {
            DocState { note_content: st.note_content + line + seq![' '], ..st }
        } else {
            DocState { footnote_content: st.footnote_content + line + seq![' '], ..st }
        }
    } else {
        st
    }
}

/// The state after the line `line`, and what is printed for it.
pub open spec fn feed(st: DocState, line: Seq<char>) -> (DocState, Seq<char>) {
    let t = trim(line);
    if has_prefix(t, "\\begin_inset"@) {
        let st1 = DocState { in_inset: true, ..st };
        match inset_of_line(t) {
            Some(it) => (begin_inset(st1, it), Seq::empty()),
            None => (st1, Seq::empty()),
        }
    } else if has_prefix(t, "\\end_inset"@) {
        (end_inset(st), Seq::empty())
    } else if has_infix(t, "\\begin_inset Quotes eld"@) || has_infix(
        t,
        "\\begin_inset Quotes erd"@,
    ) {
        (st, Seq::empty())
    } else if !st.in_inset && has_infix(t, "\\begin_inset Note"@) {
        (open_note(st), Seq::empty())
    } else if st.in_note && !st.in_inset {
        (note_line(st, line, t), Seq::empty())
    } else if !st.in_inset && has_infix(t, "\\begin_inset Foot"@) {
        (open_footnote(st), Seq::empty())
    } else if st.in_footnote && !st.in_inset {
        (footnote_line(st, line, t), Seq::empty())
    } else if has_infix(t, "\\begin_math"@) || has_infix(t, "\\end_math"@) {
        (math_line(st, t), Seq::empty())
    } else if has_infix(t, "\\begin_display_math"@) || has_infix(t, "\\end_display_math"@) {
        (display_math_line(st, t), Seq::empty())
    } else if let Some(name) = layout_name(t) {
        layout_start(st, name)
    } else if has_prefix(t, "\\end_layout"@) {
        layout_end(st)
    } else {
        (other_line(st, line, t), Seq::empty())
    }
}

/// The lines of `ls`, each followed by a line feed.
pub open spec fn lines_text(ls: Seq<Seq<char>>) -> Seq<char>
    decreases ls.len(),
{
    if ls.len() == 0 {
        Seq::empty()
    } else {
        lines_text(ls.drop_last()) + ls.last() + seq!['\n']
    }
}

/// What is printed after the last line: the pending paragraph, then, after a
/// blank line, the notes and the footnotes, one per line.
pub open spec fn finish_text(st: DocState) -> Seq<char> {
    (if st.paragraph.len() > 0 {
        emitted(st.specials, st.paragraph)
    } else {
        Seq::empty()
    }) + (if st.notes.len() > 0 || st.footnotes.len() > 0 {
        seq!['\n'] + lines_text(st.notes) + lines_text(st.footnotes)
    } else {
        Seq::empty()
    })
}

/// The state after the lines `ls` from `st`, and what is printed for them.
pub open spec fn run(st: DocState, ls: Seq<Seq<char>>) -> (DocState, Seq<char>)
    decreases ls.len(),
{
    if ls.len() == 0 {
        (st, Seq::empty())
    } else {
        let (s1, o1) = run(st, ls.drop_last());
        let (s2, o2) = feed(s1, ls.last());
        (s2, o1 + o2)
    }
}

/// Whether the counters of `st` are in range: the numbers of notes and
/// footnotes within `i32`, where the numbering counts.
pub open spec fn counters_in_range(st: DocState) -> bool {
    &&& st.note_counter <= i32::MAX
    &&& st.footnote_counter <= i32::MAX
}

/// Whether the counters stay in range while the lines `ls` are read from `st`.
pub open spec fn counters_fit(st: DocState, ls: Seq<Seq<char>>) -> bool
    decreases ls.len(),
{
    if ls.len() == 0 {
        counters_in_range(st)
    } else {
        &&& counters_fit(st, ls.drop_last())
        &&& counters_in_range(feed(run(st, ls.drop_last()).0, ls.last()).0)
    }
}

/// The whole text printed for a document of the lines `ls`.
pub open spec fn document_text(specials: Map<Seq<char>, Seq<char>>, ls: Seq<Seq<char>>) -> Seq<
    char,
> {
    let (s, o) = run(initial_state(specials), ls);
    o + finish_text(s)
}

/// The number of notes and footnotes grows by one where a note or footnote
/// begins, and stays the same otherwise.
pub(crate) proof fn lemma_feed_counters(st: DocState, line: Seq<char>)
    ensures
        ({
            let t = trim(line);
            let r = feed(st, line).0;
            let begins = has_prefix(t, "\\begin_inset"@);
            let note_bump = if begins {
                inset_of_line(t) == Some(InsetType::Note)
            } else {
                !has_prefix(t, "\\end_inset"@) && !(has_infix(t, "\\begin_inset Quotes eld"@)
                    || has_infix(t, "\\begin_inset Quotes erd"@)) && !st.in_inset && has_infix(
                    t,
                    "\\begin_inset Note"@,
                )
            };
            let foot_bump = if begins {
                inset_of_line(t) == Some(InsetType::Foot)
            } else {
                !has_prefix(t, "\\end_inset"@) && !(has_infix(t, "\\begin_inset Quotes eld"@)
                    || has_infix(t, "\\begin_inset Quotes erd"@)) && !(!st.in_inset && has_infix(
                    t,
                    "\\begin_inset Note"@,
                )) && !(st.in_note && !st.in_inset) && !st.in_inset && has_infix(
                    t,
                    "\\begin_inset Foot"@,
                )
            };
            &&& r.note_counter == st.note_counter + if note_bump { 1int } else { 0int }
            &&& r.footnote_counter == st.footnote_counter + if foot_bump { 1int } else { 0int }
        }),
{
}

} // verus!

verus! {

/// A line prints nothing, or the paragraph that was pending before it; it
/// prints a paragraph only where one was pending.
pub proof fn law_prints_pending_paragraph(st: DocState, line: Seq<char>)
    ensures
        feed(st, line).1.len() > 0 ==> st.paragraph.len() > 0 && feed(st, line).1 == emitted(
            st.specials,
            st.paragraph,
        ),
{
    reveal_strlit("");
    assert(st.paragraph + ""@ =~= st.paragraph);
}

/// Each new note is numbered one past the last one, and its marker
/// `[note N]` goes into the text; likewise for footnotes. No line begins
/// more than one of them.
pub proof fn law_note_numbering(st: DocState, line: Seq<char>)
    ensures
        ({
            let r = feed(st, line).0;
            &&& st.note_counter <= r.note_counter <= st.note_counter + 1
            &&& st.footnote_counter <= r.footnote_counter <= st.footnote_counter + 1
            &&& r.note_counter == st.note_counter + 1 ==> r.paragraph == st.paragraph
                + note_marker(r.note_counter) && r.footnote_counter == st.footnote_counter
            &&& r.footnote_counter == st.footnote_counter + 1 ==> r.paragraph == st.paragraph
                + footnote_marker(r.footnote_counter) && r.note_counter == st.note_counter
        }),
{
    lemma_feed_counters(st, line);
}

/// The notes are only ever added to at the end: a line keeps them, or adds
/// the note that it closes, numbered and with its text trimmed. Likewise
/// for footnotes.
pub proof fn law_notes_appended(st: DocState, line: Seq<char>)
    ensures
        ({
            let r = feed(st, line).0;
            &&& r.notes == st.notes || r.notes == st.notes.push(
                note_entry(st.note_counter, st.note_content),
            )
            &&& r.footnotes == st.footnotes || r.footnotes == st.footnotes.push(
                footnote_entry(st.footnote_counter, st.footnote_content),
            )
        }),
{
}

/// What `trim` leaves holds only characters of the text it was given.
proof fn lemma_trim_chars(s: Seq<char>, c: char)
    ensures
        trim(s).contains(c) ==> s.contains(c),
{
    lemma_trim_start_chars(s, c);
    lemma_trim_end_chars(crate::text::trim_start(s), c);
}

proof fn lemma_trim_start_chars(s: Seq<char>, c: char)
    ensures
        crate::text::trim_start(s).contains(c) ==> s.contains(c),
    decreases s.len(),
{
    if s.len() > 0 && crate::text::is_ws(s[0]) {
        let t = s.subrange(1, s.len() as int);
        lemma_trim_start_chars(t, c);
        if t.contains(c) {
            let k = choose|k: int| 0 <= k < t.len() && t[k] == c;
            assert(s[k + 1] == c);
        }
    }
}

proof fn lemma_trim_end_chars(s: Seq<char>, c: char)
    ensures
        crate::text::trim_end(s).contains(c) ==> s.contains(c),
    decreases s.len(),
{
    if s.len() > 0 && crate::text::is_ws(s[s.len() - 1]) {
        let t = s.subrange(0, s.len() - 1);
        lemma_trim_end_chars(t, c);
        if t.contains(c) {
            let k = choose|k: int| 0 <= k < t.len() && t[k] == c;
            assert(s[k] == c);
        }
    }
}

/// A text without backslashes holds no marker that begins with one.
proof fn lemma_no_marker(t: Seq<char>, p: Seq<char>)
    requires
        !t.contains('\\'),
        p.len() > 0,
        p[0] == '\\',
    ensures
        !has_infix(t, p),
        !has_prefix(t, p),
{
    assert forall|i: int| !#[trigger] occurs_at(t, i, p) by {
        if occurs_at(t, i, p) {
            assert(t.subrange(i, i + p.len())[0] == t[i]);
        }
    }
}

/// A text without backslashes names no layout from `i` on.
proof fn lemma_no_layout_name(t: Seq<char>, i: int)
    requires
        !t.contains('\\'),
    ensures
        layout_name_from(t, i) is None,
    decreases t.len() - i,
{
    reveal_strlit("\\begin_layout");
    if 0 <= i < t.len() {
        if occurs_at(t, i, "\\begin_layout"@) {
            assert(t.subrange(i, i + "\\begin_layout"@.len())[0] == t[i]);
        }
        lemma_no_layout_name(t, i + 1);
    }
}

/// A line without backslashes begins with no marker, holds none, and names
/// no layout.
proof fn lemma_no_backslash_line(line: Seq<char>)
    requires
        !line.contains('\\'),
    ensures
        ({
            let t = trim(line);
            &&& !has_prefix(t, "\\begin_inset"@)
            &&& !has_prefix(t, "\\end_inset"@)
            &&& !has_infix(t, "\\begin_inset Quotes eld"@)
            &&& !has_infix(t, "\\begin_inset Quotes erd"@)
            &&& !has_infix(t, "\\begin_inset Note"@)
            &&& !has_infix(t, "\\begin_inset Foot"@)
            &&& !has_infix(t, "\\begin_math"@)
            &&& !has_infix(t, "\\end_math"@)
            &&& !has_infix(t, "\\begin_display_math"@)
            &&& !has_infix(t, "\\end_display_math"@)
            &&& !has_prefix(t, "\\end_layout"@)
            &&& !has_prefix(t, seq!['\\'])
            &&& layout_name(t) is None
        }),
{
    let t = trim(line);
    lemma_trim_chars(line, '\\');
    reveal_strlit("\\begin_inset");
    reveal_strlit("\\end_inset");
    reveal_strlit("\\begin_inset Quotes eld");
    reveal_strlit("\\begin_inset Quotes erd");
    reveal_strlit("\\begin_inset Note");
    reveal_strlit("\\begin_inset Foot");
    reveal_strlit("\\begin_math");
    reveal_strlit("\\end_math");
    reveal_strlit("\\begin_display_math");
    reveal_strlit("\\end_display_math");
    reveal_strlit("\\end_layout");
    lemma_no_marker(t, "\\begin_inset"@);
    lemma_no_marker(t, "\\end_inset"@);
    lemma_no_marker(t, "\\begin_inset Quotes eld"@);
    lemma_no_marker(t, "\\begin_inset Quotes erd"@);
    lemma_no_marker(t, "\\begin_inset Note"@);
    lemma_no_marker(t, "\\begin_inset Foot"@);
    lemma_no_marker(t, "\\begin_math"@);
    lemma_no_marker(t, "\\end_math"@);
    lemma_no_marker(t, "\\begin_display_math"@);
    lemma_no_marker(t, "\\end_display_math"@);
    lemma_no_marker(t, "\\end_layout"@);
    lemma_no_marker(t, seq!['\\']);
    lemma_no_layout_name(t, 0);
}

/// Inside a layout, and outside insets, notes and math, a line without
/// backslashes is text: it is added to the paragraph as it stands, followed
/// by a space, and nothing is printed.
pub proof fn law_text_line_collected(st: DocState, line: Seq<char>)
    requires
        st.in_layout,
        !st.in_inset,
        !st.in_math,
        !st.in_display_math,
        !st.in_note,
        !st.in_footnote,
        !line.contains('\\'),
    ensures
        feed(st, line) == (push_paragraph(st, line + seq![' ']), Seq::<char>::empty()),
{
    lemma_no_backslash_line(line);
}

} // verus!

verus! {

/// Where a note inset whose text is not empty ends, the note is listed after
/// the notes before it, numbered, with its text trimmed, and the note is over.
pub proof fn law_note_listed_at_its_end(st: DocState, line: Seq<char>)
    requires
        st.inset_type is Note,
        has_prefix(trim(line), "\\end_inset"@),
        st.note_content.len() > 0,
    ensures
        feed(st, line).0.notes == st.notes.push(note_entry(st.note_counter, st.note_content)),
        !feed(st, line).0.in_note,
        !feed(st, line).0.in_inset,
{
    reveal_strlit("\\begin_inset");
    reveal_strlit("\\end_inset");
    let t = trim(line);
    assert(t.subrange(0, "\\end_inset"@.len() as int)[1] == t[1]);
    if has_prefix(t, "\\begin_inset"@) {
        assert(t.subrange(0, "\\begin_inset"@.len() as int)[1] == t[1]);
    }
}

/// Where a footnote inset whose text is not empty ends, the footnote is
/// listed after the footnotes before it, numbered, with its text trimmed.
pub proof fn law_footnote_listed_at_its_end(st: DocState, line: Seq<char>)
    requires
        st.inset_type is Foot,
        has_prefix(trim(line), "\\end_inset"@),
        st.footnote_content.len() > 0,
    ensures
        feed(st, line).0.footnotes == st.footnotes.push(
            footnote_entry(st.footnote_counter, st.footnote_content),
        ),
        !feed(st, line).0.in_footnote,
        !feed(st, line).0.in_inset,
{
    reveal_strlit("\\begin_inset");
    reveal_strlit("\\end_inset");
    let t = trim(line);
    assert(t.subrange(0, "\\end_inset"@.len() as int)[1] == t[1]);
    if has_prefix(t, "\\begin_inset"@) {
        assert(t.subrange(0, "\\begin_inset"@.len() as int)[1] == t[1]);
    }
}

/// Inside a layout of a note (footnote) inset, a line without backslashes
/// is text of the note (footnote): it is added to it as it stands, followed
/// by a space, and nothing is printed.
pub proof fn law_note_text_gathered(st: DocState, line: Seq<char>)
    requires
        in_aside_inset(st),
        st.in_aside_layout,
        !line.contains('\\'),
    ensures
        feed(st, line) == (if st.inset_type is Note {
            DocState { note_content: st.note_content + line + seq![' '], ..st }
        } else {
            DocState { footnote_content: st.footnote_content + line + seq![' '], ..st }
        }, Seq::<char>::empty()),
{
    let t = trim(line);
    lemma_no_backslash_line(line);
}

/// A note or footnote, once listed, stays listed, in its place, while any
/// further lines are read.
pub proof fn law_notes_kept(st: DocState, ls: Seq<Seq<char>>)
    ensures
        run(st, ls).0.notes.len() >= st.notes.len(),
        run(st, ls).0.notes.subrange(0, st.notes.len() as int) == st.notes,
        run(st, ls).0.footnotes.len() >= st.footnotes.len(),
        run(st, ls).0.footnotes.subrange(0, st.footnotes.len() as int) == st.footnotes,
    decreases ls.len(),
{
    if ls.len() == 0 {
        assert(st.notes.subrange(0, st.notes.len() as int) == st.notes);
        assert(st.footnotes.subrange(0, st.footnotes.len() as int) == st.footnotes);
    } else {
        let s1 = run(st, ls.drop_last()).0;
        law_notes_kept(st, ls.drop_last());
        law_notes_appended(s1, ls.last());
        let r = run(st, ls).0;
        assert(r.notes.subrange(0, st.notes.len() as int) =~= s1.notes.subrange(
            0,
            st.notes.len() as int,
        ));
        assert(r.footnotes.subrange(0, st.footnotes.len() as int) =~= s1.footnotes.subrange(
            0,
            st.footnotes.len() as int,
        ));
    }
}

/// The text printed after the last line ends with all the listed notes, in
/// order, then all the listed footnotes, one per line.
pub proof fn law_notes_printed_last(st: DocState)
    ensures
        ({
            let out = finish_text(st);
            let tail = lines_text(st.notes) + lines_text(st.footnotes);
            &&& out.len() >= tail.len()
            &&& out.subrange(out.len() - tail.len(), out.len() as int) == tail
        }),
{
    let out = finish_text(st);
    let tail = lines_text(st.notes) + lines_text(st.footnotes);
    if st.notes.len() > 0 || st.footnotes.len() > 0 {
        assert(out.subrange(out.len() - tail.len(), out.len() as int) =~= tail);
    } else {
        assert(lines_text(st.notes) =~= Seq::<char>::empty());
        assert(lines_text(st.footnotes) =~= Seq::<char>::empty());
        assert(out.subrange(out.len() - tail.len(), out.len() as int) =~= tail);
    }
}

} // verus!

verus! {

/// A line that begins (once trimmed) with `\begin_inset` enters an inset,
/// whether or not its kind is one of those recognised; a line that begins
/// with `\end_inset` leaves it, whatever the kind of the inset that was open.
pub proof fn law_inset_mode(st: DocState, line: Seq<char>)
    ensures
        has_prefix(trim(line), "\\begin_inset"@) ==> feed(st, line).0.in_inset,
        has_prefix(trim(line), "\\end_inset"@) ==> !feed(st, line).0.in_inset,
{
    reveal_strlit("\\begin_inset");
    reveal_strlit("\\end_inset");
    let t = trim(line);
    if has_prefix(t, "\\end_inset"@) {
        assert(t.subrange(0, "\\end_inset"@.len() as int)[1] == t[1]);
        if has_prefix(t, "\\begin_inset"@) {
            assert(t.subrange(0, "\\begin_inset"@.len() as int)[1] == t[1]);
        }
    }
}

/// Inside an inset, a line without backslashes is not text of the
/// paragraph: it adds nothing to it and prints nothing.
pub proof fn law_inset_text_skipped(st: DocState, line: Seq<char>)
    requires
        st.in_inset,
        !line.contains('\\'),
    ensures
        feed(st, line).0.paragraph == st.paragraph,
        feed(st, line).1.len() == 0,
{
    lemma_no_backslash_line(line);
}

} // verus!
