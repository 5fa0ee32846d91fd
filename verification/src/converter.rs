//! The reader of a LyX document: it takes the document line by line and
//! gives back, for each line, the text to print.
use vstd::prelude::*;
use crate::text::{
    trimmed, starts_with, contains, occurs_at_exec, copy_range, push_str, push_chars,
    push_decimal, chars_of, string_of, trim,
};
use crate::paragraph::{clean_paragraph_chars, ws_run_exec, ws_run};
use crate::layout::LayoutType;
use crate::inset::InsetType;
use crate::special::{SpecialCharMap, lyx_special_chars};
use crate::document::{
    DocState, initial_state, emitted, note_marker, footnote_marker, note_entry, footnote_entry,
    open_note, open_footnote, close_note, close_footnote, push_paragraph, begin_inset, end_inset,
    note_line, footnote_line, math_line, display_math_line, line_run, last_text_start,
    layout_name_at, layout_name_from, layout_name, layout_start, layout_end, other_line, feed,
    finish_text, lines_text, run, counters_fit, document_text, counters_in_range,
    in_aside_inset,
};

verus! {

/// The state of the reader between two lines.
pub struct Converter {
    specials: SpecialCharMap,
    in_layout: bool,
    current_layout: LayoutType,
    in_note: bool,
    in_footnote: bool,
    in_math: bool,
    in_display_math: bool,
    in_inset: bool,
    inset_type: InsetType,
    paragraph: Vec<char>,
    notes: Vec<Vec<char>>,
    footnotes: Vec<Vec<char>>,
    note_counter: u32,
    footnote_counter: u32,
    note_content: Vec<char>,
    footnote_content: Vec<char>,
    in_aside_layout: bool,
}

/// The texts of `v`, as plain values.
pub open spec fn texts_view(v: Seq<Vec<char>>) -> Seq<Seq<char>> {
    Seq::new(v.len(), |i: int| v[i]@)
}

impl View for Converter {
    type V = DocState;

    closed spec fn view(&self) -> DocState {
        DocState {
            specials: self.specials@,
            in_layout: self.in_layout,
            current_layout: self.current_layout,
            in_note: self.in_note,
            in_footnote: self.in_footnote,
            in_math: self.in_math,
            in_display_math: self.in_display_math,
            in_inset: self.in_inset,
            inset_type: self.inset_type,
            paragraph: self.paragraph@,
            notes: texts_view(self.notes@),
            footnotes: texts_view(self.footnotes@),
            note_counter: self.note_counter as nat,
            footnote_counter: self.footnote_counter as nat,
            note_content: self.note_content@,
            footnote_content: self.footnote_content@,
            in_aside_layout: self.in_aside_layout,
        }
    }
}

/// Appends the lines of `ls`, each followed by a line feed, to `out`.
fn push_lines(out: &mut Vec<char>, ls: &Vec<Vec<char>>)
    ensures
        final(out)@ == old(out)@ + lines_text(texts_view(ls@)),
{
    let ghost start = out@;
    for i in 0..ls.len()
        invariant
            out@ == start + lines_text(texts_view(ls@).take(i as int)),
    {
        let ghost before = out@;
        push_chars(out, ls[i].as_slice());
        out.push('\n');
        assert(texts_view(ls@).take(i + 1).drop_last() =~= texts_view(ls@).take(i as int));
        assert(out@ =~= start + lines_text(texts_view(ls@).take(i + 1)));
    }
    assert(texts_view(ls@).take(ls.len() as int) =~= texts_view(ls@));
}

/// The layout name that the line `t` announces, if any.
fn find_layout_name(t: &[char]) -> (res: Option<Vec<char>>)
    ensures
        match res {
            Some(v) => layout_name(t@) == Some(v@),
            None => layout_name(t@) is None,
        },
{
    let marker = chars_of("\\begin_layout");
    let n: usize = t.len();
    let mut i: usize = 0;
    while i < n
        invariant
            i <= n == t@.len(),
            marker@ == "\\begin_layout"@,
            layout_name(t@) == layout_name_from(t@, i as int),
        decreases n - i,
    {
        if occurs_at_exec(t, i, &marker) {
            assert(i + marker@.len() <= n);
            let p: usize = i + marker.len();
            let w: usize = ws_run_exec(t, p);
            let mut k: usize = w;
            let mut found: Option<usize> = None;
            while k >= 1
                invariant_except_break
                    found is None,
                    last_text_start(t@, p as int, w as int) == last_text_start(
                        t@,
                        p as int,
                        k as int,
                    ),
                invariant
                    p + w <= n == t@.len(),
                    k <= w,
                    w == ws_run(t@, p as int),
                ensures
                    found matches Some(q) ==> q < n && last_text_start(t@, p as int, w as int)
                        == Some(q as int),
                    found is None ==> last_text_start(t@, p as int, w as int) is None,
                decreases k,
            {
                if p + k < n && t[p + k] != '\n' {
                    found = Some(p + k);
                    break;
                }
                k = k - 1;
            }
            match found {
                Some(q) => {
                    assert(last_text_start(t@, p as int, w as int) == Some(q as int));
                    let mut e: usize = q;
                    while e < n && t[e] != '\n'
                        invariant
                            q <= e <= n == t@.len(),
                            line_run(t@, q as int) == (e - q) + line_run(t@, e as int),
                        decreases n - e,
                    {
                        e = e + 1;
                    }
                    let name = copy_range(t, q, e);
                    assert(layout_name_at(t@, i as int) == Some(name@));
                    return Some(name);
                },
                None => {
                    assert(last_text_start(t@, p as int, w as int) is None);
                },
            }
        }
        assert(layout_name_at(t@, i as int) is None);
        i = i + 1;
    }
    None
}

impl Converter {
    /// A reader that has read no line yet, with the table of special
    /// characters `specials`.
    pub fn new(specials: SpecialCharMap) -> (res: Converter)
        ensures
            res@ == initial_state(specials@),
    {
        let res = Converter {
            specials,
            in_layout: false,
            current_layout: LayoutType::Unknown,
            in_note: false,
            in_footnote: false,
            in_math: false,
            in_display_math: false,
            in_inset: false,
            inset_type: InsetType::Unknown,
            paragraph: Vec::new(),
            notes: Vec::new(),
            footnotes: Vec::new(),
            note_counter: 0,
            footnote_counter: 0,
            note_content: Vec::new(),
            footnote_content: Vec::new(),
            in_aside_layout: false,
        };
        assert(res@ =~= initial_state(specials@));
        res
    }

    /// What is printed for the paragraph `p`.
    fn emit(&self, p: &[char]) -> (res: Vec<char>)
        ensures
            res@ == emitted(self@.specials, p@),
    {
        let clean = clean_paragraph_chars(p, &self.specials);
        let mut res = trimmed(&clean);
        res.push('\n');
        res.push('\n');
        assert(res@ =~= emitted(self@.specials, p@));
        res
    }

    fn open_note(&mut self)
        requires
            old(self)@.note_counter + 1 <= i32::MAX,
        ensures
            final(self)@ == open_note(old(self)@),
    {
        self.in_note = true;
        self.note_counter = self.note_counter + 1;
        let ghost before = self.paragraph@;
        push_str(&mut self.paragraph, "[note ");
        push_decimal(&mut self.paragraph, self.note_counter);
        push_str(&mut self.paragraph, "]");
        assert(self.paragraph@ =~= before + note_marker(self.note_counter as nat));
        self.note_content = Vec::new();
        self.in_aside_layout = false;
        assert(self@ =~= open_note(old(self)@));
    }

    fn open_footnote(&mut self)
        requires
            old(self)@.footnote_counter + 1 <= i32::MAX,
        ensures
            final(self)@ == open_footnote(old(self)@),
    {
        self.in_footnote = true;
        self.footnote_counter = self.footnote_counter + 1;
        let ghost before = self.paragraph@;
        push_str(&mut self.paragraph, "[footnote ");
        push_decimal(&mut self.paragraph, self.footnote_counter);
        push_str(&mut self.paragraph, "]");
        assert(self.paragraph@ =~= before + footnote_marker(self.footnote_counter as nat));
        self.footnote_content = Vec::new();
        self.in_aside_layout = false;
        assert(self@ =~= open_footnote(old(self)@));
    }

    fn close_note(&mut self)
        ensures
            final(self)@ == close_note(old(self)@),
    {
        self.in_note = false;
        if self.note_content.len() > 0 {
            let mut e: Vec<char> = Vec::new();
            push_str(&mut e, "Note");
            push_decimal(&mut e, self.note_counter);
            push_str(&mut e, ": ");
            let body = trimmed(&self.note_content);
            push_chars(&mut e, &body);
            assert(e@ =~= note_entry(self.note_counter as nat, self.note_content@));
            let ghost before = self.notes@;
            self.notes.push(e);
            assert(texts_view(self.notes@) =~= texts_view(before).push(e@));
        }
        self.note_content = Vec::new();
        assert(self@ =~= close_note(old(self)@));
    }

    fn close_footnote(&mut self)
        ensures
            final(self)@ == close_footnote(old(self)@),
    {
        self.in_footnote = false;
        if self.footnote_content.len() > 0 {
            let mut e: Vec<char> = Vec::new();
            push_str(&mut e, "Footnote");
            push_decimal(&mut e, self.footnote_counter);
            push_str(&mut e, ": ");
            let body = trimmed(&self.footnote_content);
            push_chars(&mut e, &body);
            assert(e@ =~= footnote_entry(self.footnote_counter as nat, self.footnote_content@));
            let ghost before = self.footnotes@;
            self.footnotes.push(e);
            assert(texts_view(self.footnotes@) =~= texts_view(before).push(e@));
        }
        self.footnote_content = Vec::new();
        assert(self@ =~= close_footnote(old(self)@));
    }

    fn push_char(&mut self, c: char)
        ensures
            final(self)@ == push_paragraph(old(self)@, seq![c]),
    {
        self.paragraph.push(c);
        assert(self@ =~= push_paragraph(old(self)@, seq![c]));
    }

    fn begin_inset(&mut self, it: InsetType)
        requires
            it is Note ==> old(self)@.note_counter + 1 <= i32::MAX,
            it is Foot ==> old(self)@.footnote_counter + 1 <= i32::MAX,
        ensures
            final(self)@ == begin_inset(old(self)@, it),
    {
        self.inset_type = it;
        match it {
            InsetType::Note => self.open_note(),
            InsetType::Foot => self.open_footnote(),
            InsetType::Quotes => self.push_char('"'),
            InsetType::Newline => self.push_char('\n'),
            InsetType::Space => self.push_char(' '),
            _ => {},
        }
    }

    fn end_inset(&mut self)
        ensures
            final(self)@ == end_inset(old(self)@),
    {
        self.in_inset = false;
        match self.inset_type {
            InsetType::Note => self.close_note(),
            InsetType::Foot => self.close_footnote(),
            InsetType::Quotes => self.push_char('"'),
            _ => {},
        }
        self.inset_type = InsetType::Unknown;
    }

    fn note_line(&mut self, line: &[char], t: &[char])
        requires
            t@ == trim(line@),
        ensures
            final(self)@ == note_line(old(self)@, line@, t@),
    {
        proof {
            reveal_strlit("\\");
        }
        assert("\\"@ =~= seq!['\\']);
        if starts_with(t, "\\end_inset") {
            self.close_note();
        } else if starts_with(t, "\\begin_layout") {
        } else if starts_with(t, "\\end_layout") {
            if self.note_content.len() > 0 {
                self.note_content.push(' ');
            }
        } else if !starts_with(t, "\\") || contains(t, "\\SpecialChar") {
            push_chars(&mut self.note_content, line);
            self.note_content.push(' ');
            assert(self.note_content@ =~= old(self)@.note_content + line@ + seq![' ']);
        }
        assert(self@ =~= note_line(old(self)@, line@, t@));
    }

    fn footnote_line(&mut self, line: &[char], t: &[char])
        requires
            t@ == trim(line@),
        ensures
            final(self)@ == footnote_line(old(self)@, line@, t@),
    {
        proof {
            reveal_strlit("\\");
        }
        assert("\\"@ =~= seq!['\\']);
        if starts_with(t, "\\end_inset") {
            self.close_footnote();
        } else if starts_with(t, "\\begin_layout") {
        } else if starts_with(t, "\\end_layout") {
            if self.footnote_content.len() > 0 {
                self.footnote_content.push(' ');
            }
        } else if !starts_with(t, "\\") || contains(t, "\\SpecialChar") {
            push_chars(&mut self.footnote_content, line);
            self.footnote_content.push(' ');
            assert(self.footnote_content@ =~= old(self)@.footnote_content + line@ + seq![' ']);
        }
        assert(self@ =~= footnote_line(old(self)@, line@, t@));
    }

    fn math_line(&mut self, t: &[char])
        ensures
            final(self)@ == math_line(old(self)@, t@),
    {
        if starts_with(t, "\\begin_math") {
            self.in_math = true;
            self.paragraph.push('$');
        } else if starts_with(t, "\\end_math") {
            self.in_math = false;
            self.paragraph.push('$');
        }
        assert(self@ =~= math_line(old(self)@, t@));
    }

    fn display_math_line(&mut self, t: &[char])
        ensures
            final(self)@ == display_math_line(old(self)@, t@),
    {
        if starts_with(t, "\\begin_display_math") {
            self.in_display_math = true;
            push_str(&mut self.paragraph, "\n$$");
        } else if starts_with(t, "\\end_display_math") {
            self.in_display_math = false;
            push_str(&mut self.paragraph, "$$\n");
        }
        assert(self@ =~= display_math_line(old(self)@, t@));
    }

    /// Whether the open inset is a note or a footnote.
    fn in_aside_inset(&self) -> (res: bool)
        ensures
            res == in_aside_inset(self@),
    {
        self.in_inset && (matches!(self.inset_type, InsetType::Note) || matches!(
            self.inset_type,
            InsetType::Foot
        ))
    }

    fn layout_start(&mut self, name: &[char]) -> (out: Vec<char>)
        ensures
            final(self)@ == layout_start(old(self)@, name@).0,
            out@ == layout_start(old(self)@, name@).1,
    {
        let name_str = string_of(name);
        let l = LayoutType::from_name(name_str.as_str());
        self.in_aside_layout = self.in_aside_inset();
        self.current_layout = l;
        self.in_layout = true;
        let mut out: Vec<char> = Vec::new();
        if l.is_list() {
            if self.paragraph.len() > 0 {
                out = self.emit(&self.paragraph);
            }
            let mut fresh: Vec<char> = Vec::new();
            push_str(&mut fresh, l.prefix());
            assert(fresh@ =~= crate::layout::layout_prefix(l));
            self.paragraph = fresh;
        }
        assert(self@ =~= layout_start(old(self)@, name@).0);
        out
    }

    fn layout_end(&mut self) -> (out: Vec<char>)
        ensures
            final(self)@ == layout_end(old(self)@).0,
            out@ == layout_end(old(self)@).1,
    {
        self.in_layout = false;
        self.in_aside_layout = false;
        let mut out: Vec<char> = Vec::new();
        if self.paragraph.len() > 0 {
            push_str(&mut self.paragraph, self.current_layout.suffix());
            out = self.emit(&self.paragraph);
            self.paragraph = Vec::new();
        }
        self.current_layout = LayoutType::Unknown;
        assert(self@ =~= layout_end(old(self)@).0);
        out
    }

    fn other_line(&mut self, line: &[char], t: &[char])
        requires
            t@ == trim(line@),
        ensures
            final(self)@ == other_line(old(self)@, line@, t@),
    {
        proof {
            reveal_strlit("\\");
        }
        assert("\\"@ =~= seq!['\\']);
        let text = !starts_with(t, "\\") || contains(t, "\\SpecialChar");
        if self.in_layout && !self.in_inset && !self.in_math && !self.in_display_math && text {
            push_chars(&mut self.paragraph, line);
            self.paragraph.push(' ');
            assert(self.paragraph@ =~= old(self)@.paragraph + (line@ + seq![' ']));
        } else if self.in_aside_inset() && self.in_aside_layout && text {
            if matches!(self.inset_type, InsetType::Note) {
                push_chars(&mut self.note_content, line);
                self.note_content.push(' ');
                assert(self.note_content@ =~= old(self)@.note_content + line@ + seq![' ']);
            } else {
                push_chars(&mut self.footnote_content, line);
                self.footnote_content.push(' ');
                assert(self.footnote_content@ =~= old(self)@.footnote_content + line@ + seq![' ']);
            }
        }
        assert(self@ =~= other_line(old(self)@, line@, t@));
    }

    /// Reads the line `line` (its characters); gives back what is printed for it.
    pub fn feed_chars(&mut self, line: &[char]) -> (out: Vec<char>)
        requires
            counters_in_range(feed(old(self)@, line@).0),
        ensures
            final(self)@ == feed(old(self)@, line@).0,
            out@ == feed(old(self)@, line@).1,
    {
        let t = trimmed(line);
        if starts_with(&t, "\\begin_inset") {
            self.in_inset = true;
            match InsetType::from_chars(&t) {
                Some(it) => self.begin_inset(it),
                None => {},
            }
            return Vec::new();
        }
        if starts_with(&t, "\\end_inset") {
            self.end_inset();
            return Vec::new();
        }
        if contains(&t, "\\begin_inset Quotes eld") || contains(&t, "\\begin_inset Quotes erd") {
            return Vec::new();
        }
        if !self.in_inset && contains(&t, "\\begin_inset Note") {
            self.open_note();
            return Vec::new();
        }
        if self.in_note && !self.in_inset {
            self.note_line(line, &t);
            return Vec::new();
        }
        if !self.in_inset && contains(&t, "\\begin_inset Foot") {
            self.open_footnote();
            return Vec::new();
        }
        if self.in_footnote && !self.in_inset {
            self.footnote_line(line, &t);
            return Vec::new();
        }
        if contains(&t, "\\begin_math") || contains(&t, "\\end_math") {
            self.math_line(&t);
            return Vec::new();
        }
        if contains(&t, "\\begin_display_math") || contains(&t, "\\end_display_math") {
            self.display_math_line(&t);
            return Vec::new();
        }
        match find_layout_name(&t) {
            Some(name) => {
                return self.layout_start(&name);
            },
            None => {},
        }
        if starts_with(&t, "\\end_layout") {
            return self.layout_end();
        }
        self.other_line(line, &t);
        Vec::new()
    }

    /// Reads the line `line`; gives back what is printed for it.
    pub fn feed_line(&mut self, line: &str) -> (out: String)
        requires
            counters_in_range(feed(old(self)@, line@).0),
        ensures
            final(self)@ == feed(old(self)@, line@).0,
            out@ == feed(old(self)@, line@).1,
    {
        let l = chars_of(line);
        let out = self.feed_chars(&l);
        string_of(&out)
    }

    /// Whether reading `line` keeps the numbers of notes and footnotes within
    /// `i32`, that is, whether `feed_line` may be called with it.
    pub fn fits(&self, line: &str) -> (res: bool)
        ensures
            res == counters_in_range(feed(self@, line@).0),
    {
        let l = chars_of(line);
        let t = trimmed(&l);
        let mut note_bump = false;
        let mut foot_bump = false;
        if starts_with(&t, "\\begin_inset") {
            match InsetType::from_chars(&t) {
                Some(InsetType::Note) => { note_bump = true; },
                Some(InsetType::Foot) => { foot_bump = true; },
                _ => {},
            }
        } else if starts_with(&t, "\\end_inset") {
        } else if contains(&t, "\\begin_inset Quotes eld") || contains(&t, "\\begin_inset Quotes erd") {
        } else if !self.in_inset && contains(&t, "\\begin_inset Note") {
            note_bump = true;
        } else if self.in_note && !self.in_inset {
        } else if !self.in_inset && contains(&t, "\\begin_inset Foot") {
            foot_bump = true;
        }
        let ghost st = self@;
        let ghost r = feed(st, l@).0;
        proof {
            crate::document::lemma_feed_counters(st, l@);
        }
        let note_ok = if note_bump {
            self.note_counter < 0x7fff_ffff
        } else {
            self.note_counter <= 0x7fff_ffff
        };
        let foot_ok = if foot_bump {
            self.footnote_counter < 0x7fff_ffff
        } else {
            self.footnote_counter <= 0x7fff_ffff
        };
        assert(note_bump ==> r.note_counter == st.note_counter + 1);
        assert(!note_bump ==> r.note_counter == st.note_counter);
        assert(foot_bump ==> r.footnote_counter == st.footnote_counter + 1);
        assert(!foot_bump ==> r.footnote_counter == st.footnote_counter);
        note_ok && foot_ok
    }

    /// What is printed after the last line.
    pub fn finish(&self) -> (out: String)
        ensures
            out@ == finish_text(self@),
    {
        let mut out: Vec<char> = Vec::new();
        if self.paragraph.len() > 0 {
            out = self.emit(&self.paragraph);
        }
        let ghost first = out@;
        if self.notes.len() > 0 || self.footnotes.len() > 0 {
            out.push('\n');
            push_lines(&mut out, &self.notes);
            push_lines(&mut out, &self.footnotes);
            assert(out@ =~= first + (seq!['\n'] + lines_text(self@.notes) + lines_text(self@.footnotes)));
        } else {
            assert(out@ =~= first + Seq::<char>::empty());
        }
        string_of(&out)
    }
}

/// The texts of `v`, as plain values.
pub open spec fn strings_view(v: Seq<String>) -> Seq<Seq<char>> {
    Seq::new(v.len(), |i: int| v[i]@)
}

/// Where the counters fit while all of `ls` is read, they fit while a
/// prefix of it is read.
proof fn lemma_counters_fit_prefix(st: DocState, ls: Seq<Seq<char>>, k: int)
    requires
        0 <= k <= ls.len(),
        counters_fit(st, ls),
    ensures
        counters_fit(st, ls.take(k)),
    decreases ls.len(),
{
    if k == ls.len() {
        assert(ls.take(k) == ls);
    } else {
        lemma_counters_fit_prefix(st, ls.drop_last(), k);
        assert(ls.drop_last().take(k) == ls.take(k));
    }
}

impl Converter {
    /// A reader with the table of the special characters of LyX documents.
    pub fn lyx() -> (res: Converter)
        ensures
            res@ == initial_state(lyx_special_chars()),
    {
        Converter::new(SpecialCharMap::lyx_defaults())
    }
}

/// The whole text printed for the document whose lines are `lines`.
pub fn convert_lines(lines: &Vec<String>) -> (res: String)
    requires
        counters_fit(initial_state(lyx_special_chars()), strings_view(lines@)),
    ensures
        res@ == document_text(lyx_special_chars(), strings_view(lines@)),
{
    let ghost init = initial_state(lyx_special_chars());
    let ghost ls = strings_view(lines@);
    let mut conv = Converter::lyx();
    let mut out: Vec<char> = Vec::new();
    assert(ls.take(0) =~= Seq::<Seq<char>>::empty());
    for i in 0..lines.len()
        invariant
            ls == strings_view(lines@),
            init == initial_state(lyx_special_chars()),
            counters_fit(init, ls),
            conv@ == run(init, ls.take(i as int)).0,
            out@ == run(init, ls.take(i as int)).1,
    {
        proof {
            lemma_counters_fit_prefix(init, ls, i + 1);
            assert(ls.take(i + 1).drop_last() =~= ls.take(i as int));
            assert(ls.take(i + 1).last() == ls[i as int]);
        }
        let l = chars_of(lines[i].as_str());
        let o = conv.feed_chars(&l);
        push_chars(&mut out, &o);
    }
    assert(ls.take(lines.len() as int) =~= ls);
    let tail = conv.finish();
    let tail_chars = chars_of(tail.as_str());
    push_chars(&mut out, &tail_chars);
    string_of(&out)
}

} // verus!
