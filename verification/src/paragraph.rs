//! Cleaning the text of one paragraph: special characters are replaced by
//! their plain-text form, and inline `\inset ...}` formatting is removed.
//!
//! A special character is `\SpecialChar`, whitespace, then a name: the
//! longest name of the table that begins with a backslash or holds a space
//! (such as `\ldots{}` or `em dash`), else a plain name as the pattern
//! `[^\\\s]+` reads it. Inline formatting follows the pattern
//! `\\inset [^}]+}`. The leftmost occurrence is rewritten, and the search
//! goes on after it.
use vstd::prelude::*;
use crate::text::{chars_of, copy_range, is_whitespace, is_ws, occurs_at, occurs_at_exec, push_chars, string_of};
use crate::special::{SpecialCharMap, spaced_key_len, lemma_spaced_key_len_upto};

verus! {

/// The number of whitespace characters of `s` from position `p` on, up to the
/// first one that is not whitespace.
pub open spec fn ws_run(s: Seq<char>, p: int) -> nat
    decreases s.len() - p,
{
    if 0 <= p < s.len() && is_ws(s[p]) {
        1 + ws_run(s, p + 1)
    } else {
        0
    }
}

/// A character of a special-character name: neither a backslash nor whitespace.
pub open spec fn is_name_char(c: char) -> bool {
    c != '\\' && !is_ws(c)
}

/// The number of name characters of `s` from position `p` on.
pub open spec fn name_run(s: Seq<char>, p: int) -> nat
    decreases s.len() - p,
{
    if 0 <= p < s.len() && is_name_char(s[p]) {
        1 + name_run(s, p + 1)
    } else {
        0
    }
}

/// The number of characters other than `}` of `s` from position `p` on.
pub open spec fn brace_free_run(s: Seq<char>, p: int) -> nat
    decreases s.len() - p,
{
    if 0 <= p < s.len() && s[p] != '}' {
        1 + brace_free_run(s, p + 1)
    } else {
        0
    }
}

/// The marker of a special character.
pub open spec fn special_marker() -> Seq<char> {
    "\\SpecialChar"@
}

/// The marker of inline formatting.
pub open spec fn inset_marker() -> Seq<char> {
    "\\inset "@
}

/// Where a special character is written at position `i` of `s`
/// (`\SpecialChar`, whitespace, then a name): the position just after it,
/// and the text that stands for it. The name is the longest name of the
/// table `map` written there that begins with a backslash or holds a space;
/// where there is none, the run of plain name characters there.
pub open spec fn special_at(map: Map<Seq<char>, Seq<char>>, s: Seq<char>, i: int) -> Option<
    (int, Seq<char>),
> {
    if occurs_at(s, i, special_marker()) {
        let p: int = i + special_marker().len();
        let w: nat = ws_run(s, p);
        let q: int = p + w;
        let k: nat = spaced_key_len(map, s, q);
        let r: nat = name_run(s, q);
        if w == 0 {
            None
        } else if k > 0 {
            Some((q + k, map[s.subrange(q, q + k)]))
        } else if r > 0 {
            Some((q + r, special_replacement(map, s.subrange(q, q + r))))
        } else {
            None
        }
    } else {
        None
    }
}

/// Where inline formatting is written at position `i` of `s`
/// (`\inset `, at least one character other than `}`, then `}`): the
/// position just after its `}`.
pub open spec fn inset_at(s: Seq<char>, i: int) -> Option<int> {
    if occurs_at(s, i, inset_marker()) {
        let p: int = i + inset_marker().len();
        let r: nat = brace_free_run(s, p);
        if r > 0 && p + r < s.len() {
            Some(p + r + 1)
        } else {
            None
        }
    } else {
        None
    }
}

/// `s` without its leading backslashes.
pub open spec fn trim_start_backslashes(s: Seq<char>) -> Seq<char>
    decreases s.len(),
{
    if s.len() > 0 && s[0] == '\\' {
        trim_start_backslashes(s.subrange(1, s.len() as int))
    } else {
        s
    }
}

/// `s` without the `{}` pairs it ends with.
pub open spec fn trim_end_braces(s: Seq<char>) -> Seq<char>
    decreases s.len(),
{
    if s.len() >= 2 && s[s.len() - 2] == '{' && s[s.len() - 1] == '}' {
        trim_end_braces(s.subrange(0, s.len() - 2))
    } else {
        s
    }
}

/// The text that stands for the special character `name`: its entry in the
/// table, else the name, without leading backslashes and trailing `{}`,
/// in square brackets.
pub open spec fn special_replacement(map: Map<Seq<char>, Seq<char>>, name: Seq<char>) -> Seq<
    char,
> {
    if map.contains_key(name) {
        map[name]
    } else {
        seq!['['] + trim_end_braces(trim_start_backslashes(name)) + seq![']']
    }
}

pub proof fn lemma_ws_run_bound(s: Seq<char>, p: int)
    requires
        0 <= p,
    ensures
        p < s.len() ==> p + ws_run(s, p) <= s.len(),
        p >= s.len() ==> ws_run(s, p) == 0,
    decreases s.len() - p,
{
    if 0 <= p < s.len() && is_ws(s[p]) {
        lemma_ws_run_bound(s, p + 1);
    }
}

pub proof fn lemma_name_run_bound(s: Seq<char>, p: int)
    requires
        0 <= p,
    ensures
        p < s.len() ==> p + name_run(s, p) <= s.len(),
        p >= s.len() ==> name_run(s, p) == 0,
    decreases s.len() - p,
{
    if 0 <= p < s.len() && is_name_char(s[p]) {
        lemma_name_run_bound(s, p + 1);
    }
}

pub proof fn lemma_brace_free_run_bound(s: Seq<char>, p: int)
    requires
        0 <= p,
    ensures
        p < s.len() ==> p + brace_free_run(s, p) <= s.len(),
        p >= s.len() ==> brace_free_run(s, p) == 0,
        p + brace_free_run(s, p) < s.len() ==> s[p + brace_free_run(s, p)] == '}',
    decreases s.len() - p,
{
    if 0 <= p < s.len() && s[p] != '}' {
        lemma_brace_free_run_bound(s, p + 1);
    }
}

/// A special character found at `i` ends after `i` and within `s`.
pub proof fn lemma_special_at_bound(map: Map<Seq<char>, Seq<char>>, s: Seq<char>, i: int)
    requires
        0 <= i,
    ensures
        special_at(map, s, i) matches Some((e, _)) ==> i < e <= s.len(),
{
    if occurs_at(s, i, special_marker()) {
        let p: int = i + special_marker().len();
        lemma_ws_run_bound(s, p);
        let q: int = p + ws_run(s, p);
        lemma_name_run_bound(s, q);
        lemma_spaced_key_len_upto(map, s, q, s.len() - q);
    }
}

/// Inline formatting found at `i` ends after `i` and within `s`.
pub proof fn lemma_inset_at_bound(s: Seq<char>, i: int)
    requires
        0 <= i,
    ensures
        inset_at(s, i) matches Some(e) ==> i < e <= s.len(),
{
}

/// `s` from position `q` on, with each special character replaced.
pub open spec fn replace_specials_from(map: Map<Seq<char>, Seq<char>>, s: Seq<char>, q: int) -> Seq<
    char,
>
    decreases s.len() - q,
{
    if q < 0 || q >= s.len() {
        Seq::empty()
    } else {
        match special_at(map, s, q) {
            Some((e, text)) => {
                proof {
                    lemma_special_at_bound(map, s, q);
                }
                text + replace_specials_from(map, s, e)
            },
            None => seq![s[q]] + replace_specials_from(map, s, q + 1),
        }
    }
}

/// `s` with each special character replaced by the text that stands for it.
pub open spec fn replace_specials(map: Map<Seq<char>, Seq<char>>, s: Seq<char>) -> Seq<char> {
    replace_specials_from(map, s, 0)
}

/// `s` from position `q` on, without inline formatting.
pub open spec fn remove_insets_from(s: Seq<char>, q: int) -> Seq<char>
    decreases s.len() - q,
{
    if q < 0 || q >= s.len() {
        Seq::empty()
    } else {
        match inset_at(s, q) {
            Some(e) => remove_insets_from(s, e),
            None => seq![s[q]] + remove_insets_from(s, q + 1),
        }
    }
}

/// `s` without inline formatting.
pub open spec fn remove_insets(s: Seq<char>) -> Seq<char> {
    remove_insets_from(s, 0)
}

/// The clean text of the paragraph `p`.
pub open spec fn clean_paragraph(map: Map<Seq<char>, Seq<char>>, p: Seq<char>) -> Seq<char> {
    remove_insets(replace_specials(map, p))
}

/// The length of the whitespace run of `s` at `p`.
pub(crate) fn ws_run_exec(s: &[char], p: usize) -> (res: usize)
    requires
        p <= s@.len(),
    ensures
        res == ws_run(s@, p as int),
        p + res <= s@.len(),
{
    let n: usize = s.len();
    let mut k: usize = p;
    while k < n && is_whitespace(s[k])
        invariant
            p <= k <= n == s@.len(),
            ws_run(s@, p as int) == (k - p) + ws_run(s@, k as int),
        decreases n - k,
    {
        k = k + 1;
    }
    k - p
}

/// The length of the name run of `s` at `p`.
fn name_run_exec(s: &[char], p: usize) -> (res: usize)
    requires
        p <= s@.len(),
    ensures
        res == name_run(s@, p as int),
        p + res <= s@.len(),
{
    let n: usize = s.len();
    let mut k: usize = p;
    while k < n && s[k] != '\\' && !is_whitespace(s[k])
        invariant
            p <= k <= n == s@.len(),
            name_run(s@, p as int) == (k - p) + name_run(s@, k as int),
        decreases n - k,
    {
        k = k + 1;
    }
    k - p
}

/// The length of the run of characters other than `}` of `s` at `p`.
fn brace_free_run_exec(s: &[char], p: usize) -> (res: usize)
    requires
        p <= s@.len(),
    ensures
        res == brace_free_run(s@, p as int),
        p + res <= s@.len(),
{
    let n: usize = s.len();
    let mut k: usize = p;
    while k < n && s[k] != '}'
        invariant
            p <= k <= n == s@.len(),
            brace_free_run(s@, p as int) == (k - p) + brace_free_run(s@, k as int),
        decreases n - k,
    {
        k = k + 1;
    }
    k - p
}

/// The inline formatting written at `i` of `s`, if any: the position after it.
fn inset_at_exec(s: &[char], i: usize, marker: &[char]) -> (res: Option<usize>)
    requires
        i < s@.len(),
        marker@ == inset_marker(),
    ensures
        match res {
            Some(e) => inset_at(s@, i as int) == Some(e as int),
            None => inset_at(s@, i as int) is None,
        },
{
    let n: usize = s.len();
    if !occurs_at_exec(s, i, marker) {
        return None;
    }
    assert(i + marker@.len() <= n);
    let p: usize = i + marker.len();
    let r: usize = brace_free_run_exec(s, p);
    if r > 0 && p + r < s.len() {
        Some(p + r + 1)
    } else {
        None
    }
}

/// `s` without its leading backslashes.
fn trim_start_backslashes_exec(s: &[char]) -> (res: Vec<char>)
    ensures
        res@ == trim_start_backslashes(s@),
{
    let n: usize = s.len();
    let mut a: usize = 0;
    assert(s@.subrange(0, n as int) == s@);
    while a < n && s[a] == '\\'
        invariant
            a <= n == s@.len(),
            trim_start_backslashes(s@) == trim_start_backslashes(s@.subrange(a as int, n as int)),
        decreases n - a,
    {
        assert(s@.subrange(a as int, n as int).subrange(1, n - a) == s@.subrange(
            a + 1,
            n as int,
        ));
        a = a + 1;
    }
    copy_range(s, a, n)
}

/// `s` without the `{}` pairs it ends with.
fn trim_end_braces_exec(s: &[char]) -> (res: Vec<char>)
    ensures
        res@ == trim_end_braces(s@),
{
    let mut e: usize = s.len();
    assert(s@.subrange(0, e as int) == s@);
    while e >= 2 && s[e - 2] == '{' && s[e - 1] == '}'
        invariant
            e <= s@.len(),
            trim_end_braces(s@) == trim_end_braces(s@.subrange(0, e as int)),
        decreases e,
    {
        assert(s@.subrange(0, e as int).subrange(0, e - 2) == s@.subrange(0, e - 2));
        e = e - 2;
    }
    copy_range(s, 0, e)
}

/// Appends the text that stands for the special character `name` to `out`.
fn push_replacement(out: &mut Vec<char>, map: &SpecialCharMap, name: &[char])
    ensures
        final(out)@ == old(out)@ + special_replacement(map@, name@),
{
    match map.lookup(name) {
        Some(v) => push_chars(out, v.as_slice()),
        None => {
            let ghost start = out@;
            let clean = trim_end_braces_exec(&trim_start_backslashes_exec(name));
            out.push('[');
            push_chars(out, &clean);
            out.push(']');
            assert(out@ =~= start + (seq!['['] + clean@ + seq![']']));
        },
    }
}

/// The special character written at `i` of `s`, if any: the position after
/// it, and the text that stands for it.
fn special_at_exec(s: &[char], i: usize, marker: &[char], map: &SpecialCharMap) -> (res: Option<
    (usize, Vec<char>),
>)
    requires
        i < s@.len(),
        marker@ == special_marker(),
    ensures
        match res {
            Some((e, text)) => special_at(map@, s@, i as int) == Some((e as int, text@)),
            None => special_at(map@, s@, i as int) is None,
        },
{
    let n: usize = s.len();
    if !occurs_at_exec(s, i, marker) {
        return None;
    }
    assert(i + marker@.len() <= n);
    let p: usize = i + marker.len();
    let w: usize = ws_run_exec(s, p);
    if w == 0 {
        return None;
    }
    let q: usize = p + w;
    let k: usize = map.spaced_key_len(s, q);
    if k > 0 {
        proof {
            lemma_spaced_key_len_upto(map@, s@, q as int, s@.len() - q);
        }
        let key = copy_range(s, q, q + k);
        let mut text: Vec<char> = Vec::new();
        match map.lookup(&key) {
            Some(v) => push_chars(&mut text, v.as_slice()),
            None => {},
        }
        return Some((q + k, text));
    }
    let r: usize = name_run_exec(s, q);
    if r > 0 {
        let name = copy_range(s, q, q + r);
        let mut text: Vec<char> = Vec::new();
        push_replacement(&mut text, map, &name);
        assert(text@ =~= special_replacement(map@, name@));
        Some((q + r, text))
    } else {
        None
    }
}

/// `s` with each special character replaced by the text that stands for it.
pub fn replace_special_chars(s: &[char], map: &SpecialCharMap) -> (res: Vec<char>)
    ensures
        res@ == replace_specials(map@, s@),
{
    let marker = chars_of("\\SpecialChar");
    let n: usize = s.len();
    let mut out: Vec<char> = Vec::new();
    let mut q: usize = 0;
    while q < n
        invariant
            q <= n == s@.len(),
            marker@ == special_marker(),
            out@ + replace_specials_from(map@, s@, q as int) == replace_specials(map@, s@),
        decreases n - q,
    {
        let ghost before = out@;
        match special_at_exec(s, q, &marker, map) {
            Some((e, text)) => {
                proof {
                    lemma_special_at_bound(map@, s@, q as int);
                }
                push_chars(&mut out, &text);
                assert(out@ + replace_specials_from(map@, s@, e as int) =~= before
                    + replace_specials_from(map@, s@, q as int));
                q = e;
            },
            None => {
                out.push(s[q]);
                assert(out@ + replace_specials_from(map@, s@, q + 1) =~= before
                    + replace_specials_from(map@, s@, q as int));
                q = q + 1;
            },
        }
    }
    assert(out@ + replace_specials_from(map@, s@, q as int) == out@);
    out
}

/// `s` without inline formatting.
pub fn remove_inline_insets(s: &[char]) -> (res: Vec<char>)
    ensures
        res@ == remove_insets(s@),
{
    let marker = chars_of("\\inset ");
    let n: usize = s.len();
    let mut out: Vec<char> = Vec::new();
    let mut q: usize = 0;
    while q < n
        invariant
            q <= n == s@.len(),
            marker@ == inset_marker(),
            out@ + remove_insets_from(s@, q as int) == remove_insets(s@),
        decreases n - q,
    {
        let ghost before = out@;
        match inset_at_exec(s, q, &marker) {
            Some(e) => {
                proof {
                    lemma_inset_at_bound(s@, q as int);
                }
                q = e;
            },
            None => {
                out.push(s[q]);
                assert(out@ + remove_insets_from(s@, q + 1) =~= before + remove_insets_from(
                    s@,
                    q as int,
                ));
                q = q + 1;
            },
        }
    }
    assert(out@ + remove_insets_from(s@, q as int) == out@);
    out
}

/// The clean text of the paragraph `paragraph`: special characters replaced
/// by their plain-text form (from `special_char_map`, or their name in
/// square brackets), then inline formatting removed.
pub fn clean_paragraph_chars(paragraph: &[char], special_char_map: &SpecialCharMap) -> (res: Vec<
    char,
>)
    ensures
        res@ == clean_paragraph(special_char_map@, paragraph@),
{
    let replaced = replace_special_chars(paragraph, special_char_map);
    remove_inline_insets(&replaced)
}

/// The clean text of the paragraph `paragraph`.
pub fn process_paragraph(paragraph: &str, special_char_map: &SpecialCharMap) -> (res: String)
    ensures
        res@ == clean_paragraph(special_char_map@, paragraph@),
{
    let p = chars_of(paragraph);
    let r = clean_paragraph_chars(&p, special_char_map);
    string_of(&r)
}

} // verus!

verus! {

/// Where `s` holds no backslash, nothing is written from `q` on.
proof fn lemma_no_backslash_from(m: Map<Seq<char>, Seq<char>>, s: Seq<char>, q: int)
    requires
        0 <= q <= s.len(),
        !s.contains('\\'),
    ensures
        replace_specials_from(m, s, q) == s.subrange(q, s.len() as int),
        remove_insets_from(s, q) == s.subrange(q, s.len() as int),
    decreases s.len() - q,
{
    reveal_strlit("\\SpecialChar");
    reveal_strlit("\\inset ");
    if q < s.len() {
        if occurs_at(s, q, special_marker()) {
            assert(s.subrange(q, q + special_marker().len())[0] == s[q]);
        }
        if occurs_at(s, q, inset_marker()) {
            assert(s.subrange(q, q + inset_marker().len())[0] == s[q]);
        }
        lemma_no_backslash_from(m, s, q + 1);
        assert(seq![s[q]] + s.subrange(q + 1, s.len() as int) =~= s.subrange(q, s.len() as int));
    } else {
        assert(s.subrange(q, s.len() as int) =~= Seq::<char>::empty());
    }
}

/// Text without backslashes comes out of paragraph cleaning unchanged:
/// special characters and inline formatting are both written with one.
pub proof fn law_plain_text_unchanged(m: Map<Seq<char>, Seq<char>>, p: Seq<char>)
    requires
        !p.contains('\\'),
    ensures
        clean_paragraph(m, p) == p,
{
    lemma_no_backslash_from(m, p, 0);
    assert(p.subrange(0, p.len() as int) == p);
}

} // verus!
