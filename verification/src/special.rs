//! The table from LyX special-character names to their plain-text form.
use vstd::prelude::*;
use crate::text::{chars_of, string_of, occurs_at_exec, occurs_at};

verus! {

/// A table from names to replacement texts. When a name is entered twice,
/// the later entry counts, as when a map is filled entry by entry.
pub struct SpecialCharMap {
    entries: Vec<(Vec<char>, Vec<char>)>,
}

/// The map that entering the pairs of `es` in order gives.
pub open spec fn entries_map(es: Seq<(Seq<char>, Seq<char>)>) -> Map<Seq<char>, Seq<char>>
    decreases es.len(),
{
    if es.len() == 0 {
        Map::empty()
    } else {
        entries_map(es.drop_last()).insert(es.last().0, es.last().1)
    }
}

/// Where the last pair with key `k` stands in `es`, `entries_map` maps `k` to
/// its value; where no pair has key `k`, it does not hold `k`.
proof fn lemma_entries_map_last(es: Seq<(Seq<char>, Seq<char>)>, k: Seq<char>, i: int)
    requires
        -1 <= i < es.len(),
        i >= 0 ==> es[i].0 == k,
        forall|j: int| i < j < es.len() ==> #[trigger] es[j].0 != k,
    ensures
        i >= 0 ==> entries_map(es).contains_key(k) && entries_map(es)[k] == es[i].1,
        i < 0 ==> !entries_map(es).contains_key(k),
    decreases es.len(),
{
    if es.len() > 0 {
        let init = es.drop_last();
        if i == es.len() - 1 {
        } else {
            assert forall|j: int| i < j < init.len() implies #[trigger] init[j].0 != k by {
                assert(init[j] == es[j]);
            }
            lemma_entries_map_last(init, k, i);
            if i >= 0 {
                assert(init[i] == es[i]);
            }
        }
    }
}

impl SpecialCharMap {
    /// The pairs entered so far, as plain values.
    pub closed spec fn pairs(&self) -> Seq<(Seq<char>, Seq<char>)> {
        Seq::new(self.entries@.len(), |i: int| (self.entries@[i].0@, self.entries@[i].1@))
    }
}

impl View for SpecialCharMap {
    type V = Map<Seq<char>, Seq<char>>;

    closed spec fn view(&self) -> Map<Seq<char>, Seq<char>> {
        entries_map(self.pairs())
    }
}

/// The special characters that LyX documents use, with their plain-text form.
pub open spec fn lyx_special_chars() -> Map<Seq<char>, Seq<char>> {
    Map::empty()
        .insert("menuseparator"@, ">"@)
        .insert("softhyphen"@, "-"@)
        .insert("LyX"@, "LyX"@)
        .insert("LaTeX"@, "LaTeX"@)
        .insert("TeX"@, "TeX"@)
        .insert("\\ldots{}"@, "..."@)
        .insert("\\ldots"@, "..."@)
        .insert("em dash"@, "--"@)
        .insert("en dash"@, "-"@)
        .insert("leftarrow"@, "<- "@)
        .insert("rightarrow"@, " ->"@)
        .insert("le"@, "<="@)
        .insert("ge"@, ">="@)
        .insert("neq"@, "!="@)
        .insert("approx"@, "~="@)
        .insert("pm"@, "+"@)
        .insert("times"@, "x"@)
        .insert("div"@, "/"@)
        .insert("copyright"@, "(c)"@)
        .insert("registered"@, "(R)"@)
        .insert("trademark"@, "TM"@)
}

impl SpecialCharMap {
    /// The empty table.
    pub fn new() -> (res: SpecialCharMap)
        ensures
            res@ == Map::<Seq<char>, Seq<char>>::empty(),
    {
        let res = SpecialCharMap { entries: Vec::new() };
        assert(res.pairs().len() == 0);
        res
    }

    /// Enters `name` with the replacement text `text`.
    pub fn insert(&mut self, name: &str, text: &str)
        ensures
            final(self)@ == old(self)@.insert(name@, text@),
    {
        let k = chars_of(name);
        let v = chars_of(text);
        self.entries.push((k, v));
        assert(self.pairs().drop_last() =~= old(self).pairs());
    }

    /// The table of the special characters of LyX documents.
    pub fn lyx_defaults() -> (res: SpecialCharMap)
        ensures
            res@ == lyx_special_chars(),
    {
        let mut m = SpecialCharMap::new();
        m.insert("menuseparator", ">");
        m.insert("softhyphen", "-");
        m.insert("LyX", "LyX");
        m.insert("LaTeX", "LaTeX");
        m.insert("TeX", "TeX");
        m.insert("\\ldots{}", "...");
        m.insert("\\ldots", "...");
        m.insert("em dash", "--");
        m.insert("en dash", "-");
        m.insert("leftarrow", "<- ");
        m.insert("rightarrow", " ->");
        m.insert("le", "<=");
        m.insert("ge", ">=");
        m.insert("neq", "!=");
        m.insert("approx", "~=");
        m.insert("pm", "+");
        m.insert("times", "x");
        m.insert("div", "/");
        m.insert("copyright", "(c)");
        m.insert("registered", "(R)");
        m.insert("trademark", "TM");
        m
    }

    /// The replacement text of the name `key`, if the table holds it.
    pub fn lookup(&self, key: &[char]) -> (res: Option<&Vec<char>>)
        ensures
            match res {
                Some(v) => self@.contains_key(key@) && v@ == self@[key@],
                None => !self@.contains_key(key@),
            },
    {
        let ghost ps = self.pairs();
        let mut i: usize = self.entries.len();
        while i > 0
            invariant
                i <= self.entries@.len(),
                ps == self.pairs(),
                forall|j: int| i <= j < ps.len() ==> #[trigger] ps[j].0 != key@,
            decreases i,
        {
            let k = &self.entries[i - 1].0;
            let same = k.len() == key.len() && occurs_at_exec(key, 0, k.as_slice());
            assert(key@.subrange(0, key@.len() as int) == key@);
            assert(ps[i - 1].0 == k@);
            if same {
                proof {
                    lemma_entries_map_last(ps, key@, i - 1);
                }
                return Some(&self.entries[i - 1].1);
            }
            i = i - 1;
        }
        proof {
            lemma_entries_map_last(ps, key@, -1);
        }
        None
    }

    /// The replacement text of the name `key`, if the table holds it.
    pub fn get(&self, key: &str) -> (res: Option<String>)
        ensures
            match res {
                Some(v) => self@.contains_key(key@) && v@ == self@[key@],
                None => !self@.contains_key(key@),
            },
    {
        let k = chars_of(key);
        match self.lookup(&k) {
            Some(v) => Some(string_of(v.as_slice())),
            None => None,
        }
    }
}

/// A table name that a plain special-character name cannot spell: it begins
/// with a backslash or holds a space.
pub open spec fn is_spaced_name(k: Seq<char>) -> bool {
    k.len() > 0 && (k[0] == '\\' || k.contains(' '))
}

/// The `l` characters of `s` from `q` on are a name of `map` that a plain
/// name cannot spell.
pub open spec fn spaced_key_at(map: Map<Seq<char>, Seq<char>>, s: Seq<char>, q: int, l: int) -> bool {
    &&& 0 <= q
    &&& q + l <= s.len()
    &&& map.contains_key(s.subrange(q, q + l))
    &&& is_spaced_name(s.subrange(q, q + l))
}

/// The largest `l` in `1..=l0` for which `spaced_key_at` holds; 0 where none does.
pub open spec fn spaced_key_len_upto(map: Map<Seq<char>, Seq<char>>, s: Seq<char>, q: int, l0: int) -> nat
    decreases l0,
{
    if l0 < 1 {
        0
    } else if spaced_key_at(map, s, q, l0) {
        l0 as nat
    } else {
        spaced_key_len_upto(map, s, q, l0 - 1)
    }
}

/// The length of the longest name of `map` that begins with a backslash or
/// holds a space and is written at position `q` of `s`; 0 where none is.
pub open spec fn spaced_key_len(map: Map<Seq<char>, Seq<char>>, s: Seq<char>, q: int) -> nat {
    spaced_key_len_upto(map, s, q, s.len() - q)
}

/// A length that `spaced_key_len_upto` gives is one for which a name is written.
pub proof fn lemma_spaced_key_len_upto(map: Map<Seq<char>, Seq<char>>, s: Seq<char>, q: int, l0: int)
    ensures
        spaced_key_len_upto(map, s, q, l0) > 0 ==> spaced_key_at(
            map,
            s,
            q,
            spaced_key_len_upto(map, s, q, l0) as int,
        ),
    decreases l0,
{
    if l0 >= 1 && !spaced_key_at(map, s, q, l0) {
        lemma_spaced_key_len_upto(map, s, q, l0 - 1);
    }
}

/// Where `b` is the largest length up to `l0` for which a name is written,
/// `spaced_key_len_upto` gives `b`.
proof fn lemma_spaced_key_len_is(map: Map<Seq<char>, Seq<char>>, s: Seq<char>, q: int, l0: int, b: int)
    requires
        0 <= b,
        b <= l0 || b == 0,
        b > 0 ==> spaced_key_at(map, s, q, b),
        forall|l: int| b < l <= l0 ==> !#[trigger] spaced_key_at(map, s, q, l),
    ensures
        spaced_key_len_upto(map, s, q, l0) == b,
    decreases l0,
{
    if l0 >= 1 && l0 != b {
        lemma_spaced_key_len_is(map, s, q, l0 - 1, b);
    }
}

/// `entries_map` holds exactly the keys of its pairs.
proof fn lemma_entries_map_keys(es: Seq<(Seq<char>, Seq<char>)>, k: Seq<char>)
    ensures
        entries_map(es).contains_key(k) <==> exists|j: int| 0 <= j < es.len() && #[trigger] es[j].0 == k,
    decreases es.len(),
{
    if es.len() > 0 {
        let init = es.drop_last();
        lemma_entries_map_keys(init, k);
        if exists|j: int| 0 <= j < es.len() && #[trigger] es[j].0 == k {
            let j = choose|j: int| 0 <= j < es.len() && #[trigger] es[j].0 == k;
            if j < es.len() - 1 {
                assert(init[j] == es[j]);
            }
        }
        if exists|j: int| 0 <= j < init.len() && #[trigger] init[j].0 == k {
            let j = choose|j: int| 0 <= j < init.len() && #[trigger] init[j].0 == k;
            assert(es[j] == init[j]);
        }
    }
}

/// Whether `k` holds the character `c`.
fn has_char(k: &[char], c: char) -> (res: bool)
    ensures
        res == k@.contains(c),
{
    for i in 0..k.len()
        invariant
            forall|j: int| 0 <= j < i ==> k@[j] != c,
    {
        if k[i] == c {
            return true;
        }
    }
    false
}

impl SpecialCharMap {
    /// The length of the longest name of the table that begins with a
    /// backslash or holds a space and is written at position `q` of `s`;
    /// 0 where none is.
    pub fn spaced_key_len(&self, s: &[char], q: usize) -> (res: usize)
        requires
            q <= s@.len(),
        ensures
            res == spaced_key_len(self@, s@, q as int),
    {
        let ghost ps = self.pairs();
        let mut best: usize = 0;
        for j in 0..self.entries.len()
            invariant
                q <= s@.len(),
                ps == self.pairs(),
                ps.len() == self.entries@.len(),
                best <= s@.len() - q,
                best > 0 ==> exists|i: int| 0 <= i < j && #[trigger] ps[i].0 == s@.subrange(
                    q as int,
                    q + best,
                ) && is_spaced_name(ps[i].0),
                forall|i: int|
                    0 <= i < j && is_spaced_name(ps[i].0) && occurs_at(s@, q as int, #[trigger] ps[i].0)
                        ==> ps[i].0.len() <= best,
        {
            let k = &self.entries[j].0;
            assert(ps[j as int].0 == k@);
            let spaced = k.len() > 0 && (k[0] == '\\' || has_char(k.as_slice(), ' '));
            if spaced && occurs_at_exec(s, q, k.as_slice()) && k.len() > best {
                best = k.len();
                assert(ps[j as int].0 == s@.subrange(q as int, q + best));
            }
        }
        proof {
            let l0 = s@.len() - q;
            if best > 0 {
                let i = choose|i: int| 0 <= i < ps.len() && #[trigger] ps[i].0 == s@.subrange(
                    q as int,
                    q + best,
                ) && is_spaced_name(ps[i].0);
                lemma_entries_map_keys(ps, s@.subrange(q as int, q + best));
            }
            assert forall|l: int| best < l <= l0 implies !#[trigger] spaced_key_at(self@, s@, q as int, l) by {
                let key = s@.subrange(q as int, q + l);
                lemma_entries_map_keys(ps, key);
                if spaced_key_at(self@, s@, q as int, l) {
                    let i = choose|i: int| 0 <= i < ps.len() && #[trigger] ps[i].0 == key;
                    assert(occurs_at(s@, q as int, ps[i].0));
                }
            }
            lemma_spaced_key_len_is(self@, s@, q as int, l0, best as int);
        }
        best
    }
}

} // verus!
