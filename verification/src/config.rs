//! Reading `key = "value"` files as RetroArch writes them, and the sizes
//! both backends share.
use crate::path::{join, path_join};
use crate::text::{chars_of, debug_quoted, debug_str, parse_u32, parse_u32_range, push_char, push_range, push_str, string_of_range};
use vstd::prelude::*;

verus! {

/// Whether `c` is white space as `char::is_whitespace` says: Unicode's
/// `White_Space` property.
pub open spec fn is_ws(c: char) -> bool {
    c == ' ' || ('\t' <= c && c <= '\r') || c == '\u{85}' || c == '\u{a0}' || c == '\u{1680}'
        || ('\u{2000}' <= c && c <= '\u{200a}') || c == '\u{2028}' || c == '\u{2029}' || c
        == '\u{202f}' || c == '\u{205f}' || c == '\u{3000}'
}

/// `char::is_whitespace`.
pub fn is_whitespace(c: char) -> (b: bool)
    ensures
        b == is_ws(c),
{
    c == ' ' || ('\t' <= c && c <= '\r') || c == '\u{85}' || c == '\u{a0}' || c == '\u{1680}'
        || ('\u{2000}' <= c && c <= '\u{200a}') || c == '\u{2028}' || c == '\u{2029}' || c
        == '\u{202f}' || c == '\u{205f}' || c == '\u{3000}'
}

/// The first index in `a..b` that is not white space, or `b`.
pub open spec fn skip_ws(s: Seq<char>, a: int, b: int) -> int
    decreases b - a,
{
    if a >= b {
        b
    } else if is_ws(s[a]) {
        skip_ws(s, a + 1, b)
    } else {
        a
    }
}

/// The end of `a..b` with trailing white space dropped.
pub open spec fn skip_ws_back(s: Seq<char>, a: int, b: int) -> int
    decreases b - a,
{
    if b <= a {
        a
    } else if is_ws(s[b - 1]) {
        skip_ws_back(s, a, b - 1)
    } else {
        b
    }
}

/// `s[a..b]` trimmed at both ends, as a pair of indices.
pub open spec fn trim_range(s: Seq<char>, a: int, b: int) -> (int, int) {
    let start = skip_ws(s, a, b);
    (start, skip_ws_back(s, start, b))
}

pub proof fn lemma_skip_ws_bounds(s: Seq<char>, a: int, b: int)
    requires
        a <= b,
    ensures
        a <= skip_ws(s, a, b) <= b,
    decreases b - a,
{
    if a < b && is_ws(s[a]) {
        lemma_skip_ws_bounds(s, a + 1, b);
    }
}

pub proof fn lemma_skip_ws_back_bounds(s: Seq<char>, a: int, b: int)
    requires
        a <= b,
    ensures
        a <= skip_ws_back(s, a, b) <= b,
    decreases b - a,
{
    if a < b && is_ws(s[b - 1]) {
        lemma_skip_ws_back_bounds(s, a, b - 1);
    }
}

/// `trim_range` computed.
pub fn trim_indices(v: &Vec<char>, a: usize, b: usize) -> (r: (usize, usize))
    requires
        a <= b <= v@.len(),
    ensures
        r.0 == trim_range(v@, a as int, b as int).0,
        r.1 == trim_range(v@, a as int, b as int).1,
        a <= r.0 <= r.1 <= b,
{
    let mut i = a;
    while i < b && is_whitespace(v[i])
        invariant
            a <= i <= b <= v@.len(),
            skip_ws(v@, a as int, b as int) == skip_ws(v@, i as int, b as int),
        decreases b - i,
    {
        i = i + 1;
    }
    let mut j = b;
    while j > i && is_whitespace(v[j - 1])
        invariant
            i <= j <= b <= v@.len(),
            i == skip_ws(v@, a as int, b as int),
            skip_ws_back(v@, i as int, b as int) == skip_ws_back(v@, i as int, j as int),
        decreases j - i,
    {
        j = j - 1;
    }
    (i, j)
}

/// The index of the first `c` in `a..b`, or `b`.
pub open spec fn find_char(s: Seq<char>, c: char, a: int, b: int) -> int
    decreases b - a,
{
    if a >= b {
        b
    } else if s[a] == c {
        a
    } else {
        find_char(s, c, a + 1, b)
    }
}

/// `find_char` computed.
pub fn find_char_in(v: &Vec<char>, c: char, a: usize, b: usize) -> (r: usize)
    requires
        a <= b <= v@.len(),
    ensures
        r == find_char(v@, c, a as int, b as int),
        a <= r <= b,
        r < b ==> v@[r as int] == c,
        forall|k: int| a <= k < r ==> v@[k] != c,
{
    let mut i = a;
    while i < b && v[i] != c
        invariant
            a <= i <= b <= v@.len(),
            find_char(v@, c, a as int, b as int) == find_char(v@, c, i as int, b as int),
            forall|k: int| a <= k < i ==> v@[k] != c,
        decreases b - i,
    {
        i = i + 1;
    }
    i
}

/// The value text `s[a..b]` (already trimmed) with one pair of
/// surrounding double quotes stripped, as a pair of indices; unchanged
/// unless it both starts and (after that) ends with a quote.
pub open spec fn unquote_range(s: Seq<char>, a: int, b: int) -> (int, int) {
    if b - a >= 2 && s[a] == '"' && s[b - 1] == '"' {
        (a + 1, b - 1)
    } else {
        (a, b)
    }
}

/// The `key = "value"` pair the line `s[a..b]` holds, if any: the line is
/// trimmed; a blank line, a `#` comment, and a line without `=` hold none;
/// otherwise the key is the trimmed text before the first `=`, and the
/// value the trimmed text after it, unquoted.
pub open spec fn line_entry(s: Seq<char>, a: int, b: int) -> Option<(Seq<char>, Seq<char>)> {
    let (ls, le) = trim_range(s, a, b);
    if ls >= le || s[ls] == '#' {
        None
    } else {
        let eq = find_char(s, '=', ls, le);
        if eq >= le {
            None
        } else {
            let (ks, ke) = trim_range(s, ls, eq);
            let (vs, ve) = trim_range(s, eq + 1, le);
            let (qs, qe) = unquote_range(s, vs, ve);
            Some((s.subrange(ks, ke), s.subrange(qs, qe)))
        }
    }
}

/// The pairs of the lines from `pos` on, inserted into `acc` in order, so
/// that a later line's value for a key replaces an earlier one's.
pub open spec fn read_from(s: Seq<char>, pos: int, acc: Map<Seq<char>, Seq<char>>) -> Map<
    Seq<char>,
    Seq<char>,
>
    decreases s.len() + 1 - pos,
{
    if pos >= s.len() {
        acc
    } else {
        let end = find_char(s, '\n', pos, s.len() as int);
        proof {
            lemma_find_char_bounds(s, '\n', pos, s.len() as int);
        }
        let next = match line_entry(s, pos, end) {
            Some((k, v)) => acc.insert(k, v),
            None => acc,
        };
        read_from(s, end + 1, next)
    }
}

pub proof fn lemma_find_char_bounds(s: Seq<char>, c: char, a: int, b: int)
    requires
        a <= b,
    ensures
        a <= find_char(s, c, a, b) <= b,
    decreases b - a,
{
    if a < b && s[a] != c {
        lemma_find_char_bounds(s, c, a + 1, b);
    }
}

/// Every `key = "value"` pair in RetroArch config text.
pub open spec fn spec_read_all(text: Seq<char>) -> Map<Seq<char>, Seq<char>> {
    read_from(text, 0, Map::empty())
}

/// The pairs of a RetroArch config: each key once, with the value its last
/// line gave it.
pub struct ConfigMap {
    entries: Vec<(String, String)>,
}

/// The map a list of pairs with distinct keys stands for.
pub open spec fn entries_map(e: Seq<(String, String)>) -> Map<Seq<char>, Seq<char>>
    decreases e.len(),
{
    if e.len() == 0 {
        Map::empty()
    } else {
        entries_map(e.drop_last()).insert(e.last().0@, e.last().1@)
    }
}

/// No key occurs twice.
pub open spec fn keys_distinct(e: Seq<(String, String)>) -> bool {
    forall|i: int, j: int| 0 <= i < j < e.len() ==> e[i].0@ != e[j].0@
}

proof fn lemma_entries_map_dom(e: Seq<(String, String)>)
    requires
        keys_distinct(e),
    ensures
        entries_map(e).dom().finite(),
        entries_map(e).dom().len() == e.len(),
        forall|k: Seq<char>| #[trigger]
            entries_map(e).dom().contains(k) <==> exists|i: int|
                0 <= i < e.len() && e[i].0@ == k,
    decreases e.len(),
{
    if e.len() > 0 {
        let p = e.drop_last();
        assert(keys_distinct(p));
        lemma_entries_map_dom(p);
        assert(!entries_map(p).dom().contains(e.last().0@)) by {
            if entries_map(p).dom().contains(e.last().0@) {
                let i = choose|i: int| 0 <= i < p.len() && p[i].0@ == e.last().0@;
                assert(e[i].0@ == e[e.len() - 1].0@);
            }
        }
        assert forall|k: Seq<char>| #[trigger]
            entries_map(e).dom().contains(k) <==> exists|i: int|
                0 <= i < e.len() && e[i].0@ == k by {
            if entries_map(e).dom().contains(k) && k != e.last().0@ {
                let i = choose|i: int| 0 <= i < p.len() && p[i].0@ == k;
                assert(e[i] == p[i]);
            }
            if exists|i: int| 0 <= i < e.len() && e[i].0@ == k {
                let i = choose|i: int| 0 <= i < e.len() && e[i].0@ == k;
                if i < e.len() - 1 {
                    assert(p[i] == e[i]);
                }
            }
        }
    }
}

proof fn lemma_entries_map_at(e: Seq<(String, String)>, i: int)
    requires
        keys_distinct(e),
        0 <= i < e.len(),
    ensures
        entries_map(e).dom().contains(e[i].0@),
        entries_map(e)[e[i].0@] == e[i].1@,
    decreases e.len(),
{
    let p = e.drop_last();
    if i < e.len() - 1 {
        assert(keys_distinct(p));
        assert(p[i] == e[i]);
        lemma_entries_map_at(p, i);
    }
}

proof fn lemma_entries_map_update(e: Seq<(String, String)>, i: int, v: String)
    requires
        keys_distinct(e),
        0 <= i < e.len(),
    ensures
        keys_distinct(e.update(i, (e[i].0, v))),
        entries_map(e.update(i, (e[i].0, v))) == entries_map(e).insert(e[i].0@, v@),
    decreases e.len(),
{
    let u = e.update(i, (e[i].0, v));
    assert(keys_distinct(u));
    let p = e.drop_last();
    if i == e.len() - 1 {
        assert(u.drop_last() =~= p);
        assert(entries_map(u) =~= entries_map(e).insert(e[i].0@, v@));
    } else {
        assert(keys_distinct(p));
        lemma_entries_map_update(p, i, v);
        assert(u.drop_last() =~= p.update(i, (p[i].0, v)));
        lemma_entries_map_dom(p);
        assert(e.last().0@ != e[i].0@);
        assert(entries_map(u) =~= entries_map(e).insert(e[i].0@, v@));
    }
}

impl View for ConfigMap {
    type V = Map<Seq<char>, Seq<char>>;

    closed spec fn view(&self) -> Map<Seq<char>, Seq<char>> {
        entries_map(self.entries@)
    }
}

impl ConfigMap {
    /// No key occurs twice among the pairs.
    #[verifier::type_invariant]
    spec fn wf(self) -> bool {
        keys_distinct(self.entries@)
    }

    /// An empty map.
    pub fn new() -> (m: ConfigMap)
        ensures
            m@ == Map::<Seq<char>, Seq<char>>::empty(),
    {
        ConfigMap { entries: Vec::new() }
    }

    /// Number of keys.
    pub fn len(&self) -> (n: usize)
        ensures
            self@.dom().finite(),
            n == self@.dom().len(),
    {
        proof {
            use_type_invariant(self);
            lemma_entries_map_dom(self.entries@);
        }
        self.entries.len()
    }

    fn position(&self, key: &str) -> (r: Option<usize>)
        ensures
            match r {
                Some(i) => i < self.entries@.len() && self.entries@[i as int].0@ == key@,
                None => forall|i: int| 0 <= i < self.entries@.len() ==> self.entries@[i].0@ != key@,
            },
    {
        let mut i: usize = 0;
        while i < self.entries.len()
            invariant
                0 <= i <= self.entries@.len(),
                forall|k: int| 0 <= k < i ==> self.entries@[k].0@ != key@,
            decreases self.entries@.len() - i,
        {
            if crate::text::str_eq(self.entries[i].0.as_str(), key) {
                return Some(i);
            }
            i = i + 1;
        }
        None
    }

    /// The value for `key`, if it has one.
    pub fn get(&self, key: &str) -> (r: Option<&String>)
        ensures
            match r {
                Some(v) => self@.dom().contains(key@) && self@[key@] == v@,
                None => !self@.dom().contains(key@),
            },
    {
        proof {
            use_type_invariant(self);
            lemma_entries_map_dom(self.entries@);
        }
        match self.position(key) {
            Some(i) => {
                proof {
                    lemma_entries_map_at(self.entries@, i as int);
                }
                Some(&self.entries[i].1)
            },
            None => None,
        }
    }

    /// Whether `key` has a value.
    pub fn contains_key(&self, key: &str) -> (b: bool)
        ensures
            b == self@.dom().contains(key@),
    {
        self.get(key).is_some()
    }

    /// Set `key` to `value`, replacing any value it had.
    pub fn insert(&mut self, key: String, value: String)
        ensures
            final(self)@ == old(self)@.insert(key@, value@),
    {
        proof {
            use_type_invariant(&*self);
        }
        match self.position(key.as_str()) {
            Some(i) => {
                proof {
                    lemma_entries_map_update(self.entries@, i as int, value);
                }
                let k = self.entries[i].0.clone();
                let mut entries = Vec::new();
                std::mem::swap(&mut entries, &mut self.entries);
                entries.set(i, (k, value));
                self.entries = entries;
            },
            None => {
                let ghost before = self.entries@;
                let mut entries = Vec::new();
                std::mem::swap(&mut entries, &mut self.entries);
                entries.push((key, value));
                proof {
                    assert(entries@.drop_last() =~= before);
                    assert(keys_distinct(entries@));
                }
                self.entries = entries;
            },
        }
    }
}

/// Every `key = "value"` pair in RetroArch config text. Comments and blank
/// lines are skipped; surrounding quotes are stripped.
pub fn read_all(text: &str) -> (m: ConfigMap)
    ensures
        m@ == spec_read_all(text@),
{
    let s = chars_of(text);
    let n = s.len();
    let mut m = ConfigMap::new();
    let mut pos: usize = 0;
    while pos < n
        invariant
            n == s@.len(),
            s@ == text@,
            0 <= pos <= n,
            spec_read_all(text@) == read_from(s@, pos as int, m@),
        decreases n - pos,
    {
        let end = find_char_in(&s, '\n', pos, n);
        let ghost before = m@;
        let (ls, le) = trim_indices(&s, pos, end);
        if ls < le && s[ls] != '#' {
            let eq = find_char_in(&s, '=', ls, le);
            if eq < le {
                let (ks, ke) = trim_indices(&s, ls, eq);
                let (vs, ve) = trim_indices(&s, eq + 1, le);
                let (qs, qe) = if ve - vs >= 2 && s[vs] == '"' && s[ve - 1] == '"' {
                    (vs + 1, ve - 1)
                } else {
                    (vs, ve)
                };
                let key = string_of_range(&s, ks, ke);
                let value = string_of_range(&s, qs, qe);
                assert(line_entry(s@, pos as int, end as int) == Some((key@, value@)));
                m.insert(key, value);
            } else {
                assert(line_entry(s@, pos as int, end as int) is None);
            }
        } else {
            assert(line_entry(s@, pos as int, end as int) is None);
        }
        assert(read_from(s@, pos as int, before) == read_from(s@, end + 1, m@));
        if end < n {
            pos = end + 1;
        } else {
            pos = n;
        }
    }
    m
}

/// A width and height: points for a RetroArch window, pixels for the
/// hosted backend's output texture.
#[derive(Debug, Clone, Copy, PartialEq, Eq, Structural)]
pub struct Size {
    pub width: u32,
    pub height: u32,
}

/// Why `WxH` text is not a size: no `x`, a width or height that is not a
/// `u32`, or a zero.
pub open spec fn size_of_text(s: Seq<char>) -> Result<Size, Seq<char>> {
    let i = find_char(s, 'x', 0, s.len() as int);
    if i >= s.len() {
        Err("expected WxH, got "@ + debug_quoted(s))
    } else {
        match parse_u32(s.subrange(0, i)) {
            None => Err("bad width in "@ + debug_quoted(s)),
            Some(w) => match parse_u32(s.subrange(i + 1, s.len() as int)) {
                None => Err("bad height in "@ + debug_quoted(s)),
                Some(h) => if w == 0 || h == 0 {
                    Err("width and height must be non-zero"@)
                } else {
                    Ok(Size { width: w, height: h })
                },
            },
        }
    }
}

impl Size {
    /// `WxH`, both non-zero, as on the command line.
    pub fn parse(s: &str) -> (r: Result<Size, String>)
        ensures
            match size_of_text(s@) {
                Ok(z) => r == Ok::<Size, String>(z),
                Err(m) => r matches Err(e) && e@ == m,
            },
    {
        let v = chars_of(s);
        let n = v.len();
        let i = find_char_in(&v, 'x', 0, n);
        if i >= n {
            let mut e = String::new();
            push_str(&mut e, "expected WxH, got ");
            let q = debug_str(s);
            push_str(&mut e, q.as_str());
            return Err(e);
        }
        let width = match parse_u32_range(&v, 0, i) {
            Some(w) => w,
            None => {
                let mut e = String::new();
                push_str(&mut e, "bad width in ");
                let q = debug_str(s);
                push_str(&mut e, q.as_str());
                return Err(e);
            },
        };
        let height = match parse_u32_range(&v, i + 1, n) {
            Some(h) => h,
            None => {
                let mut e = String::new();
                push_str(&mut e, "bad height in ");
                let q = debug_str(s);
                push_str(&mut e, q.as_str());
                return Err(e);
            },
        };
        if width == 0 || height == 0 {
            return Err("width and height must be non-zero".to_string());
        }
        Ok(Size { width, height })
    }
}

impl std::str::FromStr for Size {
    type Err = String;

    /// `WxH`, both non-zero, as on the command line (see [`Size::parse`]).
    fn from_str(s: &str) -> (r: Result<Size, String>)
        ensures
            match size_of_text(s@) {
                Ok(z) => r == Ok::<Size, String>(z),
                Err(m) => r matches Err(e) && e@ == m,
            },
    {
        Size::parse(s)
    }
}

/// A leading `~` or `~/` expanded against `home`; other paths, and any
/// path when there is no home, unchanged.
pub open spec fn tilde_expanded(s: Seq<char>, home: Option<Seq<char>>) -> Seq<char> {
    match home {
        Some(h) => if s == "~"@ {
            h
        } else if s.len() >= 2 && s[0] == '~' && s[1] == '/' {
            join(h, s.subrange(2, s.len() as int))
        } else {
            s
        },
        None => s,
    }
}

/// Expand a leading `~` or `~/` using `home` (`$HOME`). Other paths are
/// returned unchanged.
pub fn expand_tilde(s: &str, home: Option<&str>) -> (p: String)
    ensures
        p@ == tilde_expanded(s@, match home {
            Some(h) => Some(h@),
            None => None,
        }),
{
    let v = chars_of(s);
    match home {
        Some(h) => {
            if v.len() == 1 && v[0] == '~' {
                proof {
                    reveal_strlit("~");
                    assert(s@ =~= "~"@);
                }
                return h.to_string();
            }
            proof {
                reveal_strlit("~");
            }
            if v.len() >= 2 && v[0] == '~' && v[1] == '/' {
                let rest = string_of_range(&v, 2, v.len());
                return path_join(h, rest.as_str());
            }
            s.to_string()
        },
        None => s.to_string(),
    }
}

/// How the output is sized: RetroArch's window, or the hosted backend's
/// texture.
#[derive(Debug, Clone, Copy, PartialEq, Eq, Structural)]
pub enum WindowMode {
    /// Windowed, scaled up and then clamped to this maximum (points).
    Fill { max: Size },
    /// Windowed, exactly this size (points).
    Exact(Size),
    /// Windowed, an integer multiple of the core's native resolution, unclamped.
    Scale(u32),
    /// `-f` on the command line; nothing in the config.
    Fullscreen,
}

} // verus!
