//! Text as sequences of characters: the conversions between `str`, `String`
//! and `Vec<char>` that the parsers and renderers here are written over,
//! and decimal numerals.
use vstd::prelude::*;
use vstd::string::*;

verus! {

broadcast use vstd::string::group_string_axioms;

/// The characters of `s`, in order.
pub fn chars_of(s: &str) -> (v: Vec<char>)
    ensures
        v@ == s@,
{
    let mut v: Vec<char> = Vec::new();
    for c in it: s.chars()
        invariant
            it.seq() == s@,
            v@ == it.seq().take(it.index() as int),
    {
        v.push(c);
    }
    v
}

/// Appends one character to `s` (`String::push`).
#[verifier::external_body]
pub fn push_char(s: &mut String, c: char)
    ensures
        final(s)@ == old(s)@.push(c),
{
    s.push(c);
}

/// Appends `t` to `s`.
pub fn push_str(s: &mut String, t: &str)
    ensures
        final(s)@ == old(s)@ + t@,
{
    s.append(t);
}

/// A `String` holding the characters `v[from..to]`.
pub fn string_of_range(v: &Vec<char>, from: usize, to: usize) -> (s: String)
    requires
        from <= to <= v@.len(),
    ensures
        s@ == v@.subrange(from as int, to as int),
{
    let mut s = String::new();
    let mut i = from;
    while i < to
        invariant
            from <= i <= to <= v@.len(),
            s@ == v@.subrange(from as int, i as int),
        decreases to - i,
    {
        push_char(&mut s, v[i]);
        assert(s@ =~= v@.subrange(from as int, i + 1));
        i = i + 1;
    }
    s
}

/// A `String` holding the characters of `v`.
pub fn string_of(v: &Vec<char>) -> (s: String)
    ensures
        s@ == v@,
{
    let s = string_of_range(v, 0, v.len());
    assert(v@.subrange(0, v@.len() as int) =~= v@);
    s
}

/// Appends the characters `v[from..to]` to `s`.
pub fn push_range(s: &mut String, v: &Vec<char>, from: usize, to: usize)
    requires
        from <= to <= v@.len(),
    ensures
        final(s)@ == old(s)@ + v@.subrange(from as int, to as int),
{
    let mut i = from;
    while i < to
        invariant
            from <= i <= to <= v@.len(),
            s@ == old(s)@ + v@.subrange(from as int, i as int),
        decreases to - i,
    {
        push_char(s, v[i]);
        assert(s@ =~= old(s)@ + v@.subrange(from as int, i + 1));
        i = i + 1;
    }
}

/// The ASCII digit for `d`, which is below ten.
pub open spec fn digit_char(d: nat) -> char {
    if d == 0 {
        '0'
    } else if d == 1 {
        '1'
    } else if d == 2 {
        '2'
    } else if d == 3 {
        '3'
    } else if d == 4 {
        '4'
    } else if d == 5 {
        '5'
    } else if d == 6 {
        '6'
    } else if d == 7 {
        '7'
    } else if d == 8 {
        '8'
    } else {
        '9'
    }
}

/// `n` in decimal, without leading zeros (`"0"` for zero), as `{}`
/// formats an unsigned integer.
pub open spec fn decimal(n: nat) -> Seq<char>
    decreases n,
{
    if n < 10 {
        seq![digit_char(n)]
    } else {
        decimal(n / 10).push(digit_char(n % 10))
    }
}

fn digit(d: u64) -> (c: char)
    requires
        d < 10,
    ensures
        c == digit_char(d as nat),
{
    if d == 0 {
        '0'
    } else if d == 1 {
        '1'
    } else if d == 2 {
        '2'
    } else if d == 3 {
        '3'
    } else if d == 4 {
        '4'
    } else if d == 5 {
        '5'
    } else if d == 6 {
        '6'
    } else if d == 7 {
        '7'
    } else if d == 8 {
        '8'
    } else {
        '9'
    }
}

/// Appends `n` in decimal to `s`.
pub fn push_decimal(s: &mut String, n: u64)
    ensures
        final(s)@ == old(s)@ + decimal(n as nat),
    decreases n,
{
    if n < 10 {
        push_char(s, digit(n));
        assert(final(s)@ =~= old(s)@ + decimal(n as nat));
    } else {
        push_decimal(s, n / 10);
        push_char(s, digit(n % 10));
        assert(final(s)@ =~= old(s)@ + decimal(n as nat));
    }
}

/// `n` in decimal.
pub fn decimal_string(n: u64) -> (s: String)
    ensures
        s@ == decimal(n as nat),
{
    let mut s = String::new();
    push_decimal(&mut s, n);
    assert(s@ =~= decimal(n as nat));
    s
}

/// Whether `a` occurs in `s` starting at `at`.
pub open spec fn occurs_at(s: Seq<char>, a: Seq<char>, at: int) -> bool {
    0 <= at && at + a.len() <= s.len() && s.subrange(at, at + a.len()) == a
}

/// Whether `c` occurs anywhere in `s`.
pub open spec fn has_char(s: Seq<char>, c: char) -> bool {
    exists|i: int| 0 <= i < s.len() && s[i] == c
}

/// Whether `c` occurs in `v`.
pub fn contains_char(v: &Vec<char>, c: char) -> (b: bool)
    ensures
        b == has_char(v@, c),
{
    let mut i: usize = 0;
    while i < v.len()
        invariant
            0 <= i <= v@.len(),
            forall|j: int| 0 <= j < i ==> v@[j] != c,
        decreases v@.len() - i,
    {
        if v[i] == c {
            return true;
        }
        i = i + 1;
    }
    false
}

/// Whether `v` equals the characters of `t`.
pub fn chars_eq(v: &Vec<char>, t: &str) -> (b: bool)
    ensures
        b == (v@ == t@),
{
    let w = chars_of(t);
    if v.len() != w.len() {
        return false;
    }
    let mut i: usize = 0;
    while i < v.len()
        invariant
            v@.len() == w@.len(),
            w@ == t@,
            0 <= i <= v@.len(),
            forall|j: int| 0 <= j < i ==> v@[j] == w@[j],
        decreases v@.len() - i,
    {
        if v[i] != w[i] {
            return false;
        }
        i = i + 1;
    }
    assert(v@ =~= w@);
    true
}

/// Whether the strings `a` and `b` hold the same characters.
pub fn str_eq(a: &str, b: &str) -> (r: bool)
    ensures
        r == (a@ == b@),
{
    chars_eq(&chars_of(a), b)
}

/// Whether `c` is an ASCII digit.
pub open spec fn is_digit(c: char) -> bool {
    '0' <= c && c <= '9'
}

/// The value of the ASCII digits `d`, most significant first.
pub open spec fn digits_value(d: Seq<char>) -> nat
    decreases d.len(),
{
    if d.len() == 0 {
        0
    } else {
        digits_value(d.drop_last()) * 10 + ((d.last() as u32) - ('0' as u32)) as nat
    }
}

/// `s` without one leading `+`.
pub open spec fn digits_part(s: Seq<char>) -> Seq<char> {
    if s.len() > 0 && s[0] == '+' {
        s.drop_first()
    } else {
        s
    }
}

/// `u32::from_str`: an optional `+`, then one or more ASCII digits whose
/// value fits in a `u32`.
pub open spec fn parse_u32(s: Seq<char>) -> Option<u32> {
    let d = digits_part(s);
    if d.len() == 0 || !(forall|i: int| 0 <= i < d.len() ==> is_digit(d[i])) {
        None
    } else if digits_value(d) > u32::MAX {
        None
    } else {
        Some(digits_value(d) as u32)
    }
}

proof fn lemma_digits_value_grows(d: Seq<char>, c: char)
    requires
        is_digit(c),
    ensures
        digits_value(d.push(c)) >= digits_value(d),
        digits_value(d.push(c)) == digits_value(d) * 10 + ((c as u32) - ('0' as u32)) as nat,
{
    assert(d.push(c).drop_last() =~= d);
}

/// `u32::from_str` on the characters `v[a..b]`.
pub fn parse_u32_range(v: &Vec<char>, a: usize, b: usize) -> (r: Option<u32>)
    requires
        a <= b <= v@.len(),
    ensures
        r == parse_u32(v@.subrange(a as int, b as int)),
{
    let ghost s = v@.subrange(a as int, b as int);
    let start = if a < b && v[a] == '+' {
        a + 1
    } else {
        a
    };
    let ghost d = v@.subrange(start as int, b as int);
    assert(d =~= digits_part(s));
    if start == b {
        return None;
    }
    let mut acc: u64 = 0;
    let mut over = false;
    let mut i = start;
    while i < b
        invariant
            start <= i <= b <= v@.len(),
            d == v@.subrange(start as int, b as int),
            s == v@.subrange(a as int, b as int),
            d == digits_part(s),
            forall|k: int| start <= k < i ==> is_digit(v@[k]),
            !over ==> acc == digits_value(v@.subrange(start as int, i as int)) && acc <= u32::MAX,
            over ==> digits_value(v@.subrange(start as int, i as int)) > u32::MAX,
        decreases b - i,
    {
        let c = v[i];
        if !('0' <= c && c <= '9') {
            assert(!is_digit(d[i - start]));
            assert(!(forall|k: int| 0 <= k < d.len() ==> is_digit(d[k])));
            return None;
        }
        let ghost prev = v@.subrange(start as int, i as int);
        proof {
            assert(v@.subrange(start as int, i + 1) =~= prev.push(c));
            lemma_digits_value_grows(prev, c);
        }
        if !over {
            acc = acc * 10 + ((c as u32) - ('0' as u32)) as u64;
            if acc > 4294967295 {
                over = true;
            }
        }
        i = i + 1;
    }
    assert(forall|k: int| 0 <= k < d.len() ==> is_digit(d[k]));
    if over {
        None
    } else {
        Some(acc as u32)
    }
}

/// The end of the line starting at `pos`: the next `\n`, or the end.
pub open spec fn line_end(s: Seq<char>, pos: int) -> int
    decreases s.len() - pos,
{
    if pos >= s.len() {
        s.len() as int
    } else if s[pos] == '\n' {
        pos
    } else {
        line_end(s, pos + 1)
    }
}

/// The end of the text of the line `pos..line_end`, as `str::lines` gives
/// it: a `\r` before the `\n` is dropped with it.
pub open spec fn line_text_end(s: Seq<char>, pos: int) -> int {
    let e = line_end(s, pos);
    if e < s.len() && e > pos && s[e - 1] == '\r' {
        e - 1
    } else {
        e
    }
}

pub proof fn lemma_line_end_bounds(s: Seq<char>, pos: int)
    requires
        0 <= pos <= s.len(),
    ensures
        pos <= line_end(s, pos) <= s.len(),
        line_end(s, pos) < s.len() ==> s[line_end(s, pos)] == '\n',
    decreases s.len() - pos,
{
    if pos < s.len() && s[pos] != '\n' {
        lemma_line_end_bounds(s, pos + 1);
    }
}

/// The line starting at `pos`: the index of its `\n` (or the end) and the
/// end of its text.
pub fn line_at(v: &Vec<char>, pos: usize) -> (r: (usize, usize))
    requires
        pos <= v@.len(),
    ensures
        r.0 == line_end(v@, pos as int),
        r.1 == line_text_end(v@, pos as int),
        pos <= r.1 <= r.0 <= v@.len(),
{
    let mut e = pos;
    while e < v.len() && v[e] != '\n'
        invariant
            pos <= e <= v@.len(),
            line_end(v@, pos as int) == line_end(v@, e as int),
        decreases v@.len() - e,
    {
        e = e + 1;
    }
    let t = if e < v.len() && e > pos && v[e - 1] == '\r' {
        e - 1
    } else {
        e
    };
    (e, t)
}

/// Where the first word of `s[a..b]` starts (after white space) and ends
/// (at the next white space), as `split_whitespace` finds it.
pub open spec fn first_word(s: Seq<char>, a: int, b: int) -> (int, int) {
    let ws = crate::config::skip_ws(s, a, b);
    (ws, skip_word(s, ws, b))
}

/// The first white-space index in `a..b`, or `b`.
pub open spec fn skip_word(s: Seq<char>, a: int, b: int) -> int
    decreases b - a,
{
    if a >= b {
        b
    } else if crate::config::is_ws(s[a]) {
        a
    } else {
        skip_word(s, a + 1, b)
    }
}

proof fn lemma_skip_word_bounds(s: Seq<char>, a: int, b: int)
    requires
        a <= b,
    ensures
        a <= skip_word(s, a, b) <= b,
    decreases b - a,
{
    if a < b && !crate::config::is_ws(s[a]) {
        lemma_skip_word_bounds(s, a + 1, b);
    }
}

/// `first_word` computed.
pub fn first_word_at(v: &Vec<char>, a: usize, b: usize) -> (r: (usize, usize))
    requires
        a <= b <= v@.len(),
    ensures
        r.0 == first_word(v@, a as int, b as int).0,
        r.1 == first_word(v@, a as int, b as int).1,
        a <= r.0 <= r.1 <= b,
{
    let mut i = a;
    while i < b && crate::config::is_whitespace(v[i])
        invariant
            a <= i <= b <= v@.len(),
            crate::config::skip_ws(v@, a as int, b as int) == crate::config::skip_ws(
                v@,
                i as int,
                b as int,
            ),
        decreases b - i,
    {
        i = i + 1;
    }
    let mut j = i;
    while j < b && !crate::config::is_whitespace(v[j])
        invariant
            i <= j <= b <= v@.len(),
            skip_word(v@, i as int, b as int) == skip_word(v@, j as int, b as int),
        decreases b - j,
    {
        j = j + 1;
    }
    (i, j)
}

/// Whether `pat` occurs in `s[a..b]`.
pub open spec fn contains_in(s: Seq<char>, a: int, b: int, pat: Seq<char>) -> bool {
    exists|i: int| a <= i && i + pat.len() <= b && #[trigger] s.subrange(i, i + pat.len()) == pat
}

/// Whether `v[at..]` starts with `pat`.
pub fn matches_at(v: &Vec<char>, at: usize, pat: &Vec<char>) -> (r: bool)
    requires
        at <= v@.len(),
    ensures
        r == (at + pat@.len() <= v@.len() && v@.subrange(at as int, at + pat@.len()) == pat@),
{
    let vl = v.len();
    if pat.len() > vl - at {
        return false;
    }
    let mut i: usize = 0;
    while i < pat.len()
        invariant
            vl == v@.len(),
            at + pat@.len() <= v@.len(),
            0 <= i <= pat@.len(),
            forall|k: int| 0 <= k < i ==> v@[at + k] == pat@[k],
        decreases pat@.len() - i,
    {
        if v[at + i] != pat[i] {
            assert(v@.subrange(at as int, at + pat@.len())[i as int] != pat@[i as int]);
            return false;
        }
        i = i + 1;
    }
    assert(v@.subrange(at as int, at + pat@.len()) =~= pat@);
    true
}

/// Whether `pat` occurs in `v[a..b]`.
pub fn contains_range(v: &Vec<char>, a: usize, b: usize, pat: &Vec<char>) -> (r: bool)
    requires
        a <= b <= v@.len(),
    ensures
        r == contains_in(v@, a as int, b as int, pat@),
{
    if pat.len() > b - a {
        return false;
    }
    let last = b - pat.len();
    let mut i = a;
    loop
        invariant
            a <= i <= last,
            last + pat@.len() == b,
            b <= v@.len(),
            forall|k: int| a <= k < i ==> #[trigger] v@.subrange(k, k + pat@.len()) != pat@,
        decreases last - i,
    {
        if matches_at(v, i, pat) {
            return true;
        }
        if i == last {
            return false;
        }
        i = i + 1;
    }
}

} // verus!

verus! {

/// Whether `v[a..b]` holds exactly the characters of `pat`.
pub fn range_eq(v: &Vec<char>, a: usize, b: usize, pat: &Vec<char>) -> (r: bool)
    requires
        a <= b <= v@.len(),
    ensures
        r == (v@.subrange(a as int, b as int) == pat@),
{
    if b - a != pat.len() {
        assert(v@.subrange(a as int, b as int).len() != pat@.len());
        return false;
    }
    matches_at(v, a, pat)
}

/// Whether `v[a..b]` starts with the characters of `pat`.
pub fn range_starts_with(v: &Vec<char>, a: usize, b: usize, pat: &Vec<char>) -> (r: bool)
    requires
        a <= b <= v@.len(),
    ensures
        r == (pat@.len() <= b - a && v@.subrange(a as int, a + pat@.len()) == pat@),
{
    if pat.len() > b - a {
        return false;
    }
    matches_at(v, a, pat)
}

} // verus!

verus! {

/// What `{:?}` prints for a string: the text in double quotes, with quotes,
/// backslashes and unprintable characters escaped.
pub uninterp spec fn debug_quoted(s: Seq<char>) -> Seq<char>;

/// What `String::from_utf8_lossy` makes of `bytes`: the text they hold,
/// with each invalid sequence replaced by U+FFFD.
pub uninterp spec fn lossy_text(bytes: Seq<u8>) -> Seq<char>;

/// `String::from_utf8_lossy`, owned. Claimed: the text is a function of
/// the bytes.
#[verifier::external_body]
pub fn utf8_lossy(bytes: &[u8]) -> (s: String)
    ensures
        s@ == lossy_text(bytes@),
{
    String::from_utf8_lossy(bytes).into_owned()
}

/// `s` formatted with `{:?}` (`<str as Debug>::fmt`).
#[verifier::external_body]
pub fn debug_str(s: &str) -> (r: String)
    ensures
        r@ == debug_quoted(s@),
{
    format!("{s:?}")
}

} // verus!

verus! {

/// The lines of `s` from `pos` on, as `str::lines` gives them: split at
/// each `\n`, a `\r` before it dropped, and no empty line after a final
/// `\n`.
pub open spec fn lines_from(s: Seq<char>, pos: int) -> Seq<Seq<char>>
    decreases s.len() + 1 - pos,
{
    if pos < 0 || pos >= s.len() {
        Seq::empty()
    } else {
        proof {
            lemma_line_end_bounds(s, pos);
        }
        seq![s.subrange(pos, line_text_end(s, pos))] + lines_from(s, line_end(s, pos) + 1)
    }
}

/// `str::lines`.
pub open spec fn str_lines(s: Seq<char>) -> Seq<Seq<char>> {
    lines_from(s, 0)
}

/// The characters of each string.
pub open spec fn views(v: Seq<String>) -> Seq<Seq<char>> {
    v.map_values(|s: String| s@)
}

/// The lines of `text`, as `str::lines` gives them.
pub fn lines_of(text: &str) -> (v: Vec<String>)
    ensures
        views(v@) == str_lines(text@),
{
    let s = chars_of(text);
    let n = s.len();
    let mut out: Vec<String> = Vec::new();
    let mut pos: usize = 0;
    while pos < n
        invariant
            n == s@.len(),
            s@ == text@,
            0 <= pos <= n,
            str_lines(s@) == views(out@) + lines_from(s@, pos as int),
        decreases n - pos,
    {
        let (e, t) = line_at(&s, pos);
        let line = string_of_range(&s, pos, t);
        let ghost before = views(out@);
        out.push(line);
        assert(views(out@) =~= before.push(s@.subrange(pos as int, t as int)));
        assert(before + lines_from(s@, pos as int) =~= views(out@) + lines_from(s@, e + 1));
        if e < n {
            pos = e + 1;
        } else {
            pos = n;
        }
    }
    assert(views(out@) + lines_from(s@, n as int) =~= views(out@));
    out
}

} // verus!
