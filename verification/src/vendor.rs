//! The vendored libretro.h and the bindings generated from it: the text
//! the maintenance task checks and writes, and the rewriting of the
//! header's Doxygen comments into rustdoc. Fetching the header, running
//! bindgen and writing files are the application's part.
use crate::config::{
    is_whitespace, lemma_skip_ws_bounds, skip_ws, skip_ws_back,
    trim_indices, trim_range,
};
use crate::text::{
    chars_of, contains_in, contains_range, debug_quoted, debug_str, lines_of, matches_at, push_char,
    push_range, push_str, str_eq, str_lines, string_of_range, views,
};
use vstd::prelude::*;

verus! {

/// `l` with white space trimmed at both ends.
pub open spec fn trim_seq(l: Seq<char>) -> Seq<char> {
    l.subrange(trim_range(l, 0, l.len() as int).0, trim_range(l, 0, l.len() as int).1)
}

/// `l` with trailing white space trimmed.
pub open spec fn trim_end_seq(l: Seq<char>) -> Seq<char> {
    l.subrange(0, skip_ws_back(l, 0, l.len() as int))
}

/// `l` with leading white space trimmed.
pub open spec fn trim_start_seq(l: Seq<char>) -> Seq<char> {
    l.subrange(skip_ws(l, 0, l.len() as int), l.len() as int)
}

/// A `@see` or `@sa` (or backslash form) with nothing else on its line.
pub open spec fn is_bare_see(t: Seq<char>) -> bool {
    t == "@see"@ || t == "@sa"@ || t == "\\see"@ || t == "\\sa"@
}

/// The comment lines `ls` with each bare `@see` line joined to the line
/// after it: the bare line's text (trailing space trimmed), a space, the
/// next line trimmed; every line ends in a newline.
pub open spec fn joined_see(ls: Seq<Seq<char>>) -> Seq<char>
    decreases ls.len(),
{
    if ls.len() == 0 {
        Seq::empty()
    } else if is_bare_see(trim_seq(ls[0])) && ls.len() >= 2 {
        trim_end_seq(ls[0]) + " "@ + trim_seq(ls[1]) + "\n"@ + joined_see(ls.skip(2))
    } else {
        ls[0] + "\n"@ + joined_see(ls.skip(1))
    }
}

/// `s` trimmed at both ends.
fn trim_str(s: &str) -> (t: String)
    ensures
        t@ == trim_seq(s@),
{
    let v = chars_of(s);
    let (a, b) = trim_indices(&v, 0, v.len());
    string_of_range(&v, a, b)
}

/// `s` with trailing white space trimmed.
fn trim_end_str(s: &str) -> (t: String)
    ensures
        t@ == trim_end_seq(s@),
{
    let v = chars_of(s);
    let mut j = v.len();
    while j > 0 && is_whitespace(v[j - 1])
        invariant
            j <= v@.len(),
            skip_ws_back(v@, 0, v@.len() as int) == skip_ws_back(v@, 0, j as int),
        decreases j,
    {
        j = j - 1;
    }
    string_of_range(&v, 0, j)
}

/// `s` with leading white space trimmed.
fn trim_start_str(s: &str) -> (t: String)
    ensures
        t@ == trim_start_seq(s@),
{
    let v = chars_of(s);
    let n = v.len();
    let mut i: usize = 0;
    while i < n && is_whitespace(v[i])
        invariant
            i <= n,
            n == v@.len(),
            skip_ws(v@, 0, n as int) == skip_ws(v@, i as int, n as int),
        decreases n - i,
    {
        i = i + 1;
    }
    string_of_range(&v, i, n)
}

/// A `@see` or `@sa` alone on its line, with the reference on the next
/// one, is joined onto one line so the reference is what gets linked.
pub fn join_dangling_see(comment: &str) -> (out: String)
    ensures
        out@ == joined_see(str_lines(comment@)),
{
    let lines = lines_of(comment);
    let ghost ls = views(lines@);
    let n = lines.len();
    let mut out = String::new();
    let mut i: usize = 0;
    assert(ls.skip(0) =~= ls);
    assert(out@ + joined_see(ls) =~= joined_see(ls));
    while i < n
        invariant
            n == lines@.len(),
            ls == views(lines@),
            ls == str_lines(comment@),
            0 <= i <= n,
            joined_see(ls) == out@ + joined_see(ls.skip(i as int)),
        decreases n - i,
    {
        let trimmed = trim_str(lines[i].as_str());
        let t = trimmed.as_str();
        let bare = str_eq(t, "@see") || str_eq(t, "@sa") || str_eq(t, "\\see") || str_eq(t, "\\sa");
        let ghost rest = ls.skip(i as int);
        assert(rest[0] == lines@[i as int]@);
        if bare && i + 1 < n {
            let first = trim_end_str(lines[i].as_str());
            let second = trim_str(lines[i + 1].as_str());
            let ghost before = out@;
            push_str(&mut out, first.as_str());
            push_char(&mut out, ' ');
            push_str(&mut out, second.as_str());
            push_char(&mut out, '\n');
            assert(rest[1] == lines@[i + 1]@);
            assert(rest.skip(2) =~= ls.skip(i + 2));
            proof {
                reveal_strlit(" ");
                reveal_strlit("\n");
            }
            assert(out@ =~= before + (trim_end_seq(rest[0]) + " "@ + trim_seq(rest[1]) + "\n"@));
            i = i + 2;
        } else {
            let ghost before = out@;
            push_str(&mut out, lines[i].as_str());
            push_char(&mut out, '\n');
            assert(rest.skip(1) =~= ls.skip(i + 1));
            proof {
                reveal_strlit("\n");
            }
            assert(out@ =~= before + (rest[0] + "\n"@));
            i = i + 1;
        }
    }
    assert(ls.skip(n as int) =~= Seq::<Seq<char>>::empty());
    assert(out@ + joined_see(ls.skip(n as int)) =~= out@);
    out
}

/// The first index in `a..b` whose character is not `c`, or `b`.
pub open spec fn skip_char(s: Seq<char>, c: char, a: int, b: int) -> int
    decreases b - a,
{
    if a >= b {
        b
    } else if s[a] == c {
        skip_char(s, c, a + 1, b)
    } else {
        a
    }
}

/// The end of `a..b` once trailing `c`s are dropped.
pub open spec fn skip_char_back(s: Seq<char>, c: char, a: int, b: int) -> int
    decreases b - a,
{
    if b <= a {
        a
    } else if s[b - 1] == c {
        skip_char_back(s, c, a, b - 1)
    } else {
        b
    }
}

proof fn lemma_skip_char_bounds(s: Seq<char>, c: char, a: int, b: int)
    requires
        a <= b,
    ensures
        a <= skip_char(s, c, a, b) <= b,
        a <= skip_char_back(s, c, a, b) <= b,
    decreases b - a,
{
    if a < b {
        lemma_skip_char_bounds(s, c, a + 1, b);
        lemma_skip_char_bounds(s, c, a, b - 1);
    }
}

/// Whether `t` starts with `p`.
pub open spec fn has_prefix(t: Seq<char>, p: Seq<char>) -> bool {
    p.len() <= t.len() && t.subrange(0, p.len() as int) == p
}

/// Whether a (left-trimmed) comment line opens a code block.
pub open spec fn opens_code(t: Seq<char>) -> bool {
    has_prefix(t, "@code"@) || has_prefix(t, "\\code"@)
}

/// Whether a (left-trimmed) comment line closes a code block.
pub open spec fn closes_code(t: Seq<char>) -> bool {
    has_prefix(t, "@endcode"@) || has_prefix(t, "\\endcode"@)
}

/// The language a code-block line names: the text after its five-character
/// marker, trimmed, without leading `{`s, trailing `}`s and then leading
/// `.`s, trimmed again; `text` when that is empty.
pub open spec fn code_lang(t: Seq<char>) -> Seq<char> {
    let (a1, b1) = trim_range(t, 5, t.len() as int);
    let a2 = skip_char(t, '{', a1, b1);
    let b3 = skip_char_back(t, '}', a2, b1);
    let a4 = skip_char(t, '.', a2, b3);
    let (a5, b5) = trim_range(t, a4, b3);
    if a5 >= b5 {
        "text"@
    } else {
        t.subrange(a5, b5)
    }
}

/// A code block is always opened with a language, `text` when the
/// comment names none, so no fence is left bare.
pub proof fn lemma_code_blocks_are_tagged(t: Seq<char>)
    requires
        t.len() >= 5,
    ensures
        code_lang(t).len() > 0,
{
    reveal_strlit("text");
    let n = t.len() as int;
    crate::config::lemma_skip_ws_bounds(t, 5, n);
    let (a1, b1) = trim_range(t, 5, n);
    crate::config::lemma_skip_ws_back_bounds(t, a1, n);
    lemma_skip_char_bounds(t, '{', a1, b1);
    let a2 = skip_char(t, '{', a1, b1);
    lemma_skip_char_bounds(t, '}', a2, b1);
    let b3 = skip_char_back(t, '}', a2, b1);
    lemma_skip_char_bounds(t, '.', a2, b3);
    let a4 = skip_char(t, '.', a2, b3);
    crate::config::lemma_skip_ws_bounds(t, a4, b3);
    let (a5, b5) = trim_range(t, a4, b3);
    crate::config::lemma_skip_ws_back_bounds(t, a5, b3);
}

/// One comment line after fencing.
pub open spec fn fence_line(line: Seq<char>) -> Seq<char> {
    let t = trim_start_seq(line);
    if opens_code(t) {
        "```"@ + code_lang(t) + "\n"@
    } else if closes_code(t) {
        "```\n"@
    } else {
        line + "\n"@
    }
}

/// The comment lines `ls` after fencing, each ending in a newline.
pub open spec fn fenced(ls: Seq<Seq<char>>) -> Seq<char>
    decreases ls.len(),
{
    if ls.len() == 0 {
        Seq::empty()
    } else {
        fence_line(ls[0]) + fenced(ls.skip(1))
    }
}

/// `code_lang` computed.
fn code_language(t: &str) -> (lang: String)
    requires
        t@.len() >= 5,
    ensures
        lang@ == code_lang(t@),
{
    let v = chars_of(t);
    let n = v.len();
    let (a1, b1) = trim_indices(&v, 5, n);
    let mut a2 = a1;
    while a2 < b1 && v[a2] == '{'
        invariant
            a1 <= a2 <= b1 <= n,
            n == v@.len(),
            skip_char(v@, '{', a1 as int, b1 as int) == skip_char(v@, '{', a2 as int, b1 as int),
        decreases b1 - a2,
    {
        a2 = a2 + 1;
    }
    let mut b3 = b1;
    while b3 > a2 && v[b3 - 1] == '}'
        invariant
            a2 <= b3 <= b1 <= n,
            n == v@.len(),
            skip_char_back(v@, '}', a2 as int, b1 as int) == skip_char_back(v@, '}', a2 as int, b3 as int),
        decreases b3 - a2,
    {
        b3 = b3 - 1;
    }
    let mut a4 = a2;
    while a4 < b3 && v[a4] == '.'
        invariant
            a2 <= a4 <= b3 <= n,
            n == v@.len(),
            skip_char(v@, '.', a2 as int, b3 as int) == skip_char(v@, '.', a4 as int, b3 as int),
        decreases b3 - a4,
    {
        a4 = a4 + 1;
    }
    let (a5, b5) = trim_indices(&v, a4, b3);
    if a5 >= b5 {
        "text".to_string()
    } else {
        string_of_range(&v, a5, b5)
    }
}

/// `@code{c}` / `@code{.c}` / `@code` ... `@endcode` (or the backslash
/// forms) become fenced blocks tagged with the language, `text` when none
/// is given, so rustdoc treats them as display, not doctests.
pub fn fence_code_blocks(comment: &str) -> (out: String)
    ensures
        out@ == fenced(str_lines(comment@)),
{
    let lines = lines_of(comment);
    let ghost ls = views(lines@);
    let n = lines.len();
    let at_code = chars_of("@code");
    let bs_code = chars_of("\\code");
    let at_end = chars_of("@endcode");
    let bs_end = chars_of("\\endcode");
    let mut out = String::new();
    let mut i: usize = 0;
    assert(ls.skip(0) =~= ls);
    assert(out@ + fenced(ls) =~= fenced(ls));
    while i < n
        invariant
            n == lines@.len(),
            ls == views(lines@),
            ls == str_lines(comment@),
            at_code@ == "@code"@,
            bs_code@ == "\\code"@,
            at_end@ == "@endcode"@,
            bs_end@ == "\\endcode"@,
            0 <= i <= n,
            fenced(ls) == out@ + fenced(ls.skip(i as int)),
        decreases n - i,
    {
        let ghost rest = ls.skip(i as int);
        assert(rest[0] == lines@[i as int]@);
        assert(rest.skip(1) =~= ls.skip(i + 1));
        let trimmed = trim_start_str(lines[i].as_str());
        let t = chars_of(trimmed.as_str());
        let tn = t.len();
        let ghost before = out@;
        proof {
            assert(t@.subrange(0, tn as int) =~= t@);
        }
        let is_code = (matches_at(&t, 0, &at_code)) || (matches_at(&t, 0, &bs_code));
        let is_end = (matches_at(&t, 0, &at_end)) || (matches_at(&t, 0, &bs_end));
        proof {
            reveal_strlit("@code");
            reveal_strlit("\\code");
        }
        if is_code {
            let lang = code_language(trimmed.as_str());
            push_str(&mut out, "```");
            push_str(&mut out, lang.as_str());
            push_str(&mut out, "\n");
            assert(out@ =~= before + fence_line(rest[0]));
        } else if is_end {
            push_str(&mut out, "```\n");
            assert(out@ =~= before + fence_line(rest[0]));
        } else {
            push_str(&mut out, lines[i].as_str());
            push_str(&mut out, "\n");
            assert(out@ =~= before + fence_line(rest[0]));
        }
        i = i + 1;
    }
    assert(ls.skip(n as int) =~= Seq::<Seq<char>>::empty());
    assert(out@ + fenced(ls.skip(n as int)) =~= out@);
    out
}

/// The first index from `i` at which `p` occurs in `t`, or `t.len()`.
pub open spec fn find_pat(t: Seq<char>, p: Seq<char>, i: int) -> int
    decreases t.len() + 1 - i,
{
    if i < 0 || i + p.len() > t.len() {
        t.len() as int
    } else if t.subrange(i, i + p.len()) == p {
        i
    } else {
        find_pat(t, p, i + 1)
    }
}

pub proof fn lemma_find_pat_bounds(t: Seq<char>, p: Seq<char>, i: int)
    requires
        0 <= i,
        p.len() > 0,
    ensures
        find_pat(t, p, i) == t.len() || (i <= find_pat(t, p, i) && find_pat(t, p, i) + p.len()
            <= t.len()),
    decreases t.len() + 1 - i,
{
    if !(i + p.len() > t.len()) && t.subrange(i, i + p.len()) != p {
        lemma_find_pat_bounds(t, p, i + 1);
    }
}

/// `find_pat` computed.
fn find_in(v: &Vec<char>, p: &Vec<char>, i: usize) -> (r: usize)
    requires
        i <= v@.len(),
        p@.len() > 0,
    ensures
        r == find_pat(v@, p@, i as int),
{
    let n = v.len();
    let mut k = i;
    while k < n
        invariant
            i <= k <= n,
            n == v@.len(),
            p@.len() > 0,
            find_pat(v@, p@, i as int) == find_pat(v@, p@, k as int),
        decreases n - k,
    {
        if matches_at(v, k, p) {
            return k;
        }
        if p.len() > n - k {
            return n;
        }
        k = k + 1;
    }
    n
}

/// A mark that ends a sentence or clause.
pub open spec fn is_punct(c: char) -> bool {
    c == '.' || c == ',' || c == ';' || c == ':'
}

/// The end of `a..b` once trailing punctuation marks are dropped.
pub open spec fn skip_punct_back(t: Seq<char>, a: int, b: int) -> int
    decreases b - a,
{
    if b <= a {
        a
    } else if is_punct(t[b - 1]) {
        skip_punct_back(t, a, b - 1)
    } else {
        b
    }
}

pub proof fn lemma_skip_punct_back_bounds(t: Seq<char>, a: int, b: int)
    requires
        a <= b,
    ensures
        a <= skip_punct_back(t, a, b) <= b,
    decreases b - a,
{
    if b > a && is_punct(t[b - 1]) {
        lemma_skip_punct_back_bounds(t, a, b - 1);
    }
}

/// `t` from `pos` on with each link's trailing punctuation moved out of
/// it: `` [`NAME.`] `` becomes `` [`NAME`]. ``; an opening `` [` `` without
/// its close is kept as it is.
pub open spec fn moved_from(t: Seq<char>, pos: int) -> Seq<char>
    decreases t.len() - pos,
{
    if pos < 0 || pos > t.len() {
        Seq::empty()
    } else {
        let s = find_pat(t, "[`"@, pos);
        if s >= t.len() {
            t.subrange(pos, t.len() as int)
        } else {
            proof {
                reveal_strlit("[`");
                lemma_find_pat_bounds(t, "[`"@, pos);
            }
            let a = s + 2;
            let e = find_pat(t, "`]"@, a);
            if e >= t.len() {
                t.subrange(pos, s) + "[`"@ + moved_from(t, a)
            } else {
                proof {
                    reveal_strlit("`]");
                    lemma_find_pat_bounds(t, "`]"@, a);
                }
                let k = skip_punct_back(t, a, e);
                t.subrange(pos, s) + "[`"@ + t.subrange(a, k) + "`]"@ + t.subrange(k, e)
                    + moved_from(t, e + 2)
            }
        }
    }
}

/// doxygen-bindgen takes the word after `@see` or `\ref` up to the next
/// space, so a sentence-ending mark rides along inside the link:
/// `` [`NAME.`] `` becomes `` [`NAME`]. ``.
pub fn move_punctuation_out_of_links(text: &str) -> (out: String)
    ensures
        out@ == moved_from(text@, 0),
{
    let v = chars_of(text);
    let n = v.len();
    let open = chars_of("[`");
    let close = chars_of("`]");
    proof {
        reveal_strlit("[`");
        reveal_strlit("`]");
    }
    let mut out = String::new();
    let mut pos: usize = 0;
    assert(out@ + moved_from(v@, 0) =~= moved_from(v@, 0));
    loop
        invariant
            n == v@.len(),
            v@ == text@,
            open@ == "[`"@,
            close@ == "`]"@,
            open@.len() == 2,
            close@.len() == 2,
            0 <= pos <= n,
            moved_from(v@, 0) == out@ + moved_from(v@, pos as int),
        decreases n - pos,
    {
        let s = find_in(&v, &open, pos);
        proof {
            lemma_find_pat_bounds(v@, open@, pos as int);
        }
        let ghost before = out@;
        if s >= n {
            push_range(&mut out, &v, pos, n);
            assert(out@ =~= before + moved_from(v@, pos as int));
            assert(moved_from(v@, 0) =~= out@);
            return out;
        }
        let a = s + 2;
        let e = find_in(&v, &close, a);
        proof {
            lemma_find_pat_bounds(v@, close@, a as int);
        }
        push_range(&mut out, &v, pos, s);
        push_str(&mut out, "[`");
        if e >= n {
            assert(out@ =~= before + (v@.subrange(pos as int, s as int) + "[`"@));
            pos = a;
        } else {
            let mut k = e;
            while k > a && (v[k - 1] == '.' || v[k - 1] == ',' || v[k - 1] == ';' || v[k - 1] == ':')
                invariant
                    a <= k <= e < n,
                    n == v@.len(),
                    skip_punct_back(v@, a as int, e as int) == skip_punct_back(v@, a as int, k as int),
                decreases k - a,
            {
                k = k - 1;
            }
            push_range(&mut out, &v, a, k);
            push_str(&mut out, "`]");
            push_range(&mut out, &v, k, e);
            assert(out@ =~= before + (v@.subrange(pos as int, s as int) + "[`"@ + v@.subrange(
                a as int,
                k as int,
            ) + "`]"@ + v@.subrange(k as int, e as int)));
            pos = e + 2;
        }
    }
}

/// The lines up to and including the first that holds `*/` (all of them
/// when none does), each ending in a newline.
pub open spec fn upto_close(ls: Seq<Seq<char>>) -> Seq<char>
    decreases ls.len(),
{
    if ls.len() == 0 {
        Seq::empty()
    } else if contains_in(ls[0], 0, ls[0].len() as int, "*/"@) {
        ls[0] + "\n"@
    } else {
        ls[0] + "\n"@ + upto_close(ls.skip(1))
    }
}

/// `s` with the first occurrence of `from` replaced by `to`.
pub open spec fn replace_first(s: Seq<char>, from: Seq<char>, to: Seq<char>) -> Seq<char> {
    let k = find_pat(s, from, 0);
    if k >= s.len() {
        s
    } else {
        s.subrange(0, k) + to + s.subrange(k + from.len(), s.len() as int)
    }
}

/// The header's leading block comment, verbatim, demoted from a doc
/// comment (`/*!`) to a plain one so rustdoc leaves it alone.
pub fn leading_comment(header: &str) -> (out: String)
    ensures
        out@ == replace_first(upto_close(str_lines(header@)), "/*!"@, "/*"@),
{
    let lines = lines_of(header);
    let ghost ls = views(lines@);
    let n = lines.len();
    let close = chars_of("*/");
    let mut text = String::new();
    let mut i: usize = 0;
    assert(ls.skip(0) =~= ls);
    assert(text@ + upto_close(ls) =~= upto_close(ls));
    while i < n
        invariant
            n == lines@.len(),
            ls == views(lines@),
            ls == str_lines(header@),
            close@ == "*/"@,
            0 <= i <= n,
            upto_close(ls) == text@ + upto_close(ls.skip(i as int)),
        decreases n - i,
    {
        let ghost rest = ls.skip(i as int);
        assert(rest[0] == lines@[i as int]@);
        assert(rest.skip(1) =~= ls.skip(i + 1));
        let ghost before = text@;
        push_str(&mut text, lines[i].as_str());
        push_str(&mut text, "\n");
        let l = chars_of(lines[i].as_str());
        if contains_range(&l, 0, l.len(), &close) {
            assert(text@ =~= before + upto_close(rest));
            assert(upto_close(ls) =~= text@);
            proof {
                reveal_strlit("/*!");
            }
            return replace_first_of(text, "/*!", "/*");
        }
        assert(text@ =~= before + (rest[0] + "\n"@));
        i = i + 1;
    }
    assert(ls.skip(n as int) =~= Seq::<Seq<char>>::empty());
    assert(upto_close(ls) =~= text@);
    proof {
        reveal_strlit("/*!");
    }
    replace_first_of(text, "/*!", "/*")
}

/// `s` with the first `from` replaced by `to` (`str::replacen` once).
fn replace_first_of(s: String, from: &str, to: &str) -> (r: String)
    requires
        from@.len() > 0,
    ensures
        r@ == replace_first(s@, from@, to@),
{
    let v = chars_of(s.as_str());
    let f = chars_of(from);
    let k = find_in(&v, &f, 0);
    proof {
        lemma_find_pat_bounds(v@, f@, 0);
    }
    if k >= v.len() {
        return s;
    }
    let mut r = string_of_range(&v, 0, k);
    push_str(&mut r, to);
    push_range(&mut r, &v, k + f.len(), v.len());
    r
}

/// An ASCII hexadecimal digit.
pub open spec fn is_hex(c: char) -> bool {
    ('0' <= c && c <= '9') || ('a' <= c && c <= 'f') || ('A' <= c && c <= 'F')
}

/// A full commit hash: forty hexadecimal digits.
pub open spec fn is_commit_hash(commit: Seq<char>) -> bool {
    commit.len() == 40 && forall|i: int| 0 <= i < 40 ==> #[trigger] is_hex(commit[i])
}

/// The refusal of anything but a full commit hash.
pub open spec fn bad_commit_message(commit: Seq<char>) -> Seq<char> {
    "expected a full 40-hex-digit RetroArch commit hash, got "@ + debug_quoted(commit)
}

/// Accept only a full 40-hex-digit RetroArch commit hash.
pub fn check_commit(commit: &str) -> (r: Result<(), String>)
    ensures
        r is Ok <==> is_commit_hash(commit@),
        r matches Err(e) ==> e@ == bad_commit_message(commit@),
{
    let v = chars_of(commit);
    let mut ok = v.len() == 40;
    if ok {
        let mut i: usize = 0;
        while i < 40
            invariant
                v@.len() == 40,
                0 <= i <= 40,
                ok == (forall|j: int| 0 <= j < i ==> #[trigger] is_hex(v@[j])),
            decreases 40 - i,
        {
            let c = v[i];
            let hex = ('0' <= c && c <= '9') || ('a' <= c && c <= 'f') || ('A' <= c && c <= 'F');
            assert(hex == is_hex(v@[i as int]));
            if !hex {
                ok = false;
            }
            i = i + 1;
        }
    }
    if ok {
        Ok(())
    } else {
        let mut e = String::new();
        push_str(&mut e, "expected a full 40-hex-digit RetroArch commit hash, got ");
        let q = debug_str(commit);
        push_str(&mut e, q.as_str());
        Err(e)
    }
}

/// The header's page on GitHub at `commit`.
pub open spec fn spec_header_url(commit: Seq<char>) -> Seq<char> {
    "https://github.com/libretro/RetroArch/blob/"@ + commit + "/libretro-common/include/libretro.h"@
}

/// The header's page on GitHub at `commit`.
pub fn header_url(commit: &str) -> (u: String)
    ensures
        u@ == spec_header_url(commit@),
{
    let mut u = String::new();
    push_str(&mut u, "https://github.com/libretro/RetroArch/blob/");
    push_str(&mut u, commit);
    push_str(&mut u, "/libretro-common/include/libretro.h");
    u
}

/// The vendored directory's README for the header at `commit`.
pub open spec fn spec_readme(commit: Seq<char>) -> Seq<char> {
    "# libretro.h\n\n`libretro.h` is the libretro API header, copied verbatim from RetroArch at\ncommit [`"@
        + commit.subrange(0, 12) + "`]("@ + spec_header_url(commit)
        + ")\n(`libretro-common/include/libretro.h`; the full hash is in `COMMIT`). Its license is in the\ncomment at the top of the file and applies to that file only.\n\n`src/hosted/libretro/sys.rs` is generated from it. `cargo xtask libretro update` vendors the\nheader at the newest commit that changed it and regenerates; `cargo xtask\nlibretro regen` regenerates from what is here. This file is written by\n`update`.\n"@
}

/// The vendored directory's README for the header at `commit`, which
/// names the commit by its first twelve digits and links the header. The
/// commit is a checked hash, so its first twelve bytes are its first
/// twelve characters.
pub fn readme(commit: &str) -> (r: String)
    requires
        commit@.len() >= 12,
        forall|i: int| 0 <= i < 12 ==> (#[trigger] commit@[i] as u32) < 128,
    ensures
        r@ == spec_readme(commit@),
{
    let v = chars_of(commit);
    let mut r = String::new();
    push_str(
        &mut r,
        "# libretro.h\n\n`libretro.h` is the libretro API header, copied verbatim from RetroArch at\ncommit [`",
    );
    push_range(&mut r, &v, 0, 12);
    push_str(&mut r, "`](");
    let u = header_url(commit);
    push_str(&mut r, u.as_str());
    push_str(
        &mut r,
        ")\n(`libretro-common/include/libretro.h`; the full hash is in `COMMIT`). Its license is in the\ncomment at the top of the file and applies to that file only.\n\n`src/hosted/libretro/sys.rs` is generated from it. `cargo xtask libretro update` vendors the\nheader at the newest commit that changed it and regenerates; `cargo xtask\nlibretro regen` regenerates from what is here. This file is written by\n`update`.\n",
    );
    r
}

/// The lowercase hexadecimal digit for `d`, which is below sixteen.
pub open spec fn hex_digit(d: nat) -> char {
    if d < 10 {
        ((d + 48) as u32) as char
    } else {
        ((d + 87) as u32) as char
    }
}

/// A byte of 16 or more as `{:#x}` prints it: `0x` and two lowercase digits.
pub open spec fn hex_byte(b: u8) -> Seq<char> {
    "0x"@ + seq![hex_digit((b / 16) as nat), hex_digit((b % 16) as nat)]
}

/// The index of the first byte from `i` that is not ASCII, or `t.len()`.
pub open spec fn first_non_ascii(t: Seq<u8>, i: int) -> int
    decreases t.len() - i,
{
    if i >= t.len() {
        t.len() as int
    } else if t[i] >= 128 {
        i
    } else {
        first_non_ascii(t, i + 1)
    }
}

/// `hex_digit` computed.
fn hex_char(d: u8) -> (c: char)
    requires
        d < 16,
    ensures
        c == hex_digit(d as nat),
{
    if d < 10 {
        (d + 48) as char
    } else {
        (d + 87) as char
    }
}

/// The first non-ASCII byte of `t`, if any.
fn find_non_ascii(t: &[u8]) -> (r: Option<u8>)
    ensures
        match r {
            Some(b) => first_non_ascii(t@, 0) < t@.len() && b == t@[first_non_ascii(t@, 0)] && b
                >= 128,
            None => first_non_ascii(t@, 0) == t@.len(),
        },
{
    let mut i: usize = 0;
    while i < t.len()
        invariant
            0 <= i <= t@.len(),
            first_non_ascii(t@, 0) == first_non_ascii(t@, i as int),
        decreases t@.len() - i,
    {
        if t[i] >= 128 {
            return Some(t[i]);
        }
        i = i + 1;
    }
    None
}

/// Appends `b` as `{:#x}` prints it.
fn push_hex_byte(s: &mut String, b: u8)
    requires
        b >= 128,
    ensures
        final(s)@ == old(s)@ + hex_byte(b),
{
    push_str(s, "0x");
    push_char(s, hex_char(b / 16));
    push_char(s, hex_char(b % 16));
    assert(final(s)@ =~= old(s)@ + hex_byte(b));
}

/// The refusal of a downloaded header holding a non-ASCII byte.
pub open spec fn non_ascii_header_message(commit: Seq<char>, b: u8) -> Seq<char> {
    "libretro.h at "@ + commit + " contains a non-ASCII byte "@ + hex_byte(b)
        + "; the tree is ASCII-only"@
}

/// A downloaded header must be ASCII, as the whole tree is; the first
/// byte that is not is named.
pub fn check_header(commit: &str, header: &[u8]) -> (r: Result<(), String>)
    ensures
        match r {
            Ok(()) => first_non_ascii(header@, 0) == header@.len(),
            Err(e) => first_non_ascii(header@, 0) < header@.len() && e@ == non_ascii_header_message(
                commit@,
                header@[first_non_ascii(header@, 0)],
            ),
        },
{
    match find_non_ascii(header) {
        None => Ok(()),
        Some(b) => {
            let mut e = String::new();
            push_str(&mut e, "libretro.h at ");
            push_str(&mut e, commit);
            push_str(&mut e, " contains a non-ASCII byte ");
            push_hex_byte(&mut e, b);
            push_str(&mut e, "; the tree is ASCII-only");
            Err(e)
        },
    }
}

/// The refusal of generated bindings holding a non-ASCII byte.
pub open spec fn non_ascii_bindings_message(b: u8) -> Seq<char> {
    "generated bindings contain a non-ASCII byte "@ + hex_byte(b)
}

/// Generated bindings must be ASCII; the first byte that is not is named.
pub fn check_bindings(text: &[u8]) -> (r: Result<(), String>)
    ensures
        match r {
            Ok(()) => first_non_ascii(text@, 0) == text@.len(),
            Err(e) => first_non_ascii(text@, 0) < text@.len() && e@ == non_ascii_bindings_message(
                text@[first_non_ascii(text@, 0)],
            ),
        },
{
    match find_non_ascii(text) {
        None => Ok(()),
        Some(b) => {
            let mut e = String::new();
            push_str(&mut e, "generated bindings contain a non-ASCII byte ");
            push_hex_byte(&mut e, b);
            Err(e)
        },
    }
}

/// The start of the generated bindings file: where it came from, the
/// header's leading comment, and the lints the generated code needs.
pub open spec fn spec_bindings_head(commit: Seq<char>, header: Seq<char>) -> Seq<char> {
    "//! libretro's types and constants, generated from\n//! `third_party/libretro/libretro.h` by `cargo xtask libretro regen`.\n//! The header is RetroArch's `libretro-common/include/libretro.h` at commit\n//! "@
        + commit + ":\n//! <"@ + spec_header_url(commit)
        + ">\n//! Do not edit; `cargo xtask libretro update` replaces the header and this\n//! file together. The header's leading comment, with its license, follows\n//! verbatim.\n"@
        + replace_first(upto_close(str_lines(header)), "/*!"@, "/*"@)
        + "#![allow(\n    non_camel_case_types,\n    non_snake_case,\n    non_upper_case_globals,\n    dead_code,\n    clippy::all\n)]\n\n"@
}

/// The start of the generated bindings file for the header `header` at
/// `commit`; the bindings follow it.
pub fn bindings_head(commit: &str, header: &str) -> (s: String)
    ensures
        s@ == spec_bindings_head(commit@, header@),
{
    let mut s = String::new();
    push_str(
        &mut s,
        "//! libretro's types and constants, generated from\n//! `third_party/libretro/libretro.h` by `cargo xtask libretro regen`.\n//! The header is RetroArch's `libretro-common/include/libretro.h` at commit\n//! ",
    );
    push_str(&mut s, commit);
    push_str(&mut s, ":\n//! <");
    let u = header_url(commit);
    push_str(&mut s, u.as_str());
    push_str(
        &mut s,
        ">\n//! Do not edit; `cargo xtask libretro update` replaces the header and this\n//! file together. The header's leading comment, with its license, follows\n//! verbatim.\n",
    );
    let lead = leading_comment(header);
    push_str(&mut s, lead.as_str());
    push_str(
        &mut s,
        "#![allow(\n    non_camel_case_types,\n    non_snake_case,\n    non_upper_case_globals,\n    dead_code,\n    clippy::all\n)]\n\n",
    );
    s
}

/// What doxygen-bindgen's `transform` makes of a comment, or `None` when
/// it refuses it.
pub uninterp spec fn doxygen_transformed(comment: Seq<char>) -> Option<Seq<char>>;

/// `doxygen_bindgen::transform`, its error dropped. The contract claims
/// only that the answer is a function of the comment.
#[verifier::external_body]
fn doxygen_transform(comment: &str) -> (r: Option<String>)
    ensures
        match r {
            Some(t) => doxygen_transformed(comment@) == Some(t@),
            None => doxygen_transformed(comment@) is None,
        },
{
    doxygen_bindgen::transform(comment).ok()
}

/// The rustdoc for a prepared comment given what doxygen-bindgen made of
/// it: its rewrite with the punctuation it pulls into links moved out, or
/// the prepared comment itself when it was refused.
pub fn rustdoc_from(prepared: String, transformed: Option<String>) -> (doc: String)
    ensures
        doc@ == match transformed {
            Some(t) => moved_from(t@, 0),
            None => prepared@,
        },
{
    match transformed {
        Some(rustdoc) => move_punctuation_out_of_links(rustdoc.as_str()),
        None => prepared,
    }
}

/// A header comment as rustdoc: `@code` blocks fenced and dangling
/// `@see`s joined, then doxygen-bindgen's rewrite with the punctuation it
/// pulls into links moved out; a comment doxygen-bindgen refuses is kept
/// as prepared (still fenced, so never a doctest).
pub fn process_comment(comment: &str) -> (doc: String)
    ensures
        ({
            let prepared = joined_see(str_lines(fenced(str_lines(comment@))));
            doc@ == match doxygen_transformed(prepared) {
                Some(t) => moved_from(t, 0),
                None => prepared,
            }
        }),
{
    let fenced_text = fence_code_blocks(comment);
    let prepared = join_dangling_see(fenced_text.as_str());
    let transformed = doxygen_transform(prepared.as_str());
    rustdoc_from(prepared, transformed)
}

/// The maintenance task's subcommands for the vendored header.
#[derive(Debug, Clone, PartialEq, Eq)]
pub enum Command {
    /// Vendor the header at the newest RetroArch commit that changed it
    /// (or at `commit`), then regenerate the bindings.
    Update { commit: Option<String> },
    /// Regenerate the bindings from the vendored header.
    Regen,
}

} // verus!
