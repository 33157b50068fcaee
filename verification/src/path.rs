//! Unix paths held as strings: the last component, its extension and
//! stem, the parent, and joining, as `std::path` computes them for paths
//! that carry no Windows prefix.
use crate::text::{chars_of, push_char, push_range, push_str, string_of_range};
use vstd::prelude::*;

verus! {

/// The end of `p[..e]` once trailing separators and `.` components are
/// dropped; a lone leading `/` (the root) and a leading `.` stay.
pub open spec fn trim_end(p: Seq<char>, e: int) -> int
    decreases e,
{
    if e <= 0 {
        0
    } else if p[e - 1] == '/' {
        if e == 1 {
            1
        } else {
            trim_end(p, e - 1)
        }
    } else if p[e - 1] == '.' && e >= 2 && p[e - 2] == '/' {
        trim_end(p, e - 1)
    } else {
        e
    }
}

/// The index just after the last `/` in `p[..e]`, or 0.
pub open spec fn after_last_sep(p: Seq<char>, e: int) -> int
    decreases e,
{
    if e <= 0 {
        0
    } else if p[e - 1] == '/' {
        e
    } else {
        after_last_sep(p, e - 1)
    }
}

/// `..`.
pub open spec fn is_dot_dot(c: Seq<char>) -> bool {
    c.len() == 2 && c[0] == '.' && c[1] == '.'
}

/// `Path::file_name`: the last component, unless it is the root, `.` or `..`.
pub open spec fn file_name(p: Seq<char>) -> Option<Seq<char>> {
    let e = trim_end(p, p.len() as int);
    let s = after_last_sep(p, e);
    let c = p.subrange(s, e);
    if c.len() == 0 || c == seq!['.'] || is_dot_dot(c) {
        None
    } else {
        Some(c)
    }
}

/// `Path::parent`: everything before the last component, if there is a
/// last component other than the root.
pub open spec fn parent(p: Seq<char>) -> Option<Seq<char>> {
    let e = trim_end(p, p.len() as int);
    let s = after_last_sep(p, e);
    if e <= s {
        None
    } else {
        Some(p.subrange(0, trim_end(p, s)))
    }
}

/// The index of the last `.` in `n`, or -1.
pub open spec fn last_dot(n: Seq<char>, e: int) -> int
    decreases e,
{
    if e <= 0 {
        -1
    } else if n[e - 1] == '.' {
        e - 1
    } else {
        last_dot(n, e - 1)
    }
}

/// `Path::extension` of a file name: the text after its last `.`, unless
/// there is none or the name starts with its only `.`.
pub open spec fn name_extension(n: Seq<char>) -> Option<Seq<char>> {
    let d = last_dot(n, n.len() as int);
    if d <= 0 {
        None
    } else {
        Some(n.subrange(d + 1, n.len() as int))
    }
}

/// `Path::file_stem` of a file name.
pub open spec fn name_stem(n: Seq<char>) -> Seq<char> {
    let d = last_dot(n, n.len() as int);
    if d <= 0 {
        n
    } else {
        n.subrange(0, d)
    }
}

/// `Path::extension`.
pub open spec fn extension(p: Seq<char>) -> Option<Seq<char>> {
    match file_name(p) {
        Some(n) => name_extension(n),
        None => None,
    }
}

/// `Path::file_stem`.
pub open spec fn file_stem(p: Seq<char>) -> Option<Seq<char>> {
    match file_name(p) {
        Some(n) => Some(name_stem(n)),
        None => None,
    }
}

/// `Path::join`: an absolute `q` replaces `p`; otherwise `q` is appended
/// after a `/` unless `p` is empty or already ends in one.
pub open spec fn join(p: Seq<char>, q: Seq<char>) -> Seq<char> {
    if q.len() > 0 && q[0] == '/' {
        q
    } else if p.len() == 0 || p[p.len() - 1] == '/' {
        p + q
    } else {
        p + seq!['/'] + q
    }
}

proof fn lemma_trim_end_bounds(p: Seq<char>, e: int)
    requires
        0 <= e <= p.len(),
    ensures
        0 <= trim_end(p, e) <= e,
    decreases e,
{
    if e > 0 {
        if p[e - 1] == '/' && e != 1 {
            lemma_trim_end_bounds(p, e - 1);
        } else if p[e - 1] == '.' && e >= 2 && p[e - 2] == '/' {
            lemma_trim_end_bounds(p, e - 1);
        }
    }
}

proof fn lemma_after_last_sep_bounds(p: Seq<char>, e: int)
    requires
        0 <= e <= p.len(),
    ensures
        0 <= after_last_sep(p, e) <= e,
    decreases e,
{
    if e > 0 && p[e - 1] != '/' {
        lemma_after_last_sep_bounds(p, e - 1);
    }
}

proof fn lemma_last_dot_bounds(n: Seq<char>, e: int)
    requires
        0 <= e <= n.len(),
    ensures
        -1 <= last_dot(n, e) < e,
    decreases e,
{
    if e > 0 && n[e - 1] != '.' {
        lemma_last_dot_bounds(n, e - 1);
    }
}

fn trim_end_at(p: &Vec<char>, e: usize) -> (r: usize)
    requires
        e <= p@.len(),
    ensures
        r == trim_end(p@, e as int),
        r <= e,
{
    let mut i = e;
    loop
        invariant
            i <= e <= p@.len(),
            trim_end(p@, e as int) == trim_end(p@, i as int),
        decreases i,
    {
        if i == 0 {
            return 0;
        }
        if p[i - 1] == '/' {
            if i == 1 {
                return 1;
            }
            i = i - 1;
        } else if p[i - 1] == '.' && i >= 2 && p[i - 2] == '/' {
            i = i - 1;
        } else {
            return i;
        }
    }
}

fn after_last_sep_at(p: &Vec<char>, e: usize) -> (r: usize)
    requires
        e <= p@.len(),
    ensures
        r == after_last_sep(p@, e as int),
        r <= e,
{
    let mut i = e;
    while i > 0 && p[i - 1] != '/'
        invariant
            i <= e <= p@.len(),
            after_last_sep(p@, e as int) == after_last_sep(p@, i as int),
        decreases i,
    {
        i = i - 1;
    }
    i
}

fn last_dot_at(n: &Vec<char>, from: usize, e: usize) -> (r: Option<usize>)
    requires
        from <= e <= n@.len(),
    ensures
        ({
            let d = last_dot(n@.subrange(from as int, e as int), (e - from) as int);
            match r {
                Some(i) => from <= i < e && d == i - from,
                None => d == -1,
            }
        }),
{
    let ghost m = n@.subrange(from as int, e as int);
    let mut i = e;
    while i > from
        invariant
            from <= i <= e <= n@.len(),
            m == n@.subrange(from as int, e as int),
            last_dot(m, (e - from) as int) == last_dot(m, (i - from) as int),
        decreases i,
    {
        if n[i - 1] == '.' {
            return Some(i - 1);
        }
        i = i - 1;
    }
    None
}

/// The range of `p`'s last component, if it has a file name.
fn file_name_range(p: &Vec<char>) -> (r: Option<(usize, usize)>)
    ensures
        match r {
            Some((s, e)) => s <= e <= p@.len() && file_name(p@) == Some(p@.subrange(s as int, e as int)),
            None => file_name(p@) is None,
        },
{
    let e = trim_end_at(p, p.len());
    let s = after_last_sep_at(p, e);
    let n = e - s;
    let ghost c = p@.subrange(s as int, e as int);
    if n == 0 || (n == 1 && p[s] == '.') || (n == 2 && p[s] == '.' && p[s + 1] == '.') {
        proof {
            if n == 1 {
                assert(c =~= seq!['.']);
            }
        }
        None
    } else {
        proof {
            assert(c.len() == n);
            if n >= 1 {
                assert(c[0] == p@[s as int]);
            }
            if n >= 2 {
                assert(c[1] == p@[s + 1]);
            }
            if c == seq!['.'] {
                assert(c.len() == 1);
            }
        }
        Some((s, e))
    }
}

/// `Path::file_name`.
pub fn path_file_name(path: &str) -> (r: Option<String>)
    ensures
        match r {
            Some(n) => file_name(path@) == Some(n@),
            None => file_name(path@) is None,
        },
{
    let p = chars_of(path);
    match file_name_range(&p) {
        Some((s, e)) => Some(string_of_range(&p, s, e)),
        None => None,
    }
}

/// `Path::extension`.
pub fn path_extension(path: &str) -> (r: Option<String>)
    ensures
        match r {
            Some(x) => extension(path@) == Some(x@),
            None => extension(path@) is None,
        },
{
    let p = chars_of(path);
    match file_name_range(&p) {
        Some((s, e)) => {
            let ghost n = p@.subrange(s as int, e as int);
            match last_dot_at(&p, s, e) {
                Some(d) => {
                    if d == s {
                        None
                    } else {
                        assert(n.subrange(d - s + 1, n.len() as int) =~= p@.subrange(
                            d + 1,
                            e as int,
                        ));
                        Some(string_of_range(&p, d + 1, e))
                    }
                },
                None => None,
            }
        },
        None => None,
    }
}

/// `Path::file_stem`.
pub fn path_file_stem(path: &str) -> (r: Option<String>)
    ensures
        match r {
            Some(x) => file_stem(path@) == Some(x@),
            None => file_stem(path@) is None,
        },
{
    let p = chars_of(path);
    match file_name_range(&p) {
        Some((s, e)) => {
            let ghost n = p@.subrange(s as int, e as int);
            match last_dot_at(&p, s, e) {
                Some(d) => {
                    if d == s {
                        Some(string_of_range(&p, s, e))
                    } else {
                        assert(n.subrange(0, d - s) =~= p@.subrange(s as int, d as int));
                        Some(string_of_range(&p, s, d))
                    }
                },
                None => Some(string_of_range(&p, s, e)),
            }
        },
        None => None,
    }
}

/// `Path::parent`.
pub fn path_parent(path: &str) -> (r: Option<String>)
    ensures
        match r {
            Some(x) => parent(path@) == Some(x@),
            None => parent(path@) is None,
        },
{
    let p = chars_of(path);
    let e = trim_end_at(&p, p.len());
    let s = after_last_sep_at(&p, e);
    if e <= s {
        None
    } else {
        let k = trim_end_at(&p, s);
        Some(string_of_range(&p, 0, k))
    }
}

/// `Path::join`.
pub fn path_join(base: &str, rest: &str) -> (r: String)
    ensures
        r@ == join(base@, rest@),
{
    let b = chars_of(base);
    let q = chars_of(rest);
    if q.len() > 0 && q[0] == '/' {
        let r = crate::text::string_of(&q);
        return r;
    }
    let mut out = crate::text::string_of(&b);
    if !(b.len() == 0 || b[b.len() - 1] == '/') {
        push_char(&mut out, '/');
    }
    push_str(&mut out, rest);
    proof {
        if b@.len() == 0 || b@[b@.len() - 1] == '/' {
            assert(out@ =~= join(base@, rest@));
        } else {
            assert(out@ =~= join(base@, rest@));
        }
    }
    out
}

} // verus!
