//! Whether a RetroArch.app is signed so that `gpucapture` can attach to it.
//!
//! `gpucapture` only captures a debuggable process, which on macOS means
//! one whose binary carries the `com.apple.security.get-task-allow`
//! entitlement.
use crate::config::{skip_ws, skip_ws_back, trim_indices, trim_range};
use crate::text::{
    chars_of, has_char, line_at, line_end, line_text_end, range_eq, range_starts_with,
};
use vstd::prelude::*;

verus! {

/// The entitlement `gpucapture` requires of a process it attaches to.
pub const ENTITLEMENT: &'static str = "com.apple.security.get-task-allow";

/// The trimmed text of the line of `s` starting at `pos`.
pub open spec fn trimmed_line(s: Seq<char>, pos: int) -> Seq<char> {
    let (a, b) = trim_range(s, pos, line_text_end(s, pos));
    s.subrange(a, b)
}

/// The line that names the entitlement in a `codesign` dump.
pub open spec fn key_line() -> Seq<char> {
    "[Key] com.apple.security.get-task-allow"@
}

/// Whether some line from `pos` on is the key line, and the first line
/// after it that starts with `[Bool]` says `true`.
pub open spec fn key_then_true(s: Seq<char>, pos: int) -> bool
    decreases s.len() + 1 - pos,
{
    if pos < 0 || pos >= s.len() {
        false
    } else {
        proof {
            crate::text::lemma_line_end_bounds(s, pos);
        }
        if trimmed_line(s, pos) == key_line() {
            first_bool_true(s, line_end(s, pos) + 1)
        } else {
            key_then_true(s, line_end(s, pos) + 1)
        }
    }
}

/// Whether the first line from `pos` on that starts with `[Bool]` is
/// exactly `[Bool] true`; false when there is none.
pub open spec fn first_bool_true(s: Seq<char>, pos: int) -> bool
    decreases s.len() + 1 - pos,
{
    if pos < 0 || pos >= s.len() {
        false
    } else {
        proof {
            crate::text::lemma_line_end_bounds(s, pos);
        }
        let l = trimmed_line(s, pos);
        if l.len() >= 6 && l.subrange(0, 6) == "[Bool]"@ {
            l == "[Bool] true"@
        } else {
            first_bool_true(s, line_end(s, pos) + 1)
        }
    }
}

/// Whether a `codesign -d --entitlements -` dump grants [`ENTITLEMENT`]:
/// the key is present and the value that follows it is `true`.
pub fn has_get_task_allow(dump: &str) -> (b: bool)
    ensures
        b == key_then_true(dump@, 0),
{
    let s = chars_of(dump);
    let key = chars_of("[Key] com.apple.security.get-task-allow");
    let bool_tag = chars_of("[Bool]");
    let yes = chars_of("[Bool] true");
    proof {
        reveal_strlit("[Bool]");
    }
    let n = s.len();
    let mut pos: usize = 0;
    let mut after_key = false;
    while pos < n
        invariant
            n == s@.len(),
            s@ == dump@,
            key@ == key_line(),
            bool_tag@ == "[Bool]"@,
            bool_tag@.len() == 6,
            yes@ == "[Bool] true"@,
            0 <= pos <= n,
            key_then_true(s@, 0) == if after_key {
                first_bool_true(s@, pos as int)
            } else {
                key_then_true(s@, pos as int)
            },
        decreases n - pos,
    {
        let (e, t) = line_at(&s, pos);
        let (a, b) = trim_indices(&s, pos, t);
        assert(trimmed_line(s@, pos as int) == s@.subrange(a as int, b as int));
        assert(key_then_true(s@, pos as int) == if trimmed_line(s@, pos as int) == key_line() {
            first_bool_true(s@, e + 1)
        } else {
            key_then_true(s@, e + 1)
        });
        assert(first_bool_true(s@, pos as int) == {
            let l = trimmed_line(s@, pos as int);
            if l.len() >= 6 && l.subrange(0, 6) == "[Bool]"@ {
                l == "[Bool] true"@
            } else {
                first_bool_true(s@, e + 1)
            }
        });
        assert(b - a >= 6 ==> s@.subrange(a as int, b as int).subrange(0, 6) =~= s@.subrange(
            a as int,
            a + 6,
        ));
        if after_key {
            if range_starts_with(&s, a, b, &bool_tag) {
                return range_eq(&s, a, b, &yes);
            }
        } else if range_eq(&s, a, b, &key) {
            after_key = true;
        }
        if e < n {
            pos = e + 1;
        } else {
            pos = n;
        }
    }
    false
}

/// Skipping white space looks only at the characters in range: two texts
/// that agree on `a..b`, the second shifted by `d`, skip alike.
proof fn lemma_skip_ws_window(s1: Seq<char>, s2: Seq<char>, d: int, a: int, b: int)
    requires
        a <= b,
        forall|i: int| a <= i < b ==> s1[i + d] == s2[i],
    ensures
        skip_ws(s1, a + d, b + d) == skip_ws(s2, a, b) + d,
        skip_ws_back(s1, a + d, b + d) == skip_ws_back(s2, a, b) + d,
    decreases b - a,
{
    if a < b {
        assert(s1[a + d] == s2[a]);
        assert(s1[b - 1 + d] == s2[b - 1]);
        lemma_skip_ws_window(s1, s2, d, a + 1, b);
        lemma_skip_ws_window(s1, s2, d, a, b - 1);
        assert(a + 1 + d == (a + d) + 1);
        assert(b - 1 + d == (b + d) - 1);
    }
}

/// A line of `t` ends at the same place when text is put before `t`.
proof fn lemma_line_end_shift(p: Seq<char>, t: Seq<char>, k: int)
    requires
        0 <= k <= t.len(),
    ensures
        line_end(p + t, p.len() + k) == p.len() + line_end(t, k),
    decreases t.len() - k,
{
    if k < t.len() {
        assert((p + t)[p.len() + k] == t[k]);
        if t[k] != '\n' {
            lemma_line_end_shift(p, t, k + 1);
            assert(p.len() + k + 1 == p.len() + (k + 1));
        }
    }
}

/// The line of `s` from `pos` ends at the first newline `e` after it.
proof fn lemma_line_end_at(s: Seq<char>, pos: int, e: int)
    requires
        0 <= pos <= e < s.len(),
        s[e] == '\n',
        forall|j: int| pos <= j < e ==> s[j] != '\n',
    ensures
        line_end(s, pos) == e,
    decreases e - pos,
{
    if pos < e {
        lemma_line_end_at(s, pos + 1, e);
    }
}

/// A line of `t` reads the same when text is put before `t`.
proof fn lemma_trimmed_line_shift(p: Seq<char>, t: Seq<char>, k: int)
    requires
        0 <= k < t.len(),
    ensures
        trimmed_line(p + t, p.len() + k) == trimmed_line(t, k),
{
    let s = p + t;
    let d = p.len() as int;
    lemma_line_end_shift(p, t, k);
    crate::text::lemma_line_end_bounds(t, k);
    let e = line_end(t, k);
    if e < t.len() && e > k {
        assert(s[d + e - 1] == t[e - 1]);
    }
    let te = line_text_end(t, k);
    assert(line_text_end(s, d + k) == d + te);
    assert forall|i: int| k <= i < te implies s[i + d] == t[i] by {}
    lemma_skip_ws_window(s, t, d, k, te);
    let a = skip_ws(t, k, te);
    crate::config::lemma_skip_ws_bounds(t, k, te);
    assert forall|i: int| a <= i < te implies s[i + d] == t[i] by {}
    lemma_skip_ws_window(s, t, d, a, te);
    let b = skip_ws_back(t, a, te);
    crate::config::lemma_skip_ws_back_bounds(t, a, te);
    assert(s.subrange(a + d, b + d) =~= t.subrange(a, b));
}

/// Whether the first `[Bool]` line is `true` reads the same when text is
/// put before it.
proof fn lemma_first_bool_true_shift(p: Seq<char>, t: Seq<char>, k: int)
    requires
        0 <= k,
    ensures
        first_bool_true(p + t, p.len() + k) == first_bool_true(t, k),
    decreases t.len() + 1 - k,
{
    if k < t.len() {
        lemma_trimmed_line_shift(p, t, k);
        lemma_line_end_shift(p, t, k);
        crate::text::lemma_line_end_bounds(t, k);
        lemma_first_bool_true_shift(p, t, line_end(t, k) + 1);
        assert(p.len() + line_end(t, k) + 1 == p.len() + (line_end(t, k) + 1));
    }
}

/// Whether the key line is followed by `[Bool] true` reads the same when
/// text is put before it.
proof fn lemma_key_then_true_shift(p: Seq<char>, t: Seq<char>, k: int)
    requires
        0 <= k,
    ensures
        key_then_true(p + t, p.len() + k) == key_then_true(t, k),
    decreases t.len() + 1 - k,
{
    if k < t.len() {
        lemma_trimmed_line_shift(p, t, k);
        lemma_line_end_shift(p, t, k);
        crate::text::lemma_line_end_bounds(t, k);
        lemma_first_bool_true_shift(p, t, line_end(t, k) + 1);
        lemma_key_then_true_shift(p, t, line_end(t, k) + 1);
        assert(p.len() + line_end(t, k) + 1 == p.len() + (line_end(t, k) + 1));
    }
}

/// A line other than the entitlement's key does not decide the answer:
/// the dump with `line` put first grants the entitlement exactly when
/// the dump without it does, whatever keys that line names.
pub proof fn lemma_other_line_does_not_decide(line: Seq<char>, rest: Seq<char>)
    requires
        !has_char(line, '\n'),
        trimmed_line(line + "\n"@, 0) != key_line(),
    ensures
        key_then_true(line + "\n"@ + rest, 0) == key_then_true(rest, 0),
{
    reveal_strlit("\n");
    let p = line + "\n"@;
    let s = p + rest;
    let e = line.len() as int;
    assert(p[e] == '\n' && s[e] == '\n');
    assert forall|j: int| 0 <= j < e implies p[j] != '\n' && s[j] != '\n' by {
        assert(p[j] == line[j] && s[j] == line[j]);
    }
    lemma_line_end_at(p, 0, e);
    lemma_line_end_at(s, 0, e);
    if e > 0 {
        assert(s[e - 1] == p[e - 1]);
    }
    let te = line_text_end(p, 0);
    assert(line_text_end(s, 0) == te);
    assert forall|i: int| 0 <= i < te implies s[i + 0] == p[i] by {}
    lemma_skip_ws_window(s, p, 0, 0, te);
    let a = skip_ws(p, 0, te);
    crate::config::lemma_skip_ws_bounds(p, 0, te);
    assert forall|i: int| a <= i < te implies s[i + 0] == p[i] by {}
    lemma_skip_ws_window(s, p, 0, a, te);
    crate::config::lemma_skip_ws_back_bounds(p, a, te);
    assert(s.subrange(a, skip_ws_back(s, a, te)) =~= p.subrange(a, skip_ws_back(p, a, te)));
    assert(trimmed_line(s, 0) == trimmed_line(p, 0));
    lemma_key_then_true_shift(p, rest, 0);
}

/// The text of `lines`, each ended by a newline.
pub open spec fn lines_text(lines: Seq<Seq<char>>) -> Seq<char>
    decreases lines.len(),
{
    if lines.len() == 0 {
        Seq::empty()
    } else {
        lines[0] + "\n"@ + lines_text(lines.drop_first())
    }
}

/// Keys before the entitlement's do not decide the answer: a dump whose
/// first lines are none of them the entitlement's key line grants the
/// entitlement exactly when the rest of it does.
pub proof fn lemma_earlier_lines_do_not_decide(lines: Seq<Seq<char>>, rest: Seq<char>)
    requires
        forall|i: int| 0 <= i < lines.len() ==> !has_char(#[trigger] lines[i], '\n'),
        forall|i: int| 0 <= i < lines.len() ==> trimmed_line(#[trigger] lines[i] + "\n"@, 0) != key_line(),
    ensures
        key_then_true(lines_text(lines) + rest, 0) == key_then_true(rest, 0),
    decreases lines.len(),
{
    if lines.len() > 0 {
        let tail = lines.drop_first();
        lemma_earlier_lines_do_not_decide(tail, rest);
        assert(lines_text(lines) + rest =~= lines[0] + "\n"@ + (lines_text(tail) + rest));
        lemma_other_line_does_not_decide(lines[0], lines_text(tail) + rest);
    }
}

/// The first line of `line + "\n" + rest` is `line`, when `line` holds
/// no newline and neither starts nor ends with white space.
proof fn lemma_plain_first_line(line: Seq<char>, rest: Seq<char>)
    requires
        line.len() > 0,
        !has_char(line, '\n'),
        !crate::config::is_ws(line[0]),
        !crate::config::is_ws(line.last()),
    ensures
        line_end(line + "\n"@ + rest, 0) == line.len(),
        trimmed_line(line + "\n"@ + rest, 0) == line,
{
    reveal_strlit("\n");
    let s = line + "\n"@ + rest;
    let e = line.len() as int;
    assert(s[e] == '\n');
    assert forall|j: int| 0 <= j < e implies s[j] != '\n' by {
        assert(s[j] == line[j]);
    }
    lemma_line_end_at(s, 0, e);
    assert(s[e - 1] == line.last());
    assert(line_text_end(s, 0) == e);
    assert(s[0] == line[0]);
    assert(skip_ws(s, 0, e) == 0);
    assert(skip_ws_back(s, 0, e) == e);
    assert(s.subrange(0, e) =~= line);
}

/// The entitlement's key followed by `[Bool] true`.
pub open spec fn grant_text() -> Seq<char> {
    key_line() + "\n"@ + "[Bool] true"@ + "\n"@
}

/// A dump that ends by granting the entitlement grants it whatever lines
/// come first, so long as none of them is the entitlement's key line:
/// keys listed before it (`codesign` sorts them) do not hide it.
pub proof fn lemma_grant_after_other_keys(lines: Seq<Seq<char>>, rest: Seq<char>)
    requires
        forall|i: int| 0 <= i < lines.len() ==> !has_char(#[trigger] lines[i], '\n'),
        forall|i: int| 0 <= i < lines.len() ==> trimmed_line(#[trigger] lines[i] + "\n"@, 0) != key_line(),
    ensures
        key_then_true(lines_text(lines) + grant_text() + rest, 0),
{
    reveal_strlit("[Key] com.apple.security.get-task-allow");
    reveal_strlit("[Bool] true");
    reveal_strlit("[Bool]");
    reveal_strlit("\n");
    let k = key_line();
    let b = "[Bool] true"@;
    let after = b + "\n"@ + rest;
    let s = k + "\n"@ + after;
    assert(grant_text() + rest =~= s);
    lemma_plain_first_line(k, after);
    lemma_plain_first_line(b, rest);
    lemma_first_bool_true_shift(k + "\n"@, after, 0);
    assert(b.subrange(0, 6) =~= "[Bool]"@);
    assert(first_bool_true(after, 0));
    assert(key_then_true(s, 0));
    assert(lines_text(lines) + grant_text() + rest =~= lines_text(lines) + s);
    lemma_earlier_lines_do_not_decide(lines, s);
}

/// A dump none of whose lines is the entitlement's key line does not
/// grant it, whatever other keys and values it lists.
pub proof fn lemma_no_key_no_grant(lines: Seq<Seq<char>>)
    requires
        forall|i: int| 0 <= i < lines.len() ==> !has_char(#[trigger] lines[i], '\n'),
        forall|i: int| 0 <= i < lines.len() ==> trimmed_line(#[trigger] lines[i] + "\n"@, 0) != key_line(),
    ensures
        !key_then_true(lines_text(lines), 0),
{
    lemma_earlier_lines_do_not_decide(lines, Seq::empty());
    assert(lines_text(lines) + Seq::<char>::empty() =~= lines_text(lines));
}

/// Only the first `[Bool]` after the key is its value: a key followed by
/// `[Bool] false` does not grant the entitlement, whatever `[Bool] true`
/// lines come later.
pub proof fn lemma_first_value_decides(lines: Seq<Seq<char>>, rest: Seq<char>)
    requires
        forall|i: int| 0 <= i < lines.len() ==> !has_char(#[trigger] lines[i], '\n'),
        forall|i: int| 0 <= i < lines.len() ==> trimmed_line(#[trigger] lines[i] + "\n"@, 0) != key_line(),
    ensures
        !key_then_true(lines_text(lines) + key_line() + "\n"@ + "[Bool] false"@ + "\n"@ + rest, 0),
{
    reveal_strlit("[Key] com.apple.security.get-task-allow");
    reveal_strlit("[Bool] false");
    reveal_strlit("[Bool] true");
    reveal_strlit("[Bool]");
    reveal_strlit("\n");
    let k = key_line();
    let b = "[Bool] false"@;
    let after = b + "\n"@ + rest;
    let s = k + "\n"@ + after;
    lemma_plain_first_line(k, after);
    lemma_plain_first_line(b, rest);
    lemma_first_bool_true_shift(k + "\n"@, after, 0);
    assert(b.subrange(0, 6) =~= "[Bool]"@);
    assert(b != "[Bool] true"@) by {
        assert(b.len() != "[Bool] true"@.len());
    }
    assert(!first_bool_true(after, 0));
    assert(!key_then_true(s, 0));
    assert(lines_text(lines) + k + "\n"@ + "[Bool] false"@ + "\n"@ + rest =~= lines_text(lines) + s);
    lemma_earlier_lines_do_not_decide(lines, s);
}

} // verus!
