//! Reading what `gpucapture list` prints.
use crate::text::{chars_of, first_word, first_word_at, line_at, line_end, line_text_end, parse_u32, parse_u32_range};
use vstd::prelude::*;

verus! {

/// The first-column numbers of the lines of `s` from `pos` on.
pub open spec fn pids_from(s: Seq<char>, pos: int) -> Seq<u32>
    decreases s.len() + 1 - pos,
{
    if pos < 0 || pos >= s.len() {
        Seq::empty()
    } else {
        proof {
            crate::text::lemma_line_end_bounds(s, pos);
        }
        let e = line_end(s, pos);
        let (ws, we) = first_word(s, pos, line_text_end(s, pos));
        let rest = pids_from(s, e + 1);
        match parse_u32(s.subrange(ws, we)) {
            Some(p) => seq![p] + rest,
            None => rest,
        }
    }
}

/// PIDs listed by `gpucapture list`. The first line is a header; each
/// following line starts with the PID.
pub fn parse_capturable_pids(list_output: &str) -> (pids: Vec<u32>)
    ensures
        pids@ == pids_from(list_output@, 0),
{
    let s = chars_of(list_output);
    let n = s.len();
    let mut out: Vec<u32> = Vec::new();
    let mut pos: usize = 0;
    while pos < n
        invariant
            n == s@.len(),
            s@ == list_output@,
            0 <= pos <= n,
            pids_from(s@, 0) == out@ + pids_from(s@, pos as int),
        decreases n - pos,
    {
        let (e, t) = line_at(&s, pos);
        let (ws, we) = first_word_at(&s, pos, t);
        let ghost rest = pids_from(s@, e + 1);
        let ghost before = out@;
        match parse_u32_range(&s, ws, we) {
            Some(p) => {
                out.push(p);
                assert(out@ + rest =~= before + (seq![p] + rest));
            },
            None => {},
        }
        if e < n {
            pos = e + 1;
        } else {
            pos = n;
        }
    }
    assert(out@ + pids_from(s@, n as int) =~= out@);
    out
}

} // verus!
