//! Shader preset parameter overrides: reading a `--param NAME=VALUE`,
//! where the wrapper preset that pins the values goes, and the reference
//! to the user's preset it starts with. Parsing and formatting the
//! values, which are floats, is the application's part.
use crate::config::{find_char, find_char_in, is_whitespace, is_ws, trim_indices, trim_range};
use crate::path::{extension, join, path_extension, path_join};
use crate::retroarch::cfgfile::config_safe;
use crate::retroarch::runconfig::is_config_safe;
use crate::text::{chars_of, debug_quoted, debug_str, push_str, string_of_range};
use vstd::prelude::*;

verus! {

/// Whether a parameter name is refused: empty, or holding white space or
/// an `=`.
pub open spec fn bad_param_name(name: Seq<char>) -> bool {
    name.len() == 0 || exists|i: int| 0 <= i < name.len() && (is_ws(name[i]) || name[i] == '=')
}

/// A `--param NAME=VALUE` split at its first `=`: the name and the value's
/// text, both trimmed. Without an `=`, or with a name that is empty or
/// holds white space, it is refused with a message quoting it.
pub open spec fn spec_split_param(s: Seq<char>) -> Result<(Seq<char>, Seq<char>), Seq<char>> {
    let eq = find_char(s, '=', 0, s.len() as int);
    if eq >= s.len() {
        Err("expected NAME=VALUE, got "@ + debug_quoted(s))
    } else {
        let (ns, ne) = trim_range(s, 0, eq);
        let name = s.subrange(ns, ne);
        if bad_param_name(name) {
            Err("bad parameter name in "@ + debug_quoted(s))
        } else {
            let (vs, ve) = trim_range(s, eq + 1, s.len() as int);
            Ok((name, s.subrange(vs, ve)))
        }
    }
}

/// A name and value, or a refusal, taken by their views.
pub open spec fn view_split(r: Result<(String, String), String>) -> Result<
    (Seq<char>, Seq<char>),
    Seq<char>,
> {
    match r {
        Ok((n, v)) => Ok((n@, v@)),
        Err(e) => Err(e@),
    }
}

/// Split a `--param NAME=VALUE` into its name and the text of its value,
/// both trimmed; the value is for the caller to parse as a number.
pub fn split_param(s: &str) -> (r: Result<(String, String), String>)
    ensures
        view_split(r) == spec_split_param(s@),
{
    let v = chars_of(s);
    let n = v.len();
    let eq = find_char_in(&v, '=', 0, n);
    if eq >= n {
        let mut e = String::new();
        push_str(&mut e, "expected NAME=VALUE, got ");
        let q = debug_str(s);
        push_str(&mut e, q.as_str());
        return Err(e);
    }
    let (ns, ne) = trim_indices(&v, 0, eq);
    let mut bad = ns == ne;
    let mut i = ns;
    while i < ne
        invariant
            0 <= ns <= i <= ne <= v@.len(),
            bad == (ns == ne || exists|k: int| ns <= k < i && (is_ws(v@[k]) || v@[k] == '=')),
        decreases ne - i,
    {
        if is_whitespace(v[i]) || v[i] == '=' {
            bad = true;
        }
        i = i + 1;
    }
    proof {
        let name = v@.subrange(ns as int, ne as int);
        assert(bad == bad_param_name(name)) by {
            if bad && ns != ne {
                let k = choose|k: int| ns <= k < ne && (is_ws(v@[k]) || v@[k] == '=');
                assert(name[k - ns] == v@[k]);
            }
            if bad_param_name(name) && name.len() != 0 {
                let j = choose|j: int| 0 <= j < name.len() && (is_ws(name[j]) || name[j] == '=');
                assert(name[j] == v@[ns + j]);
            }
        }
    }
    if bad {
        let mut e = String::new();
        push_str(&mut e, "bad parameter name in ");
        let q = debug_str(s);
        push_str(&mut e, q.as_str());
        return Err(e);
    }
    let (vs, ve) = trim_indices(&v, eq + 1, n);
    Ok((string_of_range(&v, ns, ne), string_of_range(&v, vs, ve)))
}

/// The refusal of a preset path the format cannot carry.
pub open spec fn unsafe_reference_message(original: Seq<char>) -> Seq<char> {
    original + " contains a quote or newline, which a preset reference cannot carry"@
}

/// Where the wrapper for `original` goes in `dir`: `override.<ext>` with
/// the original's extension, `slangp` when it has none.
pub open spec fn override_path(original: Seq<char>, dir: Seq<char>) -> Seq<char> {
    join(
        dir,
        "override."@ + match extension(original) {
            Some(e) => e,
            None => "slangp"@,
        },
    )
}

/// The wrapper preset's first line: a `#reference` to `original`.
pub open spec fn reference_line(original: Seq<char>) -> Seq<char> {
    "#reference \""@ + original + "\"\n"@
}

/// The wrapper preset for `original` (an absolute path, since the
/// reference is resolved relative to the wrapper) in `dir`: its path and
/// its first line. The preset format quotes the reference with `"` and
/// has no escape, so a path carrying a quote or a newline is refused.
pub fn override_preset(original: &str, dir: &str) -> (r: Result<(String, String), String>)
    ensures
        match r {
            Ok((path, line)) => config_safe(original@) && path@ == override_path(original@, dir@)
                && line@ == reference_line(original@),
            Err(e) => !config_safe(original@) && e@ == unsafe_reference_message(original@),
        },
{
    if !is_config_safe(original) {
        let mut e = original.to_string();
        push_str(&mut e, " contains a quote or newline, which a preset reference cannot carry");
        return Err(e);
    }
    let mut name = "override.".to_string();
    match path_extension(original) {
        Some(ext) => push_str(&mut name, ext.as_str()),
        None => push_str(&mut name, "slangp"),
    }
    let path = path_join(dir, name.as_str());
    let mut line = "#reference \"".to_string();
    push_str(&mut line, original);
    push_str(&mut line, "\"\n");
    Ok((path, line))
}

} // verus!
