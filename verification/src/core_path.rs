//! Resolving a libretro core argument to a `.dylib` path.
use crate::fs::{answered, file_at, is_file};
use crate::path::{join, path_join};
use crate::text::{debug_quoted, debug_str, push_str};
use vstd::prelude::*;

verus! {

/// The candidates tried for a core name inside `dir`: the name itself,
/// then the name with `_libretro.dylib` appended.
pub open spec fn core_candidates(arg: Seq<char>, dir: Seq<char>) -> (Seq<char>, Seq<char>) {
    (join(dir, arg), join(dir, arg + "_libretro.dylib"@))
}

/// The error naming both candidates tried.
pub open spec fn core_not_found(arg: Seq<char>, dir: Seq<char>) -> Seq<char> {
    "core "@ + debug_quoted(arg) + " not found; tried "@ + core_candidates(arg, dir).0 + " and "@
        + core_candidates(arg, dir).1
}

/// A path or its error, taken by their views.
pub open spec fn view_path_result(r: Result<String, String>) -> Result<Seq<char>, Seq<char>> {
    match r {
        Ok(p) => Ok(p@),
        Err(e) => Err(e@),
    }
}

/// What [`resolve_core`] answers once the disk has said whether `arg`
/// itself (`direct`), the first candidate and the second are files.
pub open spec fn spec_core_choice(
    arg: Seq<char>,
    dir: Seq<char>,
    direct: bool,
    first: bool,
    second: bool,
) -> Result<Seq<char>, Seq<char>> {
    if direct {
        Ok(arg)
    } else if first {
        Ok(core_candidates(arg, dir).0)
    } else if second {
        Ok(core_candidates(arg, dir).1)
    } else {
        Err(core_not_found(arg, dir))
    }
}

/// Whether the disk's answers to [`resolve_core`]'s questions, in the order
/// it asks them, were `direct` for `arg` itself, `first` for the first
/// candidate (asked when `arg` is not a file) and `second` for the second
/// (asked when neither is).
pub open spec fn core_answers(arg: Seq<char>, dir: Seq<char>, direct: bool, first: bool, second: bool) -> bool {
    &&& answered(is_file, arg, direct)
    &&& (!direct ==> answered(is_file, core_candidates(arg, dir).0, first))
    &&& (!direct && !first ==> answered(is_file, core_candidates(arg, dir).1, second))
}

/// Whether a call of [`resolve_core`] on `arg` in `dir` found a core
/// (`b`), for some answers of the disk to the paths it asks about.
pub open spec fn core_said(arg: Seq<char>, dir: Seq<char>, b: bool) -> bool {
    exists|direct: bool, first: bool, second: bool|
        #[trigger] core_answers(arg, dir, direct, first, second) && b == (spec_core_choice(
            arg,
            dir,
            direct,
            first,
            second,
        ) is Ok)
}

/// The core `arg` names in `dir`, given which of `arg` itself, the first
/// candidate and the second are files: the first of them that is, in that
/// order, or the error naming both candidates.
pub fn choose_core(arg: &str, libretro_dir: &str, direct: bool, first: bool, second: bool) -> (r:
    Result<String, String>)
    ensures
        view_path_result(r) == spec_core_choice(arg@, libretro_dir@, direct, first, second),
{
    if direct {
        return Ok(arg.to_string());
    }
    let first_path = path_join(libretro_dir, arg);
    let mut suffixed = arg.to_string();
    push_str(&mut suffixed, "_libretro.dylib");
    let second_path = path_join(libretro_dir, suffixed.as_str());
    if first {
        return Ok(first_path);
    }
    if second {
        return Ok(second_path);
    }
    let mut e = String::new();
    push_str(&mut e, "core ");
    let q = debug_str(arg);
    push_str(&mut e, q.as_str());
    push_str(&mut e, " not found; tried ");
    push_str(&mut e, first_path.as_str());
    push_str(&mut e, " and ");
    push_str(&mut e, second_path.as_str());
    Err(e)
}

/// Resolve a core argument. An existing file path is used as-is. Otherwise
/// `<libretro_dir>/<arg>` and `<libretro_dir>/<arg>_libretro.dylib` are
/// tried, in that order; the first that is a file is the answer.
pub fn resolve_core(arg: &str, libretro_dir: &str) -> (r: Result<String, String>)
    ensures
        exists|a: bool, b: bool, c: bool|
            #[trigger] core_answers(arg@, libretro_dir@, a, b, c) && view_path_result(r)
                == spec_core_choice(arg@, libretro_dir@, a, b, c),
        match r {
            Ok(p) => p@ == arg@ || p@ == core_candidates(arg@, libretro_dir@).0 || p@
                == core_candidates(arg@, libretro_dir@).1,
            Err(e) => e@ == core_not_found(arg@, libretro_dir@),
        },
{
    if file_at(arg) {
        let r = choose_core(arg, libretro_dir, true, false, false);
        assert(core_answers(arg@, libretro_dir@, true, false, false));
        return r;
    }
    let first = path_join(libretro_dir, arg);
    let mut suffixed = arg.to_string();
    push_str(&mut suffixed, "_libretro.dylib");
    let second = path_join(libretro_dir, suffixed.as_str());
    let first_found = file_at(first.as_str());
    let second_found = if first_found {
        false
    } else {
        file_at(second.as_str())
    };
    let r = choose_core(arg, libretro_dir, false, first_found, second_found);
    assert(core_answers(arg@, libretro_dir@, false, first_found, second_found));
    r
}

} // verus!
