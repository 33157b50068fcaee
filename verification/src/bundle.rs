//! The `.gputrace` bundle on disk: recognising one and deciding how to make
//! room for one. Shared by both backends.
use crate::fs::{answered, dir_at, exists_at, is_dir, path_exists};
use crate::path::{extension, join, path_extension, path_join};
use crate::text::{push_str, str_eq};
use vstd::prelude::*;

verus! {

/// What [`is_gputrace_bundle`] answers once the disk has said whether
/// `path` is a directory and whether it holds an `index`.
pub open spec fn spec_is_bundle(path: Seq<char>, is_dir: bool, has_index: bool) -> bool {
    extension(path) == Some("gputrace"@) && is_dir && has_index
}

/// Whether `path` is a bundle, given whether it `is_dir` and whether it
/// `has_index`: its name must end in `.gputrace` too.
pub fn bundle_found(path: &str, is_dir: bool, has_index: bool) -> (b: bool)
    ensures
        b == spec_is_bundle(path@, is_dir, has_index),
{
    let has_ext = match path_extension(path) {
        Some(e) => str_eq(e.as_str(), "gputrace"),
        None => false,
    };
    has_ext && is_dir && has_index
}

/// Whether the disk's answers to [`is_gputrace_bundle`]'s questions were
/// `is_dir` for `path` (asked when its name ends in `.gputrace`) and
/// `has_index` for `path/index` (asked when it is also a directory).
pub open spec fn bundle_answers(path: Seq<char>, is_dir: bool, has_index: bool) -> bool {
    let named = extension(path) == Some("gputrace"@);
    &&& (named ==> answered(crate::fs::is_dir, path, is_dir))
    &&& (named && is_dir ==> answered(path_exists, join(path, "index"@), has_index))
}

/// True when `path` looks like a bundle this tool (or Xcode) wrote: a
/// directory whose name ends in `.gputrace` and which contains an `index`.
/// Only a path with that extension is looked at on disk.
pub fn is_gputrace_bundle(path: &str) -> (b: bool)
    ensures
        exists|d: bool, i: bool|
            #[trigger] bundle_answers(path@, d, i) && b == spec_is_bundle(path@, d, i),
        b ==> extension(path@) == Some("gputrace"@),
{
    let has_ext = match path_extension(path) {
        Some(e) => str_eq(e.as_str(), "gputrace"),
        None => false,
    };
    if !has_ext {
        assert(bundle_answers(path@, false, false));
        return bundle_found(path, false, false);
    }
    if !dir_at(path) {
        assert(bundle_answers(path@, false, false));
        return bundle_found(path, false, false);
    }
    let index = path_join(path, "index");
    let has_index = exists_at(index.as_str());
    assert(bundle_answers(path@, true, has_index));
    bundle_found(path, true, has_index)
}

/// What making room for a capture at a path takes.
#[derive(Debug, Clone, Copy, PartialEq, Eq, Structural)]
pub enum OutputPlan {
    /// Nothing is there.
    Absent,
    /// A previous bundle is there and is removed.
    RemoveStaleBundle,
}

/// The refusal for a path that holds something other than a bundle.
pub open spec fn not_a_bundle_message(output: Seq<char>) -> Seq<char> {
    output + " exists and is not a .gputrace bundle; refusing to overwrite it"@
}

/// The plan for `output` once the disk has said whether anything `exists`
/// there and whether it `is_bundle`.
pub open spec fn spec_output_plan(output: Seq<char>, exists: bool, is_bundle: bool) -> Result<
    OutputPlan,
    Seq<char>,
> {
    if !exists {
        Ok(OutputPlan::Absent)
    } else if !is_bundle {
        Err(not_a_bundle_message(output))
    } else {
        Ok(OutputPlan::RemoveStaleBundle)
    }
}

/// A plan with its refusal taken by its view.
pub open spec fn view_plan(r: Result<OutputPlan, String>) -> Result<OutputPlan, Seq<char>> {
    match r {
        Ok(p) => Ok(p),
        Err(e) => Err(e@),
    }
}

/// How to make room at `output`, given whether anything `exists` there
/// and whether that `is_bundle`: nothing to do, a stale bundle to remove,
/// or a refusal naming the path.
pub fn plan_output(output: &str, exists: bool, is_bundle: bool) -> (r: Result<OutputPlan, String>)
    ensures
        view_plan(r) == spec_output_plan(output@, exists, is_bundle),
{
    if !exists {
        return Ok(OutputPlan::Absent);
    }
    if !is_bundle {
        let mut e = output.to_string();
        push_str(&mut e, " exists and is not a .gputrace bundle; refusing to overwrite it");
        return Err(e);
    }
    Ok(OutputPlan::RemoveStaleBundle)
}

/// Whether the disk's answers to [`output_plan`]'s questions were
/// `exists` for `output` and, when something is there, `is_dir` and
/// `has_index` to [`is_gputrace_bundle`]'s.
pub open spec fn plan_answers(output: Seq<char>, exists: bool, is_dir: bool, has_index: bool) -> bool {
    &&& answered(path_exists, output, exists)
    &&& (exists ==> bundle_answers(output, is_dir, has_index))
}

/// How to make room for a new capture at `output`. A previous bundle is
/// removed; anything else that exists there is refused, so a mistyped path
/// never deletes user data.
pub fn output_plan(output: &str) -> (r: Result<OutputPlan, String>)
    ensures
        exists|e: bool, d: bool, i: bool|
            #[trigger] plan_answers(output@, e, d, i) && view_plan(r) == spec_output_plan(
                output@,
                e,
                spec_is_bundle(output@, d, i),
            ),
        r == Ok::<OutputPlan, String>(OutputPlan::RemoveStaleBundle) ==> extension(output@) == Some(
            "gputrace"@,
        ),
        r matches Err(e) ==> e@ == not_a_bundle_message(output@),
{
    if !exists_at(output) {
        let r = plan_output(output, false, false);
        assert(plan_answers(output@, false, false, false));
        assert(view_plan(r) == spec_output_plan(output@, false, spec_is_bundle(output@, false, false)));
        return r;
    }
    let b = is_gputrace_bundle(output);
    let r = plan_output(output, true, b);
    proof {
        let (d, i) = choose|d: bool, i: bool| #[trigger] bundle_answers(output@, d, i) && b == spec_is_bundle(output@, d, i);
        assert(plan_answers(output@, true, d, i));
        assert(view_plan(r) == spec_output_plan(output@, true, spec_is_bundle(output@, d, i)));
    }
    r
}

} // verus!
