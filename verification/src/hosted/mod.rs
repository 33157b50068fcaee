//! The hosted backend's logic: what it decides about a request, the frames
//! a hosted core hands back, and the save states it restores. Rendering
//! them through librashader's Metal runtime is the application's part.
pub mod libretro;
pub mod render;
pub mod state;

use crate::backend::StateSource;
use crate::bundle::{
    not_a_bundle_message, output_plan, plan_answers, spec_is_bundle, spec_output_plan, view_plan,
    OutputPlan,
};
use crate::fs::{answered, file_at, is_file};
use crate::image_file::{spec_has_extension, spec_validate, view_unit_result};
use crate::layout::{
    describe_tried, lemma_outcome_has_answers, outcome_for_answers, picked, tried_text,
    tried_view, DirResolver, Pick, Presence, RetroArchDirs,
};
use crate::text::{decimal, push_decimal, push_str};
use vstd::prelude::*;

verus! {

/// The environment variable Metal reads when it loads to decide whether
/// programmatic capture to a trace document is offered.
pub const CAPTURE_ENV: &'static str = "MTL_CAPTURE_ENABLED";

/// The in-process backend. It has no configuration of its own: everything
/// it needs is in the request or RetroArch's on-disk layout.
#[derive(Debug, Clone, Copy, Default, PartialEq, Eq)]
pub struct Hosted;

/// Whether `MTL_CAPTURE_ENABLED` needs setting: Metal offers programmatic
/// capture to a trace document only when it is exactly `1` at load time.
pub fn needs_capture_env(current: Option<&str>) -> (b: bool)
    ensures
        b == !(current matches Some(v) && v@ == "1"@),
{
    match current {
        Some(v) => !crate::text::str_eq(v, "1"),
        None => true,
    }
}

/// An image the `image` crate, with the features this crate enables, can
/// decode: it must carry one of those extensions and exist.
pub fn validate_image(image: &str) -> (r: Result<(), String>)
    ensures
        exists|is_file: bool|
            #[trigger] crate::image_file::image_answer(image@, render::IMAGE_EXTENSIONS@, is_file) && view_unit_result(r)
                == spec_validate(
                image@,
                render::IMAGE_EXTENSIONS@,
                "this backend"@,
                is_file,
            ),
{
    crate::image_file::validate(image, &render::IMAGE_EXTENSIONS, "this backend")
}

/// The error for a preset that is not a file.
pub open spec fn preset_missing_message(preset: Seq<char>) -> Seq<char> {
    "shader preset not found at "@ + preset
}

/// What [`Hosted::check_request`] answers once the disk has said whether
/// the preset is a file and what the output path holds (`plan`).
pub open spec fn spec_check_request(
    preset: Seq<char>,
    preset_is_file: bool,
    plan: Result<OutputPlan, Seq<char>>,
) -> Result<OutputPlan, Seq<char>> {
    if !preset_is_file {
        Err(preset_missing_message(preset))
    } else {
        plan
    }
}

/// Whether the disk's answers to [`Hosted::check_request`]'s questions
/// were `preset_is_file` for the preset and, when it is a file, `exists`,
/// `is_dir` and `has_index` to [`output_plan`]'s for the output.
pub open spec fn request_answers(
    preset: Seq<char>,
    output: Seq<char>,
    preset_is_file: bool,
    exists: bool,
    is_dir: bool,
    has_index: bool,
) -> bool {
    &&& answered(is_file, preset, preset_is_file)
    &&& (preset_is_file ==> plan_answers(output, exists, is_dir, has_index))
}

/// The answer to a request once the disk has said whether the preset is a
/// file (`preset_is_file`) and what [`output_plan`] made of the output path
/// (`plan`): a missing preset is refused first, else the plan stands.
pub fn request_checked(
    preset: &str,
    preset_is_file: bool,
    plan: Result<OutputPlan, String>,
) -> (r: Result<OutputPlan, String>)
    ensures
        view_plan(r) == spec_check_request(preset@, preset_is_file, view_plan(plan)),
{
    if !preset_is_file {
        let mut e = String::new();
        push_str(&mut e, "shader preset not found at ");
        push_str(&mut e, preset);
        return Err(e);
    }
    plan
}

impl Hosted {
    /// What is checked before anything is loaded: the preset must be a
    /// file, then the output path must be free or hold a previous bundle,
    /// which is to be removed.
    pub fn check_request(&self, preset: &str, output: &str) -> (r: Result<OutputPlan, String>)
        ensures
            exists|f: bool, e: bool, d: bool, i: bool|
                #[trigger] request_answers(preset@, output@, f, e, d, i) && view_plan(r)
                    == spec_check_request(
                    preset@,
                    f,
                    spec_output_plan(output@, e, spec_is_bundle(output@, d, i)),
                ),
            r matches Err(e) ==> e@ == preset_missing_message(preset@) || e@ == not_a_bundle_message(
                output@,
            ),
    {
        let preset_is_file = file_at(preset);
        if !preset_is_file {
            let r = request_checked(preset, false, Ok(OutputPlan::Absent));
            assert(request_answers(preset@, output@, false, false, false, false));
            assert(view_plan(r) == spec_check_request(
                preset@,
                false,
                spec_output_plan(output@, false, spec_is_bundle(output@, false, false)),
            ));
            return r;
        }
        let plan = output_plan(output);
        proof {
            let (e, d, i) = choose|e: bool, d: bool, i: bool|
                #[trigger] plan_answers(output@, e, d, i) && view_plan(plan) == spec_output_plan(
                    output@,
                    e,
                    spec_is_bundle(output@, d, i),
                );
            assert(request_answers(preset@, output@, true, e, d, i));
            assert(view_plan(plan) == spec_output_plan(output@, e, spec_is_bundle(output@, d, i)));
        }
        request_checked(preset, true, plan)
    }
}

/// The error for a save-state slot found nowhere.
pub open spec fn slot_missing_message(slot: u32, tried: Seq<Seq<char>>) -> Seq<char> {
    "slot "@ + decimal(slot as nat) + " not found at "@ + tried_text(tried)
}

/// A state result by its characters.
pub open spec fn view_state_path(r: Result<Option<String>, String>) -> Result<Option<Seq<char>>, Seq<char>> {
    match r {
        Ok(Some(p)) => Ok(Some(p@)),
        Ok(None) => Ok(None),
        Err(e) => Err(e@),
    }
}

/// What a lookup of slot `n`'s file (`which`) gives once the lookup has
/// answered `out`: the file in the layout found, or an error naming every
/// candidate tried.
pub open spec fn spec_slot_state(which: Pick, n: u32, out: Result<RetroArchDirs, Seq<Seq<char>>>) -> Result<
    Option<Seq<char>>,
    Seq<char>,
> {
    match out {
        Ok(d) => Ok(Some(picked(d, which))),
        Err(t) => Err(slot_missing_message(n, t)),
    }
}

/// The state file for slot `n` given what the lookup of its file
/// (`which`) found: the file in that layout, or an error naming every
/// candidate tried.
pub fn slot_state(which: &Pick, n: u32, found: Result<RetroArchDirs, Vec<String>>) -> (r: Result<
    Option<String>,
    String,
>)
    ensures
        view_state_path(r) == spec_slot_state(*which, n, tried_view(found)),
{
    match found {
        Ok(layout) => Ok(Some(layout.pick(which))),
        Err(tried) => {
            let mut e = String::new();
            push_str(&mut e, "slot ");
            push_decimal(&mut e, n as u64);
            push_str(&mut e, " not found at ");
            let t = describe_tried(tried.as_slice());
            push_str(&mut e, t.as_str());
            Err(e)
        },
    }
}

/// The state file to restore: a file as given, or the slot's file where
/// RetroArch keeps it for this ROM under this core (the default layout
/// first, the config's if the default has none), or no state.
pub fn state_path_for<L: FnOnce() -> Option<String>>(
    state: &Option<StateSource>,
    library_name: &str,
    rom: &str,
    dirs: &mut DirResolver<L>,
) -> (r: Result<Option<String>, String>)
    ensures
        final(dirs).default_layout() == old(dirs).default_layout(),
        match state {
            None => r == Ok::<Option<String>, String>(None) && *final(dirs) == *old(dirs),
            Some(StateSource::File(p)) => r matches Ok(Some(q)) && q@ == p@ && *final(dirs)
                == *old(dirs),
            Some(StateSource::Slot(n)) => exists|
                which: Pick,
                a0: bool,
                a1: bool,
                out: Result<RetroArchDirs, Seq<Seq<char>>>,
            |
                #![trigger outcome_for_answers(*old(dirs), *final(dirs), "save state slot"@, which, Presence::File, a0, a1, out)]
                (which matches Pick::Slot { core_name, rom: ro, slot } && core_name@ == library_name@
                    && ro@ == rom@ && slot == *n) && outcome_for_answers(
                    *old(dirs),
                    *final(dirs),
                    "save state slot"@,
                    which,
                    Presence::File,
                    a0,
                    a1,
                    out,
                ) && view_state_path(r) == spec_slot_state(which, *n, out),
        },
{
    match state {
        None => Ok(None),
        Some(StateSource::File(p)) => Ok(Some(p.clone())),
        Some(StateSource::Slot(n)) => {
            let which = Pick::Slot { core_name: library_name.to_string(), rom: rom.to_string(), slot: *n };
            let present = |p: &str| -> (b: bool)
                ensures
                    answered(is_file, p@, b),
                { file_at(p) };
            let ghost before = *dirs;
            let out = dirs.locate_layout("save state slot", &which, present);
            proof {
                lemma_outcome_has_answers(before, *dirs, "save state slot"@, which, present, Presence::File, out);
            }
            let ghost out_v = tried_view(out);
            let r = slot_state(&which, *n, out);
            proof {
                let (a0, a1) = choose|a0: bool, a1: bool|
                    outcome_for_answers(before, *dirs, "save state slot"@, which, Presence::File, a0, a1, out_v);
                assert(outcome_for_answers(before, *dirs, "save state slot"@, which, Presence::File, a0, a1, out_v));
            }
            r
        },
    }
}

/// `list` joined with `, `.
pub open spec fn comma_joined(list: Seq<Seq<char>>) -> Seq<char>
    decreases list.len(),
{
    if list.len() == 0 {
        Seq::empty()
    } else if list.len() == 1 {
        list[0]
    } else {
        comma_joined(list.drop_last()) + ", "@ + list.last()
    }
}

/// The refusal of a ROM whose extension the core does not declare.
pub open spec fn extension_refusal_message(rom: Seq<char>, library: Seq<char>, exts: Seq<Seq<char>>) -> Seq<char> {
    rom + " does not have an extension "@ + library + " accepts ("@ + comma_joined(exts)
        + "); pass --skip-extension-check to load it anyway"@
}

/// The refusal of a ROM whose extension the core (`library`, declaring
/// `valid_extensions`) does not accept.
pub fn extension_refusal(rom: &str, library: &str, valid_extensions: &[String]) -> (e: String)
    ensures
        e@ == extension_refusal_message(rom@, library@, valid_extensions@.map_values(|x: String| x@)),
{
    let ghost v = valid_extensions@.map_values(|x: String| x@);
    let mut e = rom.to_string();
    push_str(&mut e, " does not have an extension ");
    push_str(&mut e, library);
    push_str(&mut e, " accepts (");
    let ghost head = e@;
    let mut i: usize = 0;
    while i < valid_extensions.len()
        invariant
            0 <= i <= valid_extensions@.len(),
            v == valid_extensions@.map_values(|x: String| x@),
            e@ == head + comma_joined(v.take(i as int)),
        decreases valid_extensions@.len() - i,
    {
        if i > 0 {
            push_str(&mut e, ", ");
        }
        push_str(&mut e, valid_extensions[i].as_str());
        proof {
            assert(v.take(i + 1).drop_last() =~= v.take(i as int));
            if i == 0 {
                assert(e@ =~= head + comma_joined(v.take(1)));
            } else {
                assert(e@ =~= head + comma_joined(v.take(i + 1)));
            }
        }
        i = i + 1;
    }
    assert(v.take(valid_extensions@.len() as int) =~= v);
    push_str(&mut e, "); pass --skip-extension-check to load it anyway");
    e
}

/// Warm-up frames before the recorded one: after a restored state, all
/// but one of the `advance` frames (the last is the recorded one);
/// otherwise the settle's frames.
pub fn warmup_frames(restored: bool, advance: u32, settle_frames: u32) -> (n: u32)
    ensures
        n == if restored {
            if advance == 0 {
                0
            } else {
                (advance - 1) as u32
            }
        } else {
            settle_frames
        },
{
    if restored {
        advance.saturating_sub(1)
    } else {
        settle_frames
    }
}

} // verus!
