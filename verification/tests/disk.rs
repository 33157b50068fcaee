use ra_metal_capture::bundle::{
    bundle_found, is_gputrace_bundle, output_plan, plan_output, OutputPlan,
};
use ra_metal_capture::core_path::{choose_core, resolve_core};
use ra_metal_capture::fs::{dir_at, exists_at, file_at};
use ra_metal_capture::retroarch::app::{binary_found, resolve_binary};

fn dir_named(dir: &std::path::Path, name: &str) -> tempfile::TempDir {
    tempfile::Builder::new().rand_bytes(0).prefix(name).tempdir_in(dir).unwrap()
}

fn file_named(dir: &std::path::Path, name: &str) -> tempfile::NamedTempFile {
    tempfile::Builder::new().rand_bytes(0).prefix(name).tempfile_in(dir).unwrap()
}

fn s(p: &std::path::Path) -> String {
    p.to_str().unwrap().to_string()
}

#[test]
fn bundle_recognises_a_bundle_only_with_suffix_and_index() {
    let tmp = tempfile::tempdir().unwrap();
    let bundle = dir_named(tmp.path(), "a.gputrace");
    let _index = file_named(bundle.path(), "index");
    assert!(is_gputrace_bundle(&s(bundle.path())));

    let no_index = dir_named(tmp.path(), "b.gputrace");
    assert!(!is_gputrace_bundle(&s(no_index.path())));

    let wrong_suffix = dir_named(tmp.path(), "c");
    let _other = file_named(wrong_suffix.path(), "index");
    assert!(!is_gputrace_bundle(&s(wrong_suffix.path())));

    assert!(!is_gputrace_bundle(&s(&tmp.path().join("missing.gputrace"))));
}

#[test]
fn output_plan_refuses_a_directory_that_is_not_a_bundle() {
    let tmp = tempfile::tempdir().unwrap();
    let dir = dir_named(tmp.path(), "docs");
    let err = output_plan(&s(dir.path())).unwrap_err();
    assert!(err.contains("docs"), "{err}");
    assert_eq!(
        err,
        format!("{} exists and is not a .gputrace bundle; refusing to overwrite it", s(dir.path()))
    );
}

#[test]
fn output_plan_removes_a_stale_bundle_and_tolerates_absence() {
    let tmp = tempfile::tempdir().unwrap();
    let bundle = dir_named(tmp.path(), "old.gputrace");
    let _index = file_named(bundle.path(), "index");
    assert_eq!(output_plan(&s(bundle.path())), Ok(OutputPlan::RemoveStaleBundle));
    assert_eq!(output_plan(&s(&tmp.path().join("new.gputrace"))), Ok(OutputPlan::Absent));
}

#[test]
fn the_plans_for_every_answer_of_the_disk() {
    assert_eq!(plan_output("/o.gputrace", false, false), Ok(OutputPlan::Absent));
    assert_eq!(plan_output("/o.gputrace", true, true), Ok(OutputPlan::RemoveStaleBundle));
    assert_eq!(
        plan_output("/o.gputrace", true, false),
        Err("/o.gputrace exists and is not a .gputrace bundle; refusing to overwrite it".to_string())
    );
    assert!(bundle_found("/o.gputrace", true, true));
    assert!(!bundle_found("/o.trace", true, true));
    assert!(!bundle_found("/o.gputrace", true, false));
    assert!(!bundle_found("/o.gputrace", false, true));
}

#[test]
fn existing_path_is_used_directly() {
    let tmp = tempfile::tempdir().unwrap();
    let core = file_named(tmp.path(), "x_libretro.dylib");
    assert_eq!(resolve_core(&s(core.path()), "/nowhere"), Ok(s(core.path())));
}

#[test]
fn bare_name_gets_libretro_suffix() {
    let tmp = tempfile::tempdir().unwrap();
    let core = file_named(tmp.path(), "sameboy_libretro.dylib");
    assert_eq!(resolve_core("sameboy", &s(tmp.path())), Ok(s(core.path())));
}

#[test]
fn file_name_in_dir_is_found() {
    let tmp = tempfile::tempdir().unwrap();
    let core = file_named(tmp.path(), "sameboy_libretro.dylib");
    assert_eq!(resolve_core("sameboy_libretro.dylib", &s(tmp.path())), Ok(s(core.path())));
}

#[test]
fn the_core_chosen_for_every_answer_of_the_disk() {
    assert_eq!(choose_core("x", "/cores", true, true, true), Ok("x".to_string()));
    assert_eq!(choose_core("x", "/cores", false, true, true), Ok("/cores/x".to_string()));
    assert_eq!(
        choose_core("x", "/cores", false, false, true),
        Ok("/cores/x_libretro.dylib".to_string())
    );
    assert_eq!(
        choose_core("x", "/cores", false, false, false),
        Err("core \"x\" not found; tried /cores/x and /cores/x_libretro.dylib".to_string())
    );
}

#[test]
fn bare_binary_is_returned_as_is() {
    let tmp = tempfile::tempdir().unwrap();
    let bin = file_named(tmp.path(), "RetroArch");
    assert_eq!(resolve_binary(&s(bin.path())), Ok(s(bin.path())));
}

#[test]
fn app_bundle_without_binary_errors() {
    let tmp = tempfile::tempdir().unwrap();
    let app = dir_named(tmp.path(), "RetroArch.app");
    let _contents = dir_named(app.path(), "Contents");
    let err = resolve_binary(&s(app.path())).unwrap_err();
    assert!(err.contains("Contents/MacOS/RetroArch"), "{err}");
}

#[test]
fn the_binary_for_every_answer_of_the_disk() {
    let app = "/A/RetroArch.app";
    assert_eq!(
        binary_found(app, true, true, false),
        Ok("/A/RetroArch.app/Contents/MacOS/RetroArch".to_string())
    );
    assert_eq!(
        binary_found(app, true, false, true),
        Err("/A/RetroArch.app has no Contents/MacOS/RetroArch".to_string())
    );
    assert_eq!(binary_found(app, false, false, true), Ok(app.to_string()));
    assert_eq!(
        binary_found("/A/ra", false, false, false),
        Err("RetroArch app not found at /A/ra".to_string())
    );
    assert_eq!(binary_found("/A/ra", true, true, true), Ok("/A/ra".to_string()));
}

#[test]
fn each_disk_question_is_asked_of_its_own_path() {
    let dir = tempfile::tempdir().unwrap();
    let file = file_named(dir.path(), "f");
    let d = dir.path().to_str().unwrap();
    let f = file.path().to_str().unwrap();
    assert!(file_at(f) && !file_at(d));
    assert!(dir_at(d) && !dir_at(f));
    assert!(exists_at(f) && exists_at(d) && !exists_at(&format!("{d}/missing")));
}
