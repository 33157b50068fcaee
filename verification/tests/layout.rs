use ra_metal_capture::layout::{describe_tried, DirResolver, Located, Pick, RetroArchDirs};
use std::cell::Cell;

fn home() -> Option<String> {
    Some("/Users/someone".to_string())
}

/// An empty directory or file named exactly `name` inside `dir`.
fn dir_named(dir: &std::path::Path, name: &str) -> tempfile::TempDir {
    tempfile::Builder::new().rand_bytes(0).prefix(name).tempdir_in(dir).unwrap()
}

fn file_named(dir: &std::path::Path, name: &str) -> tempfile::NamedTempFile {
    tempfile::Builder::new().rand_bytes(0).prefix(name).tempfile_in(dir).unwrap()
}

#[test]
fn retroarch_dirs_from_config_overrides_only_named_keys() {
    let text = "savestate_directory = \"/elsewhere/states\"\nsort_savestates_enable = \"false\"\n";
    let h = home();
    let d = RetroArchDirs::from_config(text, h.as_deref());
    let base = RetroArchDirs::defaults(h.as_deref());
    assert_eq!(d.libretro_dir, base.libretro_dir);
    assert_eq!(d.system_dir, base.system_dir);
    assert_eq!(d.states.savestate_directory, "/elsewhere/states");
    assert!(!d.states.sort_by_core);
    assert!(!d.states.sort_by_content);
    assert!(!d.states.in_content_dir);
    assert!(base.states.sort_by_core);
}

#[test]
fn defaults_follow_retroarchs_darwin_layout() {
    let d = RetroArchDirs::defaults(Some("/Users/u"));
    assert_eq!(d.libretro_dir, "/Users/u/Library/Application Support/RetroArch/cores");
    assert_eq!(d.system_dir, "/Users/u/Documents/RetroArch/system");
    assert_eq!(d.states.savestate_directory, "/Users/u/Documents/RetroArch/states");
    let c = RetroArchDirs::from_config("libretro_directory = \"~/cores\"\n", Some("/Users/u"));
    assert_eq!(c.libretro_dir, "/Users/u/cores");
}

fn fake_dirs(system: &str) -> RetroArchDirs {
    RetroArchDirs {
        libretro_dir: "/d/cores".to_string(),
        system_dir: system.to_string(),
        states: RetroArchDirs::defaults(home().as_deref()).states,
    }
}

#[test]
fn resolver_takes_the_default_without_reading_the_config() {
    let loaded = Cell::new(false);
    let mut r = DirResolver::new(
        fake_dirs("/d/system"),
        || {
            loaded.set(true);
            Some("system_directory = \"/c/system\"".into())
        },
        false,
        None,
    );
    let hit = r.locate("system", &Pick::System, |p: &str| p == "/d/system");
    assert_eq!(hit, Located::Found("/d/system".to_string()));
    assert!(!loaded.get(), "config must not be read when the default exists");
}

#[test]
fn resolver_falls_back_to_the_config_and_reads_it_once() {
    let loads = Cell::new(0);
    let mut r = DirResolver::new(
        fake_dirs("/d/system"),
        || {
            loads.set(loads.get() + 1);
            Some("system_directory = \"/c/system\"".into())
        },
        false,
        None,
    );
    let hit = r.locate("system", &Pick::System, |p: &str| p == "/c/system");
    assert_eq!(hit, Located::Found("/c/system".to_string()));
    let again = r.locate("system", &Pick::System, |p: &str| p == "/c/system");
    assert_eq!(again, Located::Found("/c/system".to_string()));
    assert_eq!(loads.get(), 1, "config parsed once");
}

#[test]
fn resolver_reports_every_candidate_when_nothing_exists() {
    let mut r = DirResolver::new(
        fake_dirs("/d/system"),
        || Some("system_directory = \"/c/system\"".into()),
        false,
        None,
    );
    let hit = r.locate("system", &Pick::System, |_: &str| false);
    let tried = vec!["/d/system".to_string(), "/c/system".to_string()];
    assert_eq!(hit, Located::Missing(tried.clone()));
    assert_eq!(describe_tried(&tried), "/d/system or /c/system");
}

#[test]
fn resolver_without_a_config_file_tries_the_default_only() {
    let mut r = DirResolver::new(fake_dirs("/d/system"), || None, false, None);
    let hit = r.locate("system", &Pick::System, |_: &str| false);
    assert_eq!(hit, Located::Missing(vec!["/d/system".to_string()]));
}

#[test]
fn locate_layout_returns_the_layout_the_candidate_came_from() {
    let mut r = DirResolver::new(
        fake_dirs("/d/system"),
        || Some("savestate_directory = \"/c/states\"\nsort_savestates_enable = \"false\"".into()),
        false,
        None,
    );
    let layout = r
        .locate_layout("states", &Pick::States, |p: &str| p == "/c/states")
        .unwrap();
    assert_eq!(layout.states.savestate_directory, "/c/states");
    assert!(!layout.states.sort_by_core, "the config's flags come with its directory");
    let tried = r.locate_layout("states", &Pick::States, |_: &str| false).unwrap_err();
    assert_eq!(tried.len(), 2);
}

#[test]
fn a_verbose_resolver_notes_where_it_fell_back() {
    let mut r = DirResolver::new(
        fake_dirs("/d/system"),
        || Some("system_directory = \"/c/system\"".into()),
        true,
        None,
    );
    r.locate("system", &Pick::System, |p: &str| p == "/c/system");
    assert_eq!(
        r.notes(),
        &vec!["system: not at the default /d/system; using /c/system from retroarch.cfg".to_string()]
    );
}

#[test]
fn core_takes_a_file_path_as_given_and_names_every_dir_tried() {
    let tmp = tempfile::tempdir().unwrap();
    let file = file_named(tmp.path(), "x_libretro.dylib");
    let dylib = file.path().to_str().unwrap().to_string();
    let mut r = DirResolver::new(fake_dirs("/d/system"), || None, false, None);
    assert_eq!(r.find_core(&dylib).unwrap(), dylib);
    let err = r.find_core("nope").unwrap_err();
    assert!(err.contains("/d/cores"), "{err}");
    let mut r = DirResolver::new(
        RetroArchDirs {
            libretro_dir: tmp.path().to_str().unwrap().to_string(),
            ..fake_dirs("/d/system")
        },
        || None,
        false,
        None,
    );
    assert_eq!(r.find_core("x").unwrap(), dylib);
}

#[test]
fn system_dir_falls_back_to_the_default_candidate() {
    let mut r = DirResolver::new(
        fake_dirs("/nonexistent/system"),
        || Some("system_directory = \"/also/nonexistent\"".into()),
        false,
        None,
    );
    assert_eq!(r.system_dir(), "/nonexistent/system");
    let tmp = tempfile::tempdir().unwrap();
    let t = tmp.path().to_str().unwrap().to_string();
    let mut r = DirResolver::new(fake_dirs(&t), || None, false, None);
    assert_eq!(r.system_dir(), t);
}

#[test]
fn slot_lookup_uses_the_layouts_sorting() {
    let tmp = tempfile::tempdir().unwrap();
    let states_dir = dir_named(tmp.path(), "states");
    let states = states_dir.path().to_path_buf();
    let core_dir = dir_named(&states, "SameBoy");
    let _slot = file_named(core_dir.path(), "zelda.state2");
    let mut dirs = fake_dirs("/d/system");
    dirs.states.savestate_directory = states.to_str().unwrap().to_string();
    dirs.states.sort_by_core = true;
    let mut r = DirResolver::new(dirs, || None, false, None);
    let which = Pick::Slot {
        core_name: "SameBoy".to_string(),
        rom: "/roms/gbc/zelda.gbc".to_string(),
        slot: 2,
    };
    let found = r.locate("slot", &which, |p: &str| ra_metal_capture::fs::is_file(p));
    assert_eq!(
        found,
        Located::Found(states.join("SameBoy/zelda.state2").to_str().unwrap().to_string())
    );
}
