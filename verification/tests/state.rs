use ra_metal_capture::fs::is_file;
use ra_metal_capture::state::{find_slot, slot_file_name, slot_path, StateDirs};

fn dirs(sort_by_core: bool, sort_by_content: bool, in_content_dir: bool) -> StateDirs {
    StateDirs {
        savestate_directory: "/states".to_string(),
        sort_by_core,
        sort_by_content,
        in_content_dir,
    }
}

#[test]
fn slot_path_follows_retroarch_naming() {
    let rom = "/roms/gbc/zelda.gbc";
    assert_eq!(
        slot_path(&dirs(true, false, false), "SameBoy", rom, 0),
        "/states/SameBoy/zelda.state"
    );
    assert_eq!(
        slot_path(&dirs(true, false, false), "SameBoy", rom, 3),
        "/states/SameBoy/zelda.state3"
    );
    assert_eq!(
        slot_path(&dirs(false, false, false), "SameBoy", rom, 0),
        "/states/zelda.state"
    );
    assert_eq!(
        slot_path(&dirs(false, true, false), "SameBoy", rom, 0),
        "/states/gbc/zelda.state"
    );
    assert_eq!(
        slot_path(&dirs(true, true, true), "SameBoy", rom, 0),
        "/roms/gbc/zelda.state"
    );
}

#[test]
fn slot_file_name_keeps_the_whole_stem() {
    assert_eq!(slot_file_name("/roms/Zelda (U) [!].gb", 0), "Zelda (U) [!].state");
    assert_eq!(slot_file_name("/roms/a.b.gb", 12), "a.b.state12");
    assert_eq!(slot_file_name("/", 1), ".state1");
}

fn dir_named(dir: &std::path::Path, name: &str) -> tempfile::TempDir {
    tempfile::Builder::new().rand_bytes(0).prefix(name).tempdir_in(dir).unwrap()
}

fn file_named(dir: &std::path::Path, name: &str) -> tempfile::NamedTempFile {
    tempfile::Builder::new().rand_bytes(0).prefix(name).tempfile_in(dir).unwrap()
}

#[test]
fn find_slot_searches_the_layout_and_one_level_of_subdirs() {
    let tmp = tempfile::tempdir().unwrap();
    let root = tmp.path().to_str().unwrap().to_string();
    let sameboy = dir_named(tmp.path(), "sameboy");
    let _s3 = file_named(sameboy.path(), "game.state3");
    let _s0 = file_named(tmp.path(), "game.state");
    let dirs = StateDirs {
        savestate_directory: root.clone(),
        sort_by_core: true,
        sort_by_content: false,
        in_content_dir: false,
    };
    let subdirs = vec![format!("{root}/sameboy")];
    let rom = "/roms/game.gbc";
    assert_eq!(
        find_slot(&dirs, rom, 3, &subdirs, |p: &str| is_file(p)),
        Some(format!("{root}/sameboy/game.state3"))
    );
    assert_eq!(
        find_slot(&dirs, rom, 0, &subdirs, |p: &str| is_file(p)),
        Some(format!("{root}/game.state"))
    );
    assert_eq!(find_slot(&dirs, rom, 4, &subdirs, |p: &str| is_file(p)), None);
}

#[test]
fn find_slot_looks_next_to_the_rom_when_states_live_in_the_content_dir() {
    let tmp = tempfile::tempdir().unwrap();
    let root = tmp.path().to_str().unwrap().to_string();
    let rom = format!("{root}/game.gbc");
    let _s1 = file_named(tmp.path(), "game.state1");
    let dirs = StateDirs {
        savestate_directory: "/nonexistent".to_string(),
        sort_by_core: false,
        sort_by_content: false,
        in_content_dir: true,
    };
    assert_eq!(
        find_slot(&dirs, &rom, 1, &vec![], |p: &str| is_file(p)),
        Some(format!("{root}/game.state1"))
    );
}

#[test]
fn find_slot_takes_the_first_candidate_that_has_the_file() {
    let dirs = dirs(false, false, false);
    let subdirs = vec!["/states/a".to_string(), "/states/b".to_string()];
    let mut asked = Vec::new();
    let found = find_slot(&dirs, "/roms/zelda.gbc", 2, &subdirs, |p: &str| {
        p == "/states/a/zelda.state2" || p == "/states/b/zelda.state2"
    });
    assert_eq!(found, Some("/states/a/zelda.state2".to_string()));
    for d in ["/states", "/states/a", "/states/b"] {
        asked.push(format!("{d}/zelda.state2"));
    }
    assert_eq!(find_slot(&dirs, "/roms/zelda.gbc", 2, &subdirs, |p: &str| p == asked[2]), Some(asked[2].clone()));
    assert_eq!(find_slot(&dirs, "/roms/zelda.gbc", 2, &subdirs, |_: &str| false), None);
}
