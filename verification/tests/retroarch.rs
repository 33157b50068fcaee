use ra_metal_capture::config::{Size, WindowMode};
use ra_metal_capture::retroarch::app::resolve_binary;
use ra_metal_capture::retroarch::appendconfig::{self, AppendConfig};
use ra_metal_capture::retroarch::entitle::{has_get_task_allow, ENTITLEMENT};
use ra_metal_capture::retroarch::remote::{parse_status, probe_free, Status};
use ra_metal_capture::retroarch::runconfig::{self, PausedConfig, RunConfig};
use ra_metal_capture::retroarch::RetroArch;
use ra_metal_capture::backend::Source;
use ra_metal_capture::layout::{DirResolver, RetroArchDirs};
use ra_metal_capture::state::StateDirs;

/// An empty directory or file named exactly `name` inside `dir`.
fn dir_named(dir: &std::path::Path, name: &str) -> tempfile::TempDir {
    tempfile::Builder::new().rand_bytes(0).prefix(name).tempdir_in(dir).unwrap()
}

fn file_named(dir: &std::path::Path, name: &str) -> tempfile::NamedTempFile {
    tempfile::Builder::new().rand_bytes(0).prefix(name).tempfile_in(dir).unwrap()
}

#[test]
fn retroarch_defaults_name_the_stock_app_and_port() {
    let d = RetroArch::default();
    assert_eq!(d.app, "/Applications/RetroArch.app");
    assert_eq!(d.cmd_port, 55355);
    assert!(!d.keep_running);
}

#[test]
fn mod_defaults_name_the_stock_app_and_port() {
    let d = RetroArch::default();
    assert_eq!(std::path::PathBuf::from(&d.app), std::path::PathBuf::from("/Applications/RetroArch.app"));
    assert_eq!(d.cmd_port, 55355);
    assert!(!d.keep_running);
}

#[test]
fn missing_path_errors() {
    let err = resolve_binary("/nonexistent/RetroArch.app").unwrap_err();
    assert!(err.contains("not found"), "{err}");
}

#[test]
fn app_bundle_resolves_to_inner_binary() {
    let tmp = tempfile::tempdir().unwrap();
    let app = dir_named(tmp.path(), "RetroArch.app");
    let contents = dir_named(app.path(), "Contents");
    let macos = dir_named(contents.path(), "MacOS");
    let binary = file_named(macos.path(), "RetroArch");
    assert_eq!(
        resolve_binary(app.path().to_str().unwrap()).unwrap(),
        binary.path().to_str().unwrap()
    );
    let other = tempfile::tempdir().unwrap();
    let bare = file_named(other.path(), "RetroArch");
    assert_eq!(
        resolve_binary(bare.path().to_str().unwrap()).unwrap(),
        bare.path().to_str().unwrap()
    );
    let empty = dir_named(tmp.path(), "Empty.app");
    let _contents = dir_named(empty.path(), "Contents");
    let err = resolve_binary(empty.path().to_str().unwrap()).unwrap_err();
    assert!(err.contains("Contents/MacOS/RetroArch"), "{err}");
}

#[test]
fn appendconfig_config_safe_rejects_quotes_and_newlines() {
    assert!(appendconfig::is_config_safe("/tmp/ra-metal-capture-abc"));
    assert!(!appendconfig::is_config_safe("/tmp/a\"b"));
    assert!(!appendconfig::is_config_safe("/tmp/a\nb"));
}

const APPEND_COMMON: &str = "config_save_on_exit = \"false\"\n\
savestate_auto_save = \"false\"\n\
savestate_auto_load = \"false\"\n\
pause_nonactive = \"false\"\n\
menu_show_load_content_animation = \"false\"\n\
video_font_enable = \"false\"\n";

fn append(window: WindowMode) -> AppendConfig {
    AppendConfig {
        window,
        staged_states_dir: None,
        paused: None,
        image_viewer: false,
    }
}

#[test]
fn appendconfig_render_fill_mode() {
    let cfg = append(WindowMode::Fill {
        max: Size {
            width: 2488,
            height: 1382,
        },
    });
    let expected = format!(
        "{APPEND_COMMON}video_fullscreen = \"false\"\n\
video_window_save_positions = \"false\"\n\
video_scale = \"20\"\n\
video_window_auto_width_max = \"2488\"\n\
video_window_auto_height_max = \"1382\"\n"
    );
    assert_eq!(cfg.render(), expected);
}

#[test]
fn appendconfig_render_size_mode() {
    let cfg = append(WindowMode::Exact(Size {
        width: 1600,
        height: 1440,
    }));
    let expected = format!(
        "{APPEND_COMMON}video_fullscreen = \"false\"\n\
video_window_save_positions = \"true\"\n\
video_windowed_position_width = \"1600\"\n\
video_windowed_position_height = \"1440\"\n"
    );
    assert_eq!(cfg.render(), expected);
}

#[test]
fn appendconfig_render_scale_mode() {
    let cfg = append(WindowMode::Scale(4));
    let expected = format!(
        "{APPEND_COMMON}video_fullscreen = \"false\"\n\
video_window_save_positions = \"false\"\n\
video_scale = \"4\"\n\
video_window_auto_width_max = \"0\"\n\
video_window_auto_height_max = \"0\"\n\
video_fullscreen_x = \"0\"\n\
video_fullscreen_y = \"0\"\n"
    );
    assert_eq!(cfg.render(), expected);
}

#[test]
fn appendconfig_render_fullscreen_adds_nothing() {
    assert_eq!(append(WindowMode::Fullscreen).render(), APPEND_COMMON);
}

#[test]
fn render_fill_mode_with_staged_states_dir() {
    let mut cfg = append(WindowMode::Fill {
        max: Size {
            width: 2488,
            height: 1382,
        },
    });
    cfg.staged_states_dir = Some("/tmp/x/states".to_string());
    let expected = format!(
        "{APPEND_COMMON}video_fullscreen = \"false\"\n\
video_window_save_positions = \"false\"\n\
video_scale = \"20\"\n\
video_window_auto_width_max = \"2488\"\n\
video_window_auto_height_max = \"1382\"\n\
savestate_directory = \"/tmp/x/states\"\n\
sort_savestates_enable = \"false\"\n\
sort_savestates_by_content_enable = \"false\"\n\
savestates_in_content_dir = \"false\"\n"
    );
    assert_eq!(cfg.render(), expected);
}

#[test]
fn render_staged_states_dir() {
    let mut cfg = append(WindowMode::Fullscreen);
    cfg.staged_states_dir = Some("/tmp/x/states".to_string());
    let expected = format!(
        "{APPEND_COMMON}savestate_directory = \"/tmp/x/states\"\n\
sort_savestates_enable = \"false\"\n\
sort_savestates_by_content_enable = \"false\"\n\
savestates_in_content_dir = \"false\"\n"
    );
    assert_eq!(cfg.render(), expected);
}

#[test]
fn render_paused_keys_after_staged_states() {
    let mut cfg = append(WindowMode::Fullscreen);
    cfg.staged_states_dir = Some("/tmp/x/states".to_string());
    cfg.paused = Some(appendconfig::PausedConfig {
        port: 55355,
        slot: 0,
    });
    let expected = format!(
        "{APPEND_COMMON}savestate_directory = \"/tmp/x/states\"\n\
sort_savestates_enable = \"false\"\n\
sort_savestates_by_content_enable = \"false\"\n\
savestates_in_content_dir = \"false\"\n\
network_cmd_enable = \"true\"\n\
network_cmd_port = \"55355\"\n\
state_slot = \"0\"\n"
    );
    assert_eq!(cfg.render(), expected);
}

#[test]
fn render_paused_with_slot_and_no_staging() {
    let mut cfg = append(WindowMode::Fullscreen);
    cfg.paused = Some(appendconfig::PausedConfig {
        port: 60000,
        slot: 3,
    });
    let expected = format!(
        "{APPEND_COMMON}network_cmd_enable = \"true\"\n\
network_cmd_port = \"60000\"\n\
state_slot = \"3\"\n"
    );
    assert_eq!(cfg.render(), expected);
}

#[test]
fn appendconfig_render_image_viewer_key_last() {
    let mut cfg = append(WindowMode::Fullscreen);
    cfg.image_viewer = true;
    assert_eq!(
        cfg.render(),
        format!("{APPEND_COMMON}builtin_imageviewer_enable = \"true\"\n")
    );
}

#[test]
fn runconfig_config_safe_rejects_quotes_and_newlines() {
    assert!(runconfig::is_config_safe("/tmp/ra-metal-capture-abc"));
    assert!(!runconfig::is_config_safe("/tmp/a\"b"));
    assert!(!runconfig::is_config_safe("/tmp/a\nb"));
    assert!(!runconfig::is_config_safe("/tmp/a\rb"));
}

const RUN_COMMON: &str = "config_save_on_exit = \"false\"\n\
video_driver = \"vulkan\"\n\
video_shader_enable = \"true\"\n\
system_directory = \"/sys\"\n\
savefile_directory = \"/tmp/x/saves\"\n\
sort_savefiles_enable = \"false\"\n\
sort_savefiles_by_content_enable = \"false\"\n\
savefiles_in_content_dir = \"false\"\n\
savestate_auto_save = \"false\"\n\
savestate_auto_load = \"false\"\n\
global_core_options = \"true\"\n\
core_options_path = \"/tmp/x/core-options.cfg\"\n\
game_specific_options = \"false\"\n\
auto_overrides_enable = \"false\"\n\
auto_remaps_enable = \"false\"\n\
auto_shaders_enable = \"false\"\n\
history_list_enable = \"false\"\n\
pause_nonactive = \"false\"\n\
menu_show_load_content_animation = \"false\"\n\
video_font_enable = \"false\"\n";

fn base(window: WindowMode) -> RunConfig {
    RunConfig {
        window,
        system_dir: "/sys".to_string(),
        savefile_dir: "/tmp/x/saves".to_string(),
        core_options: "/tmp/x/core-options.cfg".to_string(),
        paused: None,
        image_viewer: false,
    }
}

fn staged_states() -> StateDirs {
    StateDirs {
        savestate_directory: "/tmp/x/states".to_string(),
        sort_by_core: false,
        sort_by_content: false,
        in_content_dir: false,
    }
}

#[test]
fn runconfig_render_fill_mode() {
    let cfg = base(WindowMode::Fill {
        max: Size {
            width: 2488,
            height: 1382,
        },
    });
    let expected = format!(
        "{RUN_COMMON}video_fullscreen = \"false\"\n\
video_window_save_positions = \"false\"\n\
video_scale = \"20\"\n\
video_window_auto_width_max = \"2488\"\n\
video_window_auto_height_max = \"1382\"\n"
    );
    assert_eq!(cfg.render().unwrap(), expected);
}

#[test]
fn runconfig_render_size_mode() {
    let cfg = base(WindowMode::Exact(Size {
        width: 1600,
        height: 1440,
    }));
    let expected = format!(
        "{RUN_COMMON}video_fullscreen = \"false\"\n\
video_window_save_positions = \"true\"\n\
video_windowed_position_width = \"1600\"\n\
video_windowed_position_height = \"1440\"\n"
    );
    assert_eq!(cfg.render().unwrap(), expected);
}

#[test]
fn runconfig_render_scale_mode() {
    let cfg = base(WindowMode::Scale(4));
    let expected = format!(
        "{RUN_COMMON}video_fullscreen = \"false\"\n\
video_window_save_positions = \"false\"\n\
video_scale = \"4\"\n\
video_window_auto_width_max = \"0\"\n\
video_window_auto_height_max = \"0\"\n\
video_fullscreen_x = \"0\"\n\
video_fullscreen_y = \"0\"\n"
    );
    assert_eq!(cfg.render().unwrap(), expected);
}

#[test]
fn runconfig_render_fullscreen_adds_nothing() {
    assert_eq!(base(WindowMode::Fullscreen).render().unwrap(), RUN_COMMON);
}

#[test]
fn render_paused_with_a_staged_state() {
    let mut cfg = base(WindowMode::Fullscreen);
    cfg.paused = Some(PausedConfig {
        port: 55355,
        slot: 0,
        states: staged_states(),
    });
    let expected = format!(
        "{RUN_COMMON}savestate_directory = \"/tmp/x/states\"\n\
sort_savestates_enable = \"false\"\n\
sort_savestates_by_content_enable = \"false\"\n\
savestates_in_content_dir = \"false\"\n\
network_cmd_enable = \"true\"\n\
network_cmd_port = \"55355\"\n\
state_slot = \"0\"\n"
    );
    assert_eq!(cfg.render().unwrap(), expected);
}

#[test]
fn render_paused_with_a_slot_in_the_users_layout() {
    let mut cfg = base(WindowMode::Fullscreen);
    cfg.paused = Some(PausedConfig {
        port: 60000,
        slot: 3,
        states: StateDirs {
            savestate_directory: "/Users/u/Documents/RetroArch/states".to_string(),
            sort_by_core: true,
            sort_by_content: false,
            in_content_dir: false,
        },
    });
    let expected = format!(
        "{RUN_COMMON}savestate_directory = \"/Users/u/Documents/RetroArch/states\"\n\
sort_savestates_enable = \"true\"\n\
sort_savestates_by_content_enable = \"false\"\n\
savestates_in_content_dir = \"false\"\n\
network_cmd_enable = \"true\"\n\
network_cmd_port = \"60000\"\n\
state_slot = \"3\"\n"
    );
    assert_eq!(cfg.render().unwrap(), expected);
}

#[test]
fn runconfig_render_image_viewer_key_last() {
    let mut cfg = base(WindowMode::Fullscreen);
    cfg.image_viewer = true;
    assert_eq!(
        cfg.render().unwrap(),
        format!("{RUN_COMMON}builtin_imageviewer_enable = \"true\"\n")
    );
}

#[test]
fn render_refuses_a_path_the_format_cannot_carry() {
    let mut cfg = base(WindowMode::Fullscreen);
    cfg.system_dir = "/sys\"tem".to_string();
    let err = cfg.render().unwrap_err();
    assert!(err.contains("quote"), "{err}");
    let mut cfg = base(WindowMode::Fullscreen);
    cfg.paused = Some(PausedConfig {
        port: 1,
        slot: 0,
        states: StateDirs {
            savestate_directory: "/st\nates".to_string(),
            ..staged_states()
        },
    });
    assert!(cfg.render().is_err());
}

#[test]
fn render_names_the_first_unsafe_path() {
    let mut cfg = base(WindowMode::Fullscreen);
    cfg.savefile_dir = "/a\rb".to_string();
    cfg.core_options = "/c\"d".to_string();
    assert_eq!(
        cfg.render().unwrap_err(),
        "/a\rb contains a quote or newline, which a retroarch.cfg value cannot carry"
    );
}

const ENTITLED: &str = "Executable=/Applications/RetroArch.app/Contents/MacOS/RetroArch\n\
    [Dict]\n\t[Key] com.apple.security.get-task-allow\n\t[Value]\n\t\t[Bool] true\n";

#[test]
fn entitled_dump_is_recognised() {
    assert!(has_get_task_allow(ENTITLED));
    assert_eq!(ENTITLEMENT, "com.apple.security.get-task-allow");
}

#[test]
fn dump_without_the_key_is_not() {
    let dump = "Executable=/Applications/RetroArch.app/Contents/MacOS/RetroArch\n\
        [Dict]\n\t[Key] com.apple.security.cs.allow-jit\n\t[Value]\n\t\t[Bool] true\n";
    assert!(!has_get_task_allow(dump));
    assert!(!has_get_task_allow(""));
}

#[test]
fn key_set_to_false_is_not() {
    let dump = "[Dict]\n\t[Key] com.apple.security.get-task-allow\n\t[Value]\n\t\t[Bool] false\n";
    assert!(!has_get_task_allow(dump));
}

#[test]
fn only_the_first_bool_after_the_key_counts() {
    let dump = "[Key] com.apple.security.get-task-allow\n[Bool] false\n[Bool] true\n";
    assert!(!has_get_task_allow(dump));
    let dump = "[Bool] false\n[Key] com.apple.security.get-task-allow\r\n  [Bool] true  \n";
    assert!(has_get_task_allow(dump));
}

#[test]
fn parses_status_replies() {
    assert_eq!(
        parse_status("GET_STATUS PLAYING game_boy,Zelda,crc32=1"),
        Status::Playing
    );
    assert_eq!(
        parse_status("GET_STATUS PAUSED game_boy,Zelda,crc32=1"),
        Status::Paused
    );
    assert_eq!(parse_status("GET_STATUS CONTENTLESS"), Status::Contentless);
    assert_eq!(
        parse_status("GET_STATUS ERROR"),
        Status::Other("GET_STATUS ERROR".into())
    );
    assert_eq!(parse_status("garbage"), Status::Other("garbage".into()));
}

#[test]
fn status_text_is_what_a_wait_reports() {
    assert_eq!(Status::Paused.text(), "PAUSED");
    assert_eq!(parse_status("  odd reply \n").text(), "odd reply");
}

#[test]
fn probe_free_errors_when_something_answers() {
    let err = probe_free(55355, true).unwrap_err();
    assert!(err.contains("already answers"), "{err}");
    assert_eq!(
        err,
        "UDP port 55355 already answers GET_STATUS; another RetroArch has the command interface on it, choose --cmd-port"
    );
    assert!(probe_free(55355, false).is_ok());
}

#[test]
fn a_rendered_run_config_reads_back_as_written() {
    let mut c = base(WindowMode::Scale(3));
    c.system_dir = "/Users/me/Retro Arch/system = here".to_string();
    let text = c.render().unwrap();
    let m = ra_metal_capture::config::read_all(&text);
    assert_eq!(m.get("system_directory").unwrap(), "/Users/me/Retro Arch/system = here");
    assert_eq!(m.get("savefile_directory").unwrap(), "/tmp/x/saves");
    assert_eq!(m.get("video_scale").unwrap(), "3");
    assert_eq!(m.get("video_fullscreen").unwrap(), "false");
}

fn no_config() -> Option<String> {
    None
}

#[test]
fn rejects_the_extension_override_before_launching() {
    // The app path does not exist either; the request is refused before
    // the app is resolved, so the message is about the override.
    let backend = RetroArch {
        app: "/nonexistent/RetroArch.app".to_string(),
        ..RetroArch::default()
    };
    let mut dirs = DirResolver::new(RetroArchDirs::defaults(Some("/nonexistent")), no_config, false, None);
    let err = backend
        .resolve(
            &Source::Core {
                core: "c".into(),
                rom: "r".into(),
                state: None,
                options: None,
                skip_extension_check: true,
            },
            "/nonexistent/x.slangp",
            &mut dirs,
        )
        .unwrap_err();
    assert!(err.contains("--skip-extension-check"), "{err}");
}

#[test]
fn resolve_reports_a_missing_rom_then_a_missing_preset() {
    let backend = RetroArch {
        app: "/nonexistent/RetroArch.app".to_string(),
        ..RetroArch::default()
    };
    let mut dirs = DirResolver::new(RetroArchDirs::defaults(Some("/nonexistent")), no_config, false, None);
    let core = Source::Core {
        core: "c".into(),
        rom: "/nonexistent/r.gb".into(),
        state: None,
        options: None,
        skip_extension_check: false,
    };
    assert_eq!(
        backend.resolve(&core, "/nonexistent/x.slangp", &mut dirs).unwrap_err(),
        "ROM not found at /nonexistent/r.gb"
    );
    let tmp = tempfile::tempdir().unwrap();
    let image = file_named(tmp.path(), "sample.png");
    let source = Source::Image(image.path().to_str().unwrap().to_string());
    assert_eq!(
        backend.resolve(&source, "/nonexistent/x.slangp", &mut dirs).unwrap_err(),
        "shader preset not found at /nonexistent/x.slangp"
    );
    let preset = file_named(tmp.path(), "x.slangp");
    assert_eq!(
        backend
            .resolve(&source, preset.path().to_str().unwrap(), &mut dirs)
            .unwrap_err(),
        "RetroArch app not found at /nonexistent/RetroArch.app"
    );
}

#[test]
fn what_retroarch_reads_from_a_paused_run_config() {
    let mut c = base(WindowMode::Fill { max: Size { width: 800, height: 600 } });
    c.paused = Some(PausedConfig {
        port: 55400,
        slot: 3,
        states: staged_states(),
    });
    let m = ra_metal_capture::config::read_all(&c.render().unwrap());
    assert_eq!(m.get("config_save_on_exit").unwrap(), "false");
    assert_eq!(m.get("savestate_auto_save").unwrap(), "false");
    assert_eq!(m.get("savestate_auto_load").unwrap(), "false");
    assert_eq!(m.get("pause_nonactive").unwrap(), "false");
    assert_eq!(m.get("network_cmd_enable").unwrap(), "true");
    assert_eq!(m.get("network_cmd_port").unwrap(), "55400");
    assert_eq!(m.get("state_slot").unwrap(), "3");
    assert_eq!(m.get("savestate_directory").unwrap(), "/tmp/x/states");
    let settle = ra_metal_capture::config::read_all(&base(WindowMode::Fullscreen).render().unwrap());
    assert!(!settle.contains_key("network_cmd_enable"));
    assert_eq!(settle.get("core_options_path").unwrap(), "/tmp/x/core-options.cfg");
}

#[test]
fn what_retroarch_reads_from_an_appendconfig() {
    let mut c = append(WindowMode::Scale(2));
    c.staged_states_dir = Some("/tmp/run/states".to_string());
    c.paused = Some(appendconfig::PausedConfig { port: 55355, slot: 0 });
    let m = ra_metal_capture::config::read_all(&c.render());
    assert_eq!(m.get("config_save_on_exit").unwrap(), "false");
    assert_eq!(m.get("savestate_auto_load").unwrap(), "false");
    assert_eq!(m.get("savestate_directory").unwrap(), "/tmp/run/states");
    assert_eq!(m.get("network_cmd_port").unwrap(), "55355");
    assert_eq!(m.get("state_slot").unwrap(), "0");
    assert_eq!(m.get("video_scale").unwrap(), "2");
    let plain = ra_metal_capture::config::read_all(&append(WindowMode::Fullscreen).render());
    assert!(!plain.contains_key("network_cmd_enable"));
    assert_eq!(plain.len(), 6);
}

#[test]
fn a_run_config_names_each_key_once() {
    for window in [
        WindowMode::Fill { max: Size { width: 800, height: 600 } },
        WindowMode::Exact(Size { width: 640, height: 480 }),
        WindowMode::Scale(3),
        WindowMode::Fullscreen,
    ] {
        let mut c = base(window);
        c.paused = Some(PausedConfig { port: 55400, slot: 1, states: staged_states() });
        c.image_viewer = true;
        let text = c.render().unwrap();
        let m = ra_metal_capture::config::read_all(&text);
        assert_eq!(m.len(), text.lines().count());
    }
}

fn user_layout(states: &str) -> RetroArchDirs {
    RetroArchDirs {
        libretro_dir: "/c/cores".to_string(),
        system_dir: "/c/system".to_string(),
        states: StateDirs {
            savestate_directory: states.to_string(),
            sort_by_core: true,
            sort_by_content: false,
            in_content_dir: false,
        },
    }
}

#[test]
fn a_slot_capture_uses_the_states_layout_found() {
    let ra = RetroArch { cmd_port: 55400, ..RetroArch::default() };
    assert_eq!(
        ra.paused_from(3, Ok(user_layout("/c/states"))),
        Ok(PausedConfig { port: 55400, slot: 3, states: user_layout("/c/states").states })
    );
    assert_eq!(
        ra.paused_from(3, Err(vec!["/a/states".to_string(), "/c/states".to_string()])),
        Err("states directory not found at /a/states or /c/states".to_string())
    );
}
