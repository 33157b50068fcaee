use ra_metal_capture::launch::{build_command, LaunchCommand, LaunchPlan};

fn plan() -> LaunchPlan {
    LaunchPlan {
        binary: "/Applications/RetroArch.app/Contents/MacOS/RetroArch".to_string(),
        core: Some("/cores/sameboy_libretro.dylib".to_string()),
        rom: "/roms/z.gb".to_string(),
        shader: None,
        appendconfig: "/tmp/run/append.cfg".to_string(),
        fullscreen: false,
        verbose: false,
    }
}

#[test]
fn minimal_windowed_launch() {
    let cmd = build_command(&plan());
    assert_eq!(cmd.program, plan().binary);
    assert_eq!(
        cmd.args,
        [
            "-L",
            "/cores/sameboy_libretro.dylib",
            "--appendconfig",
            "/tmp/run/append.cfg",
            "/roms/z.gb",
        ]
    );
    assert_eq!(
        cmd.env,
        vec![("MTL_CAPTURE_ENABLED".to_string(), "1".to_string())]
    );
}

#[test]
fn fullscreen_shader_and_verbose_in_order() {
    let mut p = plan();
    p.fullscreen = true;
    p.shader = Some("/shaders/crt.slangp".to_string());
    p.verbose = true;
    let cmd = build_command(&p);
    assert_eq!(
        cmd.args,
        [
            "-L",
            "/cores/sameboy_libretro.dylib",
            "-f",
            "--set-shader",
            "/shaders/crt.slangp",
            "--appendconfig",
            "/tmp/run/append.cfg",
            "-v",
            "/roms/z.gb",
        ]
    );
}

#[test]
fn display_shows_env_program_and_quoted_args() {
    let s = build_command(&plan()).display();
    assert!(
        s.starts_with("MTL_CAPTURE_ENABLED=1 /Applications/RetroArch.app"),
        "{s}"
    );
    assert!(s.ends_with("\"/roms/z.gb\""), "{s}");
    let c = LaunchCommand {
        program: "p".to_string(),
        args: vec!["a b".to_string(), "q\"".to_string()],
        env: vec![("A".to_string(), "1".to_string()), ("B".to_string(), "2".to_string())],
    };
    assert_eq!(c.display(), "A=1 B=2 p \"a b\" \"q\\\"\"");
}

#[test]
fn an_image_run_has_no_core_argument() {
    let mut p = plan();
    p.core = None;
    p.rom = "/images/sample.png".to_string();
    let cmd = build_command(&p);
    assert_eq!(cmd.args, ["--appendconfig", "/tmp/run/append.cfg", "/images/sample.png"]);
}
