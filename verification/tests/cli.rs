use ra_metal_capture::backend::{Source, StateSource};
use ra_metal_capture::cli::{
    librashader_only_flags, refuse_other_backend_flags, retroarch_only_flags, source_from,
    window_mode,
};
use ra_metal_capture::config::{Size, WindowMode};

#[test]
fn backend_only_flags_are_detected() {
    assert_eq!(retroarch_only_flags(true, true, true), ["--app", "--cmd-port", "--keep-running"]);
    assert!(retroarch_only_flags(false, false, false).is_empty());
    assert_eq!(retroarch_only_flags(false, true, false), ["--cmd-port"]);
}

#[test]
fn librashader_only_flags_are_detected() {
    assert_eq!(librashader_only_flags(true), ["--skip-extension-check"]);
    assert!(librashader_only_flags(false).is_empty());
}

#[test]
fn build_rejects_librashader_only_flags_under_retroarch() {
    let err = refuse_other_backend_flags(true, &["--skip-extension-check"]).unwrap();
    assert_eq!(err, "--skip-extension-check only applies to the librashader backend");
}

#[test]
fn build_rejects_retroarch_only_flags_under_librashader() {
    let err = refuse_other_backend_flags(false, &["--app", "--keep-running"]).unwrap();
    assert_eq!(
        err,
        "--app, --keep-running only apply to the RetroArch backend; add --backend retroarch or drop them"
    );
    let err = refuse_other_backend_flags(false, &["--cmd-port"]).unwrap();
    assert!(err.ends_with("drop it"), "{err}");
    assert!(refuse_other_backend_flags(false, &[]).is_none());
}

#[test]
fn window_modes_in_order_of_precedence() {
    let visible = Size {
        width: 2488,
        height: 1410,
    };
    let size = Size {
        width: 1600,
        height: 1440,
    };
    assert_eq!(window_mode(true, Some(size), Some(2), visible), WindowMode::Fullscreen);
    assert_eq!(window_mode(false, Some(size), Some(2), visible), WindowMode::Exact(size));
    assert_eq!(window_mode(false, None, Some(2), visible), WindowMode::Scale(2));
    assert_eq!(window_mode(false, None, None, visible), WindowMode::Fill { max: visible });
}

#[test]
fn source_prefers_the_image_then_a_state_file_over_a_slot() {
    assert_eq!(
        source_from(Some("i.png".into()), None, None, None, None, None, false),
        Ok(Source::Image("i.png".into()))
    );
    assert_eq!(
        source_from(None, Some("c".into()), Some("r".into()), Some("s".into()), Some(3), None, true),
        Ok(Source::Core {
            core: "c".into(),
            rom: "r".into(),
            state: Some(StateSource::File("s".into())),
            options: None,
            skip_extension_check: true,
        })
    );
    assert_eq!(
        source_from(None, Some("c".into()), None, None, None, None, false),
        Err("--image, or --core with --rom, is required".to_string())
    );
}
