use ra_metal_capture::config::Size;
use ra_metal_capture::hosted::libretro::env::{
    environment, video_refresh, EnvAnswer, EnvData, EnvWrite, Shared,
    RETRO_ENVIRONMENT_EXPERIMENTAL, RETRO_ENVIRONMENT_GET_CAN_DUPE,
    RETRO_ENVIRONMENT_GET_CORE_OPTIONS_VERSION, RETRO_ENVIRONMENT_GET_VARIABLE,
    RETRO_ENVIRONMENT_PRIVATE, RETRO_ENVIRONMENT_SET_CORE_OPTIONS,
    RETRO_ENVIRONMENT_SET_CORE_OPTIONS_INTL, RETRO_ENVIRONMENT_SET_CORE_OPTIONS_V2,
    RETRO_ENVIRONMENT_SET_CORE_OPTIONS_V2_INTL, RETRO_ENVIRONMENT_SET_HW_RENDER,
    RETRO_ENVIRONMENT_SET_PIXEL_FORMAT, RETRO_ENVIRONMENT_SET_VARIABLES,
};
use ra_metal_capture::hosted::libretro::pixels::PixelFormat;

fn answered(a: &EnvAnswer) -> (bool, EnvWrite) {
    (a.handled, a.write.clone())
}

/// What `GET_VARIABLE` answers for `key`.
fn lookup(s: &mut Shared, key: &str) -> Option<String> {
    let a = environment(s, RETRO_ENVIRONMENT_GET_VARIABLE, EnvData::Key(Some(key.to_string())));
    assert!(a.handled);
    match a.write {
        EnvWrite::Value(v) => v,
        other => panic!("GET_VARIABLE wrote {other:?}"),
    }
}

fn some(s: &str) -> Option<String> {
    Some(s.to_string())
}

#[test]
fn can_dupe_is_answered_true_through_the_out_pointer() {
    let mut s = Shared::default();
    let a = environment(&mut s, RETRO_ENVIRONMENT_GET_CAN_DUPE, EnvData::Out);
    assert_eq!(answered(&a), (true, EnvWrite::Flag(true)));
}

#[test]
fn experimental_bit_is_ignored_but_private_bit_refuses() {
    let mut s = Shared::default();
    let a = environment(
        &mut s,
        RETRO_ENVIRONMENT_GET_CAN_DUPE | RETRO_ENVIRONMENT_EXPERIMENTAL,
        EnvData::Out,
    );
    assert_eq!(answered(&a), (true, EnvWrite::Flag(true)));
    let a = environment(
        &mut s,
        RETRO_ENVIRONMENT_GET_CAN_DUPE | RETRO_ENVIRONMENT_PRIVATE,
        EnvData::Out,
    );
    assert_eq!(answered(&a), (false, EnvWrite::Nothing), "a private command must not write");
}

#[test]
fn option_declarations_are_acknowledged_even_with_null_data() {
    let mut s = Shared::default();
    for cmd in [
        RETRO_ENVIRONMENT_SET_VARIABLES,
        RETRO_ENVIRONMENT_SET_CORE_OPTIONS,
        RETRO_ENVIRONMENT_SET_CORE_OPTIONS_INTL,
        RETRO_ENVIRONMENT_SET_CORE_OPTIONS_V2,
        RETRO_ENVIRONMENT_SET_CORE_OPTIONS_V2_INTL,
    ] {
        assert!(environment(&mut s, cmd, EnvData::Null).handled, "cmd {cmd}");
    }
}

#[test]
fn set_variables_registers_the_first_listed_option_as_the_default() {
    let mut s = Shared::default();
    let list = vec![
        ("snes9x_hires_blend".to_string(), some("Hires blending; disabled|merge|blur")),
        ("snes9x_region".to_string(), some("Region; auto|ntsc|pal")),
    ];
    assert!(environment(&mut s, RETRO_ENVIRONMENT_SET_VARIABLES, EnvData::Variables(list)).handled);
    assert_eq!(lookup(&mut s, "snes9x_hires_blend"), some("disabled"));
    assert_eq!(lookup(&mut s, "snes9x_region"), some("auto"));
    assert_eq!(lookup(&mut s, "snes9x_other"), None);
}

#[test]
fn set_core_options_v1_uses_default_value_or_else_the_first_value() {
    let defs = || {
        vec![
            ("a".to_string(), some("y"), some("x")),
            ("b".to_string(), None, some("x")),
        ]
    };
    let mut s = Shared::default();
    assert!(environment(&mut s, RETRO_ENVIRONMENT_SET_CORE_OPTIONS, EnvData::Definitions(defs())).handled);
    assert_eq!(lookup(&mut s, "a"), some("y"));
    assert_eq!(lookup(&mut s, "b"), some("x"));

    // The intl form carries the same table under `us`.
    let mut s = Shared::default();
    assert!(
        environment(&mut s, RETRO_ENVIRONMENT_SET_CORE_OPTIONS_INTL, EnvData::Definitions(defs()))
            .handled
    );
    assert_eq!(lookup(&mut s, "a"), some("y"));
}

#[test]
fn set_core_options_v2_and_its_intl_form_register_the_definitions() {
    let defs = || vec![("snes9x_up_down_allowed".to_string(), None, some("disabled"))];
    let mut s = Shared::default();
    assert!(
        environment(&mut s, RETRO_ENVIRONMENT_SET_CORE_OPTIONS_V2, EnvData::Definitions(defs()))
            .handled
    );
    assert_eq!(lookup(&mut s, "snes9x_up_down_allowed"), some("disabled"));

    let mut s = Shared::default();
    assert!(
        environment(&mut s, RETRO_ENVIRONMENT_SET_CORE_OPTIONS_V2_INTL, EnvData::Definitions(defs()))
            .handled
    );
    assert_eq!(lookup(&mut s, "snes9x_up_down_allowed"), some("disabled"));
}

#[test]
fn a_core_options_file_value_overrides_a_registered_default() {
    let mut s = Shared::default();
    s.options.insert("snes9x_region".to_string(), "pal".to_string());
    let list = vec![("snes9x_region".to_string(), some("Region; auto|ntsc|pal"))];
    assert!(environment(&mut s, RETRO_ENVIRONMENT_SET_VARIABLES, EnvData::Variables(list)).handled);
    assert_eq!(lookup(&mut s, "snes9x_region"), some("pal"));
}

#[test]
fn core_options_version_probe_answers_two() {
    let mut s = Shared::default();
    let a = environment(&mut s, RETRO_ENVIRONMENT_GET_CORE_OPTIONS_VERSION, EnvData::Out);
    assert_eq!(answered(&a), (true, EnvWrite::Number(2)));
}

#[test]
fn unknown_commands_and_null_data_are_refused_except_the_variable_probe() {
    let mut s = Shared::default();
    assert!(!environment(&mut s, 9999, EnvData::Out).handled);
    assert!(!environment(&mut s, RETRO_ENVIRONMENT_GET_CAN_DUPE, EnvData::Null).handled);
    assert!(environment(&mut s, RETRO_ENVIRONMENT_GET_VARIABLE, EnvData::Null).handled);
}

#[test]
fn get_variable_answers_true_and_signals_unknown_keys_with_a_null_value() {
    let mut s = Shared::default();
    s.options.insert("sameboy_model".to_string(), "Auto".to_string());
    assert_eq!(lookup(&mut s, "sameboy_model"), some("Auto"));
    assert_eq!(lookup(&mut s, "nope"), None);
    let a = environment(&mut s, RETRO_ENVIRONMENT_GET_VARIABLE, EnvData::Key(None));
    assert_eq!(answered(&a), (true, EnvWrite::Value(None)));
}

#[test]
fn pixel_format_maps_the_three_known_values_and_refuses_others() {
    let mut s = Shared::default();
    for (raw, want) in [
        (0u32, PixelFormat::Xrgb1555),
        (1, PixelFormat::Xrgb8888),
        (2, PixelFormat::Rgb565),
    ] {
        assert!(environment(&mut s, RETRO_ENVIRONMENT_SET_PIXEL_FORMAT, EnvData::Format(raw)).handled);
        assert_eq!(s.pixel_format, want);
    }
    assert!(!environment(&mut s, RETRO_ENVIRONMENT_SET_PIXEL_FORMAT, EnvData::Format(7)).handled);
    assert_eq!(s.pixel_format, PixelFormat::Rgb565, "unchanged");
}

#[test]
fn hw_render_is_refused_and_remembered() {
    let mut s = Shared::default();
    assert!(!environment(&mut s, RETRO_ENVIRONMENT_SET_HW_RENDER, EnvData::Out).handled);
    assert!(s.asked_for_hw_render);
}

#[test]
fn video_refresh_copies_a_frame_sized_to_what_the_core_owns() {
    let mut s = Shared::default();
    s.pixel_format = PixelFormat::Xrgb8888;
    // 2x2 XRGB8888 with a pitch of 12: the last row carries no padding.
    let buf: [u8; 20] = [
        1, 2, 3, 0, 4, 5, 6, 0, 9, 9, 9, 9, // row 0 plus padding
        7, 8, 9, 0, 10, 11, 12, 0, // row 1, exactly width * 4
    ];
    video_refresh(&mut s, Some(&buf), 2, 2, 12);
    let frame = s.frame.clone().expect("a frame");
    assert_eq!(frame.size, Size { width: 2, height: 2 });
    assert_eq!(frame.pixels, [1, 2, 3, 255, 4, 5, 6, 255, 7, 8, 9, 255, 10, 11, 12, 255]);
}

#[test]
fn video_refresh_keeps_the_previous_frame_on_a_dupe_and_drops_bad_geometry() {
    let mut s = Shared::default();
    s.pixel_format = PixelFormat::Xrgb8888;
    let buf = [0u8; 4];
    video_refresh(&mut s, Some(&buf), 1, 1, 4);
    assert!(s.frame.is_some());
    video_refresh(&mut s, None, 1, 1, 4);
    assert!(s.frame.is_some(), "dupe keeps the previous frame");
    // A row wider than the pitch is refused before any read.
    video_refresh(&mut s, Some(&buf), 4, 1, 4);
    assert!(s.frame.is_none());
}
