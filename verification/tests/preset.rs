use ra_metal_capture::core_path::resolve_core;
use ra_metal_capture::preset::{override_preset, split_param};

#[test]
fn split_param_takes_the_name_and_the_value_text() {
    assert_eq!(
        split_param("CRT_GAMMA=2.4"),
        Ok(("CRT_GAMMA".to_string(), "2.4".to_string()))
    );
    assert_eq!(
        split_param(" scanline_weight = -0.5 "),
        Ok(("scanline_weight".to_string(), "-0.5".to_string()))
    );
    // Only the first `=` splits; the value is for the caller to parse.
    assert_eq!(split_param("a=b=1"), Ok(("a".to_string(), "b=1".to_string())));
    assert_eq!(split_param("a="), Ok(("a".to_string(), String::new())));
}

#[test]
fn split_param_refuses_a_missing_equals_or_a_bad_name() {
    assert_eq!(split_param("a"), Err("expected NAME=VALUE, got \"a\"".to_string()));
    assert_eq!(split_param("=1"), Err("bad parameter name in \"=1\"".to_string()));
    assert_eq!(split_param("a b=1"), Err("bad parameter name in \"a b=1\"".to_string()));
}

#[test]
fn override_preset_references_the_original() {
    let (path, line) = override_preset("/shaders/crt/royale.slangp", "/tmp/run").unwrap();
    assert_eq!(path, "/tmp/run/override.slangp");
    assert_eq!(line, "#reference \"/shaders/crt/royale.slangp\"\n");
}

#[test]
fn override_preset_keeps_a_glslp_extension() {
    let (path, _) = override_preset("/s/x.glslp", "/tmp/run").unwrap();
    assert_eq!(path, "/tmp/run/override.glslp");
    let (path, _) = override_preset("/s/noext", "/tmp/run").unwrap();
    assert_eq!(path, "/tmp/run/override.slangp");
}

#[test]
fn override_preset_refuses_a_path_the_format_cannot_carry() {
    assert!(override_preset("/s/a\"b.slangp", "/tmp/run").is_err());
    assert!(override_preset("/s/a\nb.slangp", "/tmp/run").is_err());
    assert_eq!(
        override_preset("/s/a\rb.slangp", "/tmp/run").unwrap_err(),
        "/s/a\rb.slangp contains a quote or newline, which a preset reference cannot carry"
    );
}

#[test]
fn unknown_core_errors_listing_what_was_tried() {
    let tmp = tempfile::tempdir().unwrap();
    let dir = tmp.path().to_str().unwrap();
    let err = resolve_core("nope", dir).unwrap_err();
    assert!(err.contains("nope_libretro.dylib"), "{err}");
    assert_eq!(
        err,
        format!("core \"nope\" not found; tried {dir}/nope and {dir}/nope_libretro.dylib")
    );
}
