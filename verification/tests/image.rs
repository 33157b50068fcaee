use ra_metal_capture::hosted::libretro::pixels::RETRO_PIXEL_FORMAT_XRGB2101010;
use ra_metal_capture::hosted::render::HdrMode;
use ra_metal_capture::image_core::{choose_format, Format};
use ra_metal_capture::image::{is_image_path, validate};
use ra_metal_capture::image_file::{has_extension, validate as validate_with};

fn sample_png() -> (tempfile::NamedTempFile, String) {
    let f = tempfile::Builder::new().prefix("sample").suffix(".png").tempfile().unwrap();
    let p = f.path().to_str().unwrap().to_string();
    (f, p)
}

#[test]
fn image_validate_checks_extension_then_existence() {
    let err = validate("Cargo.toml").unwrap_err();
    assert!(err.contains("extension"), "{err}");
    let err = validate("/nonexistent/x.png").unwrap_err();
    assert!(err.contains("not found"), "{err}");
    let (_tmp, png) = sample_png();
    validate(&png).unwrap();
}

#[test]
fn image_extension_check() {
    assert!(is_image_path("a.PNG"));
    assert!(is_image_path("b.jpeg"));
    assert!(!is_image_path("c.gbc"));
    assert!(!is_image_path("noext"));
}

#[test]
fn extension_check_is_case_insensitive_and_needs_one() {
    assert!(has_extension("a.PNG", &["png"]));
    assert!(has_extension("b.jpeg", &["png", "jpeg"]));
    assert!(!has_extension("c.gbc", &["png"]));
    assert!(!has_extension("noext", &["png"]));
}

#[test]
fn image_file_validate_checks_extension_then_existence() {
    let err = validate_with("Cargo.toml", &["png"], "the viewer").unwrap_err();
    assert!(err.contains("extension") && err.contains("the viewer"), "{err}");
    let err = validate_with("/nonexistent/x.png", &["png"], "the viewer").unwrap_err();
    assert!(err.contains("not found"), "{err}");
    let (_tmp, png) = sample_png();
    validate_with(&png, &["png"], "the viewer").unwrap();
}

#[test]
fn validate_messages_name_the_list_and_the_path() {
    assert_eq!(
        validate_with("/a/b.txt", &["png", "jpg"], "the viewer").unwrap_err(),
        "/a/b.txt does not have an image extension the viewer accepts (png, jpg)"
    );
    assert_eq!(
        validate_with("/nonexistent/x.PNG", &["png"], "the viewer").unwrap_err(),
        "image not found at /nonexistent/x.PNG"
    );
    assert!(!has_extension(".png", &["png"]));
}

#[test]
fn viewer_list_is_retroarchs_not_the_image_crates() {
    assert!(ra_metal_capture::retroarch::image::is_image_path("layers.psd"));
    assert!(!ra_metal_capture::retroarch::image::is_image_path("x.pam"));
    let err = ra_metal_capture::retroarch::image::validate("Cargo.toml").unwrap_err();
    assert!(err.contains("RetroArch's image viewer"), "{err}");
}

#[test]
fn the_test_core_takes_the_first_format_offered_and_encodes_for_it() {
    assert_eq!(choose_format(|_| true), Some(Format::Hdr10));
    assert_eq!(choose_format(|raw| raw == RETRO_PIXEL_FORMAT_XRGB2101010), Some(Format::Xrgb2101010));
    assert_eq!(choose_format(|_| false), None);
    assert_eq!(Format::Hdr10.hdr_mode(), HdrMode::Hdr10);
    assert_eq!(Format::Xrgb2101010.hdr_mode(), HdrMode::Off);
    assert_eq!(Format::Xrgb8888.hdr_mode(), HdrMode::Off);
}
