//! Validating paths for RetroArch's built-in image viewer core.
use crate::image_file::{spec_has_extension, spec_validate, view_unit_result};
use vstd::prelude::*;

verus! {

/// Path extensions RetroArch's built-in image viewer core's
/// `valid_extensions` accepts.
pub const EXTENSIONS: [&'static str; 11] = [
    "jpg",
    "jpeg",
    "png",
    "bmp",
    "psd",
    "tga",
    "gif",
    "hdr",
    "pic",
    "ppm",
    "pgm",
];

/// Whether `path` has an extension the built-in image viewer core accepts,
/// checked case-insensitively.
pub fn is_image_path(path: &str) -> (b: bool)
    ensures
        b == spec_has_extension(path@, EXTENSIONS@),
{
    crate::image_file::has_extension(path, &EXTENSIONS)
}

/// `--image` for the RetroArch backend must carry an extension the image
/// viewer accepts and exist.
pub fn validate(image: &str) -> (r: Result<(), String>)
    ensures
        exists|is_file: bool|
            #[trigger] crate::image_file::image_answer(image@, EXTENSIONS@, is_file) && view_unit_result(r)
                == spec_validate(
                image@,
                EXTENSIONS@,
                "RetroArch's image viewer"@,
                is_file,
            ),
{
    crate::image_file::validate(image, &EXTENSIONS, "RetroArch's image viewer")
}

} // verus!
