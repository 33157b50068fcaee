//! Validating paths for RetroArch's built-in image viewer core.
pub use crate::retroarch::image::{is_image_path, validate, EXTENSIONS};
