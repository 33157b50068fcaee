//! Hosting a libretro core: the framebuffer conversion and the answers the
//! frontend gives a core's environment queries.
pub mod env;
pub mod pixels;
