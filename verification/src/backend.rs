//! What both backends are asked for: where the frames come from, and the
//! error a run interrupted by Ctrl-C ends with.
use vstd::prelude::*;

verus! {

/// Which save state to load.
#[derive(Debug, Clone, PartialEq, Eq)]
pub enum StateSource {
    /// A state file, as given.
    File(String),
    /// Slot N, found where RetroArch keeps it for this ROM and core.
    Slot(u32),
}

/// Where the frames come from.
#[derive(Debug, Clone, PartialEq, Eq)]
pub enum Source {
    /// A static image file.
    Image(String),
    /// A libretro core and its content.
    Core {
        /// A `.dylib` path, or a bare name for the core resolver.
        core: String,
        rom: String,
        state: Option<StateSource>,
        /// A RetroArch-format options file for a hosted core.
        options: Option<String>,
        /// Load the ROM even if its extension is not one the core declares.
        skip_extension_check: bool,
    },
}

/// The error a run ends with when Ctrl-C interrupted it; the binary turns
/// it into exit status 130.
#[derive(Debug, Clone, Copy, PartialEq, Eq, Structural)]
pub struct Interrupted;

} // verus!
