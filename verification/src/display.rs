//! The main display's sizes as the window modes use them: the fill mode
//! for a visible frame, and the title bar allowance RetroArch's window
//! needs. Querying the display itself is the application's part.
use crate::config::{Size, WindowMode};
use vstd::prelude::*;

verus! {

/// Allowance for the window title bar, which the visible frame does not exclude.
pub const TITLE_BAR_POINTS: u32 = 28;

/// The display width assumed when no screen can be queried.
pub const FALLBACK_WIDTH: u32 = 1920;

/// The display height assumed when no screen can be queried.
pub const FALLBACK_HEIGHT: u32 = 1080;

/// The display size assumed, visible and full, when no screen can be
/// queried: 1920x1080 (at a backing scale of 1).
pub fn fallback() -> (s: Size)
    ensures
        s == (Size { width: 1920, height: 1080 }),
{
    Size { width: FALLBACK_WIDTH, height: FALLBACK_HEIGHT }
}

/// The fill-the-screen window mode for a visible size: the height loses
/// the title bar allowance, stopping at zero.
pub open spec fn spec_fill_mode(visible: Size) -> WindowMode {
    WindowMode::Fill {
        max: Size {
            width: visible.width,
            height: if visible.height >= TITLE_BAR_POINTS {
                (visible.height - TITLE_BAR_POINTS) as u32
            } else {
                0
            },
        },
    }
}

/// The fill-the-screen window mode for a given visible size.
pub fn fill_mode(visible: Size) -> (m: WindowMode)
    ensures
        m == spec_fill_mode(visible),
{
    WindowMode::Fill {
        max: Size {
            width: visible.width,
            height: visible.height.saturating_sub(TITLE_BAR_POINTS),
        },
    }
}

/// A window mode as RetroArch should see it: a `Fill` loses the title bar
/// allowance, since RetroArch's window has one and the visible frame does
/// not exclude it. Other modes pass through.
pub fn for_retroarch_window(mode: WindowMode) -> (m: WindowMode)
    ensures
        m == (match mode {
            WindowMode::Fill { max } => spec_fill_mode(max),
            other => other,
        }),
{
    match mode {
        WindowMode::Fill { max } => fill_mode(max),
        other => other,
    }
}

} // verus!
