//! Display geometry shared by the game logic and its renderer.

use vstd::prelude::*;

verus! {

/// Width of the display in pixels.
pub const DISPLAY_WIDTH: i32 = 64;

/// Height of the display in pixels.
pub const DISPLAY_HEIGHT: i32 = 128;

/// Width of the display as an unsigned count.
pub const UDISPLAY_WIDTH: u32 = 64;

/// Height of the display as an unsigned count.
pub const UDISPLAY_HEIGHT: u32 = 128;

/// The left edge at which a box of width `inner` sits centered in a span of
/// width `outer`.
pub fn centered(outer: i32, inner: u32) -> (left: i32)
    requires
        0 <= outer,
        inner <= i32::MAX,
    ensures
        left == outer / 2 - inner / 2,
{
    let half_outer = ((outer as u32) / 2) as i32;
    let half_inner = (inner / 2) as i32;
    half_outer - half_inner
}

} // verus!
