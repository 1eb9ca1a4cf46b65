//! Where a window was left.

use vstd::prelude::*;

verus! {

/// Size, position and floating state of a window.
#[derive(Debug, Clone, Copy, PartialEq, Eq, Structural)]
pub struct WindowState {
    pub width: u32,
    pub height: u32,
    pub x: i32,
    pub y: i32,
    pub floating: bool,
}

impl WindowState {
    /// The state of a window that was never moved.
    pub open spec fn initial() -> WindowState {
        WindowState { width: 600, height: 1200, x: 0, y: 0, floating: false }
    }
}

impl Default for WindowState {
    fn default() -> (state: Self)
        ensures
            state == WindowState::initial(),
    {
        WindowState { width: 600, height: 1200, x: 0, y: 0, floating: false }
    }
}

} // verus!
