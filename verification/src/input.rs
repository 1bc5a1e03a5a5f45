//! The per-frame input snapshot the driver hands to every widget.

use vstd::prelude::*;
use crate::geometry::{coord_ok, Position, COORD_MAX};

verus! {

/// Edge state of a key or mouse button across frames.
#[derive(Clone, Copy, Debug, PartialEq, Eq, Structural)]
pub enum KeyState {
    /// Pressed this frame.
    Pressed,
    /// Held for longer than one frame.
    Held,
    /// Released this frame.
    Released,
    /// Unpressed for longer than one frame.
    Unpressed,
}

/// One keyboard key with its edge state; the code is the backend's own.
#[derive(Clone, Copy, Debug, PartialEq, Eq, Structural)]
pub struct Key {
    pub key: u32,
    pub state: KeyState,
}

/// Immutable snapshot of the input for one frame. `dt` is the frame time in
/// milli-seconds-of-a-second, the same fixed-point scale as the geometry.
#[derive(Clone, Debug)]
pub struct AppState {
    pub mouse_position: Position,
    pub right_click: KeyState,
    pub left_click: KeyState,
    pub input: Option<char>,
    pub keys: Vec<Key>,
    pub dt: i64,
}

impl AppState {
    pub open spec fn wf(self) -> bool {
        self.mouse_position.wf() && 0 <= self.dt <= COORD_MAX
    }
}

} // verus!
