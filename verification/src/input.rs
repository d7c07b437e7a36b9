//! Per-tick snapshots of the input collaborator.

use vstd::prelude::*;

verus! {

/// Held-state of the five logical movement keys for one tick.
#[derive(Clone, Copy, PartialEq, Eq, Structural, Debug)]
pub struct KeysHeld {
    pub forward: bool,
    pub back: bool,
    pub strafe_left: bool,
    pub strafe_right: bool,
    pub jump: bool,
}

/// One mouse-motion event: the pointer delta in milli-pixels.
#[derive(Clone, Copy, PartialEq, Eq, Structural, Debug)]
pub struct MouseDelta {
    pub x: i64,
    pub y: i64,
}

/// An immutable per-tick read of the input collaborator: held keys, the
/// tick's mouse-motion events in arrival order, and the frame time in
/// milliseconds.
#[derive(Debug)]
pub struct InputSnapshot {
    pub keys: KeysHeld,
    pub mouse: Vec<MouseDelta>,
    pub delta_time: i64,
}

} // verus!
