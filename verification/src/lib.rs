//! A first-person kinematic character controller in fixed-point arithmetic.
//!
//! The library turns per-tick snapshots of raw input (held keys, mouse
//! motion, elapsed frame time) and the physics engine's previous-step
//! feedback (effective translation, grounded flag) into the next frame's
//! velocity and camera orientation: Quake-style ground friction with a
//! snap-to-stop deadzone, acceleration capping toward a wish direction,
//! gravity and jump integration, and a pitch-clamped mouse-look transform.
//!
//! All quantities are integers counted in thousandths of a unit
//! (milliunits, milliseconds, milliradians); every function carries a
//! contract that pins its result down exactly in that model.

pub mod camera;
pub mod config;
pub mod input;
pub mod math;
pub mod physics;
pub mod tick;
pub mod vec3;
pub mod velocity;
pub mod wish;
