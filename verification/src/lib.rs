//! Orbit-camera control core.
//!
//! Converts per-step pointer-motion and scroll input into a validated
//! rigid-transform update for a camera orbiting a fixed target: a new
//! orientation (yaw and pitch composed atomically, checked against
//! configured bounds) and a new orbit radius (clamped to configured
//! limits). All quantities are fixed-point integers with a scale of one
//! million ticks per unit, so every computation has an exact contract.

pub mod fixed;
pub mod trig;
pub mod quat;
pub mod camera;
pub mod laws;
