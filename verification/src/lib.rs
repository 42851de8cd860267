//! A free-flying debug camera controller for a real-time 3D host.
//!
//! Each frame the host hands the library plain snapshots of its input
//! devices (keyboard, mouse motion, gamepad axes and buttons) and the
//! library updates per-camera frame state: an orthonormal forward/up
//! basis, a position, and translation/rotation speeds.  All quantities
//! are fixed-point integers scaled by [`math::SCALE`]; the host converts
//! to and from its own floating-point types at the boundary.

pub mod math;
pub mod resources;
pub mod systems;
