//! Camera-rig core: a smoothly interpolated look transform (eye position +
//! target point) driven by two alternative input schemes, a first-person
//! "fly" controller and an Unreal-editor-style "orbit/pan/dolly" controller.
//!
//! All quantities are fixed-point: an `i64` counts millionths of a world
//! unit (for positions) or of a radian (for angles).  The host converts its
//! own scalar representation at the boundary; everything in here is exact
//! integer arithmetic with stated contracts.

pub mod fixed;
pub mod trig;
pub mod vectors;
pub mod angles;
pub mod transform;
pub mod smoothing;
pub mod controllers;
