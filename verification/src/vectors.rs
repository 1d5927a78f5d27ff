//! Plain fixed-point vectors: components are `i64` micro-units.

use vstd::prelude::*;

verus! {

/// A 2D vector of fixed-point scalars.
#[derive(Clone, Copy, PartialEq, Eq, Structural, Debug)]
pub struct Vec2 {
    pub x: i64,
    pub y: i64,
}

/// A 3D vector of fixed-point scalars.
#[derive(Clone, Copy, PartialEq, Eq, Structural, Debug)]
pub struct Vec3 {
    pub x: i64,
    pub y: i64,
    pub z: i64,
}

impl Vec2 {
    pub fn new(x: i64, y: i64) -> (r: Vec2)
        ensures
            r == (Vec2 { x, y }),
    {
        Vec2 { x, y }
    }

    pub fn zero() -> (r: Vec2)
        ensures
            r == (Vec2 { x: 0i64, y: 0i64 }),
    {
        Vec2 { x: 0, y: 0 }
    }
}

impl Vec3 {
    pub fn new(x: i64, y: i64, z: i64) -> (r: Vec3)
        ensures
            r == (Vec3 { x, y, z }),
    {
        Vec3 { x, y, z }
    }

    pub fn zero() -> (r: Vec3)
        ensures
            r == (Vec3 { x: 0i64, y: 0i64, z: 0i64 }),
    {
        Vec3 { x: 0, y: 0, z: 0 }
    }
}

/// Magnitude bound on every component of a 2D vector.
pub open spec fn vec2_within(v: Vec2, bound: int) -> bool {
    crate::fixed::fix_abs(v.x as int) <= bound && crate::fixed::fix_abs(v.y as int) <= bound
}

/// Magnitude bound on every component of a 3D vector.
pub open spec fn vec3_within(v: Vec3, bound: int) -> bool {
    crate::fixed::fix_abs(v.x as int) <= bound && crate::fixed::fix_abs(v.y as int) <= bound
        && crate::fixed::fix_abs(v.z as int) <= bound
}

} // verus!
