//! The look transform: an eye point and a target point.
//!
//! Radius is the distance between them (floor of the exact root, in
//! micro-units); the look direction is the normalized difference, or
//! nothing when the two points coincide — callers skip that frame's
//! rotation rather than fail.

use vstd::prelude::*;
use crate::fixed::{
    SCALE,
    fix_abs,
    sqrt_floor,
    isqrt,
    abs_i64,
    lemma_sqrt_floor,
    lemma_sqrt_monotone,
    lemma_sqrt_square,
};
use crate::vectors::{Vec3, vec3_within};

verus! {

/// Largest coordinate magnitude `radius` and `look_direction` accept; wide
/// enough for every intermediate state the resolvers produce.
pub const RADIUS_IN_LIMIT: i64 = 1_000_000_000_000_000_000;

/// Squared distance between two points given by components.
pub open spec fn dist2_pts(ax: int, ay: int, az: int, bx: int, by: int, bz: int) -> int {
    (bx - ax) * (bx - ax) + (by - ay) * (by - ay) + (bz - az) * (bz - az)
}

/// One component of the normalized difference: `d * SCALE / r`, truncated
/// toward zero.
pub open spec fn norm_comp_s(d: int, r: int) -> int {
    if d >= 0 {
        (d * (SCALE as int)) / r
    } else {
        -(((-d) * (SCALE as int)) / r)
    }
}

/// Eye and target of one camera.
#[derive(Clone, Copy, PartialEq, Eq, Structural, Debug)]
pub struct LookTransform {
    pub eye: Vec3,
    pub target: Vec3,
}

impl LookTransform {
    /// Squared eye-to-target distance.
    pub open spec fn dist2_s(self) -> int {
        dist2_pts(
            self.eye.x as int,
            self.eye.y as int,
            self.eye.z as int,
            self.target.x as int,
            self.target.y as int,
            self.target.z as int,
        )
    }

    /// Distance from eye to target, rounded down to whole micro-units.
    pub open spec fn radius_s(self) -> int {
        sqrt_floor(self.dist2_s())
    }

    pub open spec fn look_x_s(self) -> int {
        norm_comp_s(self.target.x as int - self.eye.x as int, self.radius_s())
    }

    pub open spec fn look_y_s(self) -> int {
        norm_comp_s(self.target.y as int - self.eye.y as int, self.radius_s())
    }

    pub open spec fn look_z_s(self) -> int {
        norm_comp_s(self.target.z as int - self.eye.z as int, self.radius_s())
    }

    pub fn new(eye: Vec3, target: Vec3) -> (r: LookTransform)
        ensures
            r == (LookTransform { eye, target }),
    {
        LookTransform { eye, target }
    }

    /// Distance from eye to target.
    pub fn radius(&self) -> (r: i64)
        requires
            vec3_within(self.eye, RADIUS_IN_LIMIT as int),
            vec3_within(self.target, RADIUS_IN_LIMIT as int),
        ensures
            r as int == self.radius_s(),
            0 <= r as int <= 4_000_000_000_000_000_000,
    {
        let dx: i64 = self.target.x - self.eye.x;
        let dy: i64 = self.target.y - self.eye.y;
        let dz: i64 = self.target.z - self.eye.z;
        proof {
            assert(0 <= (dx as int) * (dx as int) <= 4_000_000_000_000_000_000_000_000_000_000_000_000)
                by (nonlinear_arith)
                requires
                    fix_abs(dx as int) <= 2_000_000_000_000_000_000,
            ;
            assert(0 <= (dy as int) * (dy as int) <= 4_000_000_000_000_000_000_000_000_000_000_000_000)
                by (nonlinear_arith)
                requires
                    fix_abs(dy as int) <= 2_000_000_000_000_000_000,
            ;
            assert(0 <= (dz as int) * (dz as int) <= 4_000_000_000_000_000_000_000_000_000_000_000_000)
                by (nonlinear_arith)
                requires
                    fix_abs(dz as int) <= 2_000_000_000_000_000_000,
            ;
        }
        let qx: u128 = ((dx as i128) * (dx as i128)) as u128;
        let qy: u128 = ((dy as i128) * (dy as i128)) as u128;
        let qz: u128 = ((dz as i128) * (dz as i128)) as u128;
        let n: u128 = qx + qy + qz;
        let r64: u64 = isqrt(n);
        proof {
            lemma_sqrt_floor(n as int);
            assert(r64 as int <= 4_000_000_000_000_000_000) by (nonlinear_arith)
                requires
                    (r64 as int) * (r64 as int) <= 12_000_000_000_000_000_000_000_000_000_000_000_000,
                    r64 as int >= 0,
            ;
        }
        r64 as i64
    }

    /// The normalized eye-to-target direction, or nothing when the two
    /// points coincide.
    pub fn look_direction(&self) -> (r: Option<Vec3>)
        requires
            vec3_within(self.eye, RADIUS_IN_LIMIT as int),
            vec3_within(self.target, RADIUS_IN_LIMIT as int),
        ensures
            self.eye == self.target ==> r is None,
            self.eye != self.target ==> (r matches Some(d) && d.x as int == self.look_x_s()
                && d.y as int == self.look_y_s() && d.z as int == self.look_z_s() && vec3_within(
                d,
                SCALE as int,
            )),
    {
        let dx: i64 = self.target.x - self.eye.x;
        let dy: i64 = self.target.y - self.eye.y;
        let dz: i64 = self.target.z - self.eye.z;
        if dx == 0 && dy == 0 && dz == 0 {
            return None;
        }
        let rad: i64 = self.radius();
        proof {
            let ghost n = self.dist2_s();
            assert(n >= 1) by (nonlinear_arith)
                requires
                    n == (dx as int) * (dx as int) + (dy as int) * (dy as int) + (dz as int) * (
                    dz as int),
                    !(dx as int == 0 && dy as int == 0 && dz as int == 0),
            ;
            lemma_sqrt_floor(n);
            if rad as int == 0 {
                assert(false) by (nonlinear_arith)
                    requires
                        n >= 1,
                        n < (sqrt_floor(n) + 1) * (sqrt_floor(n) + 1),
                        sqrt_floor(n) == 0,
                ;
            }
            // Each difference magnitude is at most the radius: its square is
            // at most the radicand, and the floor root is monotone.
            assert(
                fix_abs(dx as int) * fix_abs(dx as int) <= n && fix_abs(dy as int) * fix_abs(
                    dy as int,
                ) <= n && fix_abs(dz as int) * fix_abs(dz as int) <= n
            ) by (nonlinear_arith)
                requires
                    n == (dx as int) * (dx as int) + (dy as int) * (dy as int) + (dz as int) * (
                    dz as int),
            ;
            lemma_sqrt_square(fix_abs(dx as int));
            lemma_sqrt_square(fix_abs(dy as int));
            lemma_sqrt_square(fix_abs(dz as int));
            lemma_sqrt_monotone(fix_abs(dx as int) * fix_abs(dx as int), n);
            lemma_sqrt_monotone(fix_abs(dy as int) * fix_abs(dy as int), n);
            lemma_sqrt_monotone(fix_abs(dz as int) * fix_abs(dz as int), n);
        }
        let x: i64 = norm_comp(dx, rad);
        let y: i64 = norm_comp(dy, rad);
        let z: i64 = norm_comp(dz, rad);
        Some(Vec3 { x, y, z })
    }
}

/// One normalized component: `d * SCALE / r`, truncated toward zero; the
/// magnitude of `d` must not exceed `r`, so the result is within `SCALE`.
fn norm_comp(d: i64, r: i64) -> (c: i64)
    requires
        r >= 1,
        fix_abs(d as int) <= r as int,
    ensures
        c as int == norm_comp_s(d as int, r as int),
        fix_abs(c as int) <= SCALE as int,
{
    proof {
        vstd::arithmetic::div_mod::lemma_div_is_ordered(
            fix_abs(d as int) * (SCALE as int),
            (r as int) * (SCALE as int),
            r as int,
        );
        vstd::arithmetic::div_mod::lemma_div_by_multiple(SCALE as int, r as int);
        assert(fix_abs(d as int) * (SCALE as int) <= (r as int) * (SCALE as int))
            by (nonlinear_arith)
            requires
                fix_abs(d as int) <= r as int,
                SCALE == 1_000_000,
        ;
    }
    let m: u128 = ((abs_i64(d) as u128) * (SCALE as u128)) / (r as u128);
    if d >= 0 {
        m as i64
    } else {
        -(m as i64)
    }
}

} // verus!
