//! Yaw/pitch representation of a look direction.
//!
//! Convention: a direction `d` (micro-unit components) has
//! `pitch = asin(d.y)` and `yaw = atan2(d.x, d.z)`, and the reconstruction
//! is `(cos pitch * sin yaw, sin pitch, cos pitch * cos yaw)`.  Pitch is
//! clamped into `(-pi/2 + eps, pi/2 - eps)` after every mutation — the
//! singularity guard — while yaw accumulates freely.

use vstd::prelude::*;
use crate::fixed::{SCALE, fix_abs, mul_fix, fmul, lemma_mul_fix_bound};
use crate::trig::{
    HALF_PI,
    TRIG_BOUND,
    sin_fix,
    cos_fix,
    asin_fix,
    atan2_fix,
    sin_x,
    cos_x,
    asin_x,
    atan2_x,
};
use crate::vectors::{Vec3, vec3_within};

verus! {

/// Margin kept between the pitch and a straight-up or straight-down look.
pub const PITCH_EPS: i64 = 1_000;

/// Greatest pitch magnitude the guard allows.
pub const PITCH_LIMIT: i64 = HALF_PI - PITCH_EPS;

/// Bound on each component of a reconstructed unit direction.
pub const DIR_BOUND: i64 = 1_050_000;

/// The singularity guard: pitch pulled into `[-PITCH_LIMIT, PITCH_LIMIT]`.
pub open spec fn clamp_pitch_s(p: int) -> int {
    if p > PITCH_LIMIT as int {
        PITCH_LIMIT as int
    } else if p < -(PITCH_LIMIT as int) {
        -(PITCH_LIMIT as int)
    } else {
        p
    }
}

/// Yaw extracted from a direction; a direction with no horizontal part
/// keeps yaw zero.
pub open spec fn yaw_of_s(x: int, z: int) -> int {
    if x == 0 && z == 0 {
        0
    } else {
        atan2_fix(x, z)
    }
}

/// Components of the direction reconstructed from pitch and yaw.
pub open spec fn dir_x_s(pitch: int, yaw: int) -> int {
    mul_fix(cos_fix(pitch), sin_fix(yaw))
}

pub open spec fn dir_y_s(pitch: int, yaw: int) -> int {
    sin_fix(pitch)
}

pub open spec fn dir_z_s(pitch: int, yaw: int) -> int {
    mul_fix(cos_fix(pitch), cos_fix(yaw))
}

/// Look angles in micro-radians; the pitch always satisfies the guard.
#[derive(Clone, Copy, PartialEq, Eq, Structural, Debug)]
pub struct LookAngles {
    pitch: i64,
    yaw: i64,
}

impl LookAngles {
    /// Pitch in micro-radians.
    pub closed spec fn pitch_s(self) -> int {
        self.pitch as int
    }

    /// Yaw in micro-radians.
    pub closed spec fn yaw_s(self) -> int {
        self.yaw as int
    }

    /// The singularity guard holds.
    pub open spec fn wf(self) -> bool {
        fix_abs(self.pitch_s()) <= PITCH_LIMIT as int
    }

    /// Extract angles from a direction (not necessarily of unit length in
    /// its last micro-digit, but component-wise within one unit).
    pub fn from_vector(v: &Vec3) -> (r: LookAngles)
        requires
            vec3_within(*v, SCALE as int),
        ensures
            r.pitch_s() == clamp_pitch_s(asin_fix(v.y as int)),
            r.yaw_s() == yaw_of_s(v.x as int, v.z as int),
            fix_abs(r.yaw_s()) <= crate::trig::PI_FIX as int,
            r.wf(),
    {
        let pitch_raw: i64 = asin_x(v.y);
        let pitch: i64 = if pitch_raw > PITCH_LIMIT {
            PITCH_LIMIT
        } else if pitch_raw < -PITCH_LIMIT {
            -PITCH_LIMIT
        } else {
            pitch_raw
        };
        let yaw: i64 = if v.x == 0 && v.z == 0 {
            0
        } else {
            atan2_x(v.x, v.z)
        };
        LookAngles { pitch, yaw }
    }

    pub fn get_pitch(&self) -> (r: i64)
        ensures
            r as int == self.pitch_s(),
    {
        self.pitch
    }

    pub fn get_yaw(&self) -> (r: i64)
        ensures
            r as int == self.yaw_s(),
    {
        self.yaw
    }

    /// Set the pitch; the guard runs immediately.
    pub fn set_pitch(&mut self, p: i64)
        ensures
            final (self).pitch_s() == clamp_pitch_s(p as int),
            final (self).yaw_s() == old(self).yaw_s(),
            final (self).wf(),
    {
        self.pitch = if p > PITCH_LIMIT {
            PITCH_LIMIT
        } else if p < -PITCH_LIMIT {
            -PITCH_LIMIT
        } else {
            p
        };
    }

    /// Add to the pitch, then clamp — the guard runs after every pitch
    /// mutation, not only at read time.
    pub fn add_pitch(&mut self, delta: i64)
        requires
            old(self).wf(),
            fix_abs(delta as int) <= i64::MAX - PITCH_LIMIT,
        ensures
            final (self).pitch_s() == clamp_pitch_s(old(self).pitch_s() + delta),
            final (self).yaw_s() == old(self).yaw_s(),
            final (self).wf(),
    {
        let p: i64 = self.pitch + delta;
        self.set_pitch(p);
    }

    /// Add to the yaw; accumulation is exact and unbounded short of the
    /// machine range.
    pub fn add_yaw(&mut self, delta: i64)
        requires
            i64::MIN <= old(self).yaw_s() + delta <= i64::MAX,
        ensures
            final (self).yaw_s() == old(self).yaw_s() + delta,
            final (self).pitch_s() == old(self).pitch_s(),
    {
        self.yaw = self.yaw + delta;
    }

    /// Reconstruct the direction the angles describe.
    pub fn unit_vector(&self) -> (r: Vec3)
        ensures
            r.x as int == dir_x_s(self.pitch_s(), self.yaw_s()),
            r.y as int == dir_y_s(self.pitch_s(), self.yaw_s()),
            r.z as int == dir_z_s(self.pitch_s(), self.yaw_s()),
            vec3_within(r, DIR_BOUND as int),
    {
        let sp: i64 = sin_x(self.pitch);
        let cp: i64 = cos_x(self.pitch);
        let sy: i64 = sin_x(self.yaw);
        let cy: i64 = cos_x(self.yaw);
        proof {
            lemma_mul_fix_bound(cp as int, sy as int, TRIG_BOUND as int, TRIG_BOUND as int);
            lemma_mul_fix_bound(cp as int, cy as int, TRIG_BOUND as int, TRIG_BOUND as int);
        }
        Vec3 { x: fmul(cp, sy), y: sp, z: fmul(cp, cy) }
    }
}

/// Law: yaw accumulation is exactly additive and order-independent —
/// adding `a` then `b` lands where adding `a + b` at once does, and where
/// adding `b` then `a` does.  (`add_yaw` guarantees the new yaw is the old
/// yaw plus the delta, so the sums below are the yaw after those calls.)
pub proof fn lemma_add_yaw_additive(start: int, a: int, b: int)
    ensures
        (start + a) + b == start + (a + b),
        (start + a) + b == (start + b) + a,
{
}

/// Law (the exactly provable slice of the round trip): a level look
/// straight down the `-z` axis extracts to pitch zero and yaw of one half
/// turn, and reconstructs to exactly the same direction.  Away from the
/// axes the round trip holds only up to the fixed-point tolerance of the
/// trigonometric kernels, which the test suite checks on sample
/// directions.
pub proof fn lemma_round_trip_level_axis()
    ensures
        clamp_pitch_s(asin_fix(0)) == 0,
        yaw_of_s(0, -(SCALE as int)) == crate::trig::PI_FIX as int,
        dir_x_s(0, crate::trig::PI_FIX as int) == 0,
        dir_y_s(0, crate::trig::PI_FIX as int) == 0,
        dir_z_s(0, crate::trig::PI_FIX as int) == -(SCALE as int),
{
    crate::fixed::lemma_sqrt_square(SCALE as int);
    assert(asin_fix(0) == atan2_fix(0, (SCALE as int)));
    assert(atan2_fix(0, SCALE as int) == 0);
    assert(yaw_of_s(0, -(SCALE as int)) == atan2_fix(0, -(SCALE as int)));
    assert(crate::trig::sin_kernel(0) == 0);
    assert(crate::trig::cos_kernel(0) == SCALE as int);
    assert(sin_fix(0) == 0);
    assert(cos_fix(0) == SCALE as int);
    assert(sin_fix(crate::trig::PI_FIX as int) == 0);
    assert(cos_fix(crate::trig::PI_FIX as int) == -(SCALE as int));
}

/// Law: the singularity guard is visible in the reconstructed direction.
/// The cosine of any guarded pitch keeps a positive floor, and that
/// cosine is the common factor of the direction's horizontal components
/// (`dir_x_s` and `dir_z_s`), so a guarded look never degenerates to
/// straight up or down.
pub proof fn lemma_guarded_pitch_keeps_horizontal(p: int)
    requires
        fix_abs(p) <= PITCH_LIMIT as int,
    ensures
        cos_fix(p) >= 800,
{
    let m = fix_abs(p);
    vstd::arithmetic::div_mod::lemma_small_mod(m as nat, crate::trig::TWO_PI as nat);
    assert(m % (crate::trig::TWO_PI as int) == m);
    assert(cos_fix(p) == crate::trig::cos_quarter(m));
    if m > crate::trig::QUARTER_PI {
        // Kernel branch sin(u) for the complement u, at least the guard
        // margin: the cubic correction takes less than 11% of u.
        let u = crate::trig::HALF_PI - m;
        assert(1_000 <= u <= 785_398);
        crate::fixed::lemma_mul_fix_sign(u, u);
        crate::fixed::lemma_mul_fix_bound(u, u, u, u);
        let t2 = mul_fix(u, u);
        crate::fixed::lemma_mul_fix_bound(u, u, 785_398, 785_398);
        crate::fixed::lemma_mul_fix_sign(t2, u);
        crate::fixed::lemma_mul_fix_bound(t2, u, t2, u);
        let t3 = mul_fix(t2, u);
        crate::fixed::lemma_mul_fix_sign(t3, t2);
        let t5 = mul_fix(t3, t2);
        crate::fixed::lemma_mul_fix_sign(t5, t2);
        crate::fixed::lemma_mul_fix_bound(t5, t2, t5, t2);
        let t7 = mul_fix(t5, t2);
        assert(t3 * (SCALE as int) * (SCALE as int) <= u * u * u) by (nonlinear_arith)
            requires
                u >= 0,
                t2 >= 0,
                t3 >= 0,
                t3 * (SCALE as int) <= t2 * u,
                t2 * (SCALE as int) <= u * u,
                SCALE == 1_000_000,
        ;
        assert(u * u * u <= u * 785_398 * 785_398) by (nonlinear_arith)
            requires
                0 <= u <= 785_398,
        ;
        let u3 = t3 / 6;
        assert(u3 * 6 <= t3);
        assert((u - u3) * 6_000_000_000_000 >= u * (6_000_000_000_000 - 616_850_018_404))
            by (nonlinear_arith)
            requires
                u3 * 6 <= t3,
                t3 * 1_000_000 * 1_000_000 <= u * 785_398 * 785_398,
                u >= 0,
        ;
        assert(u - u3 >= 897);
        // The seventh-order term never outweighs the fifth.
        assert(t7 <= t5) by (nonlinear_arith)
            requires
                t7 * (SCALE as int) <= t5 * t2,
                0 <= t2 <= SCALE as int,
                t5 >= 0,
                t7 >= 0,
                SCALE == 1_000_000,
        ;
        vstd::arithmetic::div_mod::lemma_div_is_ordered(t7, t5, 5040);
        vstd::arithmetic::div_mod::lemma_div_is_ordered_by_denominator(t5, 120, 5040);
        assert(crate::trig::sin_kernel(u) >= 897);
    } else {
        // Kernel branch cos(m): the quadratic correction leaves most of
        // the unit.
        crate::fixed::lemma_mul_fix_sign(m, m);
        crate::fixed::lemma_mul_fix_bound(m, m, 785_398, 785_398);
        let t2 = mul_fix(m, m);
        crate::fixed::lemma_mul_fix_sign(t2, t2);
        crate::fixed::lemma_mul_fix_bound(t2, t2, 616_851, 616_851);
        let t4 = mul_fix(t2, t2);
        crate::fixed::lemma_mul_fix_sign(t4, t2);
        crate::fixed::lemma_mul_fix_bound(t4, t2, 380_506, 616_851);
        assert(crate::trig::cos_kernel(m) >= 691_000);
    }
}

/// Law: after any `add_pitch` call the pitch satisfies the singularity
/// guard, whatever the starting pitch and however large the delta.
pub proof fn lemma_pitch_always_guarded(p: int, delta: int)
    ensures
        fix_abs(clamp_pitch_s(p + delta)) <= PITCH_LIMIT as int,
{
}

} // verus!
