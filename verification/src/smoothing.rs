//! Exponential smoothing of the look transform.
//!
//! The smoother keeps the previous smoothed transform and, each frame,
//! moves every coordinate a fixed fraction `1 - weight` of the way toward
//! the raw value.  The step rounds its magnitude up, so as long as the raw
//! value stands still the smoothed one makes strict progress toward it,
//! never overshoots, and contracts the remaining error at least by the
//! factor `weight` per frame.

use vstd::prelude::*;
use crate::fixed::{SCALE, fix_abs, abs_i64};
use crate::transform::LookTransform;
use crate::vectors::{Vec3, vec3_within};

verus! {

/// Coordinate bound accepted by `smooth`.
pub const SMOOTH_LIMIT: i64 = 1_000_000_000_000_000_000;

/// A rejected configuration value.
#[derive(Clone, Copy, PartialEq, Eq, Structural, Debug)]
pub enum ConfigError {
    /// A smoothing weight outside `[0, 1)`.
    InvalidWeight,
    /// A sensitivity outside `[0, SENS_LIMIT]`.
    InvalidSensitivity,
}

/// The step taken toward a difference `d` when the fraction moved per
/// frame is `c / SCALE`: magnitude `d * c / SCALE` rounded up, keeping the
/// sign of `d`.
pub open spec fn blend_s(c: int, d: int) -> int {
    if d >= 0 {
        (d * c + (SCALE as int) - 1) / (SCALE as int)
    } else {
        -(((-d) * c + (SCALE as int) - 1) / (SCALE as int))
    }
}

/// One smoothed coordinate: the previous value moved `1 - weight` of the
/// way toward the raw one.
pub open spec fn step_s(prev: int, raw: int, w: int) -> int {
    prev + blend_s((SCALE as int) - w, raw - prev)
}

/// Law: one smoothing step with weight `w` moves toward the raw value
/// without overshooting, makes strict progress whenever there is any
/// distance left, covers the whole distance when `w` is zero, and leaves
/// at most `w / SCALE` of the previous error — so the error after `k`
/// steps is at most `(w / SCALE)^k` of the starting error, a horizon
/// proportional to `1 / (1 - w)` frames.
pub proof fn lemma_smoothing_step(prev: int, raw: int, w: int)
    requires
        0 <= w < SCALE as int,
    ensures
        prev <= raw ==> prev <= step_s(prev, raw, w) <= raw,
        prev >= raw ==> raw <= step_s(prev, raw, w) <= prev,
        prev != raw ==> fix_abs(raw - step_s(prev, raw, w)) < fix_abs(raw - prev),
        w == 0 ==> step_s(prev, raw, w) == raw,
        fix_abs(raw - step_s(prev, raw, w)) * (SCALE as int) <= fix_abs(raw - prev) * w,
{
    let s = SCALE as int;
    let c = s - w;
    let d = raw - prev;
    if d >= 0 {
        let q = (d * c + s - 1) / s;
        vstd::arithmetic::div_mod::lemma_fundamental_div_mod(d * c + s - 1, s);
        vstd::arithmetic::div_mod::lemma_mod_bound(d * c + s - 1, s);
        assert(d * c <= q * s <= d * c + s - 1);
        assert(d * c >= 0 && (d >= 1 && c >= 1 ==> d * c >= 1)) by (nonlinear_arith)
            requires
                d >= 0,
                c >= 1,
        ;
        assert(d * c <= d * s) by (nonlinear_arith)
            requires
                d >= 0,
                c <= s,
        ;
        assert((d - q) * s == d * s - q * s) by (nonlinear_arith);
        assert(d * s - (d * c + s - 1) <= (d - q) * s <= d * s - d * c);
        assert(d * s - d * c == d * w) by (nonlinear_arith)
            requires
                c == s - w,
        ;
        assert(d * w >= 0) by (nonlinear_arith)
            requires
                d >= 0,
                w >= 0,
        ;
        // q <= d and (d > 0 ==> q >= 1), so progress is strict and bounded.
        assert((d - q) * s >= d * w - s + 1);
        assert(d - q >= 0) by (nonlinear_arith)
            requires
                (d - q) * s >= d * w - s + 1,
                d * w >= 0,
                s >= 1,
        ;
        if d > 0 {
            assert(q >= 1) by (nonlinear_arith)
                requires
                    q * s >= d * c,
                    d * c >= 1,
                    s >= 1,
            ;
        }
        assert(d - q <= d * w / s < d || d == 0) by (nonlinear_arith)
            requires
                (d - q) * s <= d * w,
                0 <= w < s,
                d >= 0,
                s >= 1,
        ;
        assert(fix_abs(raw - step_s(prev, raw, w)) * s <= fix_abs(raw - prev) * w)
            by (nonlinear_arith)
            requires
                (d - q) * s <= d * w,
                d - q >= 0,
                d >= 0,
                d == raw - prev,
                q == blend_s(c, d),
                step_s(prev, raw, w) == prev + q,
                w >= 0,
                s == SCALE as int,
                c == s - w,
        ;
        if w == 0 {
            assert(q == d) by (nonlinear_arith)
                requires
                    q * s <= d * s + s - 1,
                    q * s >= d * s,
                    s >= 1,
            ;
        }
    } else {
        let m = -d;
        let q = (m * c + s - 1) / s;
        vstd::arithmetic::div_mod::lemma_fundamental_div_mod(m * c + s - 1, s);
        vstd::arithmetic::div_mod::lemma_mod_bound(m * c + s - 1, s);
        assert(m * c <= q * s <= m * c + s - 1);
        assert(m * c >= 1) by (nonlinear_arith)
            requires
                m >= 1,
                c >= 1,
        ;
        assert(m * c <= m * s) by (nonlinear_arith)
            requires
                m >= 0,
                c <= s,
        ;
        assert((m - q) * s == m * s - q * s) by (nonlinear_arith);
        assert(m * s - m * c == m * w) by (nonlinear_arith)
            requires
                c == s - w,
        ;
        assert(m * w >= 0) by (nonlinear_arith)
            requires
                m >= 0,
                w >= 0,
        ;
        assert(m - q >= 0) by (nonlinear_arith)
            requires
                (m - q) * s >= m * w - s + 1,
                m * w >= 0,
                s >= 1,
        ;
        assert(q >= 1) by (nonlinear_arith)
            requires
                q * s >= m * c,
                m * c >= 1,
                s >= 1,
        ;
        assert(fix_abs(raw - step_s(prev, raw, w)) * s <= fix_abs(raw - prev) * w)
            by (nonlinear_arith)
            requires
                (m - q) * s <= m * w,
                m - q >= 0,
                m >= 1,
                m == -(raw - prev),
                step_s(prev, raw, w) == prev - q,
                w >= 0,
                s == SCALE as int,
        ;
        assert(fix_abs(raw - step_s(prev, raw, w)) < fix_abs(raw - prev)) by (nonlinear_arith)
            requires
                m - q >= 0,
                q >= 1,
                m == -(raw - prev),
                step_s(prev, raw, w) == prev - q,
        ;
        if w == 0 {
            assert(q == m) by (nonlinear_arith)
                requires
                    q * s <= m * s + s - 1,
                    q * s >= m * s,
                    s >= 1,
            ;
        }
    }
}

/// Executable smoothing step for one coordinate.
fn blend(c: i64, d: i64) -> (r: i64)
    requires
        0 <= c <= SCALE,
        fix_abs(d as int) <= 4_000_000_000_000_000_000,
    ensures
        r as int == blend_s(c as int, d as int),
        fix_abs(r as int) <= fix_abs(d as int),
{
    proof {
        assert(0 <= fix_abs(d as int) * (c as int)
            <= 4_000_000_000_000_000_000_000_000) by (nonlinear_arith)
            requires
                0 <= fix_abs(d as int) <= 4_000_000_000_000_000_000,
                0 <= c as int <= 1_000_000,
        ;
    }
    let m: u128 = (abs_i64(d) as u128) * (c as u128);
    let q: u128 = (m + (SCALE as u128) - 1) / (SCALE as u128);
    proof {
        let s = SCALE as int;
        let md = fix_abs(d as int);
        vstd::arithmetic::div_mod::lemma_fundamental_div_mod(md * (c as int) + s - 1, s);
        vstd::arithmetic::div_mod::lemma_mod_bound(md * (c as int) + s - 1, s);
        assert(md * (c as int) <= md * s) by (nonlinear_arith)
            requires
                md >= 0,
                0 <= c as int <= s,
        ;
        assert(q as int <= md) by (nonlinear_arith)
            requires
                (q as int) * s <= md * (c as int) + s - 1,
                md * (c as int) <= md * s,
                md >= 0,
                s >= 1,
        ;
    }
    if d >= 0 {
        q as i64
    } else {
        -(q as i64)
    }
}

/// Smoothing state: the configured weight and the previous smoothed
/// transform, absent until the first frame seeds it.
#[derive(Clone, Copy, Debug)]
pub struct Smoother {
    weight: i64,
    previous: Option<LookTransform>,
}

impl Smoother {
    pub closed spec fn weight_s(self) -> int {
        self.weight as int
    }

    pub closed spec fn previous_s(self) -> Option<LookTransform> {
        self.previous
    }

    /// Well-formed: the weight is in `[0, 1)` and any remembered transform
    /// stays within the coordinate range `smooth` accepts.
    pub open spec fn wf(self) -> bool {
        &&& 0 <= self.weight_s() < SCALE as int
        &&& match self.previous_s() {
            Some(t) => vec3_within(t.eye, SMOOTH_LIMIT as int) && vec3_within(
                t.target,
                SMOOTH_LIMIT as int,
            ),
            None => true,
        }
    }

    /// A smoother is built only from a weight in `[0, 1)`; anything else
    /// is rejected, never clamped.
    pub fn new(weight: i64) -> (r: Result<Smoother, ConfigError>)
        ensures
            0 <= weight < SCALE <==> r is Ok,
            r matches Ok(s) ==> s.weight_s() == weight as int && s.previous_s() is None && s.wf(),
            r matches Err(e) ==> e == ConfigError::InvalidWeight,
    {
        if weight < 0 || weight >= SCALE {
            Err(ConfigError::InvalidWeight)
        } else {
            Ok(Smoother { weight, previous: None })
        }
    }

    /// Blend the previous smoothed transform toward `raw` and remember the
    /// result.  The first call returns `raw` itself; a zero weight always
    /// returns `raw` exactly.
    pub fn smooth(&mut self, raw: &LookTransform) -> (r: LookTransform)
        requires
            old(self).wf(),
            vec3_within(raw.eye, SMOOTH_LIMIT as int),
            vec3_within(raw.target, SMOOTH_LIMIT as int),
        ensures
            final (self).wf(),
            final (self).weight_s() == old(self).weight_s(),
            final (self).previous_s() == Some(r),
            old(self).previous_s() is None ==> r == *raw,
            old(self).previous_s() matches Some(p) ==> {
                &&& r.eye.x as int == step_s(p.eye.x as int, raw.eye.x as int, old(self).weight_s())
                &&& r.eye.y as int == step_s(p.eye.y as int, raw.eye.y as int, old(self).weight_s())
                &&& r.eye.z as int == step_s(p.eye.z as int, raw.eye.z as int, old(self).weight_s())
                &&& r.target.x as int == step_s(
                    p.target.x as int,
                    raw.target.x as int,
                    old(self).weight_s(),
                )
                &&& r.target.y as int == step_s(
                    p.target.y as int,
                    raw.target.y as int,
                    old(self).weight_s(),
                )
                &&& r.target.z as int == step_s(
                    p.target.z as int,
                    raw.target.z as int,
                    old(self).weight_s(),
                )
            },
            old(self).weight_s() == 0 ==> r == *raw,
    {
        let c: i64 = SCALE - self.weight;
        let r: LookTransform = match &self.previous {
            None => *raw,
            Some(p) => {
                proof {
                    lemma_smoothing_step(p.eye.x as int, raw.eye.x as int, self.weight as int);
                    lemma_smoothing_step(p.eye.y as int, raw.eye.y as int, self.weight as int);
                    lemma_smoothing_step(p.eye.z as int, raw.eye.z as int, self.weight as int);
                    lemma_smoothing_step(
                        p.target.x as int,
                        raw.target.x as int,
                        self.weight as int,
                    );
                    lemma_smoothing_step(
                        p.target.y as int,
                        raw.target.y as int,
                        self.weight as int,
                    );
                    lemma_smoothing_step(
                        p.target.z as int,
                        raw.target.z as int,
                        self.weight as int,
                    );
                }
                let eye = Vec3 {
                    x: p.eye.x + blend(c, raw.eye.x - p.eye.x),
                    y: p.eye.y + blend(c, raw.eye.y - p.eye.y),
                    z: p.eye.z + blend(c, raw.eye.z - p.eye.z),
                };
                let target = Vec3 {
                    x: p.target.x + blend(c, raw.target.x - p.target.x),
                    y: p.target.y + blend(c, raw.target.y - p.target.y),
                    z: p.target.z + blend(c, raw.target.z - p.target.z),
                };
                LookTransform { eye, target }
            },
        };
        self.previous = Some(r);
        r
    }
}

} // verus!
