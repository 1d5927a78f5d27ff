//! Fixed-point trigonometry on micro-radian angles.
//!
//! `sin_fix` / `cos_fix` reduce any angle to the first quarter turn and
//! evaluate a Taylor kernel there; `atan2_fix` and `asin_fix` invert them.
//! Each executable function returns exactly the value of its spec mirror,
//! so every caller's contract is pinned down to the last micro-unit.

use vstd::prelude::*;
use crate::fixed::{
    SCALE,
    fix_abs,
    mul_fix,
    sqrt_floor,
    fmul,
    div_pos,
    abs_i64,
    isqrt,
    lemma_mul_fix_bound,
    lemma_mul_fix_sign,
};

verus! {

/// A quarter turn, in micro-radians.
pub const HALF_PI: i64 = 1_570_796;

/// A half turn; kept an exact double of `HALF_PI` so quadrant folding is exact.
pub const PI_FIX: i64 = 2 * HALF_PI;

/// A full turn.
pub const TWO_PI: i64 = 4 * HALF_PI;

/// An eighth turn, exactly half of `HALF_PI`.
pub const QUARTER_PI: i64 = 785_398;

/// `tan(pi / 8)` in fixed point; where the arctangent argument folds.
pub const ATAN_SPLIT: i64 = 414_213;

/// Every sine or cosine value stays within this bound (slightly above
/// `SCALE` because the cosine kernel truncates term by term).
pub const TRIG_BOUND: i64 = 1_020_000;

/// Taylor kernel for sine on `[0, QUARTER_PI]`.
pub open spec fn sin_kernel(t: int) -> int {
    let t2 = mul_fix(t, t);
    let t3 = mul_fix(t2, t);
    let t5 = mul_fix(t3, t2);
    let t7 = mul_fix(t5, t2);
    t - t3 / 6 + t5 / 120 - t7 / 5040
}

/// Taylor kernel for cosine on `[0, QUARTER_PI]`.
pub open spec fn cos_kernel(t: int) -> int {
    let t2 = mul_fix(t, t);
    let t4 = mul_fix(t2, t2);
    let t6 = mul_fix(t4, t2);
    (SCALE as int) - t2 / 2 + t4 / 24 - t6 / 720
}

/// Sine on the first quarter turn, folding onto the kernels.
pub open spec fn sin_quarter(t: int) -> int {
    if t > QUARTER_PI {
        cos_kernel(HALF_PI - t)
    } else {
        sin_kernel(t)
    }
}

/// Cosine on the first quarter turn.
pub open spec fn cos_quarter(t: int) -> int {
    if t > QUARTER_PI {
        sin_kernel(HALF_PI - t)
    } else {
        cos_kernel(t)
    }
}

/// Sine on the first half turn.
pub open spec fn sin_half(m: int) -> int {
    if m > HALF_PI {
        sin_quarter(PI_FIX - m)
    } else {
        sin_quarter(m)
    }
}

/// Cosine on the first half turn.
pub open spec fn cos_half(m: int) -> int {
    if m > HALF_PI {
        -cos_quarter(PI_FIX - m)
    } else {
        cos_quarter(m)
    }
}

/// Sine on a full turn.
pub open spec fn sin_circle(m: int) -> int {
    if m >= PI_FIX {
        -sin_half(m - PI_FIX)
    } else {
        sin_half(m)
    }
}

/// Cosine on a full turn.
pub open spec fn cos_circle(m: int) -> int {
    if m >= PI_FIX {
        -cos_half(m - PI_FIX)
    } else {
        cos_half(m)
    }
}

/// Sine of any micro-radian angle: reduce the magnitude modulo a full turn,
/// then use that sine is odd.
pub open spec fn sin_fix(x: int) -> int {
    if x >= 0 {
        sin_circle(x % (TWO_PI as int))
    } else {
        -sin_circle((-x) % (TWO_PI as int))
    }
}

/// Cosine of any micro-radian angle (cosine is even).
pub open spec fn cos_fix(x: int) -> int {
    if x >= 0 {
        cos_circle(x % (TWO_PI as int))
    } else {
        cos_circle((-x) % (TWO_PI as int))
    }
}

/// Executable sine kernel; the bounds feed the overflow proofs downstream.
fn sin_kernel_x(t: i64) -> (r: i64)
    requires
        0 <= t <= QUARTER_PI,
    ensures
        r as int == sin_kernel(t as int),
        0 <= r <= 790_000,
{
    proof {
        lemma_mul_fix_sign(t as int, t as int);
        lemma_mul_fix_bound(t as int, t as int, 785_398, 785_398);
    }
    let t2: i64 = fmul(t, t);
    proof {
        lemma_mul_fix_sign(t2 as int, t as int);
        lemma_mul_fix_bound(t2 as int, t as int, 616_851, 785_398);
    }
    let t3: i64 = fmul(t2, t);
    proof {
        lemma_mul_fix_sign(t3 as int, t2 as int);
        lemma_mul_fix_bound(t3 as int, t2 as int, 484_473, 616_851);
    }
    let t5: i64 = fmul(t3, t2);
    proof {
        lemma_mul_fix_sign(t5 as int, t2 as int);
        lemma_mul_fix_bound(t5 as int, t2 as int, 298_850, 616_851);
    }
    let t7: i64 = fmul(t5, t2);
    let u3: i64 = div_pos(t3, 6);
    let u5: i64 = div_pos(t5, 120);
    let u7: i64 = div_pos(t7, 5040);
    proof {
        // u3 <= t, so the leading difference never goes negative.
        assert(t3 * (SCALE as int) <= t2 * (t as int)) by (nonlinear_arith)
            requires
                t as int >= 0,
                t2 as int >= 0,
                t3 as int == mul_fix(t2 as int, t as int),
                SCALE == 1_000_000,
        ;
        assert(t3 * (SCALE as int) * (SCALE as int) <= (t as int) * (t as int) * (t as int))
            by (nonlinear_arith)
            requires
                t as int >= 0,
                t2 as int >= 0,
                t3 as int >= 0,
                t3 * (SCALE as int) <= t2 * (t as int),
                t2 * (SCALE as int) <= (t as int) * (t as int),
                SCALE == 1_000_000,
        ;
        assert((t as int) * (t as int) * (t as int) <= (t as int) * 785_398 * 785_398)
            by (nonlinear_arith)
            requires
                0 <= t as int <= 785_398,
        ;
        assert(u3 <= t) by (nonlinear_arith)
            requires
                u3 as int * 6 <= t3 as int,
                t3 * 1_000_000 * 1_000_000 <= (t as int) * 785_398 * 785_398,
                t as int >= 0,
                t3 as int >= 0,
                u3 as int >= 0,
        ;
        // u7 <= u5 because t7 <= t5 (the extra factor is below one).
        assert(t7 * (SCALE as int) <= t5 * (t2 as int)) by (nonlinear_arith)
            requires
                t5 as int >= 0,
                t2 as int >= 0,
                t7 as int == mul_fix(t5 as int, t2 as int),
                SCALE == 1_000_000,
        ;
        assert(t7 <= t5) by (nonlinear_arith)
            requires
                t7 * (SCALE as int) <= t5 * (t2 as int),
                0 <= t2 as int <= SCALE as int,
                t5 as int >= 0,
                t7 as int >= 0,
                SCALE == 1_000_000,
        ;
        vstd::arithmetic::div_mod::lemma_div_is_ordered(t7 as int, t5 as int, 5040);
        vstd::arithmetic::div_mod::lemma_div_is_ordered_by_denominator(t5 as int, 120, 5040);
    }
    t - u3 + u5 - u7
}

/// Executable cosine kernel.
fn cos_kernel_x(t: i64) -> (r: i64)
    requires
        0 <= t <= QUARTER_PI,
    ensures
        r as int == cos_kernel(t as int),
        0 <= r <= TRIG_BOUND,
{
    proof {
        lemma_mul_fix_sign(t as int, t as int);
        lemma_mul_fix_bound(t as int, t as int, 785_398, 785_398);
    }
    let t2: i64 = fmul(t, t);
    proof {
        lemma_mul_fix_sign(t2 as int, t2 as int);
        lemma_mul_fix_bound(t2 as int, t2 as int, 616_851, 616_851);
    }
    let t4: i64 = fmul(t2, t2);
    proof {
        lemma_mul_fix_sign(t4 as int, t2 as int);
        lemma_mul_fix_bound(t4 as int, t2 as int, 380_506, 616_851);
    }
    let t6: i64 = fmul(t4, t2);
    let v2: i64 = div_pos(t2, 2);
    let v4: i64 = div_pos(t4, 24);
    let v6: i64 = div_pos(t6, 720);
    SCALE - v2 + v4 - v6
}

/// Sine on the first quarter turn.
fn sin_quarter_x(t: i64) -> (r: i64)
    requires
        0 <= t <= HALF_PI,
    ensures
        r as int == sin_quarter(t as int),
        0 <= r <= TRIG_BOUND,
{
    if t > QUARTER_PI {
        cos_kernel_x(HALF_PI - t)
    } else {
        sin_kernel_x(t)
    }
}

/// Cosine on the first quarter turn.
fn cos_quarter_x(t: i64) -> (r: i64)
    requires
        0 <= t <= HALF_PI,
    ensures
        r as int == cos_quarter(t as int),
        0 <= r <= TRIG_BOUND,
{
    if t > QUARTER_PI {
        sin_kernel_x(HALF_PI - t)
    } else {
        cos_kernel_x(t)
    }
}

/// Sine of any micro-radian angle.
pub fn sin_x(x: i64) -> (r: i64)
    ensures
        r as int == sin_fix(x as int),
        fix_abs(r as int) <= TRIG_BOUND as int,
{
    let ax: u64 = abs_i64(x);
    let m: i64 = (ax % (TWO_PI as u64)) as i64;
    let mh: i64 = if m >= PI_FIX {
        m - PI_FIX
    } else {
        m
    };
    let mq: i64 = if mh > HALF_PI {
        PI_FIX - mh
    } else {
        mh
    };
    let k: i64 = sin_quarter_x(mq);
    let flip: bool = (m >= PI_FIX) != (x < 0);
    if flip {
        -k
    } else {
        k
    }
}

/// Cosine of any micro-radian angle.
pub fn cos_x(x: i64) -> (r: i64)
    ensures
        r as int == cos_fix(x as int),
        fix_abs(r as int) <= TRIG_BOUND as int,
{
    let ax: u64 = abs_i64(x);
    let m: i64 = (ax % (TWO_PI as u64)) as i64;
    let mh: i64 = if m >= PI_FIX {
        m - PI_FIX
    } else {
        m
    };
    let flip_half: bool = mh > HALF_PI;
    let mq: i64 = if flip_half {
        PI_FIX - mh
    } else {
        mh
    };
    let k: i64 = cos_quarter_x(mq);
    let flip: bool = (m >= PI_FIX) != flip_half;
    if flip {
        -k
    } else {
        k
    }
}

/// Taylor kernel for arctangent on `[0, ATAN_SPLIT]`.
pub open spec fn atan_kernel(w: int) -> int {
    let w2 = mul_fix(w, w);
    let w3 = mul_fix(w2, w);
    let w5 = mul_fix(w3, w2);
    let w7 = mul_fix(w5, w2);
    let w9 = mul_fix(w7, w2);
    w - w3 / 3 + w5 / 5 - w7 / 7 + w9 / 9
}

/// Arctangent of `z / SCALE` for `z` in `[0, SCALE]`, folding the upper part
/// of the range through `atan(z) = pi/4 - atan((1 - z) / (1 + z))`.
pub open spec fn atan_unit(z: int) -> int {
    if z > ATAN_SPLIT {
        QUARTER_PI - atan_kernel(((SCALE as int - z) * (SCALE as int)) / (SCALE as int + z))
    } else {
        atan_kernel(z)
    }
}

/// Arctangent of `num / den` for `0 <= num <= den`, `den > 0`.
pub open spec fn atan_ratio(num: int, den: int) -> int {
    atan_unit((num * (SCALE as int)) / den)
}

/// Four-quadrant arctangent of `y / x`, in micro-radians within a half turn.
pub open spec fn atan2_fix(y: int, x: int) -> int {
    let ay = fix_abs(y);
    let ax = fix_abs(x);
    let base = if ay <= ax {
        atan_ratio(ay, ax)
    } else {
        HALF_PI - atan_ratio(ax, ay)
    };
    let mag = if x >= 0 {
        base
    } else {
        PI_FIX - base
    };
    if y >= 0 {
        mag
    } else {
        -mag
    }
}

/// Arcsine of `s / SCALE` for `s` in `[-SCALE, SCALE]`.
pub open spec fn asin_fix(s: int) -> int {
    atan2_fix(s, sqrt_floor((SCALE as int) * (SCALE as int) - s * s))
}

/// Executable arctangent kernel.
fn atan_kernel_x(w: i64) -> (r: i64)
    requires
        0 <= w <= ATAN_SPLIT,
    ensures
        r as int == atan_kernel(w as int),
        0 <= r <= 416_700,
{
    proof {
        lemma_mul_fix_sign(w as int, w as int);
        lemma_mul_fix_bound(w as int, w as int, 414_213, 414_213);
    }
    let w2: i64 = fmul(w, w);
    proof {
        lemma_mul_fix_sign(w2 as int, w as int);
        lemma_mul_fix_bound(w2 as int, w as int, 171_573, 414_213);
    }
    let w3: i64 = fmul(w2, w);
    proof {
        lemma_mul_fix_sign(w3 as int, w2 as int);
        lemma_mul_fix_bound(w3 as int, w2 as int, 71_069, 171_573);
    }
    let w5: i64 = fmul(w3, w2);
    proof {
        lemma_mul_fix_sign(w5 as int, w2 as int);
        lemma_mul_fix_bound(w5 as int, w2 as int, 12_194, 171_573);
    }
    let w7: i64 = fmul(w5, w2);
    proof {
        lemma_mul_fix_sign(w7 as int, w2 as int);
        lemma_mul_fix_bound(w7 as int, w2 as int, 2_093, 171_573);
    }
    let w9: i64 = fmul(w7, w2);
    let u3: i64 = div_pos(w3, 3);
    let u5: i64 = div_pos(w5, 5);
    let u7: i64 = div_pos(w7, 7);
    let u9: i64 = div_pos(w9, 9);
    proof {
        // u3 <= w, so the leading difference never goes negative.
        assert(w3 * (SCALE as int) <= w2 * (w as int)) by (nonlinear_arith)
            requires
                w as int >= 0,
                w2 as int >= 0,
                w3 as int == mul_fix(w2 as int, w as int),
                SCALE == 1_000_000,
        ;
        assert(w3 * (SCALE as int) * (SCALE as int) <= (w as int) * (w as int) * (w as int))
            by (nonlinear_arith)
            requires
                w as int >= 0,
                w2 as int >= 0,
                w3 as int >= 0,
                w3 * (SCALE as int) <= w2 * (w as int),
                w2 * (SCALE as int) <= (w as int) * (w as int),
                SCALE == 1_000_000,
        ;
        assert((w as int) * (w as int) * (w as int) <= (w as int) * 414_213 * 414_213)
            by (nonlinear_arith)
            requires
                0 <= w as int <= 414_213,
        ;
        assert(u3 <= w) by (nonlinear_arith)
            requires
                u3 as int * 3 <= w3 as int,
                w3 * 1_000_000 * 1_000_000 <= (w as int) * 414_213 * 414_213,
                w as int >= 0,
                w3 as int >= 0,
                u3 as int >= 0,
        ;
        // u7 <= u5 because w7 <= w5.
        assert(w7 * (SCALE as int) <= w5 * (w2 as int)) by (nonlinear_arith)
            requires
                w5 as int >= 0,
                w2 as int >= 0,
                w7 as int == mul_fix(w5 as int, w2 as int),
                SCALE == 1_000_000,
        ;
        assert(w7 <= w5) by (nonlinear_arith)
            requires
                w7 * (SCALE as int) <= w5 * (w2 as int),
                0 <= w2 as int <= SCALE as int,
                w5 as int >= 0,
                w7 as int >= 0,
                SCALE == 1_000_000,
        ;
        vstd::arithmetic::div_mod::lemma_div_is_ordered(w7 as int, w5 as int, 7);
        vstd::arithmetic::div_mod::lemma_div_is_ordered_by_denominator(w5 as int, 5, 7);
    }
    w - u3 + u5 - u7 + u9
}

/// Arctangent of `z / SCALE` on the unit interval.
fn atan_unit_x(z: i64) -> (r: i64)
    requires
        0 <= z <= SCALE,
    ensures
        r as int == atan_unit(z as int),
        0 <= r <= QUARTER_PI,
{
    if z > ATAN_SPLIT {
        let num: u64 = ((SCALE - z) as u64) * (SCALE as u64);
        let den: u64 = (SCALE + z) as u64;
        let w: i64 = (num / den) as i64;
        proof {
            vstd::arithmetic::div_mod::lemma_fundamental_div_mod(num as int, den as int);
            vstd::arithmetic::div_mod::lemma_mod_bound(num as int, den as int);
            assert(w as int <= 414_213) by (nonlinear_arith)
                requires
                    (w as int) * (den as int) <= num as int,
                    num as int == ((SCALE - z) as int) * (SCALE as int),
                    den as int == (SCALE + z) as int,
                    414_214 <= z as int <= SCALE as int,
                    w as int >= 0,
                    SCALE == 1_000_000,
            ;
        }
        QUARTER_PI - atan_kernel_x(w)
    } else {
        atan_kernel_x(z)
    }
}

/// Four-quadrant arctangent; the angle whose sine and cosine have the
/// signs and ratio of `y` and `x`.
pub fn atan2_x(y: i64, x: i64) -> (r: i64)
    requires
        !(y == 0 && x == 0),
    ensures
        r as int == atan2_fix(y as int, x as int),
        fix_abs(r as int) <= PI_FIX as int,
        x >= 0 ==> fix_abs(r as int) <= HALF_PI as int,
{
    let ay: u64 = abs_i64(y);
    let ax: u64 = abs_i64(x);
    let base: i64 = if ay <= ax {
        let zq: u128 = ((ay as u128) * (SCALE as u128)) / (ax as u128);
        proof {
            vstd::arithmetic::div_mod::lemma_div_is_ordered(
                (ay as int) * (SCALE as int),
                (ax as int) * (SCALE as int),
                ax as int,
            );
            vstd::arithmetic::div_mod::lemma_div_by_multiple(SCALE as int, ax as int);
        }
        atan_unit_x(zq as i64)
    } else {
        let zq: u128 = ((ax as u128) * (SCALE as u128)) / (ay as u128);
        proof {
            vstd::arithmetic::div_mod::lemma_div_is_ordered(
                (ax as int) * (SCALE as int),
                (ay as int) * (SCALE as int),
                ay as int,
            );
            vstd::arithmetic::div_mod::lemma_div_by_multiple(SCALE as int, ay as int);
        }
        HALF_PI - atan_unit_x(zq as i64)
    };
    let mag: i64 = if x >= 0 {
        base
    } else {
        PI_FIX - base
    };
    if y >= 0 {
        mag
    } else {
        -mag
    }
}

/// Arcsine of `s / SCALE`, through the arctangent of `s` against the
/// complementary leg `sqrt(1 - s^2)`.
pub fn asin_x(s: i64) -> (r: i64)
    requires
        -SCALE <= s <= SCALE,
    ensures
        r as int == asin_fix(s as int),
        fix_abs(r as int) <= HALF_PI as int,
{
    proof {
        assert(0 <= (s as int) * (s as int) <= (SCALE as int) * (SCALE as int))
            by (nonlinear_arith)
            requires
                -(SCALE as int) <= s as int <= SCALE as int,
        ;
    }
    let n: u128 = ((SCALE as i128) * (SCALE as i128) - (s as i128) * (s as i128)) as u128;
    let c: u64 = isqrt(n);
    proof {
        crate::fixed::lemma_sqrt_floor(n as int);
        assert(c as int <= SCALE as int) by (nonlinear_arith)
            requires
                (c as int) * (c as int) <= (SCALE as int) * (SCALE as int),
                c as int >= 0,
                SCALE == 1_000_000,
        ;
        if s == 0 {
            assert(c as int >= 1) by (nonlinear_arith)
                requires
                    n as int >= 1_000_000_000_000,
                    (n as int) < ((c as int) + 1) * ((c as int) + 1),
                    c as int >= 0,
            ;
        }
    }
    atan2_x(s, c as i64)
}

} // verus!
