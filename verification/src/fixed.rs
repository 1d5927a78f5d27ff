//! Fixed-point scalars.
//!
//! A scalar is an `i64` counting millionths: `SCALE` stands for 1.0.
//! Positions count micro-units of world distance, angles count
//! micro-radians.  `mul_fix` is the fixed-point product, truncated toward
//! zero, exactly mirrored by the executable `fmul`.

use vstd::prelude::*;

verus! {

/// Fixed-point unit: this many micro-units stand for 1.0.
pub const SCALE: i64 = 1_000_000;

/// Largest magnitude accepted for an eye or target coordinate handed to the
/// resolvers (one million world units).
pub const COORD_LIMIT: i64 = 1_000_000_000_000;

/// Largest magnitude accepted for one raw input signal component (a pointer
/// or wheel delta of one thousand units).
pub const INPUT_LIMIT: i64 = 1_000_000_000;

/// Largest magnitude accepted for a sensitivity (one thousand).
pub const SENS_LIMIT: i64 = 1_000_000_000;

/// Bound on every component of an emitted control event; the input mappers
/// guarantee it and the resolvers rely on it to stay clear of overflow.
pub const EVENT_LIMIT: i64 = 4_000_000_000_000_000;

/// Most raw input signals (pointer or wheel motions) accepted per frame.
pub const MAX_SIGNALS: usize = 1000;

/// Most control events a resolver accepts per frame; the mappers emit far
/// fewer.
pub const MAX_FRAME_EVENTS: usize = 16;

/// Magnitude of an integer.
pub open spec fn fix_abs(x: int) -> int {
    if x >= 0 {
        x
    } else {
        -x
    }
}

/// Fixed-point product: `a * b / SCALE`, truncated toward zero.
pub open spec fn mul_fix(a: int, b: int) -> int {
    if a * b >= 0 {
        (a * b) / (SCALE as int)
    } else {
        -((-(a * b)) / (SCALE as int))
    }
}

/// The fixed-point product of values bounded by `aa` and `bb` is bounded by
/// `aa * bb / SCALE` (stated multiplied out, to keep division away from the
/// nonlinear solver).
pub proof fn lemma_mul_fix_bound(a: int, b: int, aa: int, bb: int)
    by (nonlinear_arith)
    requires
        fix_abs(a) <= aa,
        fix_abs(b) <= bb,
    ensures
        fix_abs(a) * fix_abs(b) <= aa * bb,
        fix_abs(mul_fix(a, b)) * (SCALE as int) <= aa * bb,
        a * b >= 0 ==> mul_fix(a, b) * (SCALE as int) <= a * b < (mul_fix(a, b) + 1) * (
        SCALE as int),
        a * b <= 0 ==> (mul_fix(a, b) - 1) * (SCALE as int) < a * b <= mul_fix(a, b) * (
        SCALE as int),
{
}

/// The fixed-point product keeps the sign of the exact product.
pub proof fn lemma_mul_fix_sign(a: int, b: int)
    by (nonlinear_arith)
    ensures
        a >= 0 && b >= 0 ==> mul_fix(a, b) >= 0,
        a >= 0 && b <= 0 ==> mul_fix(a, b) <= 0,
        a <= 0 && b >= 0 ==> mul_fix(a, b) <= 0,
        a <= 0 && b <= 0 ==> mul_fix(a, b) >= 0,
{
}

/// Fixed-point multiply, truncated toward zero.
pub fn fmul(a: i64, b: i64) -> (r: i64)
    requires
        fix_abs(a as int) * fix_abs(b as int) <= (i64::MAX as int) * (SCALE as int),
    ensures
        r as int == mul_fix(a as int, b as int),
{
    proof {
        assert(-85070591730234615865843651857942052864 <= (a as int) * (b as int)
            <= 85070591730234615865843651857942052864) by (nonlinear_arith)
            requires
                -9223372036854775808 <= a as int <= 9223372036854775807,
                -9223372036854775808 <= b as int <= 9223372036854775807,
        ;
    }
    let p: i128 = (a as i128) * (b as i128);
    if p >= 0 {
        let q: u128 = (p as u128) / (SCALE as u128);
        proof {
            lemma_mul_fix_bound(a as int, b as int, fix_abs(a as int), fix_abs(b as int));
        }
        q as i64
    } else {
        let np: i128 = -p;
        let q: u128 = (np as u128) / (SCALE as u128);
        proof {
            lemma_mul_fix_bound(a as int, b as int, fix_abs(a as int), fix_abs(b as int));
        }
        -(q as i64)
    }
}

/// Quotient of a non-negative scalar by a positive constant.
pub fn div_pos(a: i64, d: u64) -> (r: i64)
    requires
        a >= 0,
        d > 0,
    ensures
        r as int == (a as int) / (d as int),
        0 <= r <= a,
{
    ((a as u64) / d) as i64
}

/// Floor of the square root, defined by counting up; `lemma_sqrt_floor`
/// gives the usual characterisation.
pub open spec fn sqrt_floor(n: int) -> int
    decreases n,
{
    if n < 1 {
        0
    } else {
        let s = sqrt_floor(n - 1);
        if (s + 1) * (s + 1) <= n {
            s + 1
        } else {
            s
        }
    }
}

/// `sqrt_floor(n)` is the unique `r >= 0` with `r * r <= n < (r + 1) * (r + 1)`.
pub proof fn lemma_sqrt_floor(n: int)
    requires
        n >= 0,
    ensures
        sqrt_floor(n) >= 0,
        sqrt_floor(n) * sqrt_floor(n) <= n,
        n < (sqrt_floor(n) + 1) * (sqrt_floor(n) + 1),
    decreases n,
{
    if n >= 1 {
        lemma_sqrt_floor(n - 1);
        let s = sqrt_floor(n - 1);
        assert(n - 1 < (s + 1) * (s + 1));
        if (s + 1) * (s + 1) <= n {
            assert(n < (s + 2) * (s + 2)) by (nonlinear_arith)
                requires
                    s >= 0,
                    n - 1 < (s + 1) * (s + 1),
            ;
        }
    }
}

/// Two square-root candidates for the same radicand agree.
pub proof fn lemma_sqrt_unique(n: int, r: int)
    requires
        n >= 0,
        r >= 0,
        r * r <= n,
        n < (r + 1) * (r + 1),
    ensures
        r == sqrt_floor(n),
{
    lemma_sqrt_floor(n);
    let s = sqrt_floor(n);
    assert(r == s) by (nonlinear_arith)
        requires
            r >= 0,
            s >= 0,
            r * r <= n,
            n < (r + 1) * (r + 1),
            s * s <= n,
            n < (s + 1) * (s + 1),
    ;
}

/// The floor square root never decreases with the radicand.
pub proof fn lemma_sqrt_monotone(m: int, n: int)
    requires
        0 <= m <= n,
    ensures
        sqrt_floor(m) <= sqrt_floor(n),
    decreases n - m,
{
    if m < n {
        lemma_sqrt_monotone(m, n - 1);
    }
}

/// The floor square root of an exact square.
pub proof fn lemma_sqrt_square(x: int)
    requires
        x >= 0,
    ensures
        sqrt_floor(x * x) == x,
{
    assert(x * x >= 0 && x * x < (x + 1) * (x + 1)) by (nonlinear_arith)
        requires
            x >= 0,
    ;
    lemma_sqrt_unique(x * x, x);
}

/// Floor square root of a 128-bit radicand, by binary search.
pub fn isqrt(n: u128) -> (r: u64)
    ensures
        r as int == sqrt_floor(n as int),
{
    let mut lo: u128 = 0;
    let mut hi: u128 = 18446744073709551616;
    proof {
        assert((n as int) < 18446744073709551616 * 18446744073709551616) by (nonlinear_arith)
            requires
                n as int <= 340282366920938463463374607431768211455,
        ;
    }
    while lo + 1 < hi
        invariant
            0 <= lo < hi <= 18446744073709551616,
            (lo as int) * (lo as int) <= n as int,
            (n as int) < (hi as int) * (hi as int),
        decreases hi - lo,
    {
        let mid: u128 = lo + (hi - lo) / 2;
        proof {
            assert((mid as int) * (mid as int) < 340282366920938463463374607431768211455)
                by (nonlinear_arith)
                requires
                    0 <= mid as int <= 18446744073709551615,
            ;
        }
        if mid * mid <= n {
            lo = mid;
        } else {
            hi = mid;
        }
    }
    proof {
        lemma_sqrt_unique(n as int, lo as int);
    }
    lo as u64
}

/// Magnitude of an `i64`, widened so that `i64::MIN` needs no special case.
pub fn abs_i64(x: i64) -> (r: u64)
    ensures
        r as int == fix_abs(x as int),
{
    if x >= 0 {
        x as u64
    } else {
        (-(x as i128)) as u64
    }
}

} // verus!
