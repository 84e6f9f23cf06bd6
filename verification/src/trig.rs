//! Integer trigonometry over turn-based angles.
//!
//! Angles are measured in units of 1/65536 turn. Sine and cosine are
//! computed by Bhaskara's rational approximation, scaled by `TRIG_SCALE`;
//! the approximation is exact at every multiple of a quarter turn and
//! within 0.17% of the real value elsewhere. The direction toward a point
//! is computed by an octant-reduced rational arctangent. All three are
//! total, deterministic functions of their integer arguments, and the
//! contracts pin the result value exactly.

use vstd::prelude::*;
use vstd::arithmetic::div_mod::{
    lemma_div_is_ordered, lemma_div_multiples_vanish, lemma_div_pos_is_pos, lemma_mod_self_0,
    lemma_mod_multiples_vanish, lemma_small_mod,
};

use crate::fixed::{COORD_LIMIT, TURN, HALF_TURN, QUARTER_TURN, angle_wf, norm_angle};

verus! {

/// Scale of sine/cosine results: `sin_fp` ranges over `[-TRIG_SCALE, TRIG_SCALE]`.
pub const TRIG_SCALE: i64 = 65536;

/// Angle units in an eighth of a turn.
pub const EIGHTH_TURN: i64 = 8192;

/// Second-order coefficient of the arctangent approximation, in angle
/// units (0.273 radians of correction at the octant midpoint).
pub const ATAN_COEF: i64 = 2848;

/// Bhaskara's sine approximation on the first half turn, scaled by
/// `TRIG_SCALE`. Meaningful for `0 <= a <= HALF_TURN`.
pub open spec fn spec_sin_half(a: int) -> int {
    let t = a * (HALF_TURN - a);
    (16 * t * TRIG_SCALE) / (5 * HALF_TURN * HALF_TURN - 4 * t)
}

/// Sine of a normalized angle, scaled by `TRIG_SCALE`.
pub open spec fn spec_sin(a: int) -> int {
    if a <= HALF_TURN {
        spec_sin_half(a)
    } else {
        -spec_sin_half(a - HALF_TURN)
    }
}

/// Cosine of a normalized angle, scaled by `TRIG_SCALE`.
pub open spec fn spec_cos(a: int) -> int {
    spec_sin(norm_angle(a + QUARTER_TURN))
}

proof fn lemma_sin_half_bounds(a: int)
    requires
        0 <= a <= HALF_TURN,
    ensures
        0 <= spec_sin_half(a) <= TRIG_SCALE,
{
    let t = a * (HALF_TURN - a);
    assert(0 <= t && 4 * t <= HALF_TURN * HALF_TURN) by (nonlinear_arith)
        requires
            0 <= a <= HALF_TURN,
            t == a * (HALF_TURN - a),
    ;
    let num = 16 * t * TRIG_SCALE;
    let den = 5 * HALF_TURN * HALF_TURN - 4 * t;
    assert(den > 0);
    assert(num >= 0);
    assert(num <= TRIG_SCALE * den);
    lemma_div_is_ordered(num, TRIG_SCALE * den, den);
    lemma_div_multiples_vanish(TRIG_SCALE as int, den);
    assert(den * TRIG_SCALE == TRIG_SCALE * den);
    lemma_div_pos_is_pos(num, den);
}

/// Sine lies within `[-TRIG_SCALE, TRIG_SCALE]` on normalized angles.
pub proof fn lemma_sin_bounds(a: int)
    requires
        angle_wf(a),
    ensures
        -TRIG_SCALE <= spec_sin(a) <= TRIG_SCALE,
{
    if a <= HALF_TURN {
        lemma_sin_half_bounds(a);
    } else {
        lemma_sin_half_bounds(a - HALF_TURN);
    }
}

/// Cosine lies within `[-TRIG_SCALE, TRIG_SCALE]` on normalized angles.
pub proof fn lemma_cos_bounds(a: int)
    requires
        angle_wf(a),
    ensures
        -TRIG_SCALE <= spec_cos(a) <= TRIG_SCALE,
{
    let b = norm_angle(a + QUARTER_TURN);
    assert(0 <= b < TURN);
    lemma_sin_bounds(b);
}

fn sin_half(a: i64) -> (r: i64)
    requires
        0 <= a <= HALF_TURN,
    ensures
        r == spec_sin_half(a as int),
        0 <= r <= TRIG_SCALE,
{
    proof {
        lemma_sin_half_bounds(a as int);
        assert(0 <= (a as int) * (HALF_TURN - a as int)
            && 4 * ((a as int) * (HALF_TURN - a as int)) <= HALF_TURN * HALF_TURN)
            by (nonlinear_arith)
            requires
                0 <= a as int <= HALF_TURN,
        ;
    }
    let t: i64 = a * (HALF_TURN - a);
    let num: i64 = 16 * t * TRIG_SCALE;
    let den: i64 = 5 * HALF_TURN * HALF_TURN - 4 * t;
    num / den
}

/// Sine of an angle in `[0, TURN)`, scaled by `TRIG_SCALE`.
pub fn sin_fp(a: i64) -> (r: i64)
    requires
        angle_wf(a as int),
    ensures
        r == spec_sin(a as int),
        -TRIG_SCALE <= r <= TRIG_SCALE,
{
    if a <= HALF_TURN {
        sin_half(a)
    } else {
        -sin_half(a - HALF_TURN)
    }
}

/// Cosine of an angle in `[0, TURN)`, scaled by `TRIG_SCALE`.
pub fn cos_fp(a: i64) -> (r: i64)
    requires
        angle_wf(a as int),
    ensures
        r == spec_cos(a as int),
        -TRIG_SCALE <= r <= TRIG_SCALE,
{
    let b: i64 = if a >= TURN - QUARTER_TURN {
        a + QUARTER_TURN - TURN
    } else {
        a + QUARTER_TURN
    };
    proof {
        if a >= TURN - QUARTER_TURN {
            assert(a + QUARTER_TURN == (TURN as int) * 1 + b);
            lemma_mod_multiples_vanish(1, b as int, TURN as int);
            lemma_small_mod(b as nat, TURN as nat);
        } else {
            lemma_small_mod((a + QUARTER_TURN) as nat, TURN as nat);
        }
        assert(norm_angle(a + QUARTER_TURN) == b);
    }
    sin_fp(b)
}

/// The arctangent approximation within one octant: for `0 <= n <= d`,
/// an angle in `[0, EIGHTH_TURN + ATAN_COEF]` approximating `atan(n/d)`.
pub open spec fn spec_atan_oct(n: int, d: int) -> int {
    EIGHTH_TURN * n / d + (ATAN_COEF * n / d) * (d - n) / d
}

proof fn lemma_atan_oct_bounds(n: int, d: int)
    requires
        0 <= n <= d,
        1 <= d,
    ensures
        0 <= EIGHTH_TURN * n / d <= EIGHTH_TURN,
        0 <= ATAN_COEF * n / d <= ATAN_COEF,
        0 <= (ATAN_COEF * n / d) * (d - n) / d <= ATAN_COEF,
        0 <= spec_atan_oct(n, d) <= EIGHTH_TURN + ATAN_COEF,
{
    assert(EIGHTH_TURN * n <= EIGHTH_TURN * d && 0 <= EIGHTH_TURN * n);
    lemma_div_is_ordered(EIGHTH_TURN * n, EIGHTH_TURN * d, d);
    lemma_div_multiples_vanish(EIGHTH_TURN as int, d);
    assert(d * EIGHTH_TURN == EIGHTH_TURN * d);
    lemma_div_pos_is_pos(EIGHTH_TURN * n, d);
    assert(ATAN_COEF * n <= ATAN_COEF * d && 0 <= ATAN_COEF * n);
    lemma_div_is_ordered(ATAN_COEF * n, ATAN_COEF * d, d);
    lemma_div_multiples_vanish(ATAN_COEF as int, d);
    assert(d * ATAN_COEF == ATAN_COEF * d);
    lemma_div_pos_is_pos(ATAN_COEF * n, d);
    let c1 = ATAN_COEF * n / d;
    assert(c1 * (d - n) <= ATAN_COEF * d && 0 <= c1 * (d - n)) by (nonlinear_arith)
        requires
            0 <= c1 <= ATAN_COEF,
            0 <= d - n <= d,
    ;
    lemma_div_is_ordered(c1 * (d - n), ATAN_COEF * d, d);
    lemma_div_pos_is_pos(c1 * (d - n), d);
}

fn atan_oct(n: i64, d: i64) -> (r: i64)
    requires
        0 <= n <= d,
        1 <= d <= 2 * COORD_LIMIT,
    ensures
        r == spec_atan_oct(n as int, d as int),
        0 <= r <= EIGHTH_TURN + ATAN_COEF,
{
    proof {
        lemma_atan_oct_bounds(n as int, d as int);
    }
    let t1: i64 = (EIGHTH_TURN * n) / d;
    let c1: i64 = (ATAN_COEF * n) / d;
    proof {
        assert(c1 * (d - n) <= ATAN_COEF * (2 * COORD_LIMIT) && 0 <= c1 * (d - n))
            by (nonlinear_arith)
            requires
                0 <= c1 as int <= ATAN_COEF,
                0 <= d - n <= 2 * COORD_LIMIT,
        ;
    }
    let t2: i64 = (c1 * (d - n)) / d;
    t1 + t2
}

/// Direction of the vector `(dx, dy)` from the positive x axis, as a
/// normalized angle; `0` for the zero vector.
pub open spec fn spec_atan2(dy: int, dx: int) -> int {
    if dx == 0 && dy == 0 {
        0
    } else {
        let ax = if dx < 0 { -dx } else { dx };
        let ay = if dy < 0 { -dy } else { dy };
        let base = if ay <= ax {
            spec_atan_oct(ay, ax)
        } else {
            QUARTER_TURN - spec_atan_oct(ax, ay)
        };
        if dx >= 0 && dy >= 0 {
            base
        } else if dx < 0 && dy >= 0 {
            HALF_TURN - base
        } else if dx < 0 {
            HALF_TURN + base
        } else {
            norm_angle(TURN - base)
        }
    }
}

/// Direction of the vector `(dx, dy)`, as a normalized angle in
/// `[0, TURN)`; `0` for the zero vector.
pub fn atan2_fp(dy: i64, dx: i64) -> (r: i64)
    requires
        -2 * COORD_LIMIT <= dy <= 2 * COORD_LIMIT,
        -2 * COORD_LIMIT <= dx <= 2 * COORD_LIMIT,
    ensures
        r == spec_atan2(dy as int, dx as int),
        angle_wf(r as int),
{
    if dx == 0 && dy == 0 {
        return 0;
    }
    let ax: i64 = if dx < 0 { -dx } else { dx };
    let ay: i64 = if dy < 0 { -dy } else { dy };
    let base: i64 = if ay <= ax {
        atan_oct(ay, ax)
    } else {
        QUARTER_TURN - atan_oct(ax, ay)
    };
    if dx >= 0 && dy >= 0 {
        base
    } else if dx < 0 && dy >= 0 {
        HALF_TURN - base
    } else if dx < 0 {
        HALF_TURN + base
    } else {
        let r0: i64 = TURN - base;
        proof {
            if r0 == TURN {
                lemma_mod_self_0(TURN as int);
            } else {
                lemma_small_mod(r0 as nat, TURN as nat);
            }
        }
        if r0 == TURN {
            0
        } else {
            r0
        }
    }
}

} // verus!
