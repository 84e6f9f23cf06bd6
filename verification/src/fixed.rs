//! Fixed-point numeric base of the simulation.
//!
//! World coordinates are measured in milli-pixels (1/1000 of a pixel) and
//! held in `i64`. Time is measured in milliseconds. Angles are measured in
//! units of 1/65536 of a full turn. All simulation arithmetic is exact
//! integer arithmetic over these units.

use vstd::prelude::*;

verus! {

/// Largest magnitude a world coordinate may take, in milli-pixels.
pub const COORD_LIMIT: i64 = 1_000_000_000;

/// Largest magnitude a bound of the play rectangle may take, in
/// milli-pixels. Smaller than `COORD_LIMIT`, so that positions a bounded
/// distance outside the rectangle are still representable without clamping.
pub const RECT_LIMIT: i64 = 999_000_000;

/// Largest magnitude accepted for a single displacement, in milli-pixels.
pub const UNITS_LIMIT: i64 = 100_000_000_000_000;

/// Angle units in a full turn (two pi radians).
pub const TURN: i64 = 65536;

/// Angle units in a half turn (pi radians).
pub const HALF_TURN: i64 = 32768;

/// Angle units in a quarter turn.
pub const QUARTER_TURN: i64 = 16384;

/// Largest time delta a single tick accepts, in milliseconds.
pub const DT_MAX: i64 = 60_000;

/// The coordinate range, as a predicate.
pub open spec fn coord_in_range(x: int) -> bool {
    -COORD_LIMIT <= x <= COORD_LIMIT
}

/// A well-formed angle lies in `[0, TURN)`.
pub open spec fn angle_wf(a: int) -> bool {
    0 <= a < TURN
}

pub open spec fn spec_clamp_coord(x: int) -> int {
    if x < -COORD_LIMIT {
        -COORD_LIMIT as int
    } else if x > COORD_LIMIT {
        COORD_LIMIT as int
    } else {
        x
    }
}

/// Clamps a coordinate into the representable world range.
pub fn clamp_coord(x: i64) -> (r: i64)
    ensures
        r == spec_clamp_coord(x as int),
{
    if x < -COORD_LIMIT {
        -COORD_LIMIT
    } else if x > COORD_LIMIT {
        COORD_LIMIT
    } else {
        x
    }
}

/// Division that truncates toward zero, as Rust's `/` does; defined here
/// over mathematical integers for use in contracts.
pub open spec fn div_trunc(a: int, b: int) -> int {
    if a >= 0 {
        a / b
    } else {
        -((-a) / b)
    }
}

/// Truncating division of a possibly negative dividend by a positive
/// divisor.
pub fn div_trunc_i64(a: i64, b: i64) -> (r: i64)
    requires
        b > 0,
        a > i64::MIN,
    ensures
        r == div_trunc(a as int, b as int),
{
    if a >= 0 {
        a / b
    } else {
        -((-a) / b)
    }
}

/// If the dividend is bounded by `m` multiples of the divisor, the
/// truncating quotient is bounded by `m`.
pub proof fn lemma_div_trunc_le(a: int, b: int, m: int)
    requires
        b > 0,
        0 <= m,
        -(m * b) <= a <= m * b,
    ensures
        -m <= div_trunc(a, b) <= m,
{
    vstd::arithmetic::div_mod::lemma_div_multiples_vanish(m, b);
    if a >= 0 {
        vstd::arithmetic::div_mod::lemma_div_is_ordered(a, b * m, b);
        vstd::arithmetic::div_mod::lemma_div_pos_is_pos(a, b);
        assert(b * m == m * b);
    } else {
        vstd::arithmetic::div_mod::lemma_div_is_ordered(-a, b * m, b);
        vstd::arithmetic::div_mod::lemma_div_pos_is_pos(-a, b);
        assert(b * m == m * b);
    }
}

/// Largest value the integer square root accepts.
pub const ISQRT_MAX: i64 = 8_000_000_000_000_000_000;

/// The integer square root: the greatest `r` with `r * r <= n`.
pub fn isqrt64(n: i64) -> (r: i64)
    requires
        0 <= n <= ISQRT_MAX,
    ensures
        0 <= r,
        r * r <= n,
        (r + 1) * (r + 1) > n,
{
    let mut lo: i64 = 0;
    let mut hi: i64 = 2_828_427_125;
    proof {
        assert(2_828_427_125i64 * 2_828_427_125i64 > ISQRT_MAX) by (nonlinear_arith);
    }
    while lo + 1 < hi
        invariant
            0 <= lo < hi <= 2_828_427_125,
            lo * lo <= n,
            hi * hi > n,
            n <= ISQRT_MAX,
        decreases hi - lo,
    {
        let mid: i64 = lo + (hi - lo) / 2;
        proof {
            assert(lo < mid < hi);
            assert(mid * mid < 2_828_427_125i64 * 2_828_427_125i64) by (nonlinear_arith)
                requires
                    0 <= mid < 2_828_427_125i64,
            ;
        }
        if mid * mid <= n {
            lo = mid;
        } else {
            hi = mid;
        }
    }
    lo
}

/// Angles reduced into `[0, TURN)`.
pub open spec fn norm_angle(a: int) -> int {
    if a % (TURN as int) < 0 {
        a % (TURN as int) + TURN
    } else {
        a % (TURN as int)
    }
}

/// Reduces an angle into `[0, TURN)`.
pub fn normalize_angle(a: i64) -> (r: i64)
    requires
        a > i64::MIN + TURN,
    ensures
        r == norm_angle(a as int),
        angle_wf(r as int),
{
    let m: i64 = a % TURN;
    if m < 0 {
        m + TURN
    } else {
        m
    }
}

} // verus!
