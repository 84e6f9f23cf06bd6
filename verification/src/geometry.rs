//! Geometry primitives: points and the play rectangle.
//!
//! Pure value operations over fixed-point coordinates. `Point` supports
//! translation, rotation about the origin, squared distance and a
//! circle-intersection test; `Rect` supports containment and uniform
//! random sampling of coordinates inside its bounds.

use vstd::prelude::*;

use crate::fixed::{
    COORD_LIMIT, RECT_LIMIT, angle_wf, coord_in_range, div_trunc, div_trunc_i64,
    lemma_div_trunc_le, spec_clamp_coord, clamp_coord,
};
use crate::trig::{TRIG_SCALE, spec_sin, spec_cos, sin_fp, cos_fp};
use crate::rng::{RandomSource, next_u64};

verus! {

/// A position in the plane, in milli-pixel coordinates.
#[derive(Clone, Copy, PartialEq, Eq, Structural, Debug)]
pub struct Point {
    pub x: i64,
    pub y: i64,
}

/// Both coordinates lie in the representable world range.
pub open spec fn point_in_range(p: Point) -> bool {
    coord_in_range(p.x as int) && coord_in_range(p.y as int)
}

/// The squared Euclidean distance between two points.
pub open spec fn spec_squared_distance(a: Point, b: Point) -> int {
    (a.x - b.x) * (a.x - b.x) + (a.y - b.y) * (a.y - b.y)
}

/// Whether `p` lies in the closed disc around `center` of the given radius.
pub open spec fn spec_intersect_circle(p: Point, center: Point, radius: int) -> bool {
    spec_squared_distance(p, center) <= radius * radius
}

/// `p` rotated about the origin by a normalized angle.
pub open spec fn spec_rotate(p: Point, a: int) -> Point {
    Point {
        x: div_trunc(p.x * spec_cos(a) - p.y * spec_sin(a), TRIG_SCALE as int) as i64,
        y: div_trunc(p.x * spec_sin(a) + p.y * spec_cos(a), TRIG_SCALE as int) as i64,
    }
}

/// Componentwise sum, clamped into the representable world range.
pub open spec fn spec_translate(a: Point, b: Point) -> Point {
    Point {
        x: spec_clamp_coord(a.x + b.x) as i64,
        y: spec_clamp_coord(a.y + b.y) as i64,
    }
}

impl Point {
    pub fn new(x: i64, y: i64) -> (r: Point)
        ensures
            r == (Point { x, y }),
    {
        Point { x, y }
    }

    /// A point sampled inside the rectangle: each coordinate drawn from
    /// `[origin, origin + extent)`; a zero-extent axis yields that axis's
    /// origin coordinate.
    pub fn random<R: RandomSource>(rng: &mut R, rect: Rect) -> (r: Point)
        requires
            rect.bounds_in_range(),
        ensures
            rect.width == 0 ==> r.x == rect.origin.x,
            rect.width > 0 ==> rect.origin.x <= r.x < rect.origin.x + rect.width,
            rect.height == 0 ==> r.y == rect.origin.y,
            rect.height > 0 ==> rect.origin.y <= r.y < rect.origin.y + rect.height,
            point_in_range(r),
    {
        let x: i64 = rect.random_x(rng);
        let y: i64 = rect.random_y(rng);
        Point { x, y }
    }

    pub fn squared_distance(&self, other: &Point) -> (r: i64)
        requires
            point_in_range(*self),
            point_in_range(*other),
        ensures
            r == spec_squared_distance(*self, *other),
            0 <= r <= 8_000_000_000_000_000_000,
    {
        let dx: i64 = self.x - other.x;
        let dy: i64 = self.y - other.y;
        proof {
            assert(0 <= dx * dx <= 4_000_000_000_000_000_000
                && 0 <= dy * dy <= 4_000_000_000_000_000_000) by (nonlinear_arith)
                requires
                    -2_000_000_000 <= dx as int <= 2_000_000_000,
                    -2_000_000_000 <= dy as int <= 2_000_000_000,
            ;
        }
        dx * dx + dy * dy
    }

    /// Rotates the point about the origin by the given normalized angle.
    pub fn rotate_to_origin(&self, angle: i64) -> (r: Point)
        requires
            point_in_range(*self),
            angle_wf(angle as int),
        ensures
            r == spec_rotate(*self, angle as int),
            -2 * COORD_LIMIT <= r.x <= 2 * COORD_LIMIT,
            -2 * COORD_LIMIT <= r.y <= 2 * COORD_LIMIT,
    {
        let c: i64 = cos_fp(angle);
        let s: i64 = sin_fp(angle);
        proof {
            assert(-COORD_LIMIT * TRIG_SCALE <= self.x * c <= COORD_LIMIT * TRIG_SCALE
                && -COORD_LIMIT * TRIG_SCALE <= self.y * s <= COORD_LIMIT * TRIG_SCALE
                && -COORD_LIMIT * TRIG_SCALE <= self.x * s <= COORD_LIMIT * TRIG_SCALE
                && -COORD_LIMIT * TRIG_SCALE <= self.y * c <= COORD_LIMIT * TRIG_SCALE)
                by (nonlinear_arith)
                requires
                    -COORD_LIMIT <= self.x as int <= COORD_LIMIT,
                    -COORD_LIMIT <= self.y as int <= COORD_LIMIT,
                    -TRIG_SCALE <= c as int <= TRIG_SCALE,
                    -TRIG_SCALE <= s as int <= TRIG_SCALE,
            ;
            lemma_div_trunc_le(
                self.x * c - self.y * s,
                TRIG_SCALE as int,
                2 * COORD_LIMIT as int,
            );
            lemma_div_trunc_le(
                self.x * s + self.y * c,
                TRIG_SCALE as int,
                2 * COORD_LIMIT as int,
            );
        }
        let rx: i64 = div_trunc_i64(self.x * c - self.y * s, TRIG_SCALE);
        let ry: i64 = div_trunc_i64(self.x * s + self.y * c, TRIG_SCALE);
        Point { x: rx, y: ry }
    }

    /// Componentwise sum, clamped into the representable world range.
    pub fn translate(&self, other: &Point) -> (r: Point)
        requires
            -2 * COORD_LIMIT <= self.x <= 2 * COORD_LIMIT,
            -2 * COORD_LIMIT <= self.y <= 2 * COORD_LIMIT,
            -2 * COORD_LIMIT <= other.x <= 2 * COORD_LIMIT,
            -2 * COORD_LIMIT <= other.y <= 2 * COORD_LIMIT,
        ensures
            r == spec_translate(*self, *other),
            point_in_range(r),
    {
        Point { x: clamp_coord(self.x + other.x), y: clamp_coord(self.y + other.y) }
    }

    /// Componentwise sum, unclamped.
    pub fn add(&self, other: &Point) -> (r: Point)
        requires
            -2 * COORD_LIMIT <= self.x <= 2 * COORD_LIMIT,
            -2 * COORD_LIMIT <= self.y <= 2 * COORD_LIMIT,
            -2 * COORD_LIMIT <= other.x <= 2 * COORD_LIMIT,
            -2 * COORD_LIMIT <= other.y <= 2 * COORD_LIMIT,
        ensures
            r.x == self.x + other.x,
            r.y == self.y + other.y,
    {
        Point { x: self.x + other.x, y: self.y + other.y }
    }

    /// Componentwise difference.
    pub fn sub(&self, other: &Point) -> (r: Point)
        requires
            -2 * COORD_LIMIT <= self.x <= 2 * COORD_LIMIT,
            -2 * COORD_LIMIT <= self.y <= 2 * COORD_LIMIT,
            -2 * COORD_LIMIT <= other.x <= 2 * COORD_LIMIT,
            -2 * COORD_LIMIT <= other.y <= 2 * COORD_LIMIT,
        ensures
            r.x == self.x - other.x,
            r.y == self.y - other.y,
    {
        Point { x: self.x - other.x, y: self.y - other.y }
    }

    /// Both components scaled by an integer factor.
    pub fn mul(&self, scalar: i64) -> (r: Point)
        requires
            -2 * COORD_LIMIT <= self.x <= 2 * COORD_LIMIT,
            -2 * COORD_LIMIT <= self.y <= 2 * COORD_LIMIT,
            -1_000_000 <= scalar <= 1_000_000,
        ensures
            r.x == self.x * scalar,
            r.y == self.y * scalar,
    {
        proof {
            assert(-2_000_000_000_000_000 <= self.x * scalar <= 2_000_000_000_000_000
                && -2_000_000_000_000_000 <= self.y * scalar <= 2_000_000_000_000_000)
                by (nonlinear_arith)
                requires
                    -2 * COORD_LIMIT <= self.x as int <= 2 * COORD_LIMIT,
                    -2 * COORD_LIMIT <= self.y as int <= 2 * COORD_LIMIT,
                    -1_000_000 <= scalar as int <= 1_000_000,
            ;
        }
        Point { x: self.x * scalar, y: self.y * scalar }
    }

    /// Both components divided by a positive integer factor, truncating
    /// toward zero.
    pub fn div(&self, scalar: i64) -> (r: Point)
        requires
            self.x > i64::MIN,
            self.y > i64::MIN,
            scalar > 0,
        ensures
            r.x == div_trunc(self.x as int, scalar as int),
            r.y == div_trunc(self.y as int, scalar as int),
    {
        Point {
            x: div_trunc_i64(self.x, scalar),
            y: div_trunc_i64(self.y, scalar),
        }
    }

    /// Whether this point lies in the closed disc around `center`.
    pub fn intersect_circle(&self, center: &Point, radius: i64) -> (r: bool)
        requires
            point_in_range(*self),
            point_in_range(*center),
            0 <= radius <= COORD_LIMIT,
        ensures
            r == spec_intersect_circle(*self, *center, radius as int),
    {
        proof {
            assert(0 <= radius * radius <= 1_000_000_000_000_000_000) by (nonlinear_arith)
                requires
                    0 <= radius as int <= 1_000_000_000,
            ;
        }
        self.squared_distance(center) <= radius * radius
    }
}

/// The play rectangle: an origin corner plus a width and a height.
#[derive(Clone, Copy, PartialEq, Eq, Structural, Debug)]
pub struct Rect {
    pub origin: Point,
    pub width: i64,
    pub height: i64,
}

impl Rect {
    /// Non-negative extents, with every edge coordinate representable:
    /// positions a bounded distance outside the rectangle never clamp.
    pub open spec fn bounds_in_range(self) -> bool {
        &&& -RECT_LIMIT <= self.origin.x
        &&& 0 <= self.width
        &&& self.origin.x + self.width <= RECT_LIMIT
        &&& -RECT_LIMIT <= self.origin.y
        &&& 0 <= self.height
        &&& self.origin.y + self.height <= RECT_LIMIT
    }

    /// A playable rectangle: representable bounds, and at least two
    /// pixels of extent per axis, so a spawn position at least a pixel
    /// away from any point inside always exists.
    pub open spec fn wf(self) -> bool {
        &&& self.bounds_in_range()
        &&& 2000 <= self.width
        &&& 2000 <= self.height
    }

    /// Whether a point lies within the rectangle: the origin-relative
    /// half-open box `[origin, origin + extent)` on both axes.
    pub open spec fn spec_contains(self, p: Point) -> bool {
        &&& self.origin.x <= p.x < self.origin.x + self.width
        &&& self.origin.y <= p.y < self.origin.y + self.height
    }

    /// A rectangle of the given extents anchored at the origin.
    pub fn new(width: i64, height: i64) -> (r: Rect)
        ensures
            r == (Rect { origin: Point { x: 0, y: 0 }, width, height }),
    {
        Rect { origin: Point { x: 0, y: 0 }, width, height }
    }

    pub fn contains(&self, p: Point) -> (r: bool)
        requires
            self.bounds_in_range(),
        ensures
            r == self.spec_contains(p),
    {
        p.x >= self.origin.x && p.x < self.origin.x + self.width && p.y >= self.origin.y
            && p.y < self.origin.y + self.height
    }

    /// A coordinate drawn from `[origin.x, origin.x + width)`: a 64-bit
    /// draw reduced by the extent, which keeps the sampling bias below
    /// one part in a billion. A zero-width rectangle yields the origin
    /// coordinate itself.
    pub fn random_x<R: RandomSource>(&self, rng: &mut R) -> (r: i64)
        requires
            self.bounds_in_range(),
        ensures
            self.width == 0 ==> r == self.origin.x,
            self.width > 0 ==> self.origin.x <= r < self.origin.x + self.width,
    {
        if self.width == 0 {
            self.origin.x
        } else {
            let off: u64 = next_u64(rng) % (self.width as u64);
            self.origin.x + off as i64
        }
    }

    /// A coordinate drawn from `[origin.y, origin.y + height)`, as
    /// `random_x` does; a zero-height rectangle yields the origin
    /// coordinate itself.
    pub fn random_y<R: RandomSource>(&self, rng: &mut R) -> (r: i64)
        requires
            self.bounds_in_range(),
        ensures
            self.height == 0 ==> r == self.origin.y,
            self.height > 0 ==> self.origin.y <= r < self.origin.y + self.height,
    {
        if self.height == 0 {
            self.origin.y
        } else {
            let off: u64 = next_u64(rng) % (self.height as u64);
            self.origin.y + off as i64
        }
    }
}

} // verus!
