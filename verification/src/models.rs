//! Entity model: postures, the player, enemies, bullets, particles and
//! the world that owns them.
//!
//! Every moving entity carries a `Posture`: a position plus a facing
//! direction. Motion is integrated on the posture; the capability traits
//! (`Position`, `Movable`, `Collidable`) expose the shared read surface of
//! the entity kinds.

use vstd::prelude::*;

use crate::fixed::{
    DT_MAX, HALF_TURN, TURN, UNITS_LIMIT, angle_wf, div_trunc,
    div_trunc_i64, lemma_div_trunc_le, norm_angle, normalize_angle, spec_clamp_coord, clamp_coord,
};
use crate::trig::{TRIG_SCALE, spec_sin, spec_cos, spec_atan2, sin_fp, cos_fp, atan2_fp};
use crate::geometry::{
    Point, Rect, point_in_range, spec_squared_distance, spec_rotate, spec_translate,
};
use crate::rng::RandomSource;

verus! {

/// Collision radius of the player, in milli-pixels.
pub const PLAYER_RADIUS: i64 = 6_000;

/// Collision radius of an enemy, in milli-pixels.
pub const ENEMY_RADIUS: i64 = 10_000;

/// Collision radius of a bullet, in milli-pixels.
pub const BULLET_RADIUS: i64 = 3_000;

/// Largest collision radius the collision test accepts.
pub const RADIUS_LIMIT: i64 = 1_000_000;

/// Forward offset of the player's nose tip from its center, in
/// milli-pixels (the tip of its fixed triangular silhouette).
pub const NOSE_OFFSET_X: i64 = 20_000;

/// Sideways offset of the player's nose tip from its center.
pub const NOSE_OFFSET_Y: i64 = 0;

/// Largest particle lifetime the world admits, in milliseconds.
pub const PARTICLE_TIME_LIMIT: i64 = 1_000_000;

/// A position plus a facing direction (a normalized angle).
#[derive(Clone, Copy, PartialEq, Eq, Structural, Debug)]
pub struct Posture {
    pub position: Point,
    pub direction: i64,
}

/// A well-formed posture: position representable, direction normalized.
pub open spec fn posture_wf(p: Posture) -> bool {
    point_in_range(p.position) && angle_wf(p.direction as int)
}

/// The direction from `from` toward `to`, as a normalized angle.
pub open spec fn spec_dir_toward(from: Point, to: Point) -> int {
    spec_atan2(to.y - from.y, to.x - from.x)
}

/// A posture advanced by `units` along its own direction: each coordinate
/// gains `units` scaled by the direction's cosine or sine, truncated, and
/// is clamped into the representable range.
pub open spec fn spec_move_by(p: Posture, units: int) -> Posture {
    Posture {
        position: Point {
            x: spec_clamp_coord(
                p.position.x + div_trunc(spec_cos(p.direction as int) * units, TRIG_SCALE as int),
            ) as i64,
            y: spec_clamp_coord(
                p.position.y + div_trunc(spec_sin(p.direction as int) * units, TRIG_SCALE as int),
            ) as i64,
        },
        direction: p.direction,
    }
}

/// One coordinate wrapped to the opposite edge when it leaves
/// `[lo, lo + extent]`: a single-step teleport, not a modulo wrap.
pub open spec fn spec_wrap(x: int, lo: int, extent: int) -> int {
    if x < lo {
        lo + extent
    } else if x > lo + extent {
        lo
    } else {
        x
    }
}

/// A posture advanced by `units`, then wrapped into the rectangle.
pub open spec fn spec_move_within(p: Posture, units: int, bounds: Rect) -> Posture {
    let m = spec_move_by(p, units);
    Posture {
        position: Point {
            x: spec_wrap(m.position.x as int, bounds.origin.x as int, bounds.width as int) as i64,
            y: spec_wrap(m.position.y as int, bounds.origin.y as int, bounds.height as int) as i64,
        },
        direction: p.direction,
    }
}

impl Posture {
    pub fn new(position: Point, direction: i64) -> (r: Posture)
        ensures
            r == (Posture { position, direction }),
    {
        Posture { position, direction }
    }

    /// A posture sampled inside the rectangle (a zero-extent axis yields
    /// that axis's origin coordinate), with a uniform direction.
    pub fn random<R: RandomSource>(rng: &mut R, bounds: Rect) -> (r: Posture)
        requires
            bounds.bounds_in_range(),
        ensures
            bounds.width == 0 ==> r.position.x == bounds.origin.x,
            bounds.width > 0 ==> bounds.origin.x <= r.position.x < bounds.origin.x + bounds.width,
            bounds.height == 0 ==> r.position.y == bounds.origin.y,
            bounds.height > 0 ==> bounds.origin.y <= r.position.y < bounds.origin.y
                + bounds.height,
            posture_wf(r),
    {
        let position = Point::random(rng, bounds);
        let v: u32 = rng.next_u32();
        let direction: i64 = (v as i64) % TURN;
        Posture { position, direction }
    }

    /// The same position, facing the opposite way.
    pub fn reverse_direction(&self) -> (r: Posture)
        requires
            angle_wf(self.direction as int),
        ensures
            r.position == self.position,
            r.direction == norm_angle(self.direction + HALF_TURN),
            angle_wf(r.direction as int),
    {
        Posture {
            position: self.position,
            direction: normalize_angle(self.direction + HALF_TURN),
        }
    }

    /// Turns toward the given point. A target straight above or below
    /// (equal x) is treated as a vertical direction, a quarter turn or
    /// three quarter turns by relative y; a target equal to the position
    /// leaves direction zero.
    pub fn set_direction_toward_point(&mut self, point: Point)
        requires
            point_in_range(old(self).position),
            point_in_range(point),
        ensures
            final(self).position == old(self).position,
            final(self).direction == spec_dir_toward(old(self).position, point),
            angle_wf(final(self).direction as int),
    {
        let dy: i64 = point.y - self.position.y;
        let dx: i64 = point.x - self.position.x;
        self.direction = atan2_fp(dy, dx);
    }

    /// Advances by `units` (negative for reverse motion) along the
    /// current direction.
    pub fn move_by_units(&mut self, units: i64)
        requires
            posture_wf(*old(self)),
            -UNITS_LIMIT <= units <= UNITS_LIMIT,
        ensures
            *final(self) == spec_move_by(*old(self), units as int),
            posture_wf(*final(self)),
    {
        let c: i64 = cos_fp(self.direction);
        let s: i64 = sin_fp(self.direction);
        proof {
            assert(-TRIG_SCALE * UNITS_LIMIT <= c * units <= TRIG_SCALE * UNITS_LIMIT
                && -TRIG_SCALE * UNITS_LIMIT <= s * units <= TRIG_SCALE * UNITS_LIMIT)
                by (nonlinear_arith)
                requires
                    -TRIG_SCALE <= c as int <= TRIG_SCALE,
                    -TRIG_SCALE <= s as int <= TRIG_SCALE,
                    -UNITS_LIMIT <= units as int <= UNITS_LIMIT,
            ;
            lemma_div_trunc_le(c * units, TRIG_SCALE as int, UNITS_LIMIT as int);
            lemma_div_trunc_le(s * units, TRIG_SCALE as int, UNITS_LIMIT as int);
        }
        let dx: i64 = div_trunc_i64(c * units, TRIG_SCALE);
        let dy: i64 = div_trunc_i64(s * units, TRIG_SCALE);
        self.position = Point {
            x: clamp_coord(self.position.x + dx),
            y: clamp_coord(self.position.y + dy),
        };
    }

    /// Advances by `units`, then wraps any coordinate that left the
    /// rectangle to the opposite edge. The result always lies within
    /// `[origin, origin + extent]` on both axes, inclusive.
    pub fn move_within_bounds(&mut self, units: i64, bounds: Rect)
        requires
            posture_wf(*old(self)),
            -UNITS_LIMIT <= units <= UNITS_LIMIT,
            bounds.wf(),
        ensures
            *final(self) == spec_move_within(*old(self), units as int, bounds),
            bounds.origin.x <= final(self).position.x <= bounds.origin.x + bounds.width,
            bounds.origin.y <= final(self).position.y <= bounds.origin.y + bounds.height,
            final(self).direction == old(self).direction,
            posture_wf(*final(self)),
    {
        self.move_by_units(units);
        let x: i64 = self.position.x;
        let y: i64 = self.position.y;
        let wx: i64 = if x < bounds.origin.x {
            bounds.origin.x + bounds.width
        } else if x > bounds.origin.x + bounds.width {
            bounds.origin.x
        } else {
            x
        };
        let wy: i64 = if y < bounds.origin.y {
            bounds.origin.y + bounds.height
        } else if y > bounds.origin.y + bounds.height {
            bounds.origin.y
        } else {
            y
        };
        self.position = Point { x: wx, y: wy };
    }
}

/// Whether two circles of the given radii at the given centers touch or
/// overlap: squared center distance at most the square of the radius sum.
pub open spec fn spec_collides(pa: Point, ra: int, pb: Point, rb: int) -> bool {
    spec_squared_distance(pa, pb) <= (ra + rb) * (ra + rb)
}

/// The circle-overlap test, on plain values.
pub fn collides(pa: Point, ra: i64, pb: Point, rb: i64) -> (r: bool)
    requires
        point_in_range(pa),
        point_in_range(pb),
        0 <= ra <= RADIUS_LIMIT,
        0 <= rb <= RADIUS_LIMIT,
    ensures
        r == spec_collides(pa, ra as int, pb, rb as int),
{
    let rs: i64 = ra + rb;
    proof {
        assert(0 <= rs * rs <= 4_000_000_000_000) by (nonlinear_arith)
            requires
                0 <= rs as int <= 2_000_000,
        ;
    }
    pa.squared_distance(&pb) <= rs * rs
}

/// The collision test does not depend on the order of its two circles.
pub proof fn lemma_collides_symmetric(pa: Point, ra: int, pb: Point, rb: int)
    ensures
        spec_collides(pa, ra, pb, rb) == spec_collides(pb, rb, pa, ra),
{
    assert(spec_squared_distance(pa, pb) == spec_squared_distance(pb, pa)) by (nonlinear_arith);
}

/// Read access to an entity's position.
pub trait Position: Sized {
    spec fn pos_spec(&self) -> Point;

    fn x(&self) -> (r: i64)
        ensures
            r == self.pos_spec().x,
    ;

    fn y(&self) -> (r: i64)
        ensures
            r == self.pos_spec().y,
    ;

    fn position(&self) -> (p: Point)
        ensures
            p == self.pos_spec(),
    ;
}

/// Read access to the facing direction of a moving entity.
pub trait Movable: Position {
    spec fn dir_spec(&self) -> i64;

    fn direction(&self) -> (r: i64)
        ensures
            r == self.dir_spec(),
    ;
}

/// An entity with a fixed collision radius.
pub trait Collidable: Position {
    spec fn radius_spec(&self) -> i64;

    fn radius(&self) -> (r: i64)
        ensures
            r == self.radius_spec(),
    ;

    fn diameter(&self) -> (r: i64)
        requires
            0 <= self.radius_spec() <= RADIUS_LIMIT,
        ensures
            r == 2 * self.radius_spec(),
    ;
}

/// Whether two collidable entities touch or overlap.
pub fn collides_with<A: Collidable, B: Collidable>(a: &A, b: &B) -> (r: bool)
    requires
        point_in_range(a.pos_spec()),
        point_in_range(b.pos_spec()),
        0 <= a.radius_spec() <= RADIUS_LIMIT,
        0 <= b.radius_spec() <= RADIUS_LIMIT,
    ensures
        r == spec_collides(a.pos_spec(), a.radius_spec() as int, b.pos_spec(), b.radius_spec() as int),
{
    collides(a.position(), a.radius(), b.position(), b.radius())
}

/// The player's ship: a posture; exactly one per world.
#[derive(Clone, Copy)]
pub struct Player {
    pub posture: Posture,
}

impl Player {
    /// A player placed at a random posture inside the bounds.
    pub fn random<R: RandomSource>(rng: &mut R, bounds: Rect) -> (r: Player)
        requires
            bounds.wf(),
        ensures
            bounds.origin.x <= r.posture.position.x < bounds.origin.x + bounds.width,
            bounds.origin.y <= r.posture.position.y < bounds.origin.y + bounds.height,
            posture_wf(r.posture),
    {
        Player { posture: Posture::random(rng, bounds) }
    }

    /// The world position of the ship's nose tip: the fixed silhouette
    /// tip rotated by the facing direction and translated to the ship.
    pub fn front(&self) -> (r: Point)
        requires
            posture_wf(self.posture),
        ensures
            r == spec_player_front(self.posture),
            point_in_range(r),
    {
        Point::new(NOSE_OFFSET_X, NOSE_OFFSET_Y)
            .rotate_to_origin(self.posture.direction)
            .translate(&self.posture.position)
    }
}

/// The nose-tip position for a given player posture.
pub open spec fn spec_player_front(p: Posture) -> Point {
    spec_translate(
        spec_rotate(Point { x: NOSE_OFFSET_X, y: NOSE_OFFSET_Y }, p.direction as int),
        p.position,
    )
}

impl Position for Player {
    open spec fn pos_spec(&self) -> Point {
        self.posture.position
    }

    fn x(&self) -> i64 {
        self.posture.position.x
    }

    fn y(&self) -> i64 {
        self.posture.position.y
    }

    fn position(&self) -> Point {
        self.posture.position
    }
}

impl Movable for Player {
    open spec fn dir_spec(&self) -> i64 {
        self.posture.direction
    }

    fn direction(&self) -> i64 {
        self.posture.direction
    }
}

impl Collidable for Player {
    open spec fn radius_spec(&self) -> i64 {
        PLAYER_RADIUS
    }

    fn radius(&self) -> i64 {
        PLAYER_RADIUS
    }

    fn diameter(&self) -> i64 {
        2 * PLAYER_RADIUS
    }
}

/// A pursuing enemy: a posture; steers toward the player every tick.
#[derive(Clone, Copy)]
pub struct Enemy {
    pub posture: Posture,
}

/// An enemy posture after one tick: turned toward the target, then
/// advanced by `units`.
pub open spec fn spec_enemy_step(p: Posture, target: Point, units: int) -> Posture {
    spec_move_by(
        Posture { position: p.position, direction: spec_dir_toward(p.position, target) as i64 },
        units,
    )
}

impl Enemy {
    pub fn new(posture: Posture) -> (r: Enemy)
        ensures
            r.posture == posture,
    {
        Enemy { posture }
    }

    /// Steers toward the target position, then advances by `units`.
    pub fn update(&mut self, units: i64, player_position: Point)
        requires
            posture_wf(old(self).posture),
            point_in_range(player_position),
            -UNITS_LIMIT <= units <= UNITS_LIMIT,
        ensures
            final(self).posture == spec_enemy_step(old(self).posture, player_position, units as int),
            posture_wf(final(self).posture),
    {
        self.posture.set_direction_toward_point(player_position);
        self.posture.move_by_units(units);
    }
}

impl Position for Enemy {
    open spec fn pos_spec(&self) -> Point {
        self.posture.position
    }

    fn x(&self) -> i64 {
        self.posture.position.x
    }

    fn y(&self) -> i64 {
        self.posture.position.y
    }

    fn position(&self) -> Point {
        self.posture.position
    }
}

impl Movable for Enemy {
    open spec fn dir_spec(&self) -> i64 {
        self.posture.direction
    }

    fn direction(&self) -> i64 {
        self.posture.direction
    }
}

impl Collidable for Enemy {
    open spec fn radius_spec(&self) -> i64 {
        ENEMY_RADIUS
    }

    fn radius(&self) -> i64 {
        ENEMY_RADIUS
    }

    fn diameter(&self) -> i64 {
        2 * ENEMY_RADIUS
    }
}

/// A bullet: a posture; flies straight at constant speed.
#[derive(Clone, Copy)]
pub struct Bullet {
    pub posture: Posture,
}

impl Bullet {
    pub fn new(posture: Posture) -> (r: Bullet)
        ensures
            r.posture == posture,
    {
        Bullet { posture }
    }

    /// Advances by `units` along the bullet's direction.
    pub fn update(&mut self, units: i64)
        requires
            posture_wf(old(self).posture),
            -UNITS_LIMIT <= units <= UNITS_LIMIT,
        ensures
            final(self).posture == spec_move_by(old(self).posture, units as int),
            posture_wf(final(self).posture),
    {
        self.posture.move_by_units(units);
    }
}

impl Position for Bullet {
    open spec fn pos_spec(&self) -> Point {
        self.posture.position
    }

    fn x(&self) -> i64 {
        self.posture.position.x
    }

    fn y(&self) -> i64 {
        self.posture.position.y
    }

    fn position(&self) -> Point {
        self.posture.position
    }
}

impl Movable for Bullet {
    open spec fn dir_spec(&self) -> i64 {
        self.posture.direction
    }

    fn direction(&self) -> i64 {
        self.posture.direction
    }
}

impl Collidable for Bullet {
    open spec fn radius_spec(&self) -> i64 {
        BULLET_RADIUS
    }

    fn radius(&self) -> i64 {
        BULLET_RADIUS
    }

    fn diameter(&self) -> i64 {
        2 * BULLET_RADIUS
    }
}

/// A trail particle: a posture plus a remaining lifetime in milliseconds.
/// Purely visual; drifts with quadratically decaying speed and is pruned
/// when its lifetime runs out.
#[derive(Clone, Copy)]
pub struct Particle {
    pub posture: Posture,
    pub time_out: i64,
}

/// A particle after one tick of `dt` milliseconds: lifetime reduced by
/// exactly `dt`, then advanced by a displacement that decays
/// quadratically with the remaining lifetime.
pub open spec fn spec_particle_step(q: Particle, dt: int) -> Particle {
    let t = q.time_out - dt;
    Particle {
        posture: spec_move_by(q.posture, t * t * dt / 2000),
        time_out: t as i64,
    }
}

impl Particle {
    pub fn new(posture: Posture, time_out: i64) -> (r: Particle)
        ensures
            r == (Particle { posture, time_out }),
    {
        Particle { posture, time_out }
    }

    /// Ages the particle by `elapsed_time` milliseconds and drifts it.
    pub fn update(&mut self, elapsed_time: i64)
        requires
            posture_wf(old(self).posture),
            0 < elapsed_time <= DT_MAX,
            -PARTICLE_TIME_LIMIT <= old(self).time_out <= PARTICLE_TIME_LIMIT,
        ensures
            *final(self) == spec_particle_step(*old(self), elapsed_time as int),
            posture_wf(final(self).posture),
    {
        self.time_out = self.time_out - elapsed_time;
        let t: i64 = self.time_out;
        proof {
            assert(0 <= t * t <= 2_000_000_000_000
                && t * t * elapsed_time <= 120_000_000_000_000_000
                && 0 <= t * t * elapsed_time)
                by (nonlinear_arith)
                requires
                    -1_060_000 <= t as int <= 1_060_000,
                    0 < elapsed_time as int <= 60_000,
            ;
        }
        let units: i64 = t * t * elapsed_time / 2000;
        self.posture.move_by_units(units);
    }
}

impl Position for Particle {
    open spec fn pos_spec(&self) -> Point {
        self.posture.position
    }

    fn x(&self) -> i64 {
        self.posture.position.x
    }

    fn y(&self) -> i64 {
        self.posture.position.y
    }

    fn position(&self) -> Point {
        self.posture.position
    }
}

impl Movable for Particle {
    open spec fn dir_spec(&self) -> i64 {
        self.posture.direction
    }

    fn direction(&self) -> i64 {
        self.posture.direction
    }
}

/// The world: exactly one player, the transient entity collections and
/// the bounding rectangle.
pub struct World {
    pub player: Player,
    pub particles: Vec<Particle>,
    pub bullets: Vec<Bullet>,
    pub enemies: Vec<Enemy>,
    pub rect: Rect,
}

impl World {
    /// Every entity the world holds is well-formed, and the rectangle is.
    pub open spec fn wf(self) -> bool {
        &&& self.rect.wf()
        &&& posture_wf(self.player.posture)
        &&& forall|i: int|
            0 <= i < self.enemies@.len() ==> posture_wf(#[trigger] self.enemies@[i].posture)
        &&& forall|i: int|
            0 <= i < self.bullets@.len() ==> posture_wf(#[trigger] self.bullets@[i].posture)
        &&& forall|i: int|
            0 <= i < self.particles@.len() ==> posture_wf(#[trigger] self.particles@[i].posture)
                && 0 < self.particles@[i].time_out <= PARTICLE_TIME_LIMIT
    }

    /// A new world over the given rectangle: a randomly placed player and
    /// no transient entities.
    pub fn new<R: RandomSource>(rng: &mut R, rect: Rect) -> (r: World)
        requires
            rect.wf(),
        ensures
            r.rect == rect,
            r.particles@ =~= Seq::<Particle>::empty(),
            r.bullets@ =~= Seq::<Bullet>::empty(),
            r.enemies@ =~= Seq::<Enemy>::empty(),
            rect.origin.x <= r.player.posture.position.x < rect.origin.x + rect.width,
            rect.origin.y <= r.player.posture.position.y < rect.origin.y + rect.height,
            r.wf(),
    {
        World {
            player: Player::random(rng, rect),
            particles: Vec::new(),
            bullets: Vec::new(),
            enemies: Vec::new(),
            rect,
        }
    }
}

} // verus!
