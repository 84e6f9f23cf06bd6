//! The time controller: one simulation tick.
//!
//! A tick accumulates the elapsed time, rotates and advances the player,
//! ages and prunes trail particles, emits a new trail particle, fires and
//! advances bullets and prunes the ones that left the rectangle, spawns an
//! enemy outside the player's grace area, and steers every enemy toward
//! the player. Spawning, firing and trail emission are rate-limited by
//! the time since the respective last event, so cadence is independent of
//! the host's frame rate.

use vstd::prelude::*;
use vstd::arithmetic::div_mod::{lemma_fundamental_div_mod, lemma_mod_bound};

use crate::fixed::{
    DT_MAX, HALF_TURN, TURN, UNITS_LIMIT, angle_wf, div_trunc,
    div_trunc_i64, isqrt64, lemma_div_trunc_le, norm_angle, normalize_angle,
};
use crate::geometry::{Point, Rect, point_in_range, spec_squared_distance};
use crate::models::{
    Bullet, Enemy, PARTICLE_TIME_LIMIT, Particle, Posture, posture_wf, spec_enemy_step,
    spec_move_by, spec_move_within, spec_particle_step, spec_player_front,
};
use crate::game_state::GameState;
use crate::rng::RandomSource;

verus! {

/// Bullets fired per second under held fire: one per 10 ms.
pub const BULLET_RATE: i64 = 10;

/// Enemies spawned per second: one per 1000 ms.
pub const ENEMY_SPAWN_RATE: i64 = 1000;

/// Trail particles emitted per second: one per 50 ms.
pub const TRAIL_PARTICLE_RATE: i64 = 50;

/// Lifetime of an emitted trail particle, in milliseconds.
pub const TRAIL_PARTICLE_TIME: i64 = 500;

/// Forward speed of the player, in milli-pixels per second.
pub const ADVANCE_SPEED: i64 = 200_000;

/// Speed of a bullet, in milli-pixels per second.
pub const BULLET_SPEED: i64 = 500_000;

/// Speed of an enemy, in milli-pixels per second.
pub const ENEMY_SPEED: i64 = 100_000;

/// Rotation speed of the player: one full turn per second.
pub const ROTATE_SPEED: i64 = 65536;

/// Radius of the grace area around the player, in milli-pixels: an enemy
/// never spawns nearer than this.
pub const PLAYER_GRACE_AREA: i64 = 200_000;

/// Smallest admitted squared distance between a spawn sample and the
/// player: one pixel, squared. Closer samples (exact coincidence
/// included) are redrawn, so the integer push-out always has at least a
/// pixel of baseline and lands within a tenth of a percent of the grace
/// radius.
pub const MIN_SPAWN_DIST_SQ: i64 = 1_000_000;

/// Ceiling of the simulation clock, in milliseconds: the accumulated time
/// saturates here instead of overflowing.
pub const TIME_CAP: i64 = 1_000_000_000_000_000;

/// How many fresh samples the enemy spawner draws before falling back
/// to the rectangle corner farthest from the player.
pub const SPAWN_TRIES: u32 = 16;

/// The input flags sampled once per tick.
#[derive(Clone, Copy, Default)]
pub struct Actions {
    pub rotate_left: bool,
    pub rotate_right: bool,
    pub boost: bool,
    pub shoot: bool,
}

/// The simulation clock after a tick: advanced by `dt`, saturating at
/// `TIME_CAP`.
pub open spec fn spec_new_time(t: int, dt: int) -> int {
    if t + dt > TIME_CAP {
        TIME_CAP as int
    } else {
        t + dt
    }
}

/// Whether a trail particle is emitted at clock `t_new`.
pub open spec fn trail_due(t_new: int, last: int) -> bool {
    t_new - last > TRAIL_PARTICLE_RATE
}

/// Whether a bullet is fired at clock `t_new`.
pub open spec fn shoot_due(t_new: int, last: int, shoot: bool) -> bool {
    shoot && t_new - last > BULLET_RATE
}

/// Whether an enemy is spawned at clock `t_new`.
pub open spec fn spawn_due(t_new: int, last: int) -> bool {
    t_new - last > ENEMY_SPAWN_RATE
}

/// The player's direction after the rotation inputs: each held flag turns
/// the ship by the rotation speed times `dt`, left against right.
pub open spec fn spec_rotated_dir(dir: int, act: Actions, dt: int) -> int {
    let delta = ROTATE_SPEED * dt / 1000;
    let d1 = if act.rotate_left {
        norm_angle(dir - delta)
    } else {
        dir
    };
    if act.rotate_right {
        norm_angle(d1 + delta)
    } else {
        d1
    }
}

/// The player's forward displacement for one tick: the base speed,
/// doubled under boost, times `dt`.
pub open spec fn spec_advance_units(act: Actions, dt: int) -> int {
    dt * (if act.boost {
        2 * ADVANCE_SPEED as int
    } else {
        ADVANCE_SPEED as int
    }) / 1000
}

/// The player's posture after one tick: rotated by the inputs, then
/// advanced with wrap-around bounds handling.
pub open spec fn spec_player_tick(p: Posture, act: Actions, dt: int, bounds: Rect) -> Posture {
    spec_move_within(
        Posture { position: p.position, direction: spec_rotated_dir(p.direction as int, act, dt) as i64 },
        spec_advance_units(act, dt),
        bounds,
    )
}

/// The trail particle emitted behind a player posture: same position,
/// reversed direction, full lifetime.
pub open spec fn spec_trail_particle(p: Posture) -> Particle {
    Particle {
        posture: Posture {
            position: p.position,
            direction: norm_angle(p.direction + HALF_TURN) as i64,
        },
        time_out: TRAIL_PARTICLE_TIME,
    }
}

/// The bullet fired from a player posture: spawned at the nose tip with
/// the player's direction.
pub open spec fn spec_new_bullet(p: Posture) -> Bullet {
    Bullet { posture: Posture { position: spec_player_front(p), direction: p.direction } }
}

/// The particles after one tick: each aged and drifted, keeping exactly
/// those whose lifetime is still positive, in order.
pub open spec fn spec_step_particles(s: Seq<Particle>, dt: int) -> Seq<Particle>
    decreases s.len(),
{
    if s.len() == 0 {
        Seq::empty()
    } else {
        let rest = spec_step_particles(s.drop_last(), dt);
        let q = spec_particle_step(s.last(), dt);
        if q.time_out > 0 {
            rest.push(q)
        } else {
            rest
        }
    }
}

/// The bullets after one tick: each advanced by `units`, keeping exactly
/// those still inside the rectangle, in order.
pub open spec fn spec_step_bullets(s: Seq<Bullet>, units: int, bounds: Rect) -> Seq<Bullet>
    decreases s.len(),
{
    if s.len() == 0 {
        Seq::empty()
    } else {
        let rest = spec_step_bullets(s.drop_last(), units, bounds);
        let b = Bullet { posture: spec_move_by(s.last().posture, units) };
        if bounds.spec_contains(b.posture.position) {
            rest.push(b)
        } else {
            rest
        }
    }
}

/// The enemies after one tick: each steered toward the target, then
/// advanced by `units`.
pub open spec fn spec_step_enemies(s: Seq<Enemy>, target: Point, units: int) -> Seq<Enemy>
    decreases s.len(),
{
    if s.len() == 0 {
        Seq::empty()
    } else {
        spec_step_enemies(s.drop_last(), target, units).push(
            Enemy { posture: spec_enemy_step(s.last().posture, target, units) },
        )
    }
}

/// Every particle surviving a tick has a positive lifetime, and is some
/// old particle aged by exactly `dt`; every old particle whose aged
/// lifetime is positive survives.
pub proof fn lemma_particles_after_tick(s: Seq<Particle>, dt: int)
    ensures
        forall|k: int| 0 <= k < spec_step_particles(s, dt).len()
            ==> (#[trigger] spec_step_particles(s, dt)[k]).time_out > 0,
        forall|k: int| 0 <= k < spec_step_particles(s, dt).len()
            ==> exists|j: int| 0 <= j < s.len()
                && #[trigger] spec_step_particles(s, dt)[k] == spec_particle_step(s[j], dt),
        forall|j: int| 0 <= j < s.len() && (#[trigger] spec_particle_step(s[j], dt)).time_out > 0
            ==> spec_step_particles(s, dt).contains(spec_particle_step(s[j], dt)),
    decreases s.len(),
{
    if s.len() > 0 {
        lemma_particles_after_tick(s.drop_last(), dt);
        let rest = spec_step_particles(s.drop_last(), dt);
        let q = spec_particle_step(s.last(), dt);
        assert forall|j: int|
            0 <= j < s.len() && (#[trigger] spec_particle_step(s[j], dt)).time_out > 0
            implies spec_step_particles(s, dt).contains(spec_particle_step(s[j], dt)) by {
            if j < s.len() - 1 {
                assert(s.drop_last()[j] == s[j]);
                let w = choose|w: int|
                    0 <= w < rest.len() && rest[w] == spec_particle_step(s[j], dt);
                assert(spec_step_particles(s, dt)[w] == spec_particle_step(s[j], dt));
            } else {
                assert(s[j] == s.last());
                assert(spec_step_particles(s, dt).last() == q);
            }
        }
        assert forall|k: int| 0 <= k < spec_step_particles(s, dt).len()
            implies exists|j: int| 0 <= j < s.len()
                && #[trigger] spec_step_particles(s, dt)[k] == spec_particle_step(s[j], dt) by {
            if k < rest.len() {
                let j = choose|j: int|
                    0 <= j < s.drop_last().len() && rest[k] == spec_particle_step(s.drop_last()[j], dt);
                assert(s.drop_last()[j] == s[j]);
                assert(spec_step_particles(s, dt)[k] == spec_particle_step(s[j], dt));
            } else {
                assert(spec_step_particles(s, dt)[k] == q);
                assert(s.last() == s[s.len() - 1]);
                assert(spec_step_particles(s, dt)[k] == spec_particle_step(s[s.len() - 1], dt));
            }
        }
    }
}

/// Every bullet surviving a tick lies inside the rectangle, and is some
/// old bullet advanced by exactly `units`; every old bullet that lands
/// inside the rectangle survives.
pub proof fn lemma_bullets_after_tick(s: Seq<Bullet>, units: int, bounds: Rect)
    ensures
        forall|k: int| 0 <= k < spec_step_bullets(s, units, bounds).len()
            ==> bounds.spec_contains(
                (#[trigger] spec_step_bullets(s, units, bounds)[k]).posture.position,
            ),
        forall|k: int| 0 <= k < spec_step_bullets(s, units, bounds).len()
            ==> exists|j: int| 0 <= j < s.len()
                && #[trigger] spec_step_bullets(s, units, bounds)[k]
                    == (Bullet { posture: spec_move_by(s[j].posture, units) }),
        forall|j: int| 0 <= j < s.len()
            && bounds.spec_contains(spec_move_by(#[trigger] s[j].posture, units).position)
            ==> spec_step_bullets(s, units, bounds).contains(
                Bullet { posture: spec_move_by(s[j].posture, units) },
            ),
    decreases s.len(),
{
    if s.len() > 0 {
        lemma_bullets_after_tick(s.drop_last(), units, bounds);
        let rest = spec_step_bullets(s.drop_last(), units, bounds);
        let b = Bullet { posture: spec_move_by(s.last().posture, units) };
        assert forall|j: int|
            0 <= j < s.len()
                && bounds.spec_contains(spec_move_by(#[trigger] s[j].posture, units).position)
            implies spec_step_bullets(s, units, bounds).contains(
                Bullet { posture: spec_move_by(s[j].posture, units) },
            ) by {
            if j < s.len() - 1 {
                assert(s.drop_last()[j] == s[j]);
                let w = choose|w: int|
                    0 <= w < rest.len()
                        && rest[w] == (Bullet { posture: spec_move_by(s[j].posture, units) });
                assert(spec_step_bullets(s, units, bounds)[w]
                    == (Bullet { posture: spec_move_by(s[j].posture, units) }));
            } else {
                assert(s[j] == s.last());
                assert(spec_step_bullets(s, units, bounds).last() == b);
            }
        }
        assert forall|k: int| 0 <= k < spec_step_bullets(s, units, bounds).len()
            implies exists|j: int| 0 <= j < s.len()
                && #[trigger] spec_step_bullets(s, units, bounds)[k]
                    == (Bullet { posture: spec_move_by(s[j].posture, units) }) by {
            if k < rest.len() {
                let j = choose|j: int|
                    0 <= j < s.drop_last().len()
                        && rest[k] == (Bullet { posture: spec_move_by(s.drop_last()[j].posture, units) });
                assert(s.drop_last()[j] == s[j]);
                assert(spec_step_bullets(s, units, bounds)[k]
                    == (Bullet { posture: spec_move_by(s[j].posture, units) }));
            } else {
                assert(spec_step_bullets(s, units, bounds)[k] == b);
                assert(s.last() == s[s.len() - 1]);
            }
        }
    }
}

fn step_particles(particles: &mut Vec<Particle>, dt: i64)
    requires
        0 < dt <= DT_MAX,
        forall|i: int| 0 <= i < old(particles)@.len()
            ==> posture_wf((#[trigger] old(particles)@[i]).posture)
                && 0 < old(particles)@[i].time_out <= PARTICLE_TIME_LIMIT,
    ensures
        final(particles)@ == spec_step_particles(old(particles)@, dt as int),
        forall|i: int| 0 <= i < final(particles)@.len()
            ==> posture_wf((#[trigger] final(particles)@[i]).posture)
                && 0 < final(particles)@[i].time_out <= PARTICLE_TIME_LIMIT,
{
    let ghost orig: Seq<Particle> = particles@;
    let n: usize = particles.len();
    let mut out: Vec<Particle> = Vec::new();
    let mut i: usize = 0;
    while i < n
        invariant
            i <= n,
            n == orig.len(),
            particles@ == orig,
            0 < dt <= DT_MAX,
            forall|j: int| 0 <= j < orig.len()
                ==> posture_wf((#[trigger] orig[j]).posture)
                    && 0 < orig[j].time_out <= PARTICLE_TIME_LIMIT,
            out@ == spec_step_particles(orig.take(i as int), dt as int),
            forall|j: int| 0 <= j < out@.len()
                ==> posture_wf((#[trigger] out@[j]).posture)
                    && 0 < out@[j].time_out <= PARTICLE_TIME_LIMIT,
        decreases n - i,
    {
        let mut q: Particle = particles[i];
        q.update(dt);
        proof {
            assert(orig.take(i as int + 1).drop_last() =~= orig.take(i as int));
            assert(orig.take(i as int + 1).last() == orig[i as int]);
        }
        if q.time_out > 0 {
            out.push(q);
        }
        i = i + 1;
    }
    proof {
        assert(orig.take(n as int) =~= orig);
    }
    *particles = out;
}

fn step_bullets(bullets: &mut Vec<Bullet>, units: i64, bounds: Rect)
    requires
        bounds.bounds_in_range(),
        -UNITS_LIMIT <= units <= UNITS_LIMIT,
        forall|i: int| 0 <= i < old(bullets)@.len()
            ==> posture_wf((#[trigger] old(bullets)@[i]).posture),
    ensures
        final(bullets)@ == spec_step_bullets(old(bullets)@, units as int, bounds),
        forall|i: int| 0 <= i < final(bullets)@.len()
            ==> posture_wf((#[trigger] final(bullets)@[i]).posture),
{
    let ghost orig: Seq<Bullet> = bullets@;
    let n: usize = bullets.len();
    let mut out: Vec<Bullet> = Vec::new();
    let mut i: usize = 0;
    while i < n
        invariant
            i <= n,
            n == orig.len(),
            bullets@ == orig,
            bounds.bounds_in_range(),
            -UNITS_LIMIT <= units <= UNITS_LIMIT,
            forall|j: int| 0 <= j < orig.len() ==> posture_wf((#[trigger] orig[j]).posture),
            out@ == spec_step_bullets(orig.take(i as int), units as int, bounds),
            forall|j: int| 0 <= j < out@.len() ==> posture_wf((#[trigger] out@[j]).posture),
        decreases n - i,
    {
        let mut b: Bullet = bullets[i];
        b.update(units);
        proof {
            assert(orig.take(i as int + 1).drop_last() =~= orig.take(i as int));
            assert(orig.take(i as int + 1).last() == orig[i as int]);
        }
        if bounds.contains(b.posture.position) {
            out.push(b);
        }
        i = i + 1;
    }
    proof {
        assert(orig.take(n as int) =~= orig);
    }
    *bullets = out;
}

fn step_enemies(enemies: &mut Vec<Enemy>, target: Point, units: i64)
    requires
        -UNITS_LIMIT <= units <= UNITS_LIMIT,
        point_in_range(target),
        forall|i: int| 0 <= i < old(enemies)@.len()
            ==> posture_wf((#[trigger] old(enemies)@[i]).posture),
    ensures
        final(enemies)@ == spec_step_enemies(old(enemies)@, target, units as int),
        forall|i: int| 0 <= i < final(enemies)@.len()
            ==> posture_wf((#[trigger] final(enemies)@[i]).posture),
{
    let ghost orig: Seq<Enemy> = enemies@;
    let n: usize = enemies.len();
    let mut out: Vec<Enemy> = Vec::new();
    let mut i: usize = 0;
    while i < n
        invariant
            i <= n,
            n == orig.len(),
            enemies@ == orig,
            -UNITS_LIMIT <= units <= UNITS_LIMIT,
            point_in_range(target),
            forall|j: int| 0 <= j < orig.len() ==> posture_wf((#[trigger] orig[j]).posture),
            out@ == spec_step_enemies(orig.take(i as int), target, units as int),
            forall|j: int| 0 <= j < out@.len() ==> posture_wf((#[trigger] out@[j]).posture),
        decreases n - i,
    {
        let mut e: Enemy = enemies[i];
        e.update(units, target);
        proof {
            assert(orig.take(i as int + 1).drop_last() =~= orig.take(i as int));
            assert(orig.take(i as int + 1).last() == orig[i as int]);
        }
        out.push(e);
        i = i + 1;
    }
    proof {
        assert(orig.take(n as int) =~= orig);
    }
    *enemies = out;
}

/// A point sampled by the spawner: inside the rectangle's bounds.
pub open spec fn sample_in_rect(p: Point, bounds: Rect) -> bool {
    &&& bounds.origin.x <= p.x < bounds.origin.x + bounds.width
    &&& bounds.origin.y <= p.y < bounds.origin.y + bounds.height
}

/// `l` is the integer square root of `n`.
pub open spec fn is_isqrt(l: int, n: int) -> bool {
    0 <= l && l * l <= n && (l + 1) * (l + 1) > n
}

/// The sampled point pushed radially away from the player to the edge of
/// the grace area: the offset is scaled by the grace radius over the
/// distance `l`, each component truncated.
pub open spec fn spec_pushed_pos(ppos: Point, s: Point, l: int) -> Point {
    Point {
        x: (ppos.x + div_trunc((s.x - ppos.x) * PLAYER_GRACE_AREA, l)) as i64,
        y: (ppos.y + div_trunc((s.y - ppos.y) * PLAYER_GRACE_AREA, l)) as i64,
    }
}

/// `pos` is the push-out of `s` from `ppos`, through the integer square
/// root `l` of their squared distance.
pub open spec fn pushed_to_grace(pos: Point, ppos: Point, s: Point, l: int) -> bool {
    is_isqrt(l, spec_squared_distance(s, ppos)) && pos == spec_pushed_pos(ppos, s, l)
}

/// The new enemy `e` arises from the in-bounds sample `s`: never within
/// a pixel of the player; kept as sampled when outside the grace area;
/// otherwise pushed to the edge of the grace area, landing between 4
/// milli-pixels inside and 200 milli-pixels outside the grace radius;
/// the sampled direction is kept either way.
pub open spec fn spawn_adjusted(e: Enemy, s: Posture, ppos: Point, bounds: Rect) -> bool {
    &&& sample_in_rect(s.position, bounds)
    &&& angle_wf(s.direction as int)
    &&& spec_squared_distance(s.position, ppos) >= MIN_SPAWN_DIST_SQ
    &&& e.posture.direction == s.direction
    &&& if spec_squared_distance(s.position, ppos) > PLAYER_GRACE_AREA * PLAYER_GRACE_AREA {
        e.posture.position == s.position
    } else {
        &&& exists|l: int| pushed_to_grace(e.posture.position, ppos, s.position, l)
        &&& (PLAYER_GRACE_AREA - 4) * (PLAYER_GRACE_AREA - 4) <= spec_squared_distance(
            e.posture.position,
            ppos,
        )
        &&& spec_squared_distance(e.posture.position, ppos) <= (PLAYER_GRACE_AREA + 200) * (
        PLAYER_GRACE_AREA + 200)
    }
}

/// What holds of every spawned enemy, whatever the random source drew.
pub open spec fn spawn_ok(e: Enemy, ppos: Point, bounds: Rect) -> bool {
    exists|s: Posture| #[trigger] spawn_adjusted(e, s, ppos, bounds)
}

/// The clock after a run of ticks with the given positive time deltas
/// (unsaturated).
pub open spec fn spec_run_end(t: int, dts: Seq<int>) -> int
    decreases dts.len(),
{
    if dts.len() == 0 {
        t
    } else {
        spec_run_end(t + dts[0], dts.drop_first())
    }
}

/// How many bullets the firing limiter lets through over a run of ticks
/// under held fire: starting at clock `t` with last shot at `last`, one
/// tick per delta, firing whenever the new clock exceeds the last shot by
/// more than `BULLET_RATE` and recording the new clock as the last shot.
/// This is the cadence that `update_seconds` implements tick by tick.
pub open spec fn spec_fires(t: int, last: int, dts: Seq<int>) -> int
    decreases dts.len(),
{
    if dts.len() == 0 {
        0
    } else {
        let t1 = t + dts[0];
        if t1 - last > BULLET_RATE {
            1 + spec_fires(t1, t1, dts.drop_first())
        } else {
            spec_fires(t1, last, dts.drop_first())
        }
    }
}

/// Firing cadence, the guaranteed direction: over any run of ticks, the
/// limiter never fires more than once per `BULLET_RATE` of elapsed time —
/// the number of bullets in a span of `T` milliseconds is less than
/// `T / BULLET_RATE + 1`. (The limiter re-arms from the moment of the
/// last shot, so the matching lower bound does not hold: ticks aligned
/// with the period fire only every second tick.)
pub proof fn lemma_fire_cadence_upper(t: int, last: int, dts: Seq<int>)
    requires
        last <= t,
        forall|i: int| 0 <= i < dts.len() ==> #[trigger] dts[i] > 0,
    ensures
        BULLET_RATE * spec_fires(t, last, dts) < spec_run_end(t, dts) - last + BULLET_RATE,
    decreases dts.len(),
{
    if dts.len() > 0 {
        let t1 = t + dts[0];
        let rest = dts.drop_first();
        assert(forall|i: int| 0 <= i < rest.len() ==> #[trigger] rest[i] > 0);
        if t1 - last > BULLET_RATE {
            lemma_fire_cadence_upper(t1, t1, rest);
            lemma_run_end_ge(t1, rest);
            assert(BULLET_RATE * (1 + spec_fires(t1, t1, rest))
                == BULLET_RATE + BULLET_RATE * spec_fires(t1, t1, rest)) by (nonlinear_arith);
        } else {
            lemma_fire_cadence_upper(t1, last, rest);
        }
    }
}

proof fn lemma_run_end_ge(t: int, dts: Seq<int>)
    requires
        forall|i: int| 0 <= i < dts.len() ==> #[trigger] dts[i] > 0,
    ensures
        spec_run_end(t, dts) >= t,
    decreases dts.len(),
{
    if dts.len() > 0 {
        let rest = dts.drop_first();
        assert(forall|i: int| 0 <= i < rest.len() ==> #[trigger] rest[i] > 0);
        lemma_run_end_ge(t + dts[0], rest);
    }
}

spec fn mag(a: int) -> int {
    if a < 0 {
        -a
    } else {
        a
    }
}

proof fn lemma_sq_div_lower(a: int, l: int, m: int)
    requires
        l >= 1,
        m >= a,
        m >= -a,
    ensures
        (l * div_trunc(a, l)) * (l * div_trunc(a, l)) >= a * a - 2 * m * l,
{
    if a >= 0 {
        lemma_fundamental_div_mod(a, l);
        lemma_mod_bound(a, l);
        let q = a / l;
        let r = a % l;
        assert(l * q == a - r);
        assert((a - r) * (a - r) >= a * a - 2 * m * l) by (nonlinear_arith)
            requires
                0 <= r < l,
                0 <= a <= m,
        ;
    } else {
        let b = -a;
        lemma_fundamental_div_mod(b, l);
        lemma_mod_bound(b, l);
        let q = b / l;
        let r = b % l;
        assert(l * q == b - r);
        assert(l * div_trunc(a, l) == l * (-q) == -(l * q)) by (nonlinear_arith)
            requires
                div_trunc(a, l) == -q,
        ;
        assert((-(b - r)) * (-(b - r)) >= a * a - 2 * m * l) by (nonlinear_arith)
            requires
                0 <= r < l,
                b == -a,
                0 <= b <= m,
        ;
    }
}

proof fn lemma_sq_div_upper(a: int, l: int)
    requires
        l >= 1,
    ensures
        (l * div_trunc(a, l)) * (l * div_trunc(a, l)) <= a * a,
{
    if a >= 0 {
        lemma_fundamental_div_mod(a, l);
        lemma_mod_bound(a, l);
        let q = a / l;
        let r = a % l;
        assert(l * q == a - r);
        assert((a - r) * (a - r) <= a * a) by (nonlinear_arith)
            requires
                0 <= r <= a,
        ;
        assert(r <= a);
    } else {
        let b = -a;
        lemma_fundamental_div_mod(b, l);
        lemma_mod_bound(b, l);
        let q = b / l;
        let r = b % l;
        assert(l * q == b - r);
        assert(l * div_trunc(a, l) == l * (-q) == -(l * q)) by (nonlinear_arith)
            requires
                div_trunc(a, l) == -q,
        ;
        assert((-(b - r)) * (-(b - r)) <= a * a) by (nonlinear_arith)
            requires
                0 <= r <= b,
                b == -a,
        ;
        assert(r <= b);
    }
}

/// The integer push-out of a sample at least a pixel and at most the
/// grace radius away from the player lands between 4 milli-pixels inside
/// and 200 milli-pixels outside the grace radius.
proof fn lemma_push_in_band(dx: int, dy: int, l: int)
    requires
        is_isqrt(l, dx * dx + dy * dy),
        MIN_SPAWN_DIST_SQ <= dx * dx + dy * dy,
        dx * dx + dy * dy <= PLAYER_GRACE_AREA * PLAYER_GRACE_AREA,
    ensures
        1000 <= l <= PLAYER_GRACE_AREA,
        (PLAYER_GRACE_AREA - 4) * (PLAYER_GRACE_AREA - 4) <= div_trunc(
            dx * PLAYER_GRACE_AREA,
            l,
        ) * div_trunc(dx * PLAYER_GRACE_AREA, l) + div_trunc(dy * PLAYER_GRACE_AREA, l)
            * div_trunc(dy * PLAYER_GRACE_AREA, l),
        div_trunc(dx * PLAYER_GRACE_AREA, l) * div_trunc(dx * PLAYER_GRACE_AREA, l) + div_trunc(
            dy * PLAYER_GRACE_AREA,
            l,
        ) * div_trunc(dy * PLAYER_GRACE_AREA, l) <= (PLAYER_GRACE_AREA + 200) * (PLAYER_GRACE_AREA
            + 200),
{
    let g = PLAYER_GRACE_AREA as int;
    let d2 = dx * dx + dy * dy;
    assert(l >= 1000) by (nonlinear_arith)
        requires
            (l + 1) * (l + 1) > d2,
            d2 >= 1_000_000,
            l >= 0,
    ;
    assert(l <= g) by (nonlinear_arith)
        requires
            l * l <= d2,
            d2 <= g * g,
            l >= 0,
            g > 0,
    ;
    assert(dx * dx <= d2 && dy * dy <= d2) by (nonlinear_arith)
        requires
            d2 == dx * dx + dy * dy,
    ;
    assert(-l <= dx <= l && -l <= dy <= l) by (nonlinear_arith)
        requires
            dx * dx <= d2,
            dy * dy <= d2,
            d2 < (l + 1) * (l + 1),
            l >= 0,
    ;
    let px = div_trunc(dx * g, l);
    let py = div_trunc(dy * g, l);
    let s_abs = mag(dx) + mag(dy);
    assert(mag(dx) == dx || mag(dx) == -dx);
    assert(mag(dy) == dy || mag(dy) == -dy);
    assert(mag(dx) * mag(dx) == dx * dx && mag(dy) * mag(dy) == dy * dy) by (nonlinear_arith)
        requires
            mag(dx) == dx || mag(dx) == -dx,
            mag(dy) == dy || mag(dy) == -dy,
    ;
    assert(s_abs * s_abs <= 2 * d2) by (nonlinear_arith)
        requires
            d2 == dx * dx + dy * dy,
            mag(dx) * mag(dx) == dx * dx,
            mag(dy) * mag(dy) == dy * dy,
            mag(dx) >= 0,
            mag(dy) >= 0,
            s_abs == mag(dx) + mag(dy),
    ;
    assert(2 * s_abs <= 3 * l + 2) by (nonlinear_arith)
        requires
            s_abs * s_abs <= 2 * d2,
            d2 < (l + 1) * (l + 1),
            s_abs >= 0,
            l >= 1,
    ;
    assert(mag(dx) * g >= dx * g && mag(dx) * g >= -(dx * g) && mag(dy) * g >= dy * g && mag(dy)
        * g >= -(dy * g)) by (nonlinear_arith)
        requires
            g > 0,
            mag(dx) >= dx && mag(dx) >= -dx,
            mag(dy) >= dy && mag(dy) >= -dy,
    ;
    lemma_sq_div_lower(dx * g, l, mag(dx) * g);
    lemma_sq_div_lower(dy * g, l, mag(dy) * g);
    assert((dx * g) * (dx * g) + (dy * g) * (dy * g) == g * g * d2) by (nonlinear_arith)
        requires
            d2 == dx * dx + dy * dy,
    ;
    assert(2 * (mag(dx) * g) * l + 2 * (mag(dy) * g) * l == 2 * l * g * s_abs) by (nonlinear_arith)
        requires
            s_abs == mag(dx) + mag(dy),
    ;
    assert((l * px) * (l * px) + (l * py) * (l * py) == l * l * (px * px + py * py))
        by (nonlinear_arith);
    assert(l * l * (px * px + py * py) >= g * g * d2 - 2 * l * g * s_abs);
    assert(g * g * d2 - 2 * l * g * s_abs >= l * l * ((g - 4) * (g - 4))) by (nonlinear_arith)
        requires
            d2 >= l * l,
            2 * s_abs <= 3 * l + 2,
            l >= 1,
            s_abs >= 0,
            g == 200_000,
    ;
    assert(px * px + py * py >= (g - 4) * (g - 4)) by (nonlinear_arith)
        requires
            l * l * (px * px + py * py) >= l * l * ((g - 4) * (g - 4)),
            l >= 1,
    ;
    lemma_sq_div_upper(dx * g, l);
    lemma_sq_div_upper(dy * g, l);
    assert(l * l * (px * px + py * py) <= g * g * d2);
    assert(g * g * d2 < g * g * ((l + 1) * (l + 1))) by (nonlinear_arith)
        requires
            d2 < (l + 1) * (l + 1),
            g > 0,
    ;
    assert(g * (l + 1) <= (g + 200) * l) by (nonlinear_arith)
        requires
            l >= 1000,
            g == 200_000,
    ;
    assert((g * (l + 1)) * (g * (l + 1)) <= ((g + 200) * l) * ((g + 200) * l))
        by (nonlinear_arith)
        requires
            0 <= g * (l + 1),
            g * (l + 1) <= (g + 200) * l,
    ;
    assert(g * g * ((l + 1) * (l + 1)) == (g * (l + 1)) * (g * (l + 1))) by (nonlinear_arith);
    assert(((g + 200) * l) * ((g + 200) * l) == ((g + 200) * (g + 200)) * (l * l))
        by (nonlinear_arith);
    assert(l * l * (px * px + py * py) <= ((g + 200) * (g + 200)) * (l * l));
    assert(px * px + py * py <= (g + 200) * (g + 200)) by (nonlinear_arith)
        requires
            l * l * (px * px + py * py) <= ((g + 200) * (g + 200)) * (l * l),
            l >= 1,
    ;
}

/// A spawned enemy never lies strictly inside the grace area: its squared
/// distance from the player is at least the square of the grace radius
/// less a 4 milli-pixel truncation tolerance. In particular it never lies
/// exactly at the player's position.
pub proof fn lemma_spawn_grace(e: Enemy, ppos: Point, bounds: Rect)
    requires
        spawn_ok(e, ppos, bounds),
    ensures
        spec_squared_distance(e.posture.position, ppos) >= (PLAYER_GRACE_AREA - 4) * (
        PLAYER_GRACE_AREA - 4),
        e.posture.position != ppos,
{
    let g = PLAYER_GRACE_AREA as int;
    let s = choose|s: Posture| spawn_adjusted(e, s, ppos, bounds);
    let d2 = spec_squared_distance(s.position, ppos);
    if d2 > g * g {
        assert((g - 4) * (g - 4) <= g * g) by (nonlinear_arith)
            requires
                g == 200_000,
        ;
    }
    assert(spec_squared_distance(e.posture.position, ppos) > 0);
    if e.posture.position == ppos {
        assert(spec_squared_distance(e.posture.position, ppos) == 0) by (nonlinear_arith)
            requires
                e.posture.position.x == ppos.x,
                e.posture.position.y == ppos.y,
        ;
    }
}

/// Spawns one enemy: samples a posture inside the bounds, re-samples
/// while it lies within a pixel of the player's position (falling back,
/// after `SPAWN_TRIES` draws, to the rectangle corner farthest from the
/// player on each axis), and pushes a sample inside the grace area
/// radially out to its edge.
pub fn spawn_enemy<R: RandomSource>(rng: &mut R, bounds: Rect, player: &Posture) -> (e: Enemy)
    requires
        bounds.wf(),
        bounds.origin.x <= player.position.x <= bounds.origin.x + bounds.width,
        bounds.origin.y <= player.position.y <= bounds.origin.y + bounds.height,
    ensures
        spawn_ok(e, player.position, bounds),
        posture_wf(e.posture),
{
    let ppos: Point = player.position;
    let mut sample: Posture = Posture::random(rng, bounds);
    let mut d2: i64 = sample.position.squared_distance(&ppos);
    let mut tries: u32 = 0;
    while d2 < MIN_SPAWN_DIST_SQ && tries < SPAWN_TRIES
        invariant
            bounds.wf(),
            point_in_range(ppos),
            sample_in_rect(sample.position, bounds),
            angle_wf(sample.direction as int),
            d2 == spec_squared_distance(sample.position, ppos),
            tries <= SPAWN_TRIES,
        decreases SPAWN_TRIES - tries,
    {
        sample = Posture::random(rng, bounds);
        d2 = sample.position.squared_distance(&ppos);
        tries = tries + 1;
    }
    if d2 < MIN_SPAWN_DIST_SQ {
        // The corner farthest from the player on each axis: with extents
        // of at least two pixels it lies at least a pixel away per axis.
        let fx: i64 = if ppos.x - bounds.origin.x > bounds.width / 2 {
            bounds.origin.x
        } else {
            bounds.origin.x + bounds.width - 1
        };
        let fy: i64 = if ppos.y - bounds.origin.y > bounds.height / 2 {
            bounds.origin.y
        } else {
            bounds.origin.y + bounds.height - 1
        };
        proof {
            assert(fx - ppos.x >= 999 || ppos.x - fx >= 999);
            assert(fy - ppos.y >= 999 || ppos.y - fy >= 999);
        }
        sample = Posture {
            position: Point { x: fx, y: fy },
            direction: sample.direction,
        };
        d2 = sample.position.squared_distance(&ppos);
        proof {
            let ax = fx - ppos.x;
            let ay = fy - ppos.y;
            assert(ax * ax >= 998_001 && ay * ay >= 998_001) by (nonlinear_arith)
                requires
                    ax >= 999 || -ax >= 999,
                    ay >= 999 || -ay >= 999,
            ;
        }
    }
    let dx: i64 = sample.position.x - ppos.x;
    let dy: i64 = sample.position.y - ppos.y;
    let pos: Point;
    if d2 <= PLAYER_GRACE_AREA * PLAYER_GRACE_AREA {
        let l: i64 = isqrt64(d2);
        proof {
            lemma_push_in_band(dx as int, dy as int, l as int);
            assert(dx * dx <= d2 && dy * dy <= d2) by (nonlinear_arith)
                requires
                    d2 == dx * dx + dy * dy,
            ;
            assert(-(l as int) <= dx as int <= l as int && -(l as int) <= dy as int <= l as int)
                by (nonlinear_arith)
                requires
                    dx * dx < (l + 1) * (l + 1),
                    dy * dy < (l + 1) * (l + 1),
                    l >= 0,
            ;
            assert(-(PLAYER_GRACE_AREA * l) <= dx * PLAYER_GRACE_AREA <= PLAYER_GRACE_AREA * l
                && -(PLAYER_GRACE_AREA * l) <= dy * PLAYER_GRACE_AREA <= PLAYER_GRACE_AREA * l)
                by (nonlinear_arith)
                requires
                    -(l as int) <= dx as int <= l as int,
                    -(l as int) <= dy as int <= l as int,
                    PLAYER_GRACE_AREA > 0,
            ;
            lemma_div_trunc_le(dx * PLAYER_GRACE_AREA, l as int, PLAYER_GRACE_AREA as int);
            lemma_div_trunc_le(dy * PLAYER_GRACE_AREA, l as int, PLAYER_GRACE_AREA as int);
        }
        let px: i64 = div_trunc_i64(dx * PLAYER_GRACE_AREA, l);
        let py: i64 = div_trunc_i64(dy * PLAYER_GRACE_AREA, l);
        pos = Point { x: ppos.x + px, y: ppos.y + py };
        let e = Enemy { posture: Posture { position: pos, direction: sample.direction } };
        proof {
            assert(pushed_to_grace(e.posture.position, ppos, sample.position, l as int));
            assert(spec_squared_distance(e.posture.position, ppos) == px * px + py * py);
            assert(spawn_adjusted(e, sample, ppos, bounds));
        }
        e
    } else {
        pos = sample.position;
        let e = Enemy { posture: Posture { position: pos, direction: sample.direction } };
        proof {
            assert(spawn_adjusted(e, sample, ppos, bounds));
        }
        e
    }
}

/// The tick driver: the simulation clock, the last-event timestamps of
/// the three rate limiters, and the owned random source.
pub struct TimeController<R: RandomSource> {
    pub rng: R,
    pub current_time: i64,
    pub last_tail_particle: i64,
    pub last_shoot: i64,
    pub last_spawned_enemy: i64,
}

impl<R: RandomSource> TimeController<R> {
    /// The clock and every last-event timestamp are consistent.
    pub open spec fn wf(self) -> bool {
        &&& 0 <= self.current_time <= TIME_CAP
        &&& 0 <= self.last_tail_particle <= self.current_time
        &&& 0 <= self.last_shoot <= self.current_time
        &&& 0 <= self.last_spawned_enemy <= self.current_time
    }

    /// A controller at clock zero owning the given random source.
    pub fn new(rng: R) -> (r: TimeController<R>)
        ensures
            r.current_time == 0,
            r.last_tail_particle == 0,
            r.last_shoot == 0,
            r.last_spawned_enemy == 0,
            r.wf(),
    {
        TimeController { rng, current_time: 0, last_tail_particle: 0, last_shoot: 0, last_spawned_enemy: 0 }
    }

    /// Advances the simulation by `dt` milliseconds under the given input
    /// flags: accumulates the clock, rotates and moves the player with
    /// wrap-around, ages and prunes particles, emits a trail particle,
    /// fires and advances bullets and prunes the ones that left the
    /// rectangle, spawns an enemy outside the grace area, and steers every
    /// enemy toward the player — each timed event if and only if its rate
    /// limiter is due.
    #[verifier::rlimit(100)]
    pub fn update_seconds(&mut self, dt: i64, actions: &Actions, state: &mut GameState)
        requires
            0 < dt <= DT_MAX,
            old(self).wf(),
            old(state).wf(),
        ensures
            final(self).wf(),
            final(state).wf(),
            final(state).world.rect == old(state).world.rect,
            final(state).score == old(state).score,
            final(self).current_time
                == spec_new_time(old(self).current_time as int, dt as int),
            final(self).last_tail_particle == if trail_due(
                spec_new_time(old(self).current_time as int, dt as int),
                old(self).last_tail_particle as int,
            ) {
                final(self).current_time
            } else {
                old(self).last_tail_particle
            },
            final(self).last_shoot == if shoot_due(
                spec_new_time(old(self).current_time as int, dt as int),
                old(self).last_shoot as int,
                actions.shoot,
            ) {
                final(self).current_time
            } else {
                old(self).last_shoot
            },
            final(self).last_spawned_enemy == if spawn_due(
                spec_new_time(old(self).current_time as int, dt as int),
                old(self).last_spawned_enemy as int,
            ) {
                final(self).current_time
            } else {
                old(self).last_spawned_enemy
            },
            final(state).world.player.posture == spec_player_tick(
                old(state).world.player.posture,
                *actions,
                dt as int,
                old(state).world.rect,
            ),
            final(state).world.particles@ == if trail_due(
                spec_new_time(old(self).current_time as int, dt as int),
                old(self).last_tail_particle as int,
            ) {
                spec_step_particles(old(state).world.particles@, dt as int).push(
                    spec_trail_particle(final(state).world.player.posture),
                )
            } else {
                spec_step_particles(old(state).world.particles@, dt as int)
            },
            final(state).world.bullets@ == spec_step_bullets(
                if shoot_due(
                    spec_new_time(old(self).current_time as int, dt as int),
                    old(self).last_shoot as int,
                    actions.shoot,
                ) {
                    old(state).world.bullets@.push(
                        spec_new_bullet(final(state).world.player.posture),
                    )
                } else {
                    old(state).world.bullets@
                },
                dt as int * BULLET_SPEED / 1000,
                old(state).world.rect,
            ),
            spawn_due(
                spec_new_time(old(self).current_time as int, dt as int),
                old(self).last_spawned_enemy as int,
            ) ==> exists|e: Enemy|
                #[trigger] spawn_ok(e, final(state).world.player.posture.position, old(state).world.rect)
                    && final(state).world.enemies@ == spec_step_enemies(
                    old(state).world.enemies@.push(e),
                    final(state).world.player.posture.position,
                    dt as int * ENEMY_SPEED / 1000,
                ),
            !spawn_due(
                spec_new_time(old(self).current_time as int, dt as int),
                old(self).last_spawned_enemy as int,
            ) ==> final(state).world.enemies@ == spec_step_enemies(
                old(state).world.enemies@,
                final(state).world.player.posture.position,
                dt as int * ENEMY_SPEED / 1000,
            ),
    {
        let t_new: i64 = if self.current_time > TIME_CAP - dt {
            TIME_CAP
        } else {
            self.current_time + dt
        };
        self.current_time = t_new;

        // Rotation inputs, left then right, each a normalized turn step.
        let delta: i64 = ROTATE_SPEED * dt / 1000;
        if actions.rotate_left {
            self_dir_sub(&mut state.world.player.posture, delta);
        }
        if actions.rotate_right {
            self_dir_add(&mut state.world.player.posture, delta);
        }

        // Forward motion with wrap-around bounds handling.
        let speed: i64 = if actions.boost {
            2 * ADVANCE_SPEED
        } else {
            ADVANCE_SPEED
        };
        proof {
            assert(0 < dt * speed <= 24_000_000_000) by (nonlinear_arith)
                requires
                    0 < dt as int <= 60_000,
                    speed as int == 200_000 || speed as int == 400_000,
            ;
        }
        let units: i64 = dt * speed / 1000;
        let bounds: Rect = state.world.rect;
        state.world.player.posture.move_within_bounds(units, bounds);

        // Age, drift and prune the trail particles.
        step_particles(&mut state.world.particles, dt);

        // Emit a new trail particle behind the ship.
        if t_new - self.last_tail_particle > TRAIL_PARTICLE_RATE {
            self.last_tail_particle = t_new;
            let rev: Posture = state.world.player.posture.reverse_direction();
            state.world.particles.push(Particle::new(rev, TRAIL_PARTICLE_TIME));
        }

        // Fire a bullet from the nose tip.
        if actions.shoot && t_new - self.last_shoot > BULLET_RATE {
            self.last_shoot = t_new;
            let front: Point = state.world.player.front();
            let dir: i64 = state.world.player.posture.direction;
            state.world.bullets.push(Bullet::new(Posture::new(front, dir)));
        }

        // Advance the bullets and prune the ones that left the rectangle.
        let b_units: i64 = dt * BULLET_SPEED / 1000;
        step_bullets(&mut state.world.bullets, b_units, bounds);

        // Spawn an enemy at a random posture outside the grace area.
        let ghost mut spawned: Enemy = Enemy {
            posture: Posture { position: Point { x: 0, y: 0 }, direction: 0 },
        };
        if t_new - self.last_spawned_enemy > ENEMY_SPAWN_RATE {
            self.last_spawned_enemy = t_new;
            let e: Enemy = spawn_enemy(&mut self.rng, bounds, &state.world.player.posture);
            proof {
                spawned = e;
            }
            state.world.enemies.push(e);
        }

        // Steer every enemy toward the player and advance it.
        let e_units: i64 = dt * ENEMY_SPEED / 1000;
        let target: Point = state.world.player.posture.position;
        step_enemies(&mut state.world.enemies, target, e_units);
        proof {
            if spawn_due(
                spec_new_time(old(self).current_time as int, dt as int),
                old(self).last_spawned_enemy as int,
            ) {
                assert(spawn_ok(spawned, state.world.player.posture.position, old(state).world.rect)
                    && state.world.enemies@ == spec_step_enemies(
                    old(state).world.enemies@.push(spawned),
                    state.world.player.posture.position,
                    dt as int * ENEMY_SPEED / 1000,
                ));
                assert(exists|e: Enemy|
                    #[trigger] spawn_ok(e, state.world.player.posture.position, old(state).world.rect)
                        && state.world.enemies@ == spec_step_enemies(
                        old(state).world.enemies@.push(e),
                        state.world.player.posture.position,
                        dt as int * ENEMY_SPEED / 1000,
                    ));
            }
        }
    }
}

fn self_dir_sub(p: &mut Posture, delta: i64)
    requires
        angle_wf(old(p).direction as int),
        0 <= delta <= TURN * DT_MAX,
    ensures
        final(p).position == old(p).position,
        final(p).direction == norm_angle(old(p).direction - delta),
        angle_wf(final(p).direction as int),
{
    p.direction = normalize_angle(p.direction - delta);
}

fn self_dir_add(p: &mut Posture, delta: i64)
    requires
        angle_wf(old(p).direction as int),
        0 <= delta <= TURN * DT_MAX,
    ensures
        final(p).position == old(p).position,
        final(p).direction == norm_angle(old(p).direction + delta),
        angle_wf(final(p).direction as int),
{
    p.direction = normalize_angle(p.direction + delta);
}

} // verus!
