//! The game-state container: the world plus the score.
//!
//! Creation and reset seed a deterministic random source, so the same
//! bounds always yield the same initial player placement.

use vstd::prelude::*;

use crate::geometry::{Point, Rect};
use crate::models::{Bullet, Enemy, Particle, World};
use crate::rng::PcgSource;

verus! {

/// Seed of the random source used when a world is first created.
pub const CREATE_SEED: u64 = 45;

/// Seed of the random source used on reset.
pub const RESET_SEED: u64 = 42;

/// The world and the running score.
pub struct GameState {
    pub world: World,
    pub score: u32,
}

impl GameState {
    pub open spec fn wf(self) -> bool {
        self.world.wf()
    }

    /// A fresh state over the given rectangle: a deterministically seeded
    /// player placement, no transient entities, score zero.
    pub fn new(rect: Rect) -> (r: GameState)
        requires
            rect.wf(),
        ensures
            r.world.rect == rect,
            r.score == 0,
            r.world.particles@ =~= Seq::<Particle>::empty(),
            r.world.bullets@ =~= Seq::<Bullet>::empty(),
            r.world.enemies@ =~= Seq::<Enemy>::empty(),
            rect.origin.x <= r.world.player.posture.position.x < rect.origin.x + rect.width,
            rect.origin.y <= r.world.player.posture.position.y < rect.origin.y + rect.height,
            r.wf(),
    {
        let mut rng = PcgSource::from_seed(CREATE_SEED);
        GameState { world: World::new(&mut rng, rect), score: 0 }
    }

    /// Re-randomizes only the player's position from a fresh deterministic
    /// seed, zeroes the score and clears every transient collection; the
    /// rectangle and the player's direction are kept.
    pub fn reset(&mut self)
        requires
            old(self).wf(),
        ensures
            final(self).world.rect == old(self).world.rect,
            final(self).score == 0,
            final(self).world.particles@ =~= Seq::<Particle>::empty(),
            final(self).world.bullets@ =~= Seq::<Bullet>::empty(),
            final(self).world.enemies@ =~= Seq::<Enemy>::empty(),
            final(self).world.player.posture.direction == old(self).world.player.posture.direction,
            old(self).world.rect.origin.x <= final(self).world.player.posture.position.x
                < old(self).world.rect.origin.x + old(self).world.rect.width,
            old(self).world.rect.origin.y <= final(self).world.player.posture.position.y
                < old(self).world.rect.origin.y + old(self).world.rect.height,
            final(self).wf(),
    {
        let mut rng = PcgSource::from_seed(RESET_SEED);
        let x: i64 = self.world.rect.random_x(&mut rng);
        let y: i64 = self.world.rect.random_y(&mut rng);
        self.world.player.posture.position = Point { x, y };
        self.score = 0;
        self.world.enemies = Vec::new();
        self.world.bullets = Vec::new();
        self.world.particles = Vec::new();
    }
}

} // verus!
