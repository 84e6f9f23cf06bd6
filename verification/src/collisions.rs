//! The collision controller: detects and resolves all cross-entity
//! overlaps once per tick, after the motion update.
//!
//! All pairs are evaluated against the same post-motion state. Any enemy
//! overlapping the player triggers a full state reset (score lost).
//! Otherwise every bullet overlapping some enemy and every enemy
//! overlapping some bullet are removed together, and the score grows by a
//! fixed increment per removed enemy. Enemy-enemy and bullet-bullet pairs
//! are never checked.

use vstd::prelude::*;

use crate::geometry::point_in_range;
use crate::models::{
    BULLET_RADIUS, Bullet, ENEMY_RADIUS, Enemy, PLAYER_RADIUS, Particle, Posture, posture_wf,
    spec_collides, collides,
};
use crate::game_state::GameState;

verus! {

/// Score gained for each destroyed enemy.
pub const SCORE_PER_ENEMY: u32 = 10;

/// Whether a bullet overlaps an enemy.
pub open spec fn bullet_hits_enemy(b: Bullet, e: Enemy) -> bool {
    spec_collides(b.posture.position, BULLET_RADIUS as int, e.posture.position, ENEMY_RADIUS as int)
}

/// Whether a bullet overlaps at least one of the enemies.
pub open spec fn bullet_hits_some(b: Bullet, enemies: Seq<Enemy>) -> bool {
    exists|j: int| 0 <= j < enemies.len() && bullet_hits_enemy(b, #[trigger] enemies[j])
}

/// Whether an enemy overlaps at least one of the bullets.
pub open spec fn enemy_hit_by_some(e: Enemy, bullets: Seq<Bullet>) -> bool {
    exists|j: int| 0 <= j < bullets.len() && bullet_hits_enemy(#[trigger] bullets[j], e)
}

/// Whether an enemy overlaps the player.
pub open spec fn enemy_hits_player(e: Enemy, player: Posture) -> bool {
    spec_collides(e.posture.position, ENEMY_RADIUS as int, player.position, PLAYER_RADIUS as int)
}

/// Whether any enemy overlaps the player.
pub open spec fn some_enemy_hits_player(enemies: Seq<Enemy>, player: Posture) -> bool {
    exists|j: int| 0 <= j < enemies.len() && enemy_hits_player(#[trigger] enemies[j], player)
}

/// The bullets that survive the collision pass: exactly those that
/// overlap no enemy, in order.
pub open spec fn spec_surviving_bullets(bullets: Seq<Bullet>, enemies: Seq<Enemy>) -> Seq<Bullet>
    decreases bullets.len(),
{
    if bullets.len() == 0 {
        Seq::empty()
    } else {
        let rest = spec_surviving_bullets(bullets.drop_last(), enemies);
        if bullet_hits_some(bullets.last(), enemies) {
            rest
        } else {
            rest.push(bullets.last())
        }
    }
}

/// The enemies that survive the collision pass: exactly those that
/// overlap no bullet, in order.
pub open spec fn spec_surviving_enemies(enemies: Seq<Enemy>, bullets: Seq<Bullet>) -> Seq<Enemy>
    decreases enemies.len(),
{
    if enemies.len() == 0 {
        Seq::empty()
    } else {
        let rest = spec_surviving_enemies(enemies.drop_last(), bullets);
        if enemy_hit_by_some(enemies.last(), bullets) {
            rest
        } else {
            rest.push(enemies.last())
        }
    }
}

/// The score after the collision pass: one increment per removed enemy,
/// saturating at the score type's ceiling.
pub open spec fn spec_score_after(enemies: Seq<Enemy>, bullets: Seq<Bullet>, score: int) -> int
    decreases enemies.len(),
{
    if enemies.len() == 0 {
        score
    } else {
        let s = spec_score_after(enemies.drop_last(), bullets, score);
        if enemy_hit_by_some(enemies.last(), bullets) {
            if s + SCORE_PER_ENEMY > u32::MAX {
                u32::MAX as int
            } else {
                s + SCORE_PER_ENEMY
            }
        } else {
            s
        }
    }
}

/// No bullet that survives the collision pass overlaps any enemy that
/// survives it: the pass resolves every bullet/enemy overlap it saw.
pub proof fn lemma_no_surviving_overlap(bullets: Seq<Bullet>, enemies: Seq<Enemy>)
    ensures
        forall|i: int, j: int|
            0 <= i < spec_surviving_bullets(bullets, enemies).len()
                && 0 <= j < spec_surviving_enemies(enemies, bullets).len()
                ==> !bullet_hits_enemy(
                    #[trigger] spec_surviving_bullets(bullets, enemies)[i],
                    #[trigger] spec_surviving_enemies(enemies, bullets)[j],
                ),
{
    lemma_surviving_bullets_shape(bullets, enemies);
    lemma_surviving_enemies_shape(enemies, bullets);
    let sb = spec_surviving_bullets(bullets, enemies);
    let se = spec_surviving_enemies(enemies, bullets);
    assert forall|i: int, j: int| 0 <= i < sb.len() && 0 <= j < se.len()
        implies !bullet_hits_enemy(#[trigger] sb[i], #[trigger] se[j]) by {
        let ej = choose|w: int| 0 <= w < enemies.len() && enemies[w] == se[j];
        assert(!bullet_hits_some(sb[i], enemies));
        assert(!bullet_hits_enemy(sb[i], enemies[ej]));
    }
}

/// Every surviving bullet was among the bullets given and overlaps no enemy.
pub proof fn lemma_surviving_bullets_shape(bullets: Seq<Bullet>, enemies: Seq<Enemy>)
    ensures
        forall|i: int| 0 <= i < spec_surviving_bullets(bullets, enemies).len()
            ==> !bullet_hits_some(#[trigger] spec_surviving_bullets(bullets, enemies)[i], enemies)
                && bullets.contains(spec_surviving_bullets(bullets, enemies)[i]),
    decreases bullets.len(),
{
    if bullets.len() > 0 {
        lemma_surviving_bullets_shape(bullets.drop_last(), enemies);
        let rest = spec_surviving_bullets(bullets.drop_last(), enemies);
        assert forall|i: int| 0 <= i < spec_surviving_bullets(bullets, enemies).len()
            implies !bullet_hits_some(
                #[trigger] spec_surviving_bullets(bullets, enemies)[i],
                enemies,
            ) && bullets.contains(spec_surviving_bullets(bullets, enemies)[i]) by {
            if i < rest.len() {
                let w = choose|w: int|
                    0 <= w < bullets.drop_last().len() && bullets.drop_last()[w] == rest[i];
                assert(bullets[w] == rest[i]);
            } else {
                assert(spec_surviving_bullets(bullets, enemies)[i] == bullets.last());
                assert(bullets[bullets.len() - 1] == bullets.last());
            }
        }
    }
}

/// Every surviving enemy was among the enemies given and overlaps no bullet.
pub proof fn lemma_surviving_enemies_shape(enemies: Seq<Enemy>, bullets: Seq<Bullet>)
    ensures
        forall|i: int| 0 <= i < spec_surviving_enemies(enemies, bullets).len()
            ==> !enemy_hit_by_some(#[trigger] spec_surviving_enemies(enemies, bullets)[i], bullets)
                && enemies.contains(spec_surviving_enemies(enemies, bullets)[i]),
    decreases enemies.len(),
{
    if enemies.len() > 0 {
        lemma_surviving_enemies_shape(enemies.drop_last(), bullets);
        let rest = spec_surviving_enemies(enemies.drop_last(), bullets);
        assert forall|i: int| 0 <= i < spec_surviving_enemies(enemies, bullets).len()
            implies !enemy_hit_by_some(
                #[trigger] spec_surviving_enemies(enemies, bullets)[i],
                bullets,
            ) && enemies.contains(spec_surviving_enemies(enemies, bullets)[i]) by {
            if i < rest.len() {
                let w = choose|w: int|
                    0 <= w < enemies.drop_last().len() && enemies.drop_last()[w] == rest[i];
                assert(enemies[w] == rest[i]);
            } else {
                assert(spec_surviving_enemies(enemies, bullets)[i] == enemies.last());
                assert(enemies[enemies.len() - 1] == enemies.last());
            }
        }
    }
}

fn hits_any_enemy(b: &Bullet, enemies: &Vec<Enemy>) -> (r: bool)
    requires
        posture_wf(b.posture),
        forall|i: int| 0 <= i < enemies@.len() ==> posture_wf((#[trigger] enemies@[i]).posture),
    ensures
        r == bullet_hits_some(*b, enemies@),
{
    let n: usize = enemies.len();
    let mut i: usize = 0;
    while i < n
        invariant
            i <= n,
            n == enemies@.len(),
            posture_wf(b.posture),
            forall|j: int| 0 <= j < enemies@.len() ==> posture_wf((#[trigger] enemies@[j]).posture),
            forall|j: int| 0 <= j < i ==> !bullet_hits_enemy(*b, #[trigger] enemies@[j]),
        decreases n - i,
    {
        let e: Enemy = enemies[i];
        if collides(b.posture.position, BULLET_RADIUS, e.posture.position, ENEMY_RADIUS) {
            return true;
        }
        i = i + 1;
    }
    false
}

fn hit_by_any_bullet(e: &Enemy, bullets: &Vec<Bullet>) -> (r: bool)
    requires
        posture_wf(e.posture),
        forall|i: int| 0 <= i < bullets@.len() ==> posture_wf((#[trigger] bullets@[i]).posture),
    ensures
        r == enemy_hit_by_some(*e, bullets@),
{
    let n: usize = bullets.len();
    let mut i: usize = 0;
    while i < n
        invariant
            i <= n,
            n == bullets@.len(),
            posture_wf(e.posture),
            forall|j: int| 0 <= j < bullets@.len() ==> posture_wf((#[trigger] bullets@[j]).posture),
            forall|j: int| 0 <= j < i ==> !bullet_hits_enemy(#[trigger] bullets@[j], *e),
        decreases n - i,
    {
        let b: Bullet = bullets[i];
        if collides(b.posture.position, BULLET_RADIUS, e.posture.position, ENEMY_RADIUS) {
            return true;
        }
        i = i + 1;
    }
    false
}

fn player_hit(enemies: &Vec<Enemy>, player: &Posture) -> (r: bool)
    requires
        posture_wf(*player),
        forall|i: int| 0 <= i < enemies@.len() ==> posture_wf((#[trigger] enemies@[i]).posture),
    ensures
        r == some_enemy_hits_player(enemies@, *player),
{
    let n: usize = enemies.len();
    let mut i: usize = 0;
    while i < n
        invariant
            i <= n,
            n == enemies@.len(),
            posture_wf(*player),
            forall|j: int| 0 <= j < enemies@.len() ==> posture_wf((#[trigger] enemies@[j]).posture),
            forall|j: int| 0 <= j < i ==> !enemy_hits_player(#[trigger] enemies@[j], *player),
        decreases n - i,
    {
        let e: Enemy = enemies[i];
        if collides(e.posture.position, ENEMY_RADIUS, player.position, PLAYER_RADIUS) {
            return true;
        }
        i = i + 1;
    }
    false
}

/// The collision controller.
pub struct CollisionsController;

impl CollisionsController {
    /// Resolves all overlaps against the current post-motion state: a
    /// player-enemy overlap resets the whole state (score lost); otherwise
    /// the overlapping bullets and enemies are removed together and the
    /// score grows by `SCORE_PER_ENEMY` per removed enemy.
    pub fn handle_collisions(state: &mut GameState)
        requires
            old(state).wf(),
        ensures
            final(state).wf(),
            final(state).world.rect == old(state).world.rect,
            some_enemy_hits_player(
                old(state).world.enemies@,
                old(state).world.player.posture,
            ) ==> {
                &&& final(state).score == 0
                &&& final(state).world.particles@ =~= Seq::<Particle>::empty()
                &&& final(state).world.bullets@ =~= Seq::<Bullet>::empty()
                &&& final(state).world.enemies@ =~= Seq::<Enemy>::empty()
                &&& final(state).world.player.posture.direction
                    == old(state).world.player.posture.direction
                &&& old(state).world.rect.origin.x <= final(state).world.player.posture.position.x
                    < old(state).world.rect.origin.x + old(state).world.rect.width
                &&& old(state).world.rect.origin.y <= final(state).world.player.posture.position.y
                    < old(state).world.rect.origin.y + old(state).world.rect.height
            },
            !some_enemy_hits_player(
                old(state).world.enemies@,
                old(state).world.player.posture,
            ) ==> {
                &&& final(state).world.player == old(state).world.player
                &&& final(state).world.particles@ == old(state).world.particles@
                &&& final(state).world.bullets@ == spec_surviving_bullets(
                    old(state).world.bullets@,
                    old(state).world.enemies@,
                )
                &&& final(state).world.enemies@ == spec_surviving_enemies(
                    old(state).world.enemies@,
                    old(state).world.bullets@,
                )
                &&& final(state).score == spec_score_after(
                    old(state).world.enemies@,
                    old(state).world.bullets@,
                    old(state).score as int,
                )
            },
    {
        if player_hit(&state.world.enemies, &state.world.player.posture) {
            state.reset();
            return;
        }

        let ghost orig_bullets: Seq<Bullet> = state.world.bullets@;
        let ghost orig_enemies: Seq<Enemy> = state.world.enemies@;

        let nb: usize = state.world.bullets.len();
        let mut kept_bullets: Vec<Bullet> = Vec::new();
        let mut i: usize = 0;
        while i < nb
            invariant
                i <= nb,
                nb == orig_bullets.len(),
                state.world.bullets@ == orig_bullets,
                state.world.enemies@ == orig_enemies,
                forall|j: int| 0 <= j < orig_bullets.len()
                    ==> posture_wf((#[trigger] orig_bullets[j]).posture),
                forall|j: int| 0 <= j < orig_enemies.len()
                    ==> posture_wf((#[trigger] orig_enemies[j]).posture),
                kept_bullets@ == spec_surviving_bullets(orig_bullets.take(i as int), orig_enemies),
                forall|j: int| 0 <= j < kept_bullets@.len()
                    ==> posture_wf((#[trigger] kept_bullets@[j]).posture),
            decreases nb - i,
        {
            let b: Bullet = state.world.bullets[i];
            let hit: bool = hits_any_enemy(&b, &state.world.enemies);
            proof {
                assert(orig_bullets.take(i as int + 1).drop_last() =~= orig_bullets.take(i as int));
                assert(orig_bullets.take(i as int + 1).last() == orig_bullets[i as int]);
            }
            if !hit {
                kept_bullets.push(b);
            }
            i = i + 1;
        }
        proof {
            assert(orig_bullets.take(nb as int) =~= orig_bullets);
        }

        let ne: usize = state.world.enemies.len();
        let mut kept_enemies: Vec<Enemy> = Vec::new();
        let mut score: u32 = state.score;
        let mut k: usize = 0;
        while k < ne
            invariant
                k <= ne,
                ne == orig_enemies.len(),
                state.world.bullets@ == orig_bullets,
                state.world.enemies@ == orig_enemies,
                forall|j: int| 0 <= j < orig_bullets.len()
                    ==> posture_wf((#[trigger] orig_bullets[j]).posture),
                forall|j: int| 0 <= j < orig_enemies.len()
                    ==> posture_wf((#[trigger] orig_enemies[j]).posture),
                kept_enemies@ == spec_surviving_enemies(orig_enemies.take(k as int), orig_bullets),
                score as int == spec_score_after(
                    orig_enemies.take(k as int),
                    orig_bullets,
                    old(state).score as int,
                ),
                forall|j: int| 0 <= j < kept_enemies@.len()
                    ==> posture_wf((#[trigger] kept_enemies@[j]).posture),
            decreases ne - k,
        {
            let e: Enemy = state.world.enemies[k];
            let hit: bool = hit_by_any_bullet(&e, &state.world.bullets);
            proof {
                assert(orig_enemies.take(k as int + 1).drop_last() =~= orig_enemies.take(k as int));
                assert(orig_enemies.take(k as int + 1).last() == orig_enemies[k as int]);
            }
            if hit {
                score = if score > u32::MAX - SCORE_PER_ENEMY {
                    u32::MAX
                } else {
                    score + SCORE_PER_ENEMY
                };
            } else {
                kept_enemies.push(e);
            }
            k = k + 1;
        }
        proof {
            assert(orig_enemies.take(ne as int) =~= orig_enemies);
        }

        state.world.bullets = kept_bullets;
        state.world.enemies = kept_enemies;
        state.score = score;
    }
}

} // verus!
