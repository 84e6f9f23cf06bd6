use shooter::collisions::CollisionsController;
use shooter::game_state::GameState;
use shooter::geometry::{Point, Rect};
use shooter::models::{Bullet, Enemy, Particle, Posture};
use shooter::rng::{PcgSource, RandomSource};
use shooter::timer::{spawn_enemy, Actions, TimeController};

/// A random source replaying a fixed script, for deterministic spawning.
struct ScriptSource {
    values: Vec<u32>,
    at: usize,
}

impl RandomSource for ScriptSource {
    fn next_u32(&mut self) -> u32 {
        let v = self.values[self.at % self.values.len()];
        self.at += 1;
        v
    }
}

fn shooting() -> Actions {
    Actions { rotate_left: false, rotate_right: false, boost: false, shoot: true }
}

#[test]
fn bullet_cadence_scenario() {
    // 1024x600 pixel world, player pinned at the center facing east,
    // constant fire, dt = 10 ms, 100 ticks. The limiter fires every
    // second tick (the strict rate comparison skips the aligned tick),
    // and the two oldest bullets leave the right edge before tick 100.
    let rect = Rect::new(1_024_000, 600_000);
    let mut state = GameState::new(rect);
    state.world.player.posture = Posture::new(Point::new(512_000, 300_000), 0);
    let mut tc = TimeController::new(PcgSource::from_seed(42));
    let actions = shooting();

    tc.update_seconds(10, &actions, &mut state);
    assert_eq!(state.world.bullets.len(), 0);

    let mut tick: u32 = 1;
    while tick < 50 {
        tc.update_seconds(10, &actions, &mut state);
        tick += 1;
    }
    assert_eq!(state.world.bullets.len(), 25);
    assert_eq!(state.world.particles.len(), 8);
    assert_eq!(state.world.enemies.len(), 0);

    while tick < 100 {
        tc.update_seconds(10, &actions, &mut state);
        tick += 1;
    }
    assert_eq!(state.world.bullets.len(), 48);
    assert_eq!(state.world.particles.len(), 8);
    assert_eq!(state.world.enemies.len(), 0);
    assert_eq!(state.world.player.posture.position, Point::new(712_000, 300_000));
    assert_eq!(state.world.player.posture.direction, 0);
    assert_eq!(state.score, 0);
}

#[test]
fn enemy_spawns_after_one_second() {
    let rect = Rect::new(1_024_000, 600_000);
    let mut state = GameState::new(rect);
    let mut tc = TimeController::new(PcgSource::from_seed(42));
    let actions = Actions::default();
    let mut tick: u32 = 0;
    while tick < 100 {
        tc.update_seconds(10, &actions, &mut state);
        tick += 1;
    }
    assert_eq!(state.world.enemies.len(), 0);
    tc.update_seconds(10, &actions, &mut state);
    assert_eq!(state.world.enemies.len(), 1);
}

#[test]
fn spawn_inside_grace_is_pushed_to_its_edge() {
    // The scripted sample lands 30 pixels east of the player, inside the
    // 200-pixel grace radius, and is pushed straight east to exactly the
    // grace distance, keeping its sampled direction.
    let rect = Rect::new(1_024_000, 600_000);
    let player = Posture::new(Point::new(512_000, 300_000), 0);
    let mut rng = ScriptSource { values: vec![0, 542_000, 0, 300_000, 123], at: 0 };
    let e = spawn_enemy(&mut rng, rect, &player);
    assert_eq!(e.posture.position, Point::new(712_000, 300_000));
    assert_eq!(e.posture.direction, 123);
    let d2 = e.posture.position.squared_distance(&player.position);
    assert_eq!(d2, 200_000i64 * 200_000i64);
}

#[test]
fn spawn_inside_grace_diagonal() {
    // Sample 30/40 pixels away (distance 50 pixels): pushed along the
    // same ray to exactly the grace radius.
    let rect = Rect::new(1_024_000, 600_000);
    let player = Posture::new(Point::new(512_000, 300_000), 0);
    let mut rng = ScriptSource { values: vec![0, 542_000, 0, 340_000, 7], at: 0 };
    let e = spawn_enemy(&mut rng, rect, &player);
    assert_eq!(e.posture.position, Point::new(632_000, 460_000));
    let d2 = e.posture.position.squared_distance(&player.position);
    assert_eq!(d2, 200_000i64 * 200_000i64);
}

#[test]
fn spawn_at_player_position_is_resampled() {
    let rect = Rect::new(1_024_000, 600_000);
    let player = Posture::new(Point::new(512_000, 300_000), 0);
    let mut rng = ScriptSource { values: vec![0, 512_000, 0, 300_000, 7, 0, 0, 0, 0, 9], at: 0 };
    let e = spawn_enemy(&mut rng, rect, &player);
    // the second draw lands at the origin corner, far outside the grace
    // area, and is kept as sampled
    assert_eq!(e.posture.position, Point::new(0, 0));
    assert_eq!(e.posture.direction, 9);
}

#[test]
fn spawn_within_a_pixel_is_resampled() {
    let rect = Rect::new(1_024_000, 600_000);
    let player = Posture::new(Point::new(512_000, 300_000), 0);
    let mut rng = ScriptSource { values: vec![0, 512_001, 0, 300_001, 7, 0, 0, 0, 0, 9], at: 0 };
    let e = spawn_enemy(&mut rng, rect, &player);
    // the first draw lands one milli-pixel diagonal from the player and
    // is rejected; the second lands at the origin corner and is kept
    assert_eq!(e.posture.position, Point::new(0, 0));
    assert_eq!(e.posture.direction, 9);
}

#[test]
fn spawn_falls_back_to_the_far_corner() {
    let rect = Rect::new(1_024_000, 600_000);
    let player = Posture::new(Point::new(512_000, 300_000), 0);
    // every draw repeats the player's own position; after the retry
    // budget the spawner takes the corner farthest from the player
    let mut rng = ScriptSource { values: vec![0, 512_000, 0, 300_000, 7], at: 0 };
    let e = spawn_enemy(&mut rng, rect, &player);
    assert_eq!(e.posture.position, Point::new(1_023_999, 599_999));
    assert_eq!(e.posture.direction, 7);
}

#[test]
fn spawn_never_lands_inside_grace() {
    let rect = Rect::new(1_024_000, 600_000);
    let player = Posture::new(Point::new(512_000, 300_000), 0);
    let mut rng = PcgSource::from_seed(7);
    let mut n: u32 = 0;
    while n < 200 {
        let e = spawn_enemy(&mut rng, rect, &player);
        let d2 = e.posture.position.squared_distance(&player.position);
        assert!(d2 >= (200_000i64 - 4) * (200_000i64 - 4));
        n += 1;
    }
}

#[test]
fn world_creation_is_deterministic() {
    let rect = Rect::new(1_024_000, 600_000);
    let a = GameState::new(rect);
    let b = GameState::new(rect);
    assert_eq!(a.world.player.posture, b.world.player.posture);
    assert!(rect.contains(a.world.player.posture.position));
    assert_eq!(a.score, 0);
    assert!(a.world.bullets.is_empty());
    assert!(a.world.enemies.is_empty());
    assert!(a.world.particles.is_empty());
}

#[test]
fn reset_clears_everything_but_the_rect() {
    // Run the simulation long enough to accumulate entities and a kill,
    // then reset: score zero, all collections empty, player inside the
    // bounds, rectangle kept.
    let rect = Rect::new(1_024_000, 600_000);
    let mut state = GameState::new(rect);
    state.world.player.posture = Posture::new(Point::new(512_000, 300_000), 0);
    let mut tc = TimeController::new(PcgSource::from_seed(42));
    let actions = shooting();
    let mut tick: u32 = 0;
    while tick < 300 {
        tc.update_seconds(10, &actions, &mut state);
        tick += 1;
    }
    state.score = 70;
    assert!(state.world.bullets.len() > 0);
    assert!(state.world.enemies.len() > 0);
    assert!(state.world.particles.len() > 0);
    let dir_before = state.world.player.posture.direction;
    state.reset();
    assert_eq!(state.score, 0);
    assert!(state.world.bullets.is_empty());
    assert!(state.world.enemies.is_empty());
    assert!(state.world.particles.is_empty());
    assert_eq!(state.world.rect, rect);
    assert!(rect.contains(state.world.player.posture.position));
    assert_eq!(state.world.player.posture.direction, dir_before);
}

#[test]
fn bullet_and_enemy_are_removed_together_and_scored() {
    let rect = Rect::new(1_024_000, 600_000);
    let mut state = GameState::new(rect);
    state.world.player.posture = Posture::new(Point::new(10_000, 10_000), 0);
    state.world.enemies.push(Enemy::new(Posture::new(Point::new(800_000, 400_000), 0)));
    state.world.enemies.push(Enemy::new(Posture::new(Point::new(100_000, 100_000), 0)));
    state.world.bullets.push(Bullet::new(Posture::new(Point::new(100_000, 100_000), 0)));
    state.world.bullets.push(Bullet::new(Posture::new(Point::new(500_000, 500_000), 0)));
    CollisionsController::handle_collisions(&mut state);
    assert_eq!(state.score, 10);
    assert_eq!(state.world.enemies.len(), 1);
    assert_eq!(state.world.enemies[0].posture.position, Point::new(800_000, 400_000));
    assert_eq!(state.world.bullets.len(), 1);
    assert_eq!(state.world.bullets[0].posture.position, Point::new(500_000, 500_000));
}

#[test]
fn one_bullet_can_remove_two_overlapping_enemies() {
    let rect = Rect::new(1_024_000, 600_000);
    let mut state = GameState::new(rect);
    state.world.player.posture = Posture::new(Point::new(10_000, 10_000), 0);
    state.world.enemies.push(Enemy::new(Posture::new(Point::new(100_000, 100_000), 0)));
    state.world.enemies.push(Enemy::new(Posture::new(Point::new(101_000, 100_000), 0)));
    state.world.bullets.push(Bullet::new(Posture::new(Point::new(100_500, 100_000), 0)));
    CollisionsController::handle_collisions(&mut state);
    assert_eq!(state.score, 20);
    assert_eq!(state.world.enemies.len(), 0);
    assert_eq!(state.world.bullets.len(), 0);
}

#[test]
fn enemy_touching_player_resets_the_state() {
    let rect = Rect::new(1_024_000, 600_000);
    let mut state = GameState::new(rect);
    state.world.player.posture = Posture::new(Point::new(500_000, 300_000), 0);
    state.score = 30;
    state.world.enemies.push(Enemy::new(Posture::new(Point::new(500_000, 300_000), 0)));
    state.world.bullets.push(Bullet::new(Posture::new(Point::new(900_000, 100_000), 0)));
    state.world.particles.push(Particle::new(Posture::new(Point::new(1, 2), 3), 400));
    CollisionsController::handle_collisions(&mut state);
    assert_eq!(state.score, 0);
    assert!(state.world.enemies.is_empty());
    assert!(state.world.bullets.is_empty());
    assert!(state.world.particles.is_empty());
    assert!(rect.contains(state.world.player.posture.position));
}

#[test]
fn pcg_streams_with_equal_seeds_agree() {
    let mut a = PcgSource::from_seed(99);
    let mut b = PcgSource::from_seed(99);
    let mut n: u32 = 0;
    while n < 16 {
        assert_eq!(a.next_u32(), b.next_u32());
        n += 1;
    }
}

#[test]
fn rotation_inputs_turn_the_ship() {
    let rect = Rect::new(1_024_000, 600_000);
    let mut state = GameState::new(rect);
    state.world.player.posture = Posture::new(Point::new(512_000, 300_000), 0);
    let mut tc = TimeController::new(PcgSource::from_seed(42));
    let right = Actions { rotate_left: false, rotate_right: true, boost: false, shoot: false };
    // one full turn per second: 10 ms turns 655 of 65536 units
    tc.update_seconds(10, &right, &mut state);
    assert_eq!(state.world.player.posture.direction, 655);
    let both = Actions { rotate_left: true, rotate_right: true, boost: false, shoot: false };
    tc.update_seconds(10, &both, &mut state);
    assert_eq!(state.world.player.posture.direction, 655);
    let left = Actions { rotate_left: true, rotate_right: false, boost: false, shoot: false };
    tc.update_seconds(10, &left, &mut state);
    assert_eq!(state.world.player.posture.direction, 0);
}

#[test]
fn boost_doubles_the_advance() {
    let rect = Rect::new(1_024_000, 600_000);
    let mut state = GameState::new(rect);
    state.world.player.posture = Posture::new(Point::new(512_000, 300_000), 0);
    let mut tc = TimeController::new(PcgSource::from_seed(42));
    let boost = Actions { rotate_left: false, rotate_right: false, boost: true, shoot: false };
    tc.update_seconds(10, &boost, &mut state);
    assert_eq!(state.world.player.posture.position, Point::new(516_000, 300_000));
}
