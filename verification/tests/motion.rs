use shooter::geometry::{Point, Rect};
use shooter::models::{collides_with, Bullet, Enemy, Particle, Player, Posture};
use shooter::models::{Collidable, Movable, Position};

#[test]
fn move_by_units_along_x() {
    let mut p = Posture::new(Point::new(500_000, 300_000), 0);
    p.move_by_units(2000);
    assert_eq!((p.position.x, p.position.y), (502_000, 300_000));
    p.move_by_units(-1000);
    assert_eq!((p.position.x, p.position.y), (501_000, 300_000));
}

#[test]
fn move_by_units_along_y() {
    let mut p = Posture::new(Point::new(500_000, 300_000), 16384);
    p.move_by_units(2000);
    assert_eq!((p.position.x, p.position.y), (500_000, 302_000));
}

#[test]
fn wrap_to_opposite_edge_right() {
    let rect = Rect::new(1_024_000, 600_000);
    let mut p = Posture::new(Point::new(1_023_000, 300_000), 0);
    p.move_within_bounds(2000, rect);
    assert_eq!((p.position.x, p.position.y), (0, 300_000));
}

#[test]
fn wrap_to_opposite_edge_left() {
    let rect = Rect::new(1_024_000, 600_000);
    let mut p = Posture::new(Point::new(500, 300_000), 32768);
    p.move_within_bounds(2000, rect);
    assert_eq!((p.position.x, p.position.y), (1_024_000, 300_000));
}

#[test]
fn wrapped_position_stays_inside_inclusive_bounds() {
    let rect = Rect::new(1_024_000, 600_000);
    let mut a: i64 = 0;
    while a < 65536 {
        let mut p = Posture::new(Point::new(10, 10), a);
        p.move_within_bounds(600_000, rect);
        assert!(0 <= p.position.x && p.position.x <= 1_024_000);
        assert!(0 <= p.position.y && p.position.y <= 600_000);
        a += 1311;
    }
}

#[test]
fn reverse_direction_is_half_turn() {
    let p = Posture::new(Point::new(7, 9), 0);
    assert_eq!(p.reverse_direction().direction, 32768);
    let q = Posture::new(Point::new(7, 9), 40_000);
    assert_eq!(q.reverse_direction().direction, 7232);
    assert_eq!(q.reverse_direction().position, q.position);
}

#[test]
fn direction_toward_point_quadrants() {
    let mut p = Posture::new(Point::new(0, 0), 5);
    p.set_direction_toward_point(Point::new(100, 100));
    assert_eq!(p.direction, 8192);
    p.set_direction_toward_point(Point::new(0, 500));
    assert_eq!(p.direction, 16384);
    p.set_direction_toward_point(Point::new(0, -500));
    assert_eq!(p.direction, 49152);
    p.set_direction_toward_point(Point::new(0, 0));
    assert_eq!(p.direction, 0);
}

#[test]
fn particle_ages_by_exactly_dt_and_drifts() {
    let mut q = Particle::new(Posture::new(Point::new(500_000, 300_000), 0), 500);
    q.update(10);
    // lifetime 490 ms left: speed decays quadratically, displacement
    // 490 * 490 * 10 / 2000 = 1200 milli-pixels.
    assert_eq!(q.time_out, 490);
    assert_eq!((q.posture.position.x, q.posture.position.y), (501_200, 300_000));
    q.update(490);
    assert_eq!(q.time_out, 0);
}

#[test]
fn bullet_flies_straight() {
    let mut b = Bullet::new(Posture::new(Point::new(100_000, 200_000), 0));
    b.update(5000);
    assert_eq!((b.posture.position.x, b.posture.position.y), (105_000, 200_000));
    assert_eq!(b.posture.direction, 0);
}

#[test]
fn enemy_steers_toward_player_then_moves() {
    let mut e = Enemy::new(Posture::new(Point::new(0, 0), 12345));
    e.update(1000, Point::new(100_000, 0));
    assert_eq!(e.posture.direction, 0);
    assert_eq!((e.posture.position.x, e.posture.position.y), (1000, 0));
    let mut f = Enemy::new(Posture::new(Point::new(0, 0), 12345));
    f.update(1000, Point::new(0, -100_000));
    assert_eq!(f.posture.direction, 49152);
    assert_eq!((f.posture.position.x, f.posture.position.y), (0, -1000));
}

#[test]
fn player_front_is_rotated_nose_tip() {
    let p = Player { posture: Posture::new(Point::new(500_000, 300_000), 0) };
    let f = p.front();
    assert_eq!((f.x, f.y), (520_000, 300_000));
    let q = Player { posture: Posture::new(Point::new(500_000, 300_000), 16384) };
    let g = q.front();
    assert_eq!((g.x, g.y), (500_000, 320_000));
}

#[test]
fn collision_is_inclusive_at_the_radius_sum() {
    let p = Player { posture: Posture::new(Point::new(0, 0), 0) };
    let near = Enemy::new(Posture::new(Point::new(16_000, 0), 0));
    let far = Enemy::new(Posture::new(Point::new(16_001, 0), 0));
    assert!(collides_with(&p, &near));
    assert!(!collides_with(&p, &far));
}

#[test]
fn collision_is_symmetric() {
    let p = Player { posture: Posture::new(Point::new(10, 20), 0) };
    let e = Enemy::new(Posture::new(Point::new(12_000, 9_000), 0));
    let b = Bullet::new(Posture::new(Point::new(-3_000, 4_000), 0));
    assert_eq!(collides_with(&p, &e), collides_with(&e, &p));
    assert_eq!(collides_with(&p, &b), collides_with(&b, &p));
    assert_eq!(collides_with(&b, &e), collides_with(&e, &b));
}

#[test]
fn capability_traits_read_the_posture() {
    let e = Enemy::new(Posture::new(Point::new(11, -22), 333));
    assert_eq!(e.x(), 11);
    assert_eq!(e.y(), -22);
    assert_eq!(e.position(), Point::new(11, -22));
    assert_eq!(e.direction(), 333);
    assert_eq!(e.radius(), 10_000);
    assert_eq!(e.diameter(), 20_000);
    let b = Bullet::new(Posture::new(Point::new(1, 2), 3));
    assert_eq!(b.radius(), 3_000);
    let p = Player { posture: Posture::new(Point::new(5, 6), 7) };
    assert_eq!(p.radius(), 6_000);
    let q = Particle::new(Posture::new(Point::new(8, 9), 10), 500);
    assert_eq!(q.position(), Point::new(8, 9));
    assert_eq!(q.direction(), 10);
}
