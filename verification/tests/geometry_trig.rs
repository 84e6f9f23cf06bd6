use shooter::fixed::{clamp_coord, div_trunc_i64, isqrt64, normalize_angle};
use shooter::geometry::{Point, Rect};
use shooter::rng::PcgSource;
use shooter::trig::{atan2_fp, cos_fp, sin_fp};

#[test]
fn sine_exact_at_quarter_points() {
    assert_eq!(sin_fp(0), 0);
    assert_eq!(sin_fp(16384), 65536);
    assert_eq!(sin_fp(32768), 0);
    assert_eq!(sin_fp(49152), -65536);
    assert_eq!(cos_fp(0), 65536);
    assert_eq!(cos_fp(16384), 0);
    assert_eq!(cos_fp(32768), -65536);
    assert_eq!(cos_fp(49152), 0);
}

#[test]
fn sine_near_eighth_turn() {
    // Bhaskara's approximation at an eighth turn: within 0.2% of
    // sqrt(2)/2 scaled by 65536 (about 46341).
    assert_eq!(sin_fp(8192), 46260);
    assert_eq!(cos_fp(8192), 46260);
    assert_eq!(sin_fp(4096), 25137);
}

#[test]
fn sine_stays_in_scale() {
    let mut a: i64 = 0;
    while a < 65536 {
        let s = sin_fp(a);
        let c = cos_fp(a);
        assert!(-65536 <= s && s <= 65536);
        assert!(-65536 <= c && c <= 65536);
        a += 97;
    }
}

#[test]
fn atan2_on_the_axes() {
    assert_eq!(atan2_fp(0, 5000), 0);
    assert_eq!(atan2_fp(5000, 0), 16384);
    assert_eq!(atan2_fp(0, -5000), 32768);
    assert_eq!(atan2_fp(-5000, 0), 49152);
    assert_eq!(atan2_fp(0, 0), 0);
}

#[test]
fn atan2_on_the_diagonals() {
    assert_eq!(atan2_fp(100, 100), 8192);
    assert_eq!(atan2_fp(100, -100), 24576);
    assert_eq!(atan2_fp(-100, -100), 40960);
    assert_eq!(atan2_fp(-100, 100), 57344);
}

#[test]
fn atan2_general_values() {
    // atan(1/2) of a turn is about 4836 angle units; the rational
    // approximation gives 4808 (within 0.05% of a turn).
    assert_eq!(atan2_fp(1, 2), 4808);
    assert_eq!(atan2_fp(-3, 4), 58858);
}

#[test]
fn squared_distance_and_circle() {
    let a = Point::new(3000, 4000);
    let o = Point::new(0, 0);
    assert_eq!(a.squared_distance(&o), 25_000_000);
    assert!(a.intersect_circle(&o, 5000));
    assert!(!a.intersect_circle(&o, 4999));
}

#[test]
fn rotation_about_origin() {
    let p = Point::new(20000, 0);
    let q = p.rotate_to_origin(16384);
    assert_eq!((q.x, q.y), (0, 20000));
    let r = p.rotate_to_origin(32768);
    assert_eq!((r.x, r.y), (-20000, 0));
}

#[test]
fn translation_is_componentwise() {
    let p = Point::new(100, -200);
    let q = p.translate(&Point::new(7, 9));
    assert_eq!((q.x, q.y), (107, -191));
}

#[test]
fn point_arithmetic() {
    let p = Point::new(100, -200);
    let q = Point::new(30, 50);
    let s = p.add(&q);
    assert_eq!((s.x, s.y), (130, -150));
    let d = p.sub(&q);
    assert_eq!((d.x, d.y), (70, -250));
    let m = p.mul(3);
    assert_eq!((m.x, m.y), (300, -600));
    let v = p.div(3);
    assert_eq!((v.x, v.y), (33, -66));
}

#[test]
fn rect_containment_is_half_open() {
    let rect = Rect::new(1_024_000, 600_000);
    assert!(rect.contains(Point::new(0, 0)));
    assert!(rect.contains(Point::new(1_023_999, 599_999)));
    assert!(!rect.contains(Point::new(1_024_000, 5)));
    assert!(!rect.contains(Point::new(5, 600_000)));
    assert!(!rect.contains(Point::new(-1, 5)));
}

#[test]
fn containment_is_origin_relative() {
    let rect = Rect { origin: Point::new(5_000, 5_000), width: 2_000_000, height: 2_000_000 };
    assert!(!rect.contains(Point::new(2, 2)));
    assert!(rect.contains(Point::new(5_000, 5_000)));
    assert!(rect.contains(Point::new(2_004_999, 5_000)));
    assert!(!rect.contains(Point::new(2_005_000, 5_000)));
    assert!(!rect.contains(Point::new(5_000, 2_005_000)));
}

#[test]
fn zero_extent_bounds_yield_the_origin() {
    let rect = Rect::new(0, 0);
    let mut rng = PcgSource::from_seed(3);
    assert_eq!(rect.random_x(&mut rng), 0);
    assert_eq!(rect.random_y(&mut rng), 0);
    let shifted = Rect { origin: Point::new(-7_000, 9_000), width: 0, height: 0 };
    assert_eq!(shifted.random_x(&mut rng), -7_000);
    assert_eq!(shifted.random_y(&mut rng), 9_000);
}

#[test]
fn integer_square_root() {
    assert_eq!(isqrt64(0), 0);
    assert_eq!(isqrt64(1), 1);
    assert_eq!(isqrt64(3), 1);
    assert_eq!(isqrt64(4), 2);
    assert_eq!(isqrt64(144), 12);
    assert_eq!(isqrt64(900_000_000), 30_000);
    assert_eq!(isqrt64(8_000_000_000_000_000_000), 2_828_427_124);
}

#[test]
fn coordinate_clamp_and_angle_normalization() {
    assert_eq!(clamp_coord(5), 5);
    assert_eq!(clamp_coord(2_000_000_000), 1_000_000_000);
    assert_eq!(clamp_coord(-2_000_000_000), -1_000_000_000);
    assert_eq!(normalize_angle(0), 0);
    assert_eq!(normalize_angle(65536), 0);
    assert_eq!(normalize_angle(-1), 65535);
    assert_eq!(normalize_angle(65540), 4);
    assert_eq!(div_trunc_i64(7, 2), 3);
    assert_eq!(div_trunc_i64(-7, 2), -3);
}
