//! Vector algebra at the fixed-point scale of 65536 raw units per unit.

use raytracing::fx::{fabs, fadd, fdiv, fmul, fsqrt, fsub, SCALE};
use raytracing::rng::seed_rng;
use raytracing::vec3::Vec3;

fn v(x: i64, y: i64, z: i64) -> Vec3 {
    Vec3::new(x, y, z)
}

#[test]
fn scalar_ops_are_exact() {
    assert_eq!(fmul(SCALE, SCALE), SCALE);
    assert_eq!(fmul(2 * SCALE, 3 * SCALE), 6 * SCALE);
    assert_eq!(fmul(-SCALE, 5 * SCALE), -5 * SCALE);
    assert_eq!(fdiv(SCALE, 2 * SCALE), SCALE / 2);
    assert_eq!(fdiv(-4 * SCALE, 2 * SCALE), -2 * SCALE);
    assert_eq!(fadd(SCALE, SCALE), 2 * SCALE);
    assert_eq!(fsub(SCALE, 3 * SCALE), -2 * SCALE);
    assert_eq!(fsqrt(4 * SCALE), 2 * SCALE);
    assert_eq!(fsqrt(SCALE), SCALE);
    assert_eq!(fabs(-7 * SCALE), 7 * SCALE);
}

#[test]
fn saturation_instead_of_overflow() {
    assert_eq!(fadd(i64::MAX, i64::MAX), i64::MAX);
    assert_eq!(fsub(i64::MIN, SCALE), i64::MIN);
    assert_eq!(fmul(i64::MAX, i64::MAX), i64::MAX);
}

#[test]
fn dot_cross_and_lengths() {
    let a = v(SCALE, 2 * SCALE, 3 * SCALE);
    let b = v(4 * SCALE, -5 * SCALE, 6 * SCALE);
    assert_eq!(a.dot(b), (4 - 10 + 18) * SCALE);
    let c = a.cross(b);
    assert_eq!(c, v(27 * SCALE, 6 * SCALE, -13 * SCALE));
    assert_eq!(v(3 * SCALE, 4 * SCALE, 0).length_sq(), 25 * SCALE);
    assert_eq!(v(3 * SCALE, 4 * SCALE, 0).length(), 5 * SCALE);
}

#[test]
fn normalize_gives_unit_length() {
    // exact on an axis
    let n = v(0, 0, 9 * SCALE).normalize();
    assert_eq!(n, v(0, 0, SCALE));
    assert_eq!(n.length(), SCALE);
    // within a few raw units elsewhere
    for (x, y, z) in [
        (SCALE, SCALE, SCALE),
        (3 * SCALE, 4 * SCALE, 0),
        (-7 * SCALE, 2 * SCALE, 5 * SCALE),
        (123456, -654321, 98765),
    ] {
        let len = v(x, y, z).normalize().length();
        assert!((len - SCALE).abs() <= 4, "length {len}");
    }
}

#[test]
fn reflect_mirrors_about_the_normal() {
    let n = v(0, 0, SCALE);
    let d = v(3 * SCALE, 0, -4 * SCALE);
    let r = d.reflect(n);
    // the normal component flips, the rest is kept
    assert_eq!(r, v(3 * SCALE, 0, 4 * SCALE));
    // same length, opposite projection
    assert_eq!(r.length(), d.length());
    assert_eq!(r.dot(n), -d.dot(n));
}

#[test]
fn refract_at_unit_ratio_keeps_the_direction() {
    let n = v(0, 0, SCALE);
    let d = v(0, 0, -SCALE);
    assert_eq!(d.refract(n, SCALE), d);
}

#[test]
fn near_zero_is_a_resolution_test() {
    assert!(v(0, 0, 0).near_zero());
    assert!(v(255, -255, 1).near_zero());
    assert!(!v(256, 0, 0).near_zero());
    assert!(!v(0, 0, -SCALE).near_zero());
}

#[test]
fn random_helpers_stay_in_range() {
    let mut rng = seed_rng(7);
    for _ in 0..200 {
        let a = Vec3::random(&mut rng);
        assert!(0 <= a.x && a.x < SCALE);
        assert!(0 <= a.y && a.y < SCALE);
        assert!(0 <= a.z && a.z < SCALE);
        let b = Vec3::random_range(-3 * SCALE, 5 * SCALE, &mut rng);
        assert!(-3 * SCALE <= b.x && b.x < 5 * SCALE);
        assert!(-3 * SCALE <= b.y && b.y < 5 * SCALE);
        assert!(-3 * SCALE <= b.z && b.z < 5 * SCALE);
        let s = Vec3::sample_square(&mut rng);
        assert!(-32768 <= s.x && s.x < 32768);
        assert!(-32768 <= s.y && s.y < 32768);
        assert_eq!(s.z, 0);
    }
}

#[test]
fn random_unit_is_close_to_unit_length() {
    let mut rng = seed_rng(11);
    for _ in 0..200 {
        let u = Vec3::random_unit(&mut rng);
        let len = u.length();
        assert!((len - SCALE).abs() <= 8, "length {len}");
    }
}

#[test]
fn random_hemisphere_points_along_the_normal() {
    let mut rng = seed_rng(13);
    let n = v(0, 0, SCALE);
    for _ in 0..100 {
        let u = Vec3::random_hemisphere(n, &mut rng);
        assert!(u.dot(n) >= 0);
    }
}
