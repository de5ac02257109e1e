//! Sphere intersection and nearest-hit aggregation.

use raytracing::color::Color;
use raytracing::fx::SCALE;
use raytracing::hittable::{Hittable, Sphere};
use raytracing::material::{Lambertian, Material};
use raytracing::ray::Ray;
use raytracing::vec3::Vec3;

fn v(x: i64, y: i64, z: i64) -> Vec3 {
    Vec3::new(x, y, z)
}

fn grey() -> Material {
    Material::Lambertian(Lambertian::new(Color::new(SCALE / 2, SCALE / 2, SCALE / 2)))
}

#[test]
fn ray_stores_a_normalized_direction() {
    let r = Ray::new(v(SCALE, 0, 0), v(0, 0, -5 * SCALE));
    assert_eq!(r.origin, v(SCALE, 0, 0));
    assert_eq!(r.dir, v(0, 0, -SCALE));
    assert_eq!(r.at(2 * SCALE), v(SCALE, 0, -2 * SCALE));
}

#[test]
fn sphere_hit_straight_on() {
    let s = Sphere::new(v(0, 0, -5 * SCALE), SCALE, grey());
    let r = Ray::new(v(0, 0, 0), v(0, 0, -SCALE));
    let h = s.hit(&r, 0, i64::MAX).expect("must hit");
    assert_eq!(h.t, 4 * SCALE);
    assert_eq!(h.point, v(0, 0, -4 * SCALE));
    assert_eq!(h.normal, v(0, 0, SCALE));
    assert!(h.front_face);
}

#[test]
fn sphere_missed_entirely() {
    let s = Sphere::new(v(0, 0, -5 * SCALE), SCALE, grey());
    let r = Ray::new(v(0, 0, 0), v(SCALE, 0, 0));
    assert!(s.hit(&r, 0, i64::MAX).is_none());
}

#[test]
fn hit_window_excludes_its_ends() {
    let s = Sphere::new(v(0, 0, -5 * SCALE), SCALE, grey());
    let r = Ray::new(v(0, 0, 0), v(0, 0, -SCALE));
    // the first root lies at t = 4, the second at t = 6
    let h = s.hit(&r, 4 * SCALE, i64::MAX).expect("second root");
    assert_eq!(h.t, 6 * SCALE);
    assert!(!h.front_face);
    assert!(s.hit(&r, 6 * SCALE, i64::MAX).is_none());
    assert!(s.hit(&r, 0, 4 * SCALE).is_none());
}

#[test]
fn negative_radius_flips_the_reported_normal() {
    let s = Sphere::new(v(0, 0, -5 * SCALE), -SCALE, grey());
    let r = Ray::new(v(0, 0, 0), v(0, 0, -SCALE));
    let h = s.hit(&r, 0, i64::MAX).expect("must hit");
    assert_eq!(h.t, 4 * SCALE);
    // the geometric normal points inward, so the ray sees a back face,
    // and the reported normal is turned against the ray all the same
    assert!(!h.front_face);
    assert_eq!(h.normal, v(0, 0, SCALE));
}

#[test]
fn list_hit_returns_the_nearest() {
    let far = Sphere::new(v(0, 0, -10 * SCALE), SCALE, grey());
    let near = Sphere::new(v(0, 0, -5 * SCALE), SCALE, grey());
    let world = vec![far, near];
    let r = Ray::new(v(0, 0, 0), v(0, 0, -SCALE));
    let h = world.hit(&r, 0, i64::MAX).expect("must hit");
    assert_eq!(h.t, 4 * SCALE);
    let world2 = vec![near, far];
    let h2 = world2.hit(&r, 0, i64::MAX).expect("must hit");
    assert_eq!(h2.t, 4 * SCALE);
}

#[test]
fn empty_list_hits_nothing() {
    let world: Vec<Sphere> = vec![];
    let r = Ray::new(v(0, 0, 0), v(0, 0, -SCALE));
    assert!(world.hit(&r, 0, i64::MAX).is_none());
}
