//! Scattering laws of the three materials.

use raytracing::color::Color;
use raytracing::fx::SCALE;
use raytracing::hittable::Hit;
use raytracing::material::{Dielectric, Lambertian, Material, Metal};
use raytracing::ray::Ray;
use raytracing::rng::seed_rng;
use raytracing::vec3::Vec3;

fn v(x: i64, y: i64, z: i64) -> Vec3 {
    Vec3::new(x, y, z)
}

fn hit_at(point: Vec3, normal: Vec3, front_face: bool, material: Material) -> Hit {
    Hit { point, normal, t: SCALE, front_face, material }
}

#[test]
fn lambertian_always_scatters_with_its_albedo() {
    let albedo = Color::new(SCALE / 2, SCALE / 4, SCALE / 8);
    let mat = Lambertian::new(albedo);
    let ray = Ray::new(v(0, 0, 0), v(0, 0, -SCALE));
    let hit = hit_at(v(0, 0, -4 * SCALE), v(0, 0, SCALE), true, Material::Lambertian(mat));
    let mut rng = seed_rng(3);
    for _ in 0..100 {
        let s = mat.scatter(&ray, &hit, &mut rng).expect("never absorbs");
        assert_eq!(s.attenuation, albedo);
        assert_eq!(s.scattered.origin, hit.point);
        let d = s.scattered.dir;
        assert!(d != v(0, 0, 0), "scattered direction must not vanish");
    }
}

#[test]
fn metal_without_fuzz_is_an_exact_mirror() {
    let albedo = Color::new(SCALE, SCALE, SCALE);
    let mat = Metal::new(albedo, 0);
    let normal = v(0, 0, SCALE);
    let ray = Ray::new(v(0, 0, 0), v(0, 0, -SCALE));
    let hit = hit_at(v(0, 0, -4 * SCALE), normal, true, Material::Metal(mat));
    let mut rng = seed_rng(5);
    let s = mat.scatter(&ray, &hit, &mut rng).expect("reflection points off the surface");
    assert_eq!(s.scattered.dir, v(0, 0, SCALE));
    assert_eq!(s.attenuation, albedo);

    // at an angle, the scattered direction equals the reflected incoming
    // direction exactly
    let ray2 = Ray::new(v(0, 0, 0), v(3 * SCALE, 0, -4 * SCALE));
    let hit2 = hit_at(v(3 * SCALE, 0, -4 * SCALE), normal, true, Material::Metal(mat));
    let s2 = mat.scatter(&ray2, &hit2, &mut rng).expect("must scatter");
    let mirror = Ray::new(hit2.point, ray2.dir.reflect(normal)).dir;
    assert_eq!(s2.scattered.dir, mirror);
}

#[test]
fn metal_absorbs_a_reflection_into_the_surface() {
    // the fuzz is zero and the ray leaves along the surface normal's
    // opposite side: the mirror direction points into the surface
    let mat = Metal::new(Color::new(SCALE, SCALE, SCALE), 0);
    let normal = v(0, 0, SCALE);
    // a ray running parallel to the surface reflects to itself, and its
    // projection on the normal is zero: absorbed
    let ray = Ray::new(v(0, 0, 0), v(SCALE, 0, 0));
    let hit = hit_at(v(SCALE, 0, 0), normal, true, Material::Metal(mat));
    let mut rng = seed_rng(6);
    assert!(mat.scatter(&ray, &hit, &mut rng).is_none());
}

#[test]
fn dielectric_at_unit_index_passes_straight_through() {
    let mat = Dielectric::new(SCALE);
    let normal = v(0, 0, SCALE);
    let ray = Ray::new(v(0, 0, 0), v(0, 0, -SCALE));
    let hit = hit_at(v(0, 0, -SCALE), normal, true, Material::Dielectric(mat));
    let mut rng = seed_rng(8);
    for _ in 0..50 {
        let s = mat.scatter(&ray, &hit, &mut rng).expect("never absorbs");
        assert_eq!(s.scattered.dir, ray.dir);
        assert_eq!(s.attenuation, Color::new(SCALE, SCALE, SCALE));
        assert_eq!(s.scattered.origin, hit.point);
    }
}

#[test]
fn material_dispatch_matches_the_variant() {
    let ray = Ray::new(v(0, 0, 0), v(0, 0, -SCALE));
    let normal = v(0, 0, SCALE);
    let mut rng = seed_rng(9);

    let lam = Material::Lambertian(Lambertian::new(Color::new(SCALE / 2, SCALE / 2, 0)));
    let hit = hit_at(v(0, 0, -SCALE), normal, true, lam);
    let s = lam.scatter(&ray, &hit, &mut rng).expect("lambertian never absorbs");
    assert_eq!(s.attenuation, Color::new(SCALE / 2, SCALE / 2, 0));

    let met = Material::Metal(Metal::new(Color::new(SCALE, 0, 0), 0));
    let hit2 = hit_at(v(0, 0, -SCALE), normal, true, met);
    let s2 = met.scatter(&ray, &hit2, &mut rng).expect("mirror points away");
    assert_eq!(s2.scattered.dir, v(0, 0, SCALE));

    let die = Material::Dielectric(Dielectric::new(SCALE));
    let hit3 = hit_at(v(0, 0, -SCALE), normal, true, die);
    let s3 = die.scatter(&ray, &hit3, &mut rng).expect("dielectric never absorbs");
    assert_eq!(s3.scattered.dir, ray.dir);
}
