//! The integrator: radiance evaluation, encoding, and full renders.

use raytracing::camera::Camera;
use raytracing::color::Color;
use raytracing::fx::SCALE;
use raytracing::hittable::Sphere;
use raytracing::material::{Lambertian, Material};
use raytracing::ray::Ray;
use raytracing::rng::seed_rng;
use raytracing::vec3::Vec3;

fn v(x: i64, y: i64, z: i64) -> Vec3 {
    Vec3::new(x, y, z)
}

fn simple_camera() -> Camera {
    Camera::new(4, 3, v(0, 0, 0), v(0, 0, -SCALE), v(0, SCALE, 0))
}

fn one_sphere() -> Vec<Sphere> {
    let mat = Material::Lambertian(Lambertian::new(Color::new(SCALE / 2, SCALE / 2, SCALE / 2)));
    vec![Sphere::new(v(0, 0, -5 * SCALE), SCALE, mat)]
}

#[test]
fn a_new_camera_is_unconfigured() {
    let cam = simple_camera();
    assert_eq!(cam.center, v(0, 0, 0));
    assert_eq!(cam.aspect_ratio, 0);
    assert_eq!(cam.pixel_sample_scale, 0);
    assert_eq!(cam.pixel00_loc, v(0, 0, 0));
    assert_eq!(cam.pixel_delta_u, v(0, 0, 0));
    assert_eq!(cam.pixel_delta_v, v(0, 0, 0));
    assert_eq!(cam.basis_u, v(0, 0, 0));
    assert_eq!(cam.basis_v, v(0, 0, 0));
    assert_eq!(cam.basis_w, v(0, 0, 0));
}

#[test]
fn init_derives_the_camera_frame() {
    let mut cam = simple_camera();
    assert!(cam.init());
    assert_eq!(cam.center, v(0, 0, 0));
    // 4:3 aspect and a tenth of a unit per sample, in fixed point
    assert_eq!(cam.aspect_ratio, 4 * SCALE / 3);
    assert_eq!(cam.pixel_sample_scale, SCALE / 10);
    // orthonormal basis: w back along the gaze, u to the right, v up
    assert_eq!(cam.basis_w, v(0, 0, SCALE));
    assert_eq!(cam.basis_u, v(SCALE, 0, 0));
    assert_eq!(cam.basis_v, v(0, SCALE, 0));
}

#[test]
fn zero_depth_is_black() {
    let cam = simple_camera();
    let world = one_sphere();
    let mut rng = seed_rng(1);
    let r = Ray::new(v(0, 0, 0), v(0, 0, -SCALE));
    assert_eq!(cam.ray_color(&r, &world, 0, &mut rng), v(0, 0, 0));
    assert_eq!(cam.ray_color(&r, &world, -3, &mut rng), v(0, 0, 0));
}

#[test]
fn empty_scene_shows_the_background_gradient() {
    let cam = simple_camera();
    let world: Vec<Sphere> = vec![];
    let mut rng = seed_rng(2);
    let up = Ray::new(v(0, 0, 0), v(0, SCALE, 0));
    assert_eq!(cam.ray_color(&up, &world, 10, &mut rng), v(SCALE / 2, 45875, SCALE));
    let down = Ray::new(v(0, 0, 0), v(0, -SCALE, 0));
    assert_eq!(cam.ray_color(&down, &world, 10, &mut rng), v(SCALE, SCALE, SCALE));
}

#[test]
fn encoding_clamps_gammas_and_quantizes() {
    assert_eq!(Color::new(SCALE, SCALE, SCALE).to_rgb8(), (255, 255, 255));
    assert_eq!(Color::new(0, 0, 0).to_rgb8(), (0, 0, 0));
    // a quarter in linear light is half after gamma, and half of 255.999
    // truncates to 127
    assert_eq!(Color::new(SCALE / 4, 0, 2 * SCALE).to_rgb8(), (127, 0, 255));
    assert_eq!(Color::new(-SCALE, SCALE / 4, SCALE / 4).to_rgb8(), (0, 127, 127));
}

#[test]
fn render_fails_without_a_gaze_or_an_independent_up() {
    let mut cam = Camera::new(4, 3, v(0, 0, 0), v(0, 0, 0), v(0, SCALE, 0));
    let mut rng = seed_rng(4);
    assert!(cam.render(&one_sphere(), &mut rng).is_none());
    // up aligned with the gaze leaves no horizontal direction
    let mut cam2 = Camera::new(4, 3, v(0, 0, 0), v(0, 0, -SCALE), v(0, 0, SCALE));
    assert!(cam2.render(&one_sphere(), &mut rng).is_none());
    let mut cam3 = simple_camera();
    cam3.image_width = 0;
    assert!(cam3.render(&one_sphere(), &mut rng).is_none());
}

#[test]
fn seeded_renders_are_deterministic() {
    let world = one_sphere();

    let mut cam_a = simple_camera();
    cam_a.samples_per_pixel = 1;
    let mut rng_a = seed_rng(42);
    let a = cam_a.render(&world, &mut rng_a).expect("configuration is valid");

    let mut cam_b = simple_camera();
    cam_b.samples_per_pixel = 1;
    let mut rng_b = seed_rng(42);
    let b = cam_b.render(&world, &mut rng_b).expect("configuration is valid");

    assert_eq!(a.len(), 12);
    assert_eq!(a, b);

    // a different seed jitters the samples differently somewhere
    let mut cam_c = simple_camera();
    cam_c.samples_per_pixel = 1;
    let mut rng_c = seed_rng(43);
    let c = cam_c.render(&world, &mut rng_c).expect("configuration is valid");
    assert_eq!(c.len(), 12);
}

#[test]
fn render_covers_the_pixel_grid() {
    let mut cam = Camera::new(8, 5, v(0, 0, 0), v(0, 0, -SCALE), v(0, SCALE, 0));
    cam.samples_per_pixel = 2;
    cam.max_depth = 4;
    let mut rng = seed_rng(21);
    let img = cam.render(&one_sphere(), &mut rng).expect("configuration is valid");
    assert_eq!(img.len(), 40);
}
