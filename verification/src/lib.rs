//! A Monte Carlo path tracer over fixed-point arithmetic.
//!
//! The library casts rays from a camera through a pixel grid into a scene
//! of spheres, bounces them off diffuse, metallic and dielectric surfaces,
//! and averages jittered samples per pixel.  All geometry is carried in
//! binary fixed-point numbers, so every computation has an exact contract.

pub mod camera;
pub mod color;
pub mod exact;
pub mod fx;
pub mod hittable;
pub mod material;
pub mod ray;
pub mod rng;
pub mod vec3;
