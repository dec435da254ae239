//! Decision logic and scene structures of a Monte Carlo path tracer.

pub mod aabb;
pub mod bvh;
pub mod cylinder;
pub mod hittable;
pub mod hittable_list;
pub mod integrator;
pub mod material;
pub mod nearest;
pub mod onb;
pub mod order;
pub mod pdf;
pub mod perlin;
mod random;
pub mod ray;
pub mod scalar;
pub mod sphere;
pub mod texture;
pub mod triangle;
pub mod vec3;
