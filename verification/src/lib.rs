//! A path tracer over fixed-point numbers: spheres, three surface materials,
//! a thin-lens camera and a recursive light-transport integrator.

pub mod camera;
pub mod color;
pub mod fixed;
pub mod hittable;
pub mod hittable_list;
pub mod image;
pub mod material;
pub mod material_laws;
pub mod ops;
pub mod ray;
pub mod render;
pub mod scene;
pub mod sphere;
pub mod util;
pub mod vector3;
pub mod vector_laws;
