//! The float-free core of a Monte-Carlo path tracer.
//!
//! A path tracer is mostly arithmetic on numbers with a fractional part, and
//! no such arithmetic is done here. What this library holds is everything
//! around it: the order of distances along a ray, bounding boxes and the
//! hierarchy built from them, the choice of the closest of many
//! intersections, the decisions a material takes when a ray is scattered,
//! the bounded walk of a ray through the scene, and the deal of pixels to
//! workers.
//!
//! Quantities travel through the library by their bit pattern (`Scalar`),
//! which is enough to order them, to flip their sign and to recognise zero,
//! one and the infinities. Wherever a result is needed that only arithmetic
//! can give (where a ray crosses a plane, where a scattered ray goes), the
//! caller works it out: either beforehand, as an argument, or on demand,
//! through a function handed in. The contracts then say which of the
//! caller's answers the result is made of.

pub mod aabb;
pub mod bvh;
pub mod constant_medium;
pub mod cuboid;
pub mod hit_record;
pub mod hittable;
pub mod instance;
pub mod integrator;
pub mod material;
pub mod perlin;
pub mod ray;
pub mod rectangle;
pub mod render;
pub mod scalar;
pub mod sphere;
pub mod texture;
pub mod tools;
pub mod vec3;
