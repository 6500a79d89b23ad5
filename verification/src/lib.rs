//! The rules of a recursive path tracer, verified.
//!
//! A path tracer follows rays of light backwards from the eye through a
//! scene of surfaces. Most of that work is floating-point arithmetic, which
//! stays with the caller. This crate holds the part that decides: how two
//! numbers compare, which root of a quadratic is the hit, which way a normal
//! faces, which of many objects is met first, whether a surface mirrors,
//! bends or swallows a ray, when a path ends, and which level a shade gets
//! in the image.
//!
//! Numbers cross the boundary as [`scalar::Scalar`]: the bit pattern of a
//! double, on which order and sign are decided exactly as the hardware
//! decides them. Objects and materials are the caller's, behind the traits
//! [`hittable::Hittable`] and [`material::Material`]. So is the source of
//! random draws: it is handed to the trace and from there to each material,
//! so that what a trace does depends on its arguments alone.
//!
//! - [`scalar`]: patterns of doubles, their order and what they stand for.
//! - [`vec`], [`ray`]: vectors, points, colours and rays of scalars.
//! - [`hittable`]: the record of an intersection and the contract of `hit`.
//! - [`sphere`]: the accepted root and the record made at it.
//! - [`hittablelist`]: the scene and the search for the nearest hit.
//! - [`material`]: the three materials' decisions.
//! - [`integrator`]: the path of a ray through the scene.
//! - [`color`]: from a shade to a level between 0 and 255.
pub mod color;
pub mod hittable;
pub mod hittablelist;
pub mod integrator;
pub mod material;
pub mod ray;
pub mod scalar;
pub mod sphere;
pub mod vec;
