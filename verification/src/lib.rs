//! The decisions of an offline path tracer, with their contracts.
//!
//! A path tracer computes in floating point and draws at random; what it
//! decides is plain: which of two numbers is smaller, whether a root lies in
//! a window, which hit is the nearest, on which side of a split an object
//! stands. This crate holds those decisions. Scalars are carried by their
//! binary64 bit pattern, on which the order of numbers is an order of
//! integers; the arithmetic between two decisions is the caller's, and
//! reaches the crate as values or as closures.
//!
//! - [`scalar`], [`vec3`], [`ray`]: numbers, tagged vectors, rays.
//! - [`bound`]: boxes, the slab test, the box round two boxes.
//! - [`hittable`]: the record of a hit, what can be hit, lists.
//! - [`bvh`], [`bvh_order`], [`nearest`]: the bounding volume hierarchy, the
//!   order it is built in, and the proof that it changes no result.
//! - [`sphere`], [`plane`], [`transform`], [`medium`]: the shapes.
//! - [`texture`], [`noise`], [`material`]: what a surface looks like.
//! - [`render`]: the integrator and the image buffer.

pub mod scalar;
pub mod vec3;
pub mod ray;
pub mod bound;
mod random;
pub mod hittable;
pub mod bvh;
pub mod bvh_order;
pub mod nearest;
pub mod sphere;
pub mod plane;
pub mod medium;
pub mod transform;
pub mod texture;
pub mod material;
pub mod noise;
pub mod render;
