//! Rays: an origin, a direction and the time of emission.

use crate::scalar::Scalar;
use crate::vec3::{Position, Vec3f};
use vstd::prelude::*;

verus! {

/// The line `p(t) = a + t * b`, emitted at `time`.
#[derive(Clone, Copy)]
pub struct Ray {
    pub a: Vec3f<Position>,
    pub b: Vec3f<Position>,
    pub time: Scalar,
}

impl Ray {
    /// Origin of the ray.
    pub fn origin(&self) -> (r: Vec3f<Position>)
        ensures
            r == self.a,
    {
        self.a
    }

    /// Direction of the ray.
    pub fn direction(&self) -> (r: Vec3f<Position>)
        ensures
            r == self.b,
    {
        self.b
    }
}

impl Default for Ray {
    fn default() -> (r: Self)
        ensures
            r.time.bits == 0,
            r.a.x.bits == 0 && r.a.y.bits == 0 && r.a.z.bits == 0,
            r.b.x.bits == 0 && r.b.y.bits == 0 && r.b.z.bits == 0,
    {
        let zero = Scalar { bits: 0 };
        Ray { a: Vec3f::repeat(zero), b: Vec3f::repeat(zero), time: zero }
    }
}

} // verus!
