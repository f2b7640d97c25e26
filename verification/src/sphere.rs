//! Spheres, still and moving: which root of the quadratic is the hit, and
//! the record made of it.

use crate::bound::Bound;
use crate::hittable::HitRecord;
use crate::scalar::Scalar;
use crate::vec3::{Position, Vec3f};
use vstd::prelude::*;

verus! {

/// The quadratic `|O + tD - C|^2 = r^2` of a ray and a sphere, solved: its
/// discriminant and its two roots, the smaller first. Where the
/// discriminant is below zero the roots mean nothing.
#[derive(Clone, Copy)]
pub struct Roots {
    pub discriminant: Scalar,
    pub near: Scalar,
    pub far: Scalar,
}

/// Whether a root lies outside the window, as the comparison of numbers
/// decides it: below its start or above its end.
pub open spec fn outside(root: Scalar, t_min: Scalar, t_max: Scalar) -> bool {
    root.lt_spec(t_min) || t_max.lt_spec(root)
}

impl Roots {
    /// The root at which the ray hits: none where the discriminant is below
    /// zero; else the smaller root unless it lies outside the window, then
    /// the larger one unless that lies outside too.
    pub open spec fn select_spec(self, t_min: Scalar, t_max: Scalar) -> Option<Scalar> {
        if self.discriminant.lt_spec(Scalar { bits: 0 }) {
            None
        } else if !outside(self.near, t_min, t_max) {
            Some(self.near)
        } else if !outside(self.far, t_min, t_max) {
            Some(self.far)
        } else {
            None
        }
    }

    pub fn select(&self, t_min: Scalar, t_max: Scalar) -> (r: Option<Scalar>)
        ensures
            r == self.select_spec(t_min, t_max),
    {
        if self.discriminant.lt(Scalar { bits: 0 }) {
            return None;
        }
        let mut root = self.near;
        if root.lt(t_min) || t_max.lt(root) {
            root = self.far;
            if root.lt(t_min) || t_max.lt(root) {
                return None;
            }
        }
        Some(root)
    }
}

/// What the arithmetic gives at the root chosen: the point on the ray, the
/// outward normal there, the dot product of the ray's direction with that
/// normal, and the texture coordinates.
#[derive(Clone, Copy)]
pub struct Surface {
    pub p: Vec3f<Position>,
    pub outward_normal: Vec3f<Position>,
    pub facing: Scalar,
    pub u: Scalar,
    pub v: Scalar,
}

impl Surface {
    /// The record of a hit at `t` on this surface: the normal turned against
    /// the ray, the front face flag set where the ray came from outside.
    pub open spec fn record_spec(self, t: Scalar, material: usize) -> HitRecord {
        let front_face = self.facing.lt_spec(Scalar { bits: 0 });
        HitRecord {
            t,
            p: self.p,
            normal: if front_face {
                self.outward_normal
            } else {
                self.outward_normal.negated()
            },
            material,
            u: self.u,
            v: self.v,
            front_face,
        }
    }

    pub fn record(&self, t: Scalar, material: usize) -> (r: HitRecord)
        ensures
            r == self.record_spec(t, material),
    {
        let (normal, front_face) = HitRecord::face_normal(self.facing, self.outward_normal);
        HitRecord { t, p: self.p, normal, material, u: self.u, v: self.v, front_face }
    }
}

/// A sphere that can be hit by a ray.
#[derive(Clone, Copy)]
pub struct Sphere {
    pub center: Vec3f<Position>,
    /// May be negative: the outward normal then points inward.
    pub radius: Scalar,
    /// Handle of the material in the scene's material table.
    pub material: usize,
}

impl Sphere {
    /// The hit of a ray whose quadratic with this sphere has the roots
    /// given. `surface` computes, for the root chosen, the point and the
    /// normal there.
    pub fn hit<F: Fn(Scalar) -> Surface>(
        &self,
        roots: &Roots,
        t_min: Scalar,
        t_max: Scalar,
        surface: F,
    ) -> (r: Option<HitRecord>)
        requires
            forall|t: Scalar| call_requires(surface, (t,)),
        ensures
            match roots.select_spec(t_min, t_max) {
                None => r is None,
                Some(t) => exists|s: Surface|
                    call_ensures(surface, (t,), s) && r == Some(#[trigger] s.record_spec(t, self.material)),
            },
    {
        match roots.select(t_min, t_max) {
            None => None,
            Some(t) => {
                let s = surface(t);
                let record = s.record(t, self.material);
                Some(record)
            },
        }
    }
}

/// A sphere whose centre moves on a line between two times.
#[derive(Clone, Copy)]
pub struct MovingSphere {
    pub center_start: Vec3f<Position>,
    pub center_end: Vec3f<Position>,
    pub time_start: Scalar,
    pub time_end: Scalar,
    pub radius: Scalar,
    /// Handle of the material in the scene's material table.
    pub material: usize,
}

impl MovingSphere {
    /// The hit of a ray whose quadratic with the sphere, taken where it is
    /// at the ray's time, has the roots given. The texture coordinates of
    /// the record are zero.
    pub fn hit<F: Fn(Scalar) -> Surface>(
        &self,
        roots: &Roots,
        t_min: Scalar,
        t_max: Scalar,
        surface: F,
    ) -> (r: Option<HitRecord>)
        requires
            forall|t: Scalar| call_requires(surface, (t,)),
        ensures
            match roots.select_spec(t_min, t_max) {
                None => r is None,
                Some(t) => exists|s: Surface|
                    call_ensures(surface, (t,), s) && r == Some(
                        #[trigger] flat(s).record_spec(t, self.material),
                    ),
            },
    {
        match roots.select(t_min, t_max) {
            None => None,
            Some(t) => {
                let s = surface(t);
                let zero = Scalar { bits: 0 };
                let plain = Surface { u: zero, v: zero, ..s };
                proof {
                    assert(plain == flat(s));
                }
                let record = plain.record(t, self.material);
                Some(record)
            },
        }
    }

    /// The box round the sphere over a time interval: the box round its
    /// boxes at the two ends of the interval.
    pub fn bounding_box(&self, initial_box: Bound, final_box: Bound) -> (r: Option<Bound>)
        ensures
            r == Some(initial_box.surrounding_spec(final_box)),
    {
        Some(initial_box.surrounding(final_box))
    }
}

/// The surface with its texture coordinates set to zero.
pub open spec fn flat(s: Surface) -> Surface {
    Surface { u: Scalar { bits: 0 }, v: Scalar { bits: 0 }, ..s }
}

/// A ray whose quadratic has a discriminant below zero hits nothing.
pub proof fn negative_discriminant_misses(roots: Roots, t_min: Scalar, t_max: Scalar)
    requires
        roots.discriminant.lt_spec(Scalar { bits: 0 }),
    ensures
        roots.select_spec(t_min, t_max) is None,
{
}

/// A hit lies at one of the two roots, the discriminant is not below zero,
/// and the root is neither below the window's start nor above its end.
pub proof fn hit_is_a_root_in_the_window(roots: Roots, t_min: Scalar, t_max: Scalar)
    requires
        roots.select_spec(t_min, t_max) is Some,
    ensures
        !roots.discriminant.lt_spec(Scalar { bits: 0 }),
        roots.select_spec(t_min, t_max).unwrap() == roots.near || roots.select_spec(
            t_min,
            t_max,
        ).unwrap() == roots.far,
        !outside(roots.select_spec(t_min, t_max).unwrap(), t_min, t_max),
{
}

/// Where the discriminant is not below zero and a root lies in the window,
/// the ray hits, and it hits at the smaller of the roots that do.
pub proof fn root_in_the_window_hits(roots: Roots, t_min: Scalar, t_max: Scalar)
    requires
        !roots.discriminant.lt_spec(Scalar { bits: 0 }),
        !outside(roots.near, t_min, t_max) || !outside(roots.far, t_min, t_max),
    ensures
        roots.select_spec(t_min, t_max) is Some,
        !outside(roots.near, t_min, t_max) ==> roots.select_spec(t_min, t_max) == Some(roots.near),
{
}

} // verus!
