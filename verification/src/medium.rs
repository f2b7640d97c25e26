//! A medium of constant density inside a boundary: where a ray that passes
//! through it scatters, if it does.

use crate::bound::Bound;
use crate::hittable::{HitRecord, Hittable};
use crate::ray::Ray;
use crate::scalar::{Scalar, INFINITY_BITS, ONE_BITS, SIGN_BIT};
use crate::vec3::{Position, Vec3f};
use std::marker::PhantomData;
use vstd::prelude::*;

verus! {

/// A volume that scatters rays at random depths. The boundary is taken to
/// be convex: only its first two crossings with a ray are looked at.
pub struct ConstantMedium<H> {
    pub boundary: H,
    /// Handle, in the scene's material table, of the isotropic material
    /// that scatters inside the volume.
    pub phase_function: usize,
    /// Minus one over the density.
    pub neg_inv_density: Scalar,
}

/// What the arithmetic gives for the stretch of a ray inside the boundary:
/// the length of the stretch, the length of the free path drawn for this
/// ray, and the parameter and the point at the end of that path.
#[derive(Clone, Copy)]
pub struct FreePath {
    pub distance_inside_boundary: Scalar,
    pub hit_distance: Scalar,
    pub t: Scalar,
    pub p: Vec3f<Position>,
}

/// Positive infinity.
pub open spec fn infinity() -> Scalar {
    Scalar { bits: INFINITY_BITS }
}

/// Negative infinity.
pub open spec fn neg_infinity() -> Scalar {
    Scalar { bits: (INFINITY_BITS + SIGN_BIT) as u64 }
}

/// The stretch of the ray inside the boundary, cut to the window: entry and
/// exit are moved into the window, nothing is left where the entry is then
/// not before the exit, and an entry behind the ray's origin is moved to it.
pub open spec fn clip(entry: Scalar, exit: Scalar, t_min: Scalar, t_max: Scalar) -> Option<
    (Scalar, Scalar),
> {
    let a = entry.max_spec(t_min);
    let b = exit.min_spec(t_max);
    if b.le_spec(a) {
        None
    } else {
        Some((a.max_spec(Scalar { bits: 0 }), b))
    }
}

/// What becomes of a ray on a stretch inside the boundary: it leaves
/// unscattered where the free path is longer than the stretch; else it
/// scatters at the end of the path. The normal of the record is arbitrary.
pub open spec fn outcome(path: FreePath, phase_function: usize) -> Option<HitRecord> {
    if path.distance_inside_boundary.lt_spec(path.hit_distance) {
        None
    } else {
        let zero = Scalar { bits: 0 };
        Some(
            HitRecord {
                t: path.t,
                p: path.p,
                normal: Vec3f { x: Scalar { bits: ONE_BITS }, y: zero, z: zero, tag: PhantomData },
                material: phase_function,
                u: zero,
                v: zero,
                front_face: true,
            },
        )
    }
}

/// Whether `hit` can return `r`, the boundary having answered `first` and
/// `second`, the second probe having started at `start`, and `path` being
/// what was computed for the stretch inside.
pub open spec fn medium_step<H: Hittable, A: Fn(Scalar) -> Scalar, P: Fn(Scalar, Scalar) -> FreePath>(
    medium: ConstantMedium<H>,
    ray: Ray,
    t_min: Scalar,
    t_max: Scalar,
    after: A,
    free_path: P,
    first: Option<HitRecord>,
    start: Scalar,
    second: Option<HitRecord>,
    path: FreePath,
    r: Option<HitRecord>,
) -> bool {
    &&& medium.boundary.may_hit(ray, neg_infinity(), infinity(), first)
    &&& match first {
        None => r is None,
        Some(record1) => {
            &&& call_ensures(after, (record1.t,), start)
            &&& medium.boundary.may_hit(ray, start, infinity(), second)
            &&& match second {
                None => r is None,
                Some(record2) => match clip(record1.t, record2.t, t_min, t_max) {
                    None => r is None,
                    Some((a, b)) => call_ensures(free_path, (a, b), path) && r == outcome(
                        path,
                        medium.phase_function,
                    ),
                },
            }
        },
    }
}

impl<H: Hittable> ConstantMedium<H> {
    pub fn new(boundary: H, neg_inv_density: Scalar, phase_function: usize) -> (r: Self)
        ensures
            r.boundary == boundary,
            r.neg_inv_density == neg_inv_density,
            r.phase_function == phase_function,
    {
        ConstantMedium { boundary, phase_function, neg_inv_density }
    }

    /// The scattering of a ray in the medium, if any. The boundary is
    /// probed on the whole line for the entry, and from just after the entry
    /// for the exit: `after` gives the start of that second probe.
    /// `free_path` computes, for the stretch inside, its length and the free
    /// path drawn.
    pub fn hit<A: Fn(Scalar) -> Scalar, P: Fn(Scalar, Scalar) -> FreePath>(
        &self,
        ray: Ray,
        t_min: Scalar,
        t_max: Scalar,
        after: A,
        free_path: P,
    ) -> (r: Option<HitRecord>)
        requires
            forall|t: Scalar| call_requires(after, (t,)),
            forall|a: Scalar, b: Scalar| call_requires(free_path, (a, b)),
        ensures
            exists|first: Option<HitRecord>, start: Scalar, second: Option<HitRecord>, path: FreePath| #[trigger]
                medium_step(
                    *self,
                    ray,
                    t_min,
                    t_max,
                    after,
                    free_path,
                    first,
                    start,
                    second,
                    path,
                    r,
                ),
    {
        let zero = Scalar { bits: 0 };
        let unused = FreePath { distance_inside_boundary: zero, hit_distance: zero, t: zero, p: Vec3f::repeat(zero) };
        let first = self.boundary.hit(ray, Scalar::neg_infinity(), Scalar::infinity());
        let record1 = match first {
            Some(record) => record,
            None => {
                proof {
                    assert(medium_step(*self, ray, t_min, t_max, after, free_path, first, zero, None, unused, None));
                }
                return None;
            },
        };
        let start = after(record1.t);
        let second = self.boundary.hit(ray, start, Scalar::infinity());
        let record2 = match second {
            Some(record) => record,
            None => {
                proof {
                    assert(medium_step(*self, ray, t_min, t_max, after, free_path, first, start, second, unused, None));
                }
                return None;
            },
        };
        let entry = record1.t.max(t_min);
        let exit = record2.t.min(t_max);
        if entry.ge(exit) {
            proof {
                assert(medium_step(*self, ray, t_min, t_max, after, free_path, first, start, second, unused, None));
            }
            return None;
        }
        let entry = entry.max(zero);
        let path = free_path(entry, exit);
        let r = if path.hit_distance.gt(path.distance_inside_boundary) {
            None
        } else {
            Some(
                HitRecord {
                    t: path.t,
                    p: path.p,
                    normal: Vec3f::new(Scalar { bits: ONE_BITS }, zero, zero),
                    material: self.phase_function,
                    u: zero,
                    v: zero,
                    front_face: true,
                },
            )
        };
        proof {
            assert(medium_step(*self, ray, t_min, t_max, after, free_path, first, start, second, path, r));
        }
        r
    }

    /// The box of the boundary.
    pub fn bounding_box(&self, initial_time: Scalar, final_time: Scalar) -> (r: Option<Bound>)
        ensures
            self.boundary.may_bound(initial_time, final_time, r),
    {
        self.boundary.bounding_box(initial_time, final_time)
    }
}

/// A medium of density zero is passed as if it were not there: its free
/// paths are infinite, and an infinite free path is longer than any stretch
/// of finite length, so the ray never scatters.
pub proof fn infinite_free_path_never_scatters(path: FreePath, phase_function: usize)
    requires
        path.hit_distance == infinity(),
        path.distance_inside_boundary.lt_spec(infinity()),
    ensures
        outcome(path, phase_function) is None,
{
}

/// A medium of density zero is passed as if it were not there. Its free
/// paths are infinite; so where every free path that is drawn is infinite and
/// every stretch inside the boundary has a finite length, `hit` returns
/// nothing, whatever the boundary, the ray and the window are. (On a stretch
/// of infinite length the free path is not the longer of the two, and the
/// ray scatters.)
pub proof fn medium_of_density_zero_is_absent<
    H: Hittable,
    A: Fn(Scalar) -> Scalar,
    P: Fn(Scalar, Scalar) -> FreePath,
>(
    medium: ConstantMedium<H>,
    ray: Ray,
    t_min: Scalar,
    t_max: Scalar,
    after: A,
    free_path: P,
    first: Option<HitRecord>,
    start: Scalar,
    second: Option<HitRecord>,
    path: FreePath,
    r: Option<HitRecord>,
)
    requires
        forall|a: Scalar, b: Scalar, p: FreePath| #[trigger]
            call_ensures(free_path, (a, b), p) ==> p.hit_distance == infinity()
                && p.distance_inside_boundary.lt_spec(infinity()),
        medium_step(medium, ray, t_min, t_max, after, free_path, first, start, second, path, r),
    ensures
        r is None,
{
}

/// What `clip` leaves lies in the window and inside the boundary: it starts
/// no earlier than the window, the entry and the ray's origin, and ends no
/// later than the window and the exit.
pub proof fn clip_stays_inside(entry: Scalar, exit: Scalar, t_min: Scalar, t_max: Scalar)
    requires
        !entry.nan(),
        !exit.nan(),
        !t_min.nan(),
        !t_max.nan(),
        clip(entry, exit, t_min, t_max) is Some,
    ensures
        t_min.le_spec(clip(entry, exit, t_min, t_max).unwrap().0),
        entry.le_spec(clip(entry, exit, t_min, t_max).unwrap().0),
        (Scalar { bits: 0 }).le_spec(clip(entry, exit, t_min, t_max).unwrap().0),
        clip(entry, exit, t_min, t_max).unwrap().1.le_spec(t_max),
        clip(entry, exit, t_min, t_max).unwrap().1.le_spec(exit),
{
}

} // verus!
