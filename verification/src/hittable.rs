//! What a ray can hit: the record of a hit, the `Hittable` capability and the
//! aggregate `List`.

use crate::bound::Bound;
use crate::ray::Ray;
use crate::bvh::box_or_default;
use crate::scalar::{Scalar, ONE_BITS};
use crate::transform::{box_round, enclosing, Translate, YRotate};
use crate::vec3::{Position, Vec3f};
use vstd::prelude::*;

verus! {

/// The result after a ray hits an object.
#[derive(Clone, Copy)]
pub struct HitRecord {
    /// Ray's `t` parameter for which the ray hits.
    pub t: Scalar,
    /// Point that the ray hit.
    pub p: Vec3f<Position>,
    /// Surface normal, turned against the incoming ray.
    pub normal: Vec3f<Position>,
    /// Handle of the material in the scene's material table.
    pub material: usize,
    /// Texture coordinates.
    pub u: Scalar,
    pub v: Scalar,
    /// Whether the ray came from outside the surface.
    pub front_face: bool,
}

impl HitRecord {
    /// Turns an outward normal against the ray. `facing` is the dot product
    /// of the ray's direction with `outward_normal`: the ray comes from
    /// outside exactly if it is below zero.
    pub fn face_normal(facing: Scalar, outward_normal: Vec3f<Position>) -> (r: (
        Vec3f<Position>,
        bool,
    ))
        ensures
            r.1 == facing.lt_spec(Scalar { bits: 0 }),
            r.0 == (if r.1 {
                outward_normal
            } else {
                outward_normal.negated()
            }),
    {
        let front_face = facing.lt(Scalar { bits: 0 });
        let normal = if front_face {
            outward_normal
        } else {
            outward_normal.neg()
        };
        (normal, front_face)
    }
}

/// What can be hit by a ray.
///
/// The two `may_` predicates name what the implementation's methods can
/// return; an implementation chooses them, so the trait itself promises
/// nothing about an object's geometry.
pub trait Hittable {
    /// Whether `hit` can answer `r` for this ray and window. Unless an
    /// implementation says more, any answer is possible.
    open spec fn may_hit(&self, ray: Ray, t_min: Scalar, t_max: Scalar, r: Option<HitRecord>) -> bool {
        true
    }

    /// Whether `bounding_box` can answer `r` for this time interval. Unless
    /// an implementation says more, any answer is possible.
    open spec fn may_bound(&self, initial_time: Scalar, final_time: Scalar, r: Option<Bound>) -> bool {
        true
    }

    /// The nearest intersection of `ray` within `[t_min, t_max]`, if any.
    fn hit(&self, ray: Ray, t_min: Scalar, t_max: Scalar) -> (r: Option<HitRecord>)
        ensures
            self.may_hit(ray, t_min, t_max, r),
    ;

    /// A box round the object over the time interval; `None` for an object
    /// without bounds.
    fn bounding_box(&self, initial_time: Scalar, final_time: Scalar) -> (r: Option<Bound>)
        ensures
            self.may_bound(initial_time, final_time, r),
    ;

    /// The object moved by `offset`.
    fn translate(self, offset: Vec3f<Position>) -> (r: Translate<Self>) where Self: Sized
        ensures
            r.item == self,
            r.offset == offset,
    {
        Translate { item: self, offset }
    }

    /// The object turned about the y axis by the angle whose sine and
    /// cosine are given. The object is asked for its box from time zero to
    /// one, the default box standing in where it has none; `turn` gives the
    /// eight corners of that box, turned, and the box kept is the one round
    /// them.
    fn rotate_y<F: Fn(Bound) -> [Vec3f<Position>; 8]>(
        self,
        sin_theta: Scalar,
        cos_theta: Scalar,
        turn: F,
    ) -> (r: YRotate<Self>) where Self: Sized
        requires
            forall|b: Bound| call_requires(turn, (b,)),
        ensures
            r.item == self,
            r.sin_theta == sin_theta,
            r.cos_theta == cos_theta,
            exists|answer: Option<Bound>, corners: [Vec3f<Position>; 8]|
                #![trigger box_or_default(answer), enclosing(corners@, 8)]
                self.may_bound(Scalar { bits: 0 }, Scalar { bits: ONE_BITS }, answer)
                    && call_ensures(turn, (box_or_default(answer),), corners) && r.has_bound
                    == answer is Some && r.bound == enclosing(corners@, 8),
    {
        let answer = self.bounding_box(Scalar { bits: 0 }, Scalar { bits: ONE_BITS });
        let (bound, has_bound) = match answer {
            Some(bound) => (bound, true),
            None => (Bound::default(), false),
        };
        proof {
            assert(bound == box_or_default(answer));
        }
        let corners = turn(bound);
        let bound = box_round(&corners);
        YRotate { bound, has_bound, item: self, sin_theta, cos_theta }
    }
}

/// The upper end of the window once `best` is held: the `t` of the record, or
/// `t_max` while nothing was hit.
pub open spec fn upper(best: Option<HitRecord>, t_max: Scalar) -> Scalar {
    match best {
        Some(record) => record.t,
        None => t_max,
    }
}

/// The record kept after a probe: the new one if there is one, else the old.
pub open spec fn prefer(answer: Option<HitRecord>, best: Option<HitRecord>) -> Option<HitRecord> {
    if answer is Some {
        answer
    } else {
        best
    }
}

/// Whether a scan of the first `k` items can end holding `best`: each item is
/// probed on the window that ends at the closest hit so far, and a hit
/// replaces the record held.
pub open spec fn scan_reaches<H: Hittable>(
    items: Seq<H>,
    ray: Ray,
    t_min: Scalar,
    t_max: Scalar,
    k: nat,
    best: Option<HitRecord>,
) -> bool
    decreases k,
{
    if k == 0 {
        best is None
    } else {
        exists|prev: Option<HitRecord>, answer: Option<HitRecord>|
            #![trigger prefer(answer, prev)]
            scan_reaches(items, ray, t_min, t_max, (k - 1) as nat, prev) && items[k - 1].may_hit(
                ray,
                t_min,
                upper(prev, t_max),
                answer,
            ) && best == prefer(answer, prev)
    }
}

/// The box held once `next` is folded into what the items before left:
/// nothing where a box was missing already, else `next` merged into it.
pub open spec fn merged(next: Option<Bound>, prev: Option<Bound>) -> Option<Bound> {
    match (next, prev) {
        (Some(b), Some(p)) => Some(b.surrounding_spec(p)),
        _ => None,
    }
}

/// Whether folding the boxes of the first `k` items (`k >= 1`) can end with
/// `held`: the first item's box, each later box merged into it, and `None`
/// from the first item without a box on (the items after it are not asked).
pub open spec fn fold_reaches<H: Hittable>(
    items: Seq<H>,
    initial_time: Scalar,
    final_time: Scalar,
    k: nat,
    held: Option<Bound>,
) -> bool
    decreases k,
{
    if k <= 1 {
        k == 1 && items[0].may_bound(initial_time, final_time, held)
    } else {
        exists|prev: Option<Bound>, next: Option<Bound>|
            #![trigger merged(next, prev)]
            fold_reaches(items, initial_time, final_time, (k - 1) as nat, prev) && (prev is Some
                ==> items[k - 1].may_bound(initial_time, final_time, next)) && held == merged(
                next,
                prev,
            )
    }
}

/// List of items that can be hit by a ray.
pub struct List<H> {
    pub list: Vec<H>,
}

impl<H: Hittable> List<H> {
    pub fn new() -> (r: Self)
        ensures
            r.list@.len() == 0,
    {
        List { list: Vec::new() }
    }

    /// The empty list, with room set aside for `capacity` items. The room
    /// is a hint to the allocator only: the list holds nothing, whatever the
    /// capacity asked for.
    pub fn with_capacity(capacity: usize) -> (r: Self)
        ensures
            r.list@.len() == 0,
    {
        List { list: Vec::with_capacity(capacity) }
    }

    pub fn push(&mut self, item: H)
        ensures
            final(self).list@ == old(self).list@.push(item),
    {
        self.list.push(item)
    }
}

impl<H: Hittable> Default for List<H> {
    fn default() -> (r: Self)
        ensures
            r.list@.len() == 0,
    {
        List { list: Vec::new() }
    }
}

impl<H: Hittable> Hittable for List<H> {
    open spec fn may_hit(&self, ray: Ray, t_min: Scalar, t_max: Scalar, r: Option<HitRecord>) -> bool {
        scan_reaches(self.list@, ray, t_min, t_max, self.list@.len(), r)
    }

    open spec fn may_bound(&self, initial_time: Scalar, final_time: Scalar, r: Option<Bound>) -> bool {
        if self.list@.len() == 0 {
            r is None
        } else {
            fold_reaches(self.list@, initial_time, final_time, self.list@.len(), r)
        }
    }

    /// Scans the items in order, each on the window that ends at the closest
    /// hit so far, and returns the last record found.
    fn hit(&self, ray: Ray, t_min: Scalar, t_max: Scalar) -> (r: Option<HitRecord>) {
        let mut record: Option<HitRecord> = None;
        let mut closest = t_max;
        let mut i: usize = 0;
        while i < self.list.len()
            invariant
                i <= self.list@.len(),
                closest == upper(record, t_max),
                scan_reaches(self.list@, ray, t_min, t_max, i as nat, record),
            decreases self.list@.len() - i,
        {
            let ghost prev = record;
            let answer = self.list[i].hit(ray, t_min, closest);
            if let Some(new_record) = answer {
                closest = new_record.t;
                record = Some(new_record);
            }
            i += 1;
            proof {
                assert(record == prefer(answer, prev));
            }
        }
        record
    }

    /// The box round all items: `None` for an empty list or where an item
    /// has no box.
    fn bounding_box(&self, initial_time: Scalar, final_time: Scalar) -> (r: Option<Bound>) {
        if self.list.len() == 0 {
            return None;
        }
        let mut held: Option<Bound> = self.list[0].bounding_box(initial_time, final_time);
        let mut i: usize = 1;
        while i < self.list.len()
            invariant
                1 <= i <= self.list@.len(),
                fold_reaches(self.list@, initial_time, final_time, i as nat, held),
            decreases self.list@.len() - i,
        {
            let ghost prev = held;
            if let Some(accumulator) = held {
                let next = self.list[i].bounding_box(initial_time, final_time);
                held =
                match next {
                    Some(x) => Some(x.surrounding(accumulator)),
                    None => None,
                };
                proof {
                    assert(held == merged(next, prev));
                }
            } else {
                proof {
                    assert(held == merged(None, prev));
                }
            }
            i += 1;
        }
        held
    }
}

} // verus!
