//! Objects moved or turned: the ray is taken into the object's own space,
//! and the hit is taken back.

use crate::bound::Bound;
use crate::bvh::box_or_default;
use crate::hittable::{HitRecord, Hittable};
use crate::ray::Ray;
use crate::scalar::{Scalar, INFINITY_BITS, ONE_BITS, SIGN_BIT};
use crate::vec3::{Position, Vec3f};
use std::marker::PhantomData;
use vstd::prelude::*;

verus! {

/// An object moved by an offset.
pub struct Translate<H> {
    pub item: H,
    pub offset: Vec3f<Position>,
}

/// A hit taken back from an object's own space: the point in the world, the
/// normal in the world, and the dot product of the ray's direction in the
/// object's space with the normal of the hit.
#[derive(Clone, Copy)]
pub struct Placed {
    pub p: Vec3f<Position>,
    pub normal: Vec3f<Position>,
    pub facing: Scalar,
}

/// The record in the world of a hit in an object's space: point and normal
/// replaced, the normal turned against the ray.
pub open spec fn placed_record(inner: HitRecord, placed: Placed) -> HitRecord {
    let front_face = placed.facing.lt_spec(Scalar { bits: 0 });
    HitRecord {
        normal: if front_face {
            placed.normal
        } else {
            placed.normal.negated()
        },
        front_face,
        p: placed.p,
        ..inner
    }
}

/// What a moved or turned object returns, its item having answered `inner`
/// and `placed` being that answer taken back to the world.
pub open spec fn taken_back(inner: Option<HitRecord>, placed: Placed) -> Option<HitRecord> {
    match inner {
        Some(record) => Some(placed_record(record, placed)),
        None => None,
    }
}

/// Probes `item` with a ray in its own space and takes the hit back.
fn probe_in_own_space<H: Hittable, F: Fn(HitRecord) -> Placed>(
    item: &H,
    own_ray: Ray,
    t_min: Scalar,
    t_max: Scalar,
    back: F,
) -> (r: Option<HitRecord>)
    requires
        forall|record: HitRecord| call_requires(back, (record,)),
    ensures
        exists|inner: Option<HitRecord>, placed: Placed|
            item.may_hit(own_ray, t_min, t_max, inner) && (inner is Some ==> call_ensures(
                back,
                (inner.unwrap(),),
                placed,
            )) && r == #[trigger] taken_back(inner, placed),
{
    let inner = item.hit(own_ray, t_min, t_max);
    match inner {
        Some(record) => {
            let placed = back(record);
            let (normal, front_face) = HitRecord::face_normal(placed.facing, placed.normal);
            let r = Some(
                HitRecord {
                    t: record.t,
                    p: placed.p,
                    normal,
                    material: record.material,
                    u: record.u,
                    v: record.v,
                    front_face,
                },
            );
            proof {
                assert(r == taken_back(inner, placed));
            }
            r
        },
        None => {
            let zero = Scalar { bits: 0 };
            let ghost placed = Placed {
                p: Vec3f { x: zero, y: zero, z: zero, tag: PhantomData },
                normal: Vec3f { x: zero, y: zero, z: zero, tag: PhantomData },
                facing: zero,
            };
            proof {
                assert(taken_back(inner, placed) is None);
            }
            None
        },
    }
}

impl<H: Hittable> Translate<H> {
    /// The object moved by `offset`.
    pub fn new(item: H, offset: Vec3f<Position>) -> (r: Self)
        ensures
            r.item == item,
            r.offset == offset,
    {
        Translate { item, offset }
    }

    /// The hit of a ray on the moved object. `moved_ray` is the ray with its
    /// origin moved back by the offset; `back` gives, for the item's hit,
    /// the point moved forward by the offset, the normal as it is, and the
    /// dot product of the ray's direction with it.
    pub fn hit<F: Fn(HitRecord) -> Placed>(
        &self,
        moved_ray: Ray,
        t_min: Scalar,
        t_max: Scalar,
        back: F,
    ) -> (r: Option<HitRecord>)
        requires
            forall|record: HitRecord| call_requires(back, (record,)),
        ensures
            exists|inner: Option<HitRecord>, placed: Placed|
                self.item.may_hit(moved_ray, t_min, t_max, inner) && (inner is Some
                    ==> call_ensures(back, (inner.unwrap(),), placed)) && r == #[trigger] taken_back(
                    inner,
                    placed,
                ),
    {
        probe_in_own_space(&self.item, moved_ray, t_min, t_max, back)
    }

    /// The item's box moved by the offset, which `shift` does; none where
    /// the item has none.
    pub fn bounding_box<F: Fn(Bound) -> Bound>(
        &self,
        initial_time: Scalar,
        final_time: Scalar,
        shift: F,
    ) -> (r: Option<Bound>)
        requires
            forall|b: Bound| call_requires(shift, (b,)),
        ensures
            exists|inner: Option<Bound>|
                #![trigger self.item.may_bound(initial_time, final_time, inner)]
                self.item.may_bound(initial_time, final_time, inner) && match inner {
                    Some(b) => r is Some && call_ensures(shift, (b,), r.unwrap()),
                    None => r is None,
                },
    {
        let inner = self.item.bounding_box(initial_time, final_time);
        match inner {
            Some(bound) => Some(shift(bound)),
            None => None,
        }
    }
}

/// An object turned about the y axis.
pub struct YRotate<H> {
    pub item: H,
    pub sin_theta: Scalar,
    pub cos_theta: Scalar,
    /// Whether the item had a box when the rotation was made.
    pub has_bound: bool,
    /// The box round the eight turned corners of the item's box.
    pub bound: Bound,
}

/// The box round nothing: its minimum is plus infinity and its maximum minus
/// infinity along each axis, so that any point folded in replaces both.
pub open spec fn empty_box() -> Bound {
    let high = Scalar { bits: INFINITY_BITS };
    let low = Scalar { bits: (INFINITY_BITS + SIGN_BIT) as u64 };
    Bound {
        min: Vec3f { x: high, y: high, z: high, tag: PhantomData },
        max: Vec3f { x: low, y: low, z: low, tag: PhantomData },
    }
}

/// The box stretched to hold one more point.
pub open spec fn stretched(held: Bound, point: Vec3f<Position>) -> Bound {
    Bound {
        min: Vec3f {
            x: held.min.x.min_spec(point.x),
            y: held.min.y.min_spec(point.y),
            z: held.min.z.min_spec(point.z),
            tag: PhantomData,
        },
        max: Vec3f {
            x: held.max.x.max_spec(point.x),
            y: held.max.y.max_spec(point.y),
            z: held.max.z.max_spec(point.z),
            tag: PhantomData,
        },
    }
}

/// The box round the first `k` of the points.
pub open spec fn enclosing(points: Seq<Vec3f<Position>>, k: nat) -> Bound
    decreases k,
{
    if k == 0 {
        empty_box()
    } else {
        stretched(enclosing(points, (k - 1) as nat), points[k - 1])
    }
}

/// The box round eight points.
pub fn box_round(points: &[Vec3f<Position>; 8]) -> (r: Bound)
    ensures
        r == enclosing(points@, 8),
{
    let high = Scalar { bits: INFINITY_BITS };
    let low = Scalar { bits: 0xfff0_0000_0000_0000 };
    let mut held = Bound { min: Vec3f::repeat(high), max: Vec3f::repeat(low) };
    let mut i: usize = 0;
    while i < 8
        invariant
            i <= 8,
            held == enclosing(points@, i as nat),
        decreases 8 - i,
    {
        let point = points[i];
        held =
        Bound {
            min: Vec3f::new(
                held.min.x().min(point.x()),
                held.min.y().min(point.y()),
                held.min.z().min(point.z()),
            ),
            max: Vec3f::new(
                held.max.x().max(point.x()),
                held.max.y().max(point.y()),
                held.max.z().max(point.z()),
            ),
        };
        i += 1;
    }
    held
}

impl<H: Hittable> YRotate<H> {
    /// The object turned by the angle whose sine and cosine are given. The
    /// item is asked for its box from time zero to one, the default box
    /// standing in where it has none; `turn` gives the eight corners of that
    /// box, turned, and the box kept is the one round them.
    pub fn new<F: Fn(Bound) -> [Vec3f<Position>; 8]>(
        item: H,
        sin_theta: Scalar,
        cos_theta: Scalar,
        turn: F,
    ) -> (r: Self)
        requires
            forall|b: Bound| call_requires(turn, (b,)),
        ensures
            r.item == item,
            r.sin_theta == sin_theta,
            r.cos_theta == cos_theta,
            exists|answer: Option<Bound>, corners: [Vec3f<Position>; 8]|
                #![trigger box_or_default(answer), enclosing(corners@, 8)]
                item.may_bound(Scalar { bits: 0 }, Scalar { bits: ONE_BITS }, answer)
                    && call_ensures(turn, (box_or_default(answer),), corners) && r.has_bound
                    == answer is Some && r.bound == enclosing(corners@, 8),
    {
        item.rotate_y(sin_theta, cos_theta, turn)
    }

    /// The hit of a ray on the turned object. `turned_ray` is the ray turned
    /// into the item's space; `back` gives, for the item's hit, the point
    /// and the normal turned back, and the dot product of the turned ray's
    /// direction with the normal turned back.
    pub fn hit<F: Fn(HitRecord) -> Placed>(
        &self,
        turned_ray: Ray,
        t_min: Scalar,
        t_max: Scalar,
        back: F,
    ) -> (r: Option<HitRecord>)
        requires
            forall|record: HitRecord| call_requires(back, (record,)),
        ensures
            exists|inner: Option<HitRecord>, placed: Placed|
                self.item.may_hit(turned_ray, t_min, t_max, inner) && (inner is Some
                    ==> call_ensures(back, (inner.unwrap(),), placed)) && r == #[trigger] taken_back(
                    inner,
                    placed,
                ),
    {
        probe_in_own_space(&self.item, turned_ray, t_min, t_max, back)
    }

    /// The box made when the object was turned.
    pub fn bounding_box(&self) -> (r: Option<Bound>)
        ensures
            r == Some(self.bound),
    {
        Some(self.bound)
    }
}

/// The box round points holds each of them, where no coordinate is a NaN.
pub proof fn enclosing_holds_each(points: Seq<Vec3f<Position>>, k: nat, i: int)
    requires
        0 <= i < k <= points.len(),
        forall|j: int|
            0 <= j < points.len() ==> !(#[trigger] points[j]).x.nan() && !points[j].y.nan()
                && !points[j].z.nan(),
    ensures
        enclosing(points, k).defined(),
        enclosing(points, k).encloses(Bound { min: points[i], max: points[i] }),
    decreases k,
{
    if k == 1 {
        assert(enclosing(points, 0) == empty_box());
        assert(!points[0].x.nan());
    } else {
        assert(!points[k - 1].x.nan());
        if i < k - 1 {
            enclosing_holds_each(points, (k - 1) as nat, i);
        } else {
            enclosing_holds_each(points, (k - 1) as nat, 0);
        }
    }
}

} // verus!
