//! Rectangles in the three axis planes, and the box made of six of them.

use crate::bound::Bound;
use crate::hittable::{prefer, upper, HitRecord};
use crate::scalar::{Scalar, ONE_BITS};
use crate::sphere::Surface;
use crate::vec3::{Coordinate, Index, Position, Vec3f};
use std::marker::PhantomData;
use vstd::prelude::*;

verus! {

/// Which two axes span a plane, and which one is constant on it.
#[derive(Clone, Copy, Debug, PartialEq, Eq, Structural)]
pub struct PlaneCoordinates {
    pub axis0: Coordinate,
    pub axis1: Coordinate,
    pub k: Coordinate,
}

/// The half-open range of numbers from `start` up to `end`.
#[derive(Clone, Copy)]
pub struct Interval {
    pub start: Scalar,
    pub end: Scalar,
}

impl Interval {
    /// Whether `x` is in the range: not below its start, and below its end.
    pub open spec fn contains_spec(self, x: Scalar) -> bool {
        self.start.le_spec(x) && x.lt_spec(self.end)
    }

    pub fn contains(&self, x: Scalar) -> (r: bool)
        ensures
            r == self.contains_spec(x),
    {
        self.start.le(x) && x.lt(self.end)
    }
}

/// One of the three axis planes.
pub trait Plane: Sized {
    /// The axes of the plane.
    spec fn axes_spec() -> PlaneCoordinates;

    /// The axes of the plane.
    fn axes() -> (r: PlaneCoordinates)
        ensures
            r == Self::axes_spec(),
    ;

    /// The extents, in this plane, of the box between two corners, and the
    /// offsets of its two faces that lie in the plane.
    fn points(p0: Vec3f<Position>, p1: Vec3f<Position>) -> (r: (Interval, Interval, Scalar, Scalar))
        ensures
            r.0 == (Interval {
                start: p0.component(Self::axes_spec().axis0.number()),
                end: p1.component(Self::axes_spec().axis0.number()),
            }),
            r.1 == (Interval {
                start: p0.component(Self::axes_spec().axis1.number()),
                end: p1.component(Self::axes_spec().axis1.number()),
            }),
            r.2 == p0.component(Self::axes_spec().k.number()),
            r.3 == p1.component(Self::axes_spec().k.number()),
    ;

    /// A rectangle in the plane.
    fn rectangle(material: usize, p0: Interval, p1: Interval, k: Scalar) -> (r: Rectangle<Self>)
        ensures
            r.material == material,
            r.p0 == p0,
            r.p1 == p1,
            r.k == k,
    {
        Rectangle { material, p0, p1, k, plane: PhantomData }
    }

    /// The two faces, in this plane, of the box between two corners: that at
    /// the offset of `p0` first.
    fn rectangles(p0: Vec3f<Position>, p1: Vec3f<Position>, material: usize) -> (r: (
        Rectangle<Self>,
        Rectangle<Self>,
    ))
        ensures
            r.0.material == material && r.1.material == material,
            r.0.p0 == (Interval {
                start: p0.component(Self::axes_spec().axis0.number()),
                end: p1.component(Self::axes_spec().axis0.number()),
            }),
            r.0.p1 == (Interval {
                start: p0.component(Self::axes_spec().axis1.number()),
                end: p1.component(Self::axes_spec().axis1.number()),
            }),
            r.1.p0 == r.0.p0,
            r.1.p1 == r.0.p1,
            r.0.k == p0.component(Self::axes_spec().k.number()),
            r.1.k == p1.component(Self::axes_spec().k.number()),
    {
        let (e0, e1, k0, k1) = Self::points(p0, p1);
        let r0 = Rectangle { material, p0: e0, p1: e1, k: k0, plane: PhantomData };
        let r1 = Rectangle { material, p0: e0, p1: e1, k: k1, plane: PhantomData };
        (r0, r1)
    }
}

/// The face of the box between `p0` and `p1` that lies in plane `P` at the
/// offset of `at`.
pub open spec fn face<P: Plane>(
    p0: Vec3f<Position>,
    p1: Vec3f<Position>,
    material: usize,
    at: Vec3f<Position>,
) -> Rectangle<P> {
    Rectangle {
        material,
        p0: Interval {
            start: p0.component(P::axes_spec().axis0.number()),
            end: p1.component(P::axes_spec().axis0.number()),
        },
        p1: Interval {
            start: p0.component(P::axes_spec().axis1.number()),
            end: p1.component(P::axes_spec().axis1.number()),
        },
        k: at.component(P::axes_spec().k.number()),
        plane: PhantomData,
    }
}

/// The XY-Plane.
pub struct Xy(());

/// The XZ-Plane.
pub struct Xz(());

/// The YZ-Plane.
pub struct Yz(());

impl Plane for Xy {
    open spec fn axes_spec() -> PlaneCoordinates {
        PlaneCoordinates { axis0: Coordinate::X, axis1: Coordinate::Y, k: Coordinate::Z }
    }

    fn axes() -> (r: PlaneCoordinates) {
        PlaneCoordinates { axis0: Coordinate::X, axis1: Coordinate::Y, k: Coordinate::Z }
    }

    fn points(p0: Vec3f<Position>, p1: Vec3f<Position>) -> (r: (Interval, Interval, Scalar, Scalar)) {
        (
            Interval { start: p0.x(), end: p1.x() },
            Interval { start: p0.y(), end: p1.y() },
            p0.z(),
            p1.z(),
        )
    }
}

impl Plane for Xz {
    open spec fn axes_spec() -> PlaneCoordinates {
        PlaneCoordinates { axis0: Coordinate::X, axis1: Coordinate::Z, k: Coordinate::Y }
    }

    fn axes() -> (r: PlaneCoordinates) {
        PlaneCoordinates { axis0: Coordinate::X, axis1: Coordinate::Z, k: Coordinate::Y }
    }

    fn points(p0: Vec3f<Position>, p1: Vec3f<Position>) -> (r: (Interval, Interval, Scalar, Scalar)) {
        (
            Interval { start: p0.x(), end: p1.x() },
            Interval { start: p0.z(), end: p1.z() },
            p0.y(),
            p1.y(),
        )
    }
}

impl Plane for Yz {
    open spec fn axes_spec() -> PlaneCoordinates {
        PlaneCoordinates { axis0: Coordinate::Y, axis1: Coordinate::Z, k: Coordinate::X }
    }

    fn axes() -> (r: PlaneCoordinates) {
        PlaneCoordinates { axis0: Coordinate::Y, axis1: Coordinate::Z, k: Coordinate::X }
    }

    fn points(p0: Vec3f<Position>, p1: Vec3f<Position>) -> (r: (Interval, Interval, Scalar, Scalar)) {
        (
            Interval { start: p0.y(), end: p1.y() },
            Interval { start: p0.z(), end: p1.z() },
            p0.x(),
            p1.x(),
        )
    }
}

/// A rectangle in the plane `P`, at offset `k` along the plane's constant
/// axis.
pub struct Rectangle<P> {
    /// Handle of the material in the scene's material table.
    pub material: usize,
    pub p0: Interval,
    pub p1: Interval,
    pub k: Scalar,
    pub plane: PhantomData<P>,
}

/// Where a ray meets the plane of a rectangle: the two in-plane coordinates
/// of the point, the texture coordinates there, the point itself, and the
/// dot product of the ray's direction with the plane's unit normal.
#[derive(Clone, Copy)]
pub struct PlanePoint {
    pub p0: Scalar,
    pub p1: Scalar,
    pub u: Scalar,
    pub v: Scalar,
    pub p: Vec3f<Position>,
    pub facing: Scalar,
}

/// The unit vector along an axis.
pub open spec fn unit_along(axis: Coordinate) -> Vec3f<Position> {
    let zero = Scalar { bits: 0 };
    (Vec3f::<Position> { x: zero, y: zero, z: zero, tag: PhantomData }).replaced(
        axis.number(),
        Scalar { bits: ONE_BITS },
    )
}

impl<P: Plane> Rectangle<P> {
    pub fn new(material: usize, p0: Interval, p1: Interval, k: Scalar) -> (r: Self)
        ensures
            r.material == material,
            r.p0 == p0,
            r.p1 == p1,
            r.k == k,
    {
        Rectangle { material, p0, p1, k, plane: PhantomData }
    }

    /// Whether the point with the in-plane coordinates given lies on the
    /// rectangle.
    pub open spec fn covers(self, p0: Scalar, p1: Scalar) -> bool {
        self.p0.contains_spec(p0) && self.p1.contains_spec(p1)
    }

    /// The record of a hit at `t`, where the ray meets the plane at `point`.
    pub open spec fn record_spec(self, t: Scalar, point: PlanePoint) -> HitRecord {
        (Surface {
            p: point.p,
            outward_normal: unit_along(P::axes_spec().k),
            facing: point.facing,
            u: point.u,
            v: point.v,
        }).record_spec(t, self.material)
    }

    /// What a ray that meets the plane at `point`, at a parameter `t` inside
    /// the window, hits: the rectangle where the point lies on it, else
    /// nothing.
    pub open spec fn decide_spec(self, t: Scalar, point: PlanePoint) -> Option<HitRecord> {
        if self.covers(point.p0, point.p1) {
            Some(self.record_spec(t, point))
        } else {
            None
        }
    }

    /// The hit of a ray that meets the plane at `point`, at a parameter `t`
    /// inside the window.
    pub fn decide(&self, t: Scalar, point: PlanePoint) -> (r: Option<HitRecord>)
        ensures
            r == self.decide_spec(t, point),
    {
        if !self.p0.contains(point.p0) || !self.p1.contains(point.p1) {
            return None;
        }
        let k = P::axes().k;
        let zero = Scalar { bits: 0 };
        let outward_normal = Vec3f::<Position>::new(zero, zero, zero).with_dimension(
            k,
            Scalar { bits: ONE_BITS },
        );
        proof {
            assert(outward_normal == unit_along(P::axes_spec().k));
        }
        let surface = Surface { p: point.p, outward_normal, facing: point.facing, u: point.u, v: point.v };
        Some(surface.record(t, self.material))
    }

    /// The hit of a ray that meets the rectangle's plane at parameter `t`:
    /// none where `t` is below the window's start or above its end, or where
    /// the point, which `at` computes, lies off the rectangle.
    pub fn hit<F: Fn(Scalar) -> PlanePoint>(
        &self,
        t: Scalar,
        t_min: Scalar,
        t_max: Scalar,
        at: F,
    ) -> (r: Option<HitRecord>)
        requires
            forall|x: Scalar| call_requires(at, (x,)),
        ensures
            (t.lt_spec(t_min) || t_max.lt_spec(t)) ==> r is None,
            !(t.lt_spec(t_min) || t_max.lt_spec(t)) ==> exists|point: PlanePoint|
                call_ensures(at, (t,), point) && r == (if #[trigger] self.covers(
                    point.p0,
                    point.p1,
                ) {
                    Some(self.record_spec(t, point))
                } else {
                    None
                }),
    {
        if t.lt(t_min) || t.gt(t_max) {
            return None;
        }
        let point = at(t);
        let r = self.decide(t, point);
        proof {
            assert(r == (if self.covers(point.p0, point.p1) {
                Some(self.record_spec(t, point))
            } else {
                None
            }));
        }
        r
    }

    /// The box of the rectangle: its extents in the plane, and from `below`
    /// to `above` along the constant axis.
    pub open spec fn bounding_box_spec(self, below: Scalar, above: Scalar) -> Bound {
        let zero = Scalar { bits: 0 };
        let origin = Vec3f::<Position> { x: zero, y: zero, z: zero, tag: PhantomData };
        let axes = P::axes_spec();
        Bound {
            min: origin.replaced(axes.axis0.number(), self.p0.start).replaced(
                axes.axis1.number(),
                self.p1.start,
            ).replaced(axes.k.number(), below),
            max: origin.replaced(axes.axis0.number(), self.p0.end).replaced(
                axes.axis1.number(),
                self.p1.end,
            ).replaced(axes.k.number(), above),
        }
    }

    /// The box of the rectangle. A flat box would break the splitting of the
    /// hierarchy, so the caller gives the box a thickness: `below` and
    /// `above` are the rectangle's offset less and plus a small number.
    pub fn bounding_box(&self, below: Scalar, above: Scalar) -> (r: Option<Bound>)
        ensures
            r == Some(self.bounding_box_spec(below, above)),
    {
        let axes = P::axes();
        let zero = Scalar { bits: 0 };
        let origin = Vec3f::<Position>::new(zero, zero, zero);
        let min = origin.with_dimension(axes.axis0, self.p0.start).with_dimension(
            axes.axis1,
            self.p1.start,
        ).with_dimension(axes.k, below);
        let max = origin.with_dimension(axes.axis0, self.p0.end).with_dimension(
            axes.axis1,
            self.p1.end,
        ).with_dimension(axes.k, above);
        Some(Bound { min, max })
    }
}

/// A box with its sides along the axes, made of six rectangles.
pub struct Cube {
    pub box_min: Vec3f<Position>,
    pub box_max: Vec3f<Position>,
    pub xy: (Rectangle<Xy>, Rectangle<Xy>),
    pub xz: (Rectangle<Xz>, Rectangle<Xz>),
    pub yz: (Rectangle<Yz>, Rectangle<Yz>),
}

/// Whether a face of a box can answer `r` to a ray that meets its plane at
/// parameter `t`: nothing where `t` is below the window's start or above its
/// end; else what the face decides for the point that `at` computes for it.
pub open spec fn face_answers<P: Plane, F: Fn(usize, Scalar) -> PlanePoint>(
    face: Rectangle<P>,
    number: usize,
    t: Scalar,
    t_min: Scalar,
    t_max: Scalar,
    at: F,
    r: Option<HitRecord>,
) -> bool {
    if t.lt_spec(t_min) || t_max.lt_spec(t) {
        r is None
    } else {
        exists|point: PlanePoint|
            call_ensures(at, (number, t), point) && r == #[trigger] face.decide_spec(t, point)
    }
}

/// Whether a scan of the first `k` faces of the box can end holding `best`:
/// each face is probed on the window that ends at the closest hit so far,
/// and a hit replaces the record held.
pub open spec fn faces_reach<F: Fn(usize, Scalar) -> PlanePoint>(
    cube: Cube,
    crossings: Seq<Scalar>,
    t_min: Scalar,
    t_max: Scalar,
    at: F,
    k: nat,
    best: Option<HitRecord>,
) -> bool
    decreases k,
{
    if k == 0 {
        best is None
    } else {
        exists|prev: Option<HitRecord>, answer: Option<HitRecord>|
            #![trigger prefer(answer, prev)]
            faces_reach(cube, crossings, t_min, t_max, at, (k - 1) as nat, prev)
                && cube.face_answers_at(
                k - 1,
                crossings[k - 1],
                t_min,
                upper(prev, t_max),
                at,
                answer,
            ) && best == prefer(answer, prev)
    }
}

/// Probes one face of a box.
fn probe_face<P: Plane, F: Fn(usize, Scalar) -> PlanePoint>(
    face: &Rectangle<P>,
    number: usize,
    t: Scalar,
    t_min: Scalar,
    t_max: Scalar,
    at: &F,
) -> (r: Option<HitRecord>)
    requires
        call_requires(*at, (number, t)),
    ensures
        face_answers(*face, number, t, t_min, t_max, *at, r),
{
    if t.lt(t_min) || t.gt(t_max) {
        return None;
    }
    let point = at(number, t);
    let r = face.decide(t, point);
    proof {
        assert(r == face.decide_spec(t, point));
    }
    r
}

impl Cube {
    /// Whether face `number` can answer `r`. The faces are numbered as they
    /// are scanned: the two in the xy plane first, that at the offset of
    /// `box_min` before that at the offset of `box_max`, then the two in the
    /// xz plane and the two in the yz plane likewise.
    pub open spec fn face_answers_at<F: Fn(usize, Scalar) -> PlanePoint>(
        self,
        number: int,
        t: Scalar,
        t_min: Scalar,
        t_max: Scalar,
        at: F,
        r: Option<HitRecord>,
    ) -> bool {
        if number == 0 {
            face_answers(self.xy.0, 0, t, t_min, t_max, at, r)
        } else if number == 1 {
            face_answers(self.xy.1, 1, t, t_min, t_max, at, r)
        } else if number == 2 {
            face_answers(self.xz.0, 2, t, t_min, t_max, at, r)
        } else if number == 3 {
            face_answers(self.xz.1, 3, t, t_min, t_max, at, r)
        } else if number == 4 {
            face_answers(self.yz.0, 4, t, t_min, t_max, at, r)
        } else {
            face_answers(self.yz.1, 5, t, t_min, t_max, at, r)
        }
    }

    /// The nearest hit of a ray on the six faces. `crossings` holds, face by
    /// face, the parameter at which the ray meets the plane of the face, and
    /// `at` computes for a face and that parameter the point where it does.
    /// The faces are scanned in order, each on the window that ends at the
    /// closest hit so far, and the last record found is returned.
    pub fn hit<F: Fn(usize, Scalar) -> PlanePoint>(
        &self,
        crossings: &[Scalar; 6],
        t_min: Scalar,
        t_max: Scalar,
        at: F,
    ) -> (r: Option<HitRecord>)
        requires
            forall|number: usize, t: Scalar| call_requires(at, (number, t)),
        ensures
            faces_reach(*self, crossings@, t_min, t_max, at, 6, r),
    {
        let mut record: Option<HitRecord> = None;
        let mut closest = t_max;
        let mut number: usize = 0;
        while number < 6
            invariant
                number <= 6,
                closest == upper(record, t_max),
                forall|n: usize, t: Scalar| call_requires(at, (n, t)),
                faces_reach(*self, crossings@, t_min, t_max, at, number as nat, record),
            decreases 6 - number,
        {
            let ghost prev = record;
            let t = crossings[number];
            let answer = if number == 0 {
                probe_face(&self.xy.0, 0, t, t_min, closest, &at)
            } else if number == 1 {
                probe_face(&self.xy.1, 1, t, t_min, closest, &at)
            } else if number == 2 {
                probe_face(&self.xz.0, 2, t, t_min, closest, &at)
            } else if number == 3 {
                probe_face(&self.xz.1, 3, t, t_min, closest, &at)
            } else if number == 4 {
                probe_face(&self.yz.0, 4, t, t_min, closest, &at)
            } else {
                probe_face(&self.yz.1, 5, t, t_min, closest, &at)
            };
            proof {
                assert(self.face_answers_at(
                    number as int,
                    crossings@[number as int],
                    t_min,
                    upper(prev, t_max),
                    at,
                    answer,
                ));
            }
            if let Some(new_record) = answer {
                closest = new_record.t;
                record = Some(new_record);
            }
            number += 1;
            proof {
                assert(record == prefer(answer, prev));
            }
        }
        record
    }

    /// The box between two corners: for each plane the face at the offset
    /// of `box_min` and the face at the offset of `box_max`.
    pub fn new(box_min: Vec3f<Position>, box_max: Vec3f<Position>, material: usize) -> (r: Self)
        ensures
            r.box_min == box_min,
            r.box_max == box_max,
            r.xy.0 == face::<Xy>(box_min, box_max, material, box_min),
            r.xy.1 == face::<Xy>(box_min, box_max, material, box_max),
            r.xz.0 == face::<Xz>(box_min, box_max, material, box_min),
            r.xz.1 == face::<Xz>(box_min, box_max, material, box_max),
            r.yz.0 == face::<Yz>(box_min, box_max, material, box_min),
            r.yz.1 == face::<Yz>(box_min, box_max, material, box_max),
    {
        let xy = Xy::rectangles(box_min, box_max, material);
        let xz = Xz::rectangles(box_min, box_max, material);
        let yz = Yz::rectangles(box_min, box_max, material);
        Cube { box_min, box_max, xy, xz, yz }
    }

    /// The box itself.
    pub fn bounding_box(&self) -> (r: Option<Bound>)
        ensures
            r == Some(Bound { min: self.box_min, max: self.box_max }),
    {
        Some(Bound { min: self.box_min, max: self.box_max })
    }
}

} // verus!
