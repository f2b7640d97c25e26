//! Axis-aligned bounding boxes: the slab test and the box round two boxes.

use crate::scalar::Scalar;
use crate::vec3::{Position, Vec3f};
use vstd::prelude::*;

verus! {

/// Axis-aligned bounding box.
#[derive(Clone, Copy)]
pub struct Bound {
    pub min: Vec3f<Position>,
    pub max: Vec3f<Position>,
}

/// Where a ray meets the two planes that bound a box along one axis.
#[derive(Clone, Copy)]
pub struct Slab {
    /// One over the ray's direction along the axis.
    pub inverse_direction: Scalar,
    /// Parameter at which the ray meets the plane of the box's minimum.
    pub t0: Scalar,
    /// Parameter at which the ray meets the plane of the box's maximum.
    pub t1: Scalar,
}

/// A parametric interval `(min, max)` along a ray.
pub type Window = (Scalar, Scalar);

impl Slab {
    /// Entry and exit parameter: the two crossings, swapped where the ray
    /// runs against the axis.
    pub open spec fn crossing(self) -> Window {
        if self.inverse_direction.lt_spec(Scalar { bits: 0 }) {
            (self.t1, self.t0)
        } else {
            (self.t0, self.t1)
        }
    }

    /// The window cut down to the part between entry and exit.
    pub open spec fn narrow(self, window: Window) -> Window {
        (self.crossing().0.max_spec(window.0), self.crossing().1.min_spec(window.1))
    }
}

/// Whether a window is left with anything in it: its end lies above its start.
pub open spec fn window_open(window: Window) -> bool {
    !window.1.le_spec(window.0)
}

/// The slab test: the window is cut down axis by axis, and the ray misses as
/// soon as nothing is left of it.
pub open spec fn slabs_overlap(slabs: Seq<Slab>, window: Window) -> bool
    decreases slabs.len(),
{
    if slabs.len() == 0 {
        true
    } else {
        window_open(slabs[0].narrow(window)) && slabs_overlap(
            slabs.skip(1),
            slabs[0].narrow(window),
        )
    }
}

impl Bound {
    /// No component is a NaN.
    pub open spec fn defined(self) -> bool {
        &&& !self.min.x.nan() && !self.min.y.nan() && !self.min.z.nan()
        &&& !self.max.x.nan() && !self.max.y.nan() && !self.max.z.nan()
    }

    /// `self` encloses `inner`: along each axis its minimum is not above and
    /// its maximum not below that of `inner`.
    pub open spec fn encloses(self, inner: Bound) -> bool {
        &&& self.min.x.le_spec(inner.min.x) && inner.max.x.le_spec(self.max.x)
        &&& self.min.y.le_spec(inner.min.y) && inner.max.y.le_spec(self.max.y)
        &&& self.min.z.le_spec(inner.min.z) && inner.max.z.le_spec(self.max.z)
    }

    /// The point lies in the box, its faces included.
    pub open spec fn holds(self, p: Vec3f<Position>) -> bool {
        &&& self.min.x.le_spec(p.x) && p.x.le_spec(self.max.x)
        &&& self.min.y.le_spec(p.y) && p.y.le_spec(self.max.y)
        &&& self.min.z.le_spec(p.z) && p.z.le_spec(self.max.z)
    }

    /// The box that holds the origin only.
    pub open spec fn default_spec() -> Bound {
        let zero = Scalar { bits: 0 };
        Bound {
            min: Vec3f { x: zero, y: zero, z: zero, tag: std::marker::PhantomData },
            max: Vec3f { x: zero, y: zero, z: zero, tag: std::marker::PhantomData },
        }
    }

    /// Componentwise minimum of the minima and maximum of the maxima.
    pub open spec fn surrounding_spec(self, other: Bound) -> Bound {
        Bound {
            min: Vec3f {
                x: self.min.x.min_spec(other.min.x),
                y: self.min.y.min_spec(other.min.y),
                z: self.min.z.min_spec(other.min.z),
                tag: self.min.tag,
            },
            max: Vec3f {
                x: self.max.x.max_spec(other.max.x),
                y: self.max.y.max_spec(other.max.y),
                z: self.max.z.max_spec(other.max.z),
                tag: self.max.tag,
            },
        }
    }

    /// The slab test on the crossings of a ray with this box, one `Slab` per
    /// axis: whether part of the window `(min, max)` lies inside the box.
    pub fn hit(slabs: &[Slab; 3], min: Scalar, max: Scalar) -> (r: bool)
        ensures
            r == slabs_overlap(slabs@, (min, max)),
    {
        let mut lo = min;
        let mut hi = max;
        let mut dimension: usize = 0;
        assert(slabs@.skip(0) =~= slabs@);
        while dimension < 3
            invariant
                dimension <= 3,
                slabs_overlap(slabs@, (min, max)) == slabs_overlap(
                    slabs@.skip(dimension as int),
                    (lo, hi),
                ),
            decreases 3 - dimension,
        {
            let slab = slabs[dimension];
            let backwards = slab.inverse_direction.lt(Scalar { bits: 0 });
            let t0 = if backwards { slab.t1 } else { slab.t0 };
            let t1 = if backwards { slab.t0 } else { slab.t1 };
            let ghost rest = slabs@.skip(dimension as int);
            let ghost before: Window = (lo, hi);
            lo = t0.max(lo);
            hi = t1.min(hi);
            proof {
                assert(rest[0] == slab);
                assert(rest.skip(1) =~= slabs@.skip(dimension + 1));
                assert((lo, hi) == slab.narrow(before));
            }
            if hi.le(lo) {
                return false;
            }
            dimension += 1;
        }
        proof {
            assert(slabs@.skip(3).len() == 0);
        }
        true
    }

    /// The smallest box that holds both `self` and `other`.
    pub fn surrounding(&self, other: Bound) -> (r: Bound)
        ensures
            r == self.surrounding_spec(other),
    {
        let min = Vec3f::new(
            self.min.x().min(other.min.x()),
            self.min.y().min(other.min.y()),
            self.min.z().min(other.min.z()),
        );
        let max = Vec3f::new(
            self.max.x().max(other.max.x()),
            self.max.y().max(other.max.y()),
            self.max.z().max(other.max.z()),
        );
        Bound { min, max }
    }
}

impl Default for Bound {
    /// The box that holds the origin only.
    fn default() -> (r: Self)
        ensures
            r == Bound::default_spec(),
    {
        let zero = Scalar { bits: 0 };
        Bound { min: Vec3f::repeat(zero), max: Vec3f::repeat(zero) }
    }
}

/// The box round two boxes holds both of them.
pub proof fn surrounding_encloses_both(a: Bound, b: Bound)
    requires
        a.defined(),
        b.defined(),
    ensures
        a.surrounding_spec(b).defined(),
        a.surrounding_spec(b).encloses(a),
        a.surrounding_spec(b).encloses(b),
{
}

/// The box round two boxes is the smallest that holds both: every box that
/// holds both holds it too.
pub proof fn surrounding_is_minimal(a: Bound, b: Bound, c: Bound)
    requires
        a.defined(),
        b.defined(),
        c.defined(),
        c.encloses(a),
        c.encloses(b),
    ensures
        c.encloses(a.surrounding_spec(b)),
{
}

/// A box that encloses another holds every point that the other holds.
pub proof fn enclosing_box_holds(outer: Bound, inner: Bound, p: Vec3f<Position>)
    requires
        outer.encloses(inner),
        inner.holds(p),
    ensures
        outer.holds(p),
{
}

} // verus!
