//! The order in which the hierarchy places objects along an axis.

use crate::bound::Bound;
use crate::bvh::{box_or_default, BvhTree};
use crate::hittable::Hittable;
use crate::scalar::Scalar;
use std::cmp::Ordering;
use vstd::prelude::*;

verus! {

/// How two boxes stand along an axis: by that component of their minima,
/// compared as numbers. Where neither is below the other they count as
/// equal; that is so for a NaN against anything.
pub open spec fn key_order(x: Bound, y: Bound, axis: usize) -> Ordering {
    if x.min.component_at(axis).lt_spec(y.min.component_at(axis)) {
        Ordering::Less
    } else if y.min.component_at(axis).lt_spec(x.min.component_at(axis)) {
        Ordering::Greater
    } else {
        Ordering::Equal
    }
}

/// Orders two boxes along an axis.
pub fn order_boxes(x: &Bound, y: &Bound, axis: usize) -> (r: Ordering)
    requires
        axis < 3,
    ensures
        r == key_order(*x, *y, axis),
{
    let a = x.min.at(axis);
    let b = y.min.at(axis);
    if a.lt(b) {
        Ordering::Less
    } else if b.lt(a) {
        Ordering::Greater
    } else {
        Ordering::Equal
    }
}

impl<H: Hittable> BvhTree<H> {
    /// Orders two objects along an axis by the boxes they answer at time
    /// zero, the default box standing for an object without one.
    pub fn comparator(x: &H, y: &H, axis: usize) -> (r: Ordering)
        requires
            axis < 3,
        ensures
            exists|bx: Option<Bound>, by: Option<Bound>|
                x.may_bound(Scalar { bits: 0 }, Scalar { bits: 0 }, bx) && y.may_bound(
                    Scalar { bits: 0 },
                    Scalar { bits: 0 },
                    by,
                ) && r == #[trigger] key_order(box_or_default(bx), box_or_default(by), axis),
    {
        let zero = Scalar { bits: 0 };
        let bx = x.bounding_box(zero, zero);
        let by = y.bounding_box(zero, zero);
        let box_x = match bx {
            Some(b) => b,
            None => Bound::default(),
        };
        let box_y = match by {
            Some(b) => b,
            None => Bound::default(),
        };
        let r = order_boxes(&box_x, &box_y, axis);
        proof {
            assert(r == key_order(box_or_default(bx), box_or_default(by), axis));
        }
        r
    }

    /// Orders two objects along the x axis.
    pub fn x_comparator(x: &H, y: &H) -> (r: Ordering)
        ensures
            exists|bx: Option<Bound>, by: Option<Bound>|
                x.may_bound(Scalar { bits: 0 }, Scalar { bits: 0 }, bx) && y.may_bound(
                    Scalar { bits: 0 },
                    Scalar { bits: 0 },
                    by,
                ) && r == #[trigger] key_order(box_or_default(bx), box_or_default(by), 0),
    {
        Self::comparator(x, y, 0)
    }

    /// Orders two objects along the y axis.
    pub fn y_comparator(x: &H, y: &H) -> (r: Ordering)
        ensures
            exists|bx: Option<Bound>, by: Option<Bound>|
                x.may_bound(Scalar { bits: 0 }, Scalar { bits: 0 }, bx) && y.may_bound(
                    Scalar { bits: 0 },
                    Scalar { bits: 0 },
                    by,
                ) && r == #[trigger] key_order(box_or_default(bx), box_or_default(by), 1),
    {
        Self::comparator(x, y, 1)
    }

    /// Orders two objects along the z axis.
    pub fn z_comparator(x: &H, y: &H) -> (r: Ordering)
        ensures
            exists|bx: Option<Bound>, by: Option<Bound>|
                x.may_bound(Scalar { bits: 0 }, Scalar { bits: 0 }, bx) && y.may_bound(
                    Scalar { bits: 0 },
                    Scalar { bits: 0 },
                    by,
                ) && r == #[trigger] key_order(box_or_default(bx), box_or_default(by), 2),
    {
        Self::comparator(x, y, 2)
    }
}

} // verus!
