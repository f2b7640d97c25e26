//! Three-component vectors, tagged as positions or colours.

use crate::scalar::Scalar;
use std::marker::PhantomData;
use vstd::prelude::*;

verus! {

/// Marks the types that may tag a `Vec3f`.
pub trait Phantom {

}

/// Tags of colour vectors.
pub trait PhantomColor: Phantom {

}

/// Tags of position and direction vectors.
pub trait PhantomPosition: Phantom {

}

/// Tag of colour vectors.
#[derive(Clone, Copy, Debug)]
pub struct Color;

/// Tag of position and direction vectors.
#[derive(Clone, Copy, Debug)]
pub struct Position;

impl Phantom for Color {

}

impl Phantom for Position {

}

impl PhantomColor for Color {

}

impl PhantomPosition for Position {

}

/// The three axes.
#[derive(Clone, Copy, Debug, PartialEq, Eq, Structural)]
pub enum Coordinate {
    X,
    Y,
    Z,
}

impl Coordinate {
    /// The axis as a component number: 0 for X, 1 for Y, 2 for Z.
    pub open spec fn number(self) -> nat {
        match self {
            Coordinate::X => 0,
            Coordinate::Y => 1,
            Coordinate::Z => 2,
        }
    }
}

/// What can select a component of a `Vec3f`.
pub trait Index: Sized {
    /// The component number that the value selects.
    spec fn axis(self) -> nat;

    fn into_axis(self) -> (r: usize)
        ensures
            r == self.axis(),
    ;
}

impl Index for usize {
    open spec fn axis(self) -> nat {
        self as nat
    }

    fn into_axis(self) -> (r: usize) {
        self
    }
}

impl Index for Coordinate {
    open spec fn axis(self) -> nat {
        self.number()
    }

    fn into_axis(self) -> (r: usize) {
        match self {
            Coordinate::X => 0,
            Coordinate::Y => 1,
            Coordinate::Z => 2,
        }
    }
}

/// The pattern of 1e-8, below which a component counts as zero.
pub const NEAR_ZERO_BITS: u64 = 0x3e45_798e_e230_8c3a;

/// A vector of three scalars. The tag `T` keeps colours and positions apart:
/// no function of this crate takes vectors of two different tags.
pub struct Vec3f<T> {
    pub x: Scalar,
    pub y: Scalar,
    pub z: Scalar,
    pub tag: PhantomData<T>,
}

impl<T: Phantom> Copy for Vec3f<T> {

}

impl<T: Phantom> Clone for Vec3f<T> {
    fn clone(&self) -> (r: Self)
        ensures
            r == *self,
    {
        *self
    }
}

impl<T: Phantom> Vec3f<T> {
    /// The three components in order.
    pub open spec fn components(self) -> Seq<Scalar> {
        seq![self.x, self.y, self.z]
    }

    /// The component with number `i`.
    pub open spec fn component(self, i: nat) -> Scalar {
        if i == 0 {
            self.x
        } else if i == 1 {
            self.y
        } else {
            self.z
        }
    }

    /// The component with machine number `i`.
    pub open spec fn component_at(self, i: usize) -> Scalar {
        self.component(i as nat)
    }

    /// The vector with component `i` replaced.
    pub open spec fn replaced(self, i: nat, value: Scalar) -> Self {
        if i == 0 {
            Vec3f { x: value, ..self }
        } else if i == 1 {
            Vec3f { y: value, ..self }
        } else {
            Vec3f { z: value, ..self }
        }
    }

    /// The vector with the sign of each component flipped.
    pub open spec fn negated(self) -> Self {
        Vec3f { x: self.x.neg_spec(), y: self.y.neg_spec(), z: self.z.neg_spec(), tag: self.tag }
    }

    /// Whether every component is smaller than 1e-8 in magnitude.
    pub open spec fn near_zero_spec(self) -> bool {
        let limit = Scalar { bits: NEAR_ZERO_BITS };
        self.x.abs_spec().lt_spec(limit) && self.y.abs_spec().lt_spec(limit)
            && self.z.abs_spec().lt_spec(limit)
    }

    pub fn new(x: Scalar, y: Scalar, z: Scalar) -> (r: Self)
        ensures
            r.x == x,
            r.y == y,
            r.z == z,
    {
        Vec3f { x, y, z, tag: PhantomData }
    }

    pub fn x(&self) -> (r: Scalar)
        ensures
            r == self.x,
    {
        self.x
    }

    pub fn y(&self) -> (r: Scalar)
        ensures
            r == self.y,
    {
        self.y
    }

    pub fn z(&self) -> (r: Scalar)
        ensures
            r == self.z,
    {
        self.z
    }

    pub fn repeat(x: Scalar) -> (r: Self)
        ensures
            r.x == x,
            r.y == x,
            r.z == x,
    {
        Self::new(x, x, x)
    }

    /// Applies `f` to each component, first to last.
    pub fn map<F: Fn(Scalar) -> Scalar>(self, f: F) -> (r: Self)
        requires
            call_requires(f, (self.x,)),
            call_requires(f, (self.y,)),
            call_requires(f, (self.z,)),
        ensures
            call_ensures(f, (self.x,), r.x),
            call_ensures(f, (self.y,), r.y),
            call_ensures(f, (self.z,), r.z),
    {
        let x = f(self.x);
        let y = f(self.y);
        let z = f(self.z);
        Self::new(x, y, z)
    }

    /// The component that `index` selects.
    pub fn at<C: Index>(&self, index: C) -> (r: Scalar)
        requires
            index.axis() < 3,
        ensures
            r == self.component(index.axis()),
    {
        let i: usize = index.into_axis();
        if i == 0 {
            self.x
        } else if i == 1 {
            self.y
        } else {
            self.z
        }
    }

    pub fn near_zero(&self) -> (r: bool)
        ensures
            r == self.near_zero_spec(),
    {
        let limit = Scalar { bits: NEAR_ZERO_BITS };
        self.x.abs().lt(limit) && self.y.abs().lt(limit) && self.z.abs().lt(limit)
    }

    /// The vector with the component that `dimension` selects set to `value`.
    pub fn with_dimension<C: Index>(self, dimension: C, value: Scalar) -> (r: Self)
        requires
            dimension.axis() < 3,
        ensures
            r == self.replaced(dimension.axis(), value),
    {
        let i: usize = dimension.into_axis();
        if i == 0 {
            Vec3f { x: value, y: self.y, z: self.z, tag: self.tag }
        } else if i == 1 {
            Vec3f { x: self.x, y: value, z: self.z, tag: self.tag }
        } else {
            Vec3f { x: self.x, y: self.y, z: value, tag: self.tag }
        }
    }

    /// The refracted direction, or nothing where the reflection is total.
    /// `discriminant` is one less the squared ratio of the refraction
    /// indices times the squared sine of the angle of incidence: the ray is
    /// refracted exactly if it is above zero, and `bent` is then asked for
    /// the direction.
    pub fn refract<F: Fn() -> Self>(discriminant: Scalar, bent: F) -> (r: Option<Self>)
        requires
            call_requires(bent, ()),
        ensures
            (Scalar { bits: 0 }).lt_spec(discriminant) ==> r is Some && call_ensures(
                bent,
                (),
                r.unwrap(),
            ),
            !(Scalar { bits: 0 }).lt_spec(discriminant) ==> r is None,
    {
        if discriminant.gt(Scalar { bits: 0 }) {
            Some(bent())
        } else {
            None
        }
    }

    /// The vector with each component's sign flipped.
    pub fn neg(self) -> (r: Self)
        ensures
            r == self.negated(),
    {
        Vec3f { x: self.x.neg(), y: self.y.neg(), z: self.z.neg(), tag: self.tag }
    }
}

impl<T: PhantomColor> Vec3f<T> {
    pub fn r(&self) -> (r: Scalar)
        ensures
            r == self.x,
    {
        self.x
    }

    pub fn g(&self) -> (r: Scalar)
        ensures
            r == self.y,
    {
        self.y
    }

    pub fn b(&self) -> (r: Scalar)
        ensures
            r == self.z,
    {
        self.z
    }
}

impl<T: Phantom> Default for Vec3f<T> {
    fn default() -> (r: Self)
        ensures
            r.x.bits == 0,
            r.y.bits == 0,
            r.z.bits == 0,
    {
        Self::repeat(Scalar { bits: 0 })
    }
}

impl<T: Phantom> From<(Scalar, Scalar, Scalar)> for Vec3f<T> {
    fn from(x: (Scalar, Scalar, Scalar)) -> (r: Self) {
        Self::new(x.0, x.1, x.2)
    }
}

impl<T: Phantom> vstd::std_specs::convert::FromSpecImpl<(Scalar, Scalar, Scalar)> for Vec3f<T> {
    open spec fn obeys_from_spec() -> bool {
        true
    }

    open spec fn from_spec(x: (Scalar, Scalar, Scalar)) -> Self {
        Vec3f { x: x.0, y: x.1, z: x.2, tag: PhantomData }
    }
}

} // verus!
