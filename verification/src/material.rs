//! Materials: whether a ray that hits a surface goes on, and with what
//! colour.

use crate::hittable::HitRecord;
use crate::ray::Ray;
use crate::scalar::{Scalar, ONE_BITS};
use crate::texture::Texture;
use crate::vec3::{Color, Position, Vec3f};
use std::marker::PhantomData;
use std::sync::Arc;
use vstd::prelude::*;

verus! {

/// The colour without light: all components zero.
pub open spec fn black() -> Vec3f<Color> {
    let zero = Scalar { bits: 0 };
    Vec3f { x: zero, y: zero, z: zero, tag: PhantomData }
}

/// The colour that takes nothing from the light: all components one.
pub open spec fn white() -> Vec3f<Color> {
    let one = Scalar { bits: ONE_BITS };
    Vec3f { x: one, y: one, z: one, tag: PhantomData }
}

/// Different materials scatter light differently.
///
/// The two `may_` predicates name what the implementation's methods can
/// return; an implementation chooses them, so the trait itself promises
/// nothing.
pub trait Material {
    /// Whether `scatter` can answer `r`. Unless an implementation says more,
    /// any answer is possible.
    open spec fn may_scatter(&self, ray: Ray, record: HitRecord, r: Option<(Vec3f<Color>, Ray)>) -> bool {
        true
    }

    /// Whether `emitted` can answer `r`. Unless an implementation says more,
    /// any answer is possible.
    open spec fn may_emit(&self, u: Scalar, v: Scalar, point: Vec3f<Position>, r: Vec3f<Color>) -> bool {
        true
    }

    /// The attenuation and the scattered ray, or nothing where the ray is
    /// absorbed.
    fn scatter(&self, ray: Ray, record: HitRecord) -> (r: Option<(Vec3f<Color>, Ray)>)
        ensures
            self.may_scatter(ray, record, r),
    ;

    /// The light that the material gives off at a point of its surface.
    fn emitted(&self, u: Scalar, v: Scalar, point: Vec3f<Position>) -> (r: Vec3f<Color>)
        ensures
            self.may_emit(u, v, point, r),
    ;
}

/// The ray that leaves a hit: from the point hit, in the direction given, at
/// the time of the incoming ray.
pub open spec fn leaving(ray: Ray, record: HitRecord, direction: Vec3f<Position>) -> Ray {
    Ray { a: record.p, b: direction, time: ray.time }
}

/// Solid material.
pub struct Lambertian<T> {
    pub albedo: T,
}

impl<T: Texture> Lambertian<T> {
    pub fn new(albedo: T) -> (r: Self)
        ensures
            r.albedo == albedo,
    {
        Lambertian { albedo }
    }

    pub fn boxed(albedo: T) -> (r: Box<Self>)
        ensures
            r.albedo == albedo,
    {
        Box::new(Self::new(albedo))
    }

    pub fn arc(albedo: T) -> (r: Arc<Self>)
        ensures
            r.albedo == albedo,
    {
        Arc::new(Self::new(albedo))
    }

    /// Always scatters: the attenuation is the texture's colour at the hit,
    /// and the ray leaves in `direction`, which the caller draws round the
    /// normal.
    pub fn scatter(&self, ray: Ray, record: HitRecord, direction: Vec3f<Position>) -> (r: Option<
        (Vec3f<Color>, Ray),
    >)
        ensures
            r is Some,
            self.albedo.may_value(record.u, record.v, record.p, r.unwrap().0),
            r.unwrap().1 == leaving(ray, record, direction),
    {
        let scattered = Ray { a: record.p, b: direction, time: ray.time };
        let attenuation = self.albedo.value(record.u, record.v, record.p);
        Some((attenuation, scattered))
    }
}

/// The fuzz of a metal, held between zero and one.
pub open spec fn held_fuzz(fuzz: Scalar) -> Scalar {
    fuzz.min_spec(Scalar { bits: ONE_BITS }).max_spec(Scalar { bits: 0 })
}

/// Metalic material.
#[derive(Clone, Copy)]
pub struct Metal {
    pub albedo: Vec3f<Color>,
    pub fuzz: Scalar,
}

impl Metal {
    /// A metal of the colour given. The fuzz is held between zero and one:
    /// a fuzz above one, or one that is no number, counts as one, and a fuzz
    /// below zero as zero.
    pub fn new(albedo: Vec3f<Color>, fuzz: Scalar) -> (r: Self)
        ensures
            r.albedo == albedo,
            r.fuzz == held_fuzz(fuzz),
            (Scalar { bits: 0 }).le_spec(r.fuzz) && r.fuzz.le_spec(Scalar { bits: ONE_BITS }),
    {
        Metal { albedo, fuzz: fuzz.min(Scalar { bits: ONE_BITS }).max(Scalar { bits: 0 }) }
    }

    pub fn boxed(albedo: Vec3f<Color>, fuzz: Scalar) -> (r: Box<Self>)
        ensures
            r.albedo == albedo,
            r.fuzz == held_fuzz(fuzz),
    {
        Box::new(Self::new(albedo, fuzz))
    }

    pub fn arc(albedo: Vec3f<Color>, fuzz: Scalar) -> (r: Arc<Self>)
        ensures
            r.albedo == albedo,
            r.fuzz == held_fuzz(fuzz),
    {
        Arc::new(Self::new(albedo, fuzz))
    }

    /// The ray leaves in `direction`, the mirror direction with the fuzz
    /// added, unless that points into the surface: `facing` is the dot
    /// product of `direction` with the normal, and the ray is absorbed
    /// unless it is above zero.
    pub fn scatter(
        &self,
        ray: Ray,
        record: HitRecord,
        direction: Vec3f<Position>,
        facing: Scalar,
    ) -> (r: Option<(Vec3f<Color>, Ray)>)
        ensures
            r == (if (Scalar { bits: 0 }).lt_spec(facing) {
                Some((self.albedo, leaving(ray, record, direction)))
            } else {
                None
            }),
    {
        let scattered = Ray { a: record.p, b: direction, time: ray.time };
        if facing.gt(Scalar { bits: 0 }) {
            Some((self.albedo, scattered))
        } else {
            None
        }
    }
}

/// Glass material.
#[derive(Clone, Copy)]
pub struct Dielectric {
    pub refraction_index: Scalar,
}

/// What the arithmetic gives for a ray on glass: the refraction ratio times
/// the sine of the angle of incidence, the reflectance by Schlick's
/// approximation, the number drawn to decide between the two ways, and the
/// mirrored and the refracted direction.
#[derive(Clone, Copy)]
pub struct Bend {
    pub ratio_sine: Scalar,
    pub reflectance: Scalar,
    pub sample: Scalar,
    pub reflected: Vec3f<Position>,
    pub refracted: Vec3f<Position>,
}

impl Bend {
    /// Whether the ray is mirrored: it cannot be refracted where the ratio
    /// times the sine is above one, and else it is mirrored where the
    /// reflectance is above the number drawn.
    pub open spec fn mirrors(self) -> bool {
        (Scalar { bits: ONE_BITS }).lt_spec(self.ratio_sine) || self.sample.lt_spec(
            self.reflectance,
        )
    }

    /// The direction in which the ray leaves.
    pub open spec fn direction(self) -> Vec3f<Position> {
        if self.mirrors() {
            self.reflected
        } else {
            self.refracted
        }
    }
}

impl Dielectric {
    pub fn new(refraction_index: Scalar) -> (r: Self)
        ensures
            r.refraction_index == refraction_index,
    {
        Dielectric { refraction_index }
    }

    pub fn arc(refraction_index: Scalar) -> (r: Arc<Self>)
        ensures
            r.refraction_index == refraction_index,
    {
        Arc::new(Dielectric { refraction_index })
    }

    pub fn boxed(refraction_index: Scalar) -> (r: Box<Self>)
        ensures
            r.refraction_index == refraction_index,
    {
        Box::new(Dielectric { refraction_index })
    }

    /// The ratio of the refraction indices that the ray passes between:
    /// `inverse`, which is one over the index, where the ray enters from
    /// outside, else the index.
    pub fn refraction_ratio(&self, front_face: bool, inverse: Scalar) -> (r: Scalar)
        ensures
            r == (if front_face {
                inverse
            } else {
                self.refraction_index
            }),
    {
        if front_face {
            inverse
        } else {
            self.refraction_index
        }
    }

    /// The cosine of the angle of incidence: the dot product of the
    /// direction turned back with the normal, held at one.
    pub fn cos_theta(dot: Scalar) -> (r: Scalar)
        ensures
            r == dot.min_spec(Scalar { bits: ONE_BITS }),
    {
        dot.min(Scalar { bits: ONE_BITS })
    }

    /// Always scatters, and takes nothing from the light: the attenuation
    /// is one in each component. The ray is mirrored or refracted as `bend`
    /// decides.
    pub fn scatter(&self, ray: Ray, record: HitRecord, bend: Bend) -> (r: Option<
        (Vec3f<Color>, Ray),
    >)
        ensures
            r == Some((white(), leaving(ray, record, bend.direction()))),
    {
        let one = Scalar { bits: ONE_BITS };
        let attenuation = Vec3f::new(one, one, one);
        let cannot_refract = bend.ratio_sine.gt(one);
        let direction = if cannot_refract || bend.reflectance.gt(bend.sample) {
            bend.reflected
        } else {
            bend.refracted
        };
        let scattered = Ray { a: record.p, b: direction, time: ray.time };
        Some((attenuation, scattered))
    }
}

/// A material that gives off light and scatters none.
pub struct DiffuseLight<T> {
    pub emit: T,
}

impl<T: Texture> DiffuseLight<T> {
    pub fn new(albedo: T) -> (r: Self)
        ensures
            r.emit == albedo,
    {
        DiffuseLight { emit: albedo }
    }

    pub fn boxed(albedo: T) -> (r: Box<Self>)
        ensures
            r.emit == albedo,
    {
        Box::new(DiffuseLight { emit: albedo })
    }

    pub fn arc(albedo: T) -> (r: Arc<Self>)
        ensures
            r.emit == albedo,
    {
        Arc::new(DiffuseLight { emit: albedo })
    }
}

impl<T: Texture> Material for DiffuseLight<T> {
    open spec fn may_scatter(&self, ray: Ray, record: HitRecord, r: Option<(Vec3f<Color>, Ray)>) -> bool {
        r is None
    }

    open spec fn may_emit(&self, u: Scalar, v: Scalar, point: Vec3f<Position>, r: Vec3f<Color>) -> bool {
        self.emit.may_value(u, v, point, r)
    }

    /// A light scatters nothing.
    fn scatter(&self, ray: Ray, record: HitRecord) -> (r: Option<(Vec3f<Color>, Ray)>) {
        None
    }

    /// The colour of the light's texture at the point.
    fn emitted(&self, u: Scalar, v: Scalar, point: Vec3f<Position>) -> (r: Vec3f<Color>) {
        self.emit.value(u, v, point)
    }
}

/// A material that scatters alike in all directions, as inside a volume.
pub struct Isotropic<T> {
    pub albedo: T,
}

impl<T: Texture> Isotropic<T> {
    /// Always scatters: the attenuation is the texture's colour at the hit,
    /// and the ray leaves in `direction`, which the caller draws from the
    /// unit sphere.
    pub fn scatter(&self, ray: Ray, record: HitRecord, direction: Vec3f<Position>) -> (r: Option<
        (Vec3f<Color>, Ray),
    >)
        ensures
            r is Some,
            self.albedo.may_value(record.u, record.v, record.p, r.unwrap().0),
            r.unwrap().1 == leaving(ray, record, direction),
    {
        let scattered = Ray { a: record.p, b: direction, time: ray.time };
        let attenuation = self.albedo.value(record.u, record.v, record.p);
        Some((attenuation, scattered))
    }
}

/// The light that a material without light gives off: none.
pub fn no_light() -> (r: Vec3f<Color>)
    ensures
        r == black(),
{
    Vec3f::repeat(Scalar { bits: 0 })
}

} // verus!
