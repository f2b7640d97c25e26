//! The integrator and the image: the colour that a ray gathers, and where
//! each pixel stands in the buffer.

use crate::hittable::{HitRecord, Hittable};
use crate::material::{black, Material};
use crate::ray::Ray;
use crate::scalar::{Scalar, INFINITY_BITS};
use crate::vec3::{Color, Vec3f};
use vstd::prelude::*;

verus! {

/// The number of bounces after which a ray gathers no more light.
pub const MAX_DEPTH: i32 = 50;

/// The pattern of 0.001, the start of every window that the integrator
/// asks: a ray must not hit the surface it leaves.
pub const SHADOW_BIAS_BITS: u64 = 0x3f50_624d_d2f1_a9fc;

/// The pattern of 0.999, the limit of a channel before it is scaled to a
/// byte.
pub const CHANNEL_LIMIT_BITS: u64 = 0x3fef_f7ce_d916_872b;

/// One bounce of a ray: the world answered `hit`; where that is a record
/// with a material of the table, the material gave off `emitted` and
/// answered `scattered`; `deeper` is the colour gathered by the scattered
/// ray. The colour `r` of the ray is then the background where nothing was
/// hit; black where the record names no material; the light given off where
/// the ray was absorbed; and else what `blend` makes of the light given off,
/// the attenuation and `deeper`.
pub open spec fn bounce_step<
    H: Hittable,
    M: Material,
    B: Fn(Vec3f<Color>, Vec3f<Color>, Vec3f<Color>) -> Vec3f<Color>,
>(
    world: H,
    materials: Seq<M>,
    ray: Ray,
    background: Vec3f<Color>,
    blend: B,
    hit: Option<HitRecord>,
    emitted: Vec3f<Color>,
    scattered: Option<(Vec3f<Color>, Ray)>,
    deeper: Vec3f<Color>,
    r: Vec3f<Color>,
) -> bool {
    &&& world.may_hit(ray, Scalar { bits: SHADOW_BIAS_BITS }, Scalar { bits: INFINITY_BITS }, hit)
    &&& match hit {
        None => r == background,
        Some(record) => if record.material >= materials.len() {
            r == black()
        } else {
            let material = materials[record.material as int];
            &&& material.may_emit(record.u, record.v, record.p, emitted)
            &&& material.may_scatter(ray, record, scattered)
            &&& match scattered {
                None => r == emitted,
                Some((attenuation, next)) => call_ensures(blend, (emitted, attenuation, deeper), r),
            }
        },
    }
}

/// Whether the bounce went on: something was hit, its material is in the
/// table, and the ray was scattered.
pub open spec fn goes_on<M>(
    materials: Seq<M>,
    hit: Option<HitRecord>,
    scattered: Option<(Vec3f<Color>, Ray)>,
) -> bool {
    hit is Some && hit.unwrap().material < materials.len() && scattered is Some
}

/// Whether `color` can return `r` for a ray with `depth` bounces left.
pub open spec fn color_reaches<
    H: Hittable,
    M: Material,
    B: Fn(Vec3f<Color>, Vec3f<Color>, Vec3f<Color>) -> Vec3f<Color>,
>(
    world: H,
    materials: Seq<M>,
    ray: Ray,
    background: Vec3f<Color>,
    depth: int,
    blend: B,
    r: Vec3f<Color>,
) -> bool
    decreases depth,
{
    if depth <= 0 {
        r == black()
    } else {
        exists|
            hit: Option<HitRecord>,
            emitted: Vec3f<Color>,
            scattered: Option<(Vec3f<Color>, Ray)>,
            deeper: Vec3f<Color>,
        |
            #![trigger bounce_step(world, materials, ray, background, blend, hit, emitted, scattered, deeper, r)]
            bounce_step(world, materials, ray, background, blend, hit, emitted, scattered, deeper, r)
                && (goes_on(materials, hit, scattered) ==> color_reaches(
                world,
                materials,
                scattered.unwrap().1,
                background,
                depth - 1,
                blend,
                deeper,
            ))
    }
}

/// The resulting colour of a ray pointing to a direction.
///
/// With no bounce left the ray gathers nothing. Else the world is asked for
/// the nearest hit from 0.001 on, with no upper end. A ray that hits nothing has the colour of
/// the background. At a hit, the material of the record gives off its light
/// and scatters the ray or absorbs it; the scattered ray is followed with
/// one bounce less, and `blend` adds the light given off to the attenuated
/// colour of that ray. A record that names no material of the table counts
/// as a black surface that absorbs.
pub fn color<
    H: Hittable,
    M: Material,
    B: Fn(Vec3f<Color>, Vec3f<Color>, Vec3f<Color>) -> Vec3f<Color>,
>(ray: Ray, background: Vec3f<Color>, world: &H, materials: &Vec<M>, depth: i32, blend: &B) -> (r:
    Vec3f<Color>)
    requires
        forall|e: Vec3f<Color>, a: Vec3f<Color>, d: Vec3f<Color>| call_requires(*blend, (e, a, d)),
    ensures
        color_reaches(*world, materials@, ray, background, depth as int, *blend, r),
    decreases depth,
{
    let zero = Scalar { bits: 0 };
    if depth <= 0 {
        return Vec3f::repeat(zero);
    }
    let hit = world.hit(ray, Scalar { bits: SHADOW_BIAS_BITS }, Scalar { bits: INFINITY_BITS });
    let ghost nothing = black();
    match hit {
        None => {
            proof {
                assert(bounce_step(*world, materials@, ray, background, *blend, hit, nothing, None, nothing, background));
            }
            background
        },
        Some(record) => {
            if record.material >= materials.len() {
                let r = Vec3f::repeat(zero);
                proof {
                    assert(bounce_step(*world, materials@, ray, background, *blend, hit, nothing, None, nothing, r));
                }
                return r;
            }
            let material = &materials[record.material];
            let emitted = material.emitted(record.u, record.v, record.p);
            let scattered = material.scatter(ray, record);
            match scattered {
                None => {
                    proof {
                        assert(bounce_step(*world, materials@, ray, background, *blend, hit, emitted, scattered, nothing, emitted));
                    }
                    emitted
                },
                Some((attenuation, next)) => {
                    let deeper = color(next, background, world, materials, depth - 1, blend);
                    let r = blend(emitted, attenuation, deeper);
                    proof {
                        assert(bounce_step(*world, materials@, ray, background, *blend, hit, emitted, scattered, deeper, r));
                    }
                    r
                },
            }
        },
    }
}

/// A channel held between 0 and 0.999, as it is before it is scaled by 256
/// and cut to a byte: the product then stays below 256.
pub fn channel_clamp(root: Scalar) -> (r: Scalar)
    ensures
        r == root.clamp_spec(Scalar { bits: 0 }, Scalar { bits: CHANNEL_LIMIT_BITS }),
        !root.nan() ==> (Scalar { bits: 0 }).le_spec(r) && r.le_spec(
            Scalar { bits: CHANNEL_LIMIT_BITS },
        ),
{
    root.clamp(Scalar { bits: 0 }, Scalar { bits: CHANNEL_LIMIT_BITS })
}

/// A pixel of the image: red, green, blue and alpha.
#[derive(Clone, Copy, Debug, PartialEq, Eq, Structural)]
pub struct Rgba8 {
    pub r: u8,
    pub g: u8,
    pub b: u8,
    pub a: u8,
}

impl Rgba8 {
    /// The opaque pixel of the three channels.
    pub fn opaque(r: u8, g: u8, b: u8) -> (pixel: Rgba8)
        ensures
            pixel == (Rgba8 { r, g, b, a: 255 }),
    {
        Rgba8 { r, g, b, a: 255 }
    }
}

/// The place in the buffer of the pixel in column `i` of the row at height
/// `j`: rows stand in the buffer from the top, and the row at height zero is
/// the lowest.
pub open spec fn slot(i: int, j: int, width: int, height: int) -> int {
    (height - 1 - j) * width + i
}

/// The column and the height of the pixel that stands at place `n` of the
/// buffer.
pub fn pixel_at(n: usize, width: u32, height: u32) -> (r: (u32, u32))
    requires
        n < width * height,
    ensures
        r.0 < width,
        r.1 < height,
        slot(r.0 as int, r.1 as int, width as int, height as int) == n,
{
    assert(width > 0) by (nonlinear_arith)
        requires
            n < width * height,
    ;
    let row: usize = n / (width as usize);
    let i: usize = n % (width as usize);
    assert(row < height && row * width + i == n && row * width == width * row) by (nonlinear_arith)
        requires
            n < width * height,
            width > 0,
            row == (n as int) / (width as int),
            i == (n as int) % (width as int),
    ;
    let j: u32 = height - 1 - row as u32;
    assert((height - 1 - j) * width == row * width) by (nonlinear_arith)
        requires
            height - 1 - j == row,
    ;
    (i as u32, j)
}

/// The place in the buffer of a pixel; no two pixels share a place.
pub fn slot_of(i: u32, j: u32, width: u32, height: u32) -> (n: usize)
    requires
        i < width,
        j < height,
        width * height <= usize::MAX,
    ensures
        n == slot(i as int, j as int, width as int, height as int),
        n < width * height,
{
    let row: usize = (height - 1 - j) as usize;
    assert(row * width + i < width * height && row * width >= 0) by (nonlinear_arith)
        requires
            0 <= row < height,
            0 <= i < width,
    ;
    row * (width as usize) + i as usize
}

/// The bytes of an image, four for each pixel in order: red, green, blue,
/// alpha.
pub open spec fn bytes_of(image: Seq<Rgba8>) -> Seq<u8> {
    Seq::new(
        4 * image.len(),
        |k: int|
            if k % 4 == 0 {
                image[k / 4].r
            } else if k % 4 == 1 {
                image[k / 4].g
            } else if k % 4 == 2 {
                image[k / 4].b
            } else {
                image[k / 4].a
            },
    )
}

/// The image as bytes.
pub fn flatten(image: &Vec<Rgba8>) -> (r: Vec<u8>)
    ensures
        r@ == bytes_of(image@),
{
    let mut bytes: Vec<u8> = Vec::new();
    let mut i: usize = 0;
    while i < image.len()
        invariant
            i <= image@.len(),
            bytes@ =~= bytes_of(image@.subrange(0, i as int)),
        decreases image@.len() - i,
    {
        let pixel = image[i];
        bytes.push(pixel.r);
        bytes.push(pixel.g);
        bytes.push(pixel.b);
        bytes.push(pixel.a);
        i += 1;
    }
    proof {
        assert(image@.subrange(0, image@.len() as int) =~= image@);
    }
    bytes
}

/// Two pixels that stand at the same place of the buffer are the same
/// pixel.
pub proof fn slots_are_distinct(i: int, j: int, k: int, l: int, width: int, height: int)
    requires
        0 <= i < width,
        0 <= k < width,
        0 <= j < height,
        0 <= l < height,
        slot(i, j, width, height) == slot(k, l, width, height),
    ensures
        i == k && j == l,
{
    assert(j == l) by (nonlinear_arith)
        requires
            0 <= i < width,
            0 <= k < width,
            (height - 1 - j) * width + i == (height - 1 - l) * width + k,
    ;
    assert(i == k);
}

} // verus!
