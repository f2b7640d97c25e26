//! Textures: where a surface's colour comes from.

use crate::scalar::{Scalar, ONE_BITS};
use crate::vec3::{Color, Position, Vec3f};
use image::RgbaImage;
use vstd::prelude::*;

verus! {

/// A colour for each point of a surface.
///
/// `may_value` names what `value` can return; an implementation chooses it,
/// so the trait itself promises nothing.
pub trait Texture {
    /// Whether `value` can answer `r`. Unless an implementation says more,
    /// any answer is possible.
    open spec fn may_value(&self, u: Scalar, v: Scalar, point: Vec3f<Position>, r: Vec3f<Color>) -> bool {
        true
    }

    /// The colour at texture coordinates `(u, v)` and world point `point`.
    fn value(&self, u: Scalar, v: Scalar, point: Vec3f<Position>) -> (r: Vec3f<Color>)
        ensures
            self.may_value(u, v, point, r),
    ;
}

/// A colour is the texture that has it everywhere.
impl Texture for Vec3f<Color> {
    open spec fn may_value(&self, u: Scalar, v: Scalar, point: Vec3f<Position>, r: Vec3f<Color>) -> bool {
        r == *self
    }

    fn value(&self, u: Scalar, v: Scalar, point: Vec3f<Position>) -> (r: Vec3f<Color>) {
        *self
    }
}

/// Two textures in a checker pattern.
pub struct CheckerTexture<O, E> {
    pub odd: O,
    pub even: E,
}

impl<O: Texture, E: Texture> CheckerTexture<O, E> {
    /// The colour at a point. `sines` is the product of the sines of ten
    /// times each coordinate of the point: where it is below zero the odd
    /// texture is asked, else the even one.
    pub fn value(&self, sines: Scalar, u: Scalar, v: Scalar, point: Vec3f<Position>) -> (r: Vec3f<
        Color,
    >)
        ensures
            sines.lt_spec(Scalar { bits: 0 }) ==> self.odd.may_value(u, v, point, r),
            !sines.lt_spec(Scalar { bits: 0 }) ==> self.even.may_value(u, v, point, r),
    {
        if sines.lt(Scalar { bits: 0 }) {
            self.odd.value(u, v, point)
        } else {
            self.even.value(u, v, point)
        }
    }
}

/// An image of the `image` crate, four bytes a pixel: an
/// `image::RgbaImage`, held opaque. What it holds goes by the two names
/// below, and it is read through the wrappers that follow them.
#[verifier::external_body]
pub struct Picture {
    image: RgbaImage,
}

/// The number of pixels in each row of a picture.
pub uninterp spec fn picture_width(picture: Picture) -> nat;

/// The pixels of a picture, row by row from the top, each as red, green,
/// blue and alpha.
pub uninterp spec fn picture_rows(picture: Picture) -> Seq<Seq<(u8, u8, u8, u8)>>;

/// The pixel that starts at place `at` of the bytes.
pub open spec fn pixel_from(bytes: Seq<u8>, at: int) -> (u8, u8, u8, u8) {
    (bytes[at], bytes[at + 1], bytes[at + 2], bytes[at + 3])
}

/// Whether `len` bytes are enough for an image of the size given: the bytes
/// of one row, four for each pixel, can be counted in a machine word, and
/// those of all rows are no more than `len`.
pub open spec fn fits(width: u32, height: u32, len: nat) -> bool {
    4 * width <= usize::MAX && 4 * width * height <= len
}

/// Makes a picture of a size and its bytes, by `ImageBuffer::from_raw`.
/// Trusted: the crate counts the bytes needed as four times the width, times
/// the height, and gives no picture where either product leaves the machine
/// word or the bytes are fewer; else the picture has the size given and
/// holds the bytes row by row, the pixel in column `i` of row `j` starting
/// at byte `4 * (j * width + i)`.
#[verifier::external_body]
fn from_raw(width: u32, height: u32, bytes: Vec<u8>) -> (r: Option<Picture>)
    ensures
        r is Some <==> fits(width, height, bytes@.len()),
        r matches Some(picture) ==> picture_width(picture) == width && picture_rows(picture).len()
            == height && forall|i: int, j: int|
            0 <= i < width && 0 <= j < height ==> #[trigger] picture_rows(picture)[j][i]
                == pixel_from(bytes@, 4 * (j * width + i)),
{
    RgbaImage::from_raw(width, height, bytes).map(|image| Picture { image })
}

/// The width of a picture, by `ImageBuffer::width`. Trusted: the result is
/// the width that the picture was made with.
#[verifier::external_body]
fn width(picture: &Picture) -> (r: u32)
    ensures
        r == picture_width(*picture),
{
    picture.image.width()
}

/// The height of a picture, by `ImageBuffer::height`. Trusted: the result
/// is the number of rows of the picture.
#[verifier::external_body]
fn height(picture: &Picture) -> (r: u32)
    ensures
        r == picture_rows(*picture).len(),
{
    picture.image.height()
}

/// The pixel in column `i` of row `j`, by `ImageBuffer::get_pixel`, which
/// panics for a place outside the picture. Trusted: the result is the pixel
/// that the picture holds at that place.
#[verifier::external_body]
fn get_pixel(picture: &Picture, i: u32, j: u32) -> (r: (u8, u8, u8, u8))
    requires
        i < picture_width(*picture),
        j < picture_rows(*picture).len(),
    ensures
        r == picture_rows(*picture)[j as int][i as int],
{
    let pixel = picture.image.get_pixel(i, j).0;
    (pixel[0], pixel[1], pixel[2], pixel[3])
}

/// A texture read from an image, or the mark of an image that could not be
/// had.
pub struct ImageTexture {
    pub data: Option<Picture>,
}

/// The column or row that is asked for, held inside the image.
pub open spec fn held(index: u32, size: nat) -> int {
    if index >= size {
        size - 1
    } else {
        index as int
    }
}

impl ImageTexture {
    /// The texture of the image given by its size and its bytes: rows of
    /// pixels from the top, four bytes a pixel (red, green, blue, alpha).
    /// Where the bytes are fewer than four for each pixel, or those of one
    /// row cannot be counted in a machine word, the image counts as not to
    /// be had.
    pub fn new(width: u32, height: u32, bytes: Vec<u8>) -> (r: Self)
        ensures
            r.data is Some <==> fits(width, height, bytes@.len()),
            r.data matches Some(picture) ==> picture_width(picture) == width && picture_rows(
                picture,
            ).len() == height && forall|i: int, j: int|
                0 <= i < width && 0 <= j < height ==> #[trigger] picture_rows(picture)[j][i]
                    == pixel_from(bytes@, 4 * (j * width + i)),
    {
        ImageTexture { data: from_raw(width, height, bytes) }
    }

    /// The texture of an image that could not be had.
    pub fn missing() -> (r: Self)
        ensures
            r.data is None,
    {
        ImageTexture { data: None }
    }

    /// The colour shown where the image could not be had: cyan.
    pub fn fallback() -> (r: Vec3f<Color>)
        ensures
            r.x.bits == 0,
            r.y.bits == ONE_BITS,
            r.z.bits == ONE_BITS,
    {
        Vec3f::new(Scalar { bits: 0 }, Scalar { bits: ONE_BITS }, Scalar { bits: ONE_BITS })
    }

    /// The width and the height of the image, where there is one.
    pub fn size(&self) -> (r: Option<(u32, u32)>)
        ensures
            match self.data {
                None => r is None,
                Some(picture) => r matches Some(size) && size.0 == picture_width(picture) && size.1
                    == picture_rows(picture).len(),
            },
    {
        match &self.data {
            None => None,
            Some(picture) => Some((width(picture), height(picture))),
        }
    }

    /// What `pixel` gives: red, green and blue of the pixel in column `i` of
    /// row `j`, a column or row beyond the image counting as the last one;
    /// nothing where the image could not be had or has no pixel.
    pub open spec fn pixel_spec(self, i: u32, j: u32) -> Option<(u8, u8, u8)> {
        match self.data {
            None => None,
            Some(picture) => if picture_width(picture) == 0 || picture_rows(picture).len() == 0 {
                None
            } else {
                let p = picture_rows(picture)[held(j, picture_rows(picture).len())][held(
                    i,
                    picture_width(picture),
                )];
                Some((p.0, p.1, p.2))
            },
        }
    }

    /// Red, green and blue of the pixel in column `i` of row `j`.
    pub fn pixel(&self, i: u32, j: u32) -> (r: Option<(u8, u8, u8)>)
        ensures
            r == self.pixel_spec(i, j),
    {
        match &self.data {
            None => None,
            Some(picture) => {
                let w = width(picture);
                let h = height(picture);
                if w == 0 || h == 0 {
                    return None;
                }
                let i = if i >= w {
                    w - 1
                } else {
                    i
                };
                let j = if j >= h {
                    h - 1
                } else {
                    j
                };
                let p = get_pixel(picture, i, j);
                Some((p.0, p.1, p.2))
            },
        }
    }
}

} // verus!
