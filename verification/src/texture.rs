//! Textures: colours that depend on where a surface is looked at.

use crate::perlin::Perlin;
use crate::scalar::Scalar;
use crate::vec3::Vec3;
use vstd::prelude::*;

verus! {

/// The same colour everywhere.
#[derive(Clone, Copy, Debug, PartialEq, Eq, Structural)]
pub struct SolidColor {
    pub color: Vec3,
}

impl SolidColor {
    /// The texture that is `color` everywhere.
    pub fn new(color: Vec3) -> (r: SolidColor)
        ensures
            r.color == color,
    {
        SolidColor { color }
    }

    /// The colour of the texture, whatever the surface coordinate and the
    /// point.
    pub fn color(&self, uv: (Scalar, Scalar), p: &Vec3) -> (r: Vec3)
        ensures
            r == self.color,
    {
        self.color
    }
}

/// A three-dimensional checker pattern of two textures.
#[derive(Debug, PartialEq, Eq)]
pub struct CheckerTexture<T> {
    pub odd: T,
    pub even: T,
    pub square_size: Scalar,
}

impl<T> CheckerTexture<T> {
    /// The texture the pattern shows at a point, given the product of the
    /// sines of the point's three coordinates, each scaled by
    /// `square_size`: the odd texture where the product is negative, the
    /// even one elsewhere.
    pub open spec fn shows(self, sines_product: Scalar) -> T {
        if sines_product.spec_lt(Scalar::spec_zero()) {
            self.odd
        } else {
            self.even
        }
    }

    /// The pattern of `odd` and `even`.
    pub fn new(odd: T, even: T, square_size: Scalar) -> (r: CheckerTexture<T>)
        ensures
            r.odd == odd,
            r.even == even,
            r.square_size == square_size,
    {
        CheckerTexture { odd, even, square_size }
    }

    /// The colour of the pattern at a point whose product of sines is
    /// `sines_product`. `sample` evaluates one of the two textures at the
    /// point; it is asked for the texture the pattern shows there and for no
    /// other.
    pub fn color<F: Fn(&T) -> Vec3>(&self, sines_product: Scalar, sample: &F) -> (r: Vec3)
        requires
            sample.requires((&self.odd,)),
            sample.requires((&self.even,)),
        ensures
            sample.ensures((&self.shows(sines_product),), r),
    {
        if sines_product.lt(Scalar::zero()) {
            sample(&self.odd)
        } else {
            sample(&self.even)
        }
    }
}

/// A marble-like texture made from gradient noise.
#[derive(Clone, Copy, Debug, PartialEq, Eq)]
pub struct NoiseTexture {
    pub noise: Perlin,
    pub scale: Scalar,
}

impl NoiseTexture {
    /// The noise texture of the given scale over the given random vectors.
    pub fn new(scale: Scalar, ranvec: [Vec3; 256]) -> (r: NoiseTexture)
        ensures
            r.scale == scale,
            r.noise.ranvec == ranvec,
            r.noise.well_formed(),
    {
        NoiseTexture { noise: Perlin::new(ranvec), scale }
    }
}

impl CheckerTexture<SolidColor> {
    /// The pattern of two plain colours.
    pub fn new_from_colors(odd: Vec3, even: Vec3, square_size: Scalar) -> (r: CheckerTexture<
        SolidColor,
    >)
        ensures
            r.odd.color == odd,
            r.even.color == even,
            r.square_size == square_size,
    {
        CheckerTexture { odd: SolidColor::new(odd), even: SolidColor::new(even), square_size }
    }
}

} // verus!
