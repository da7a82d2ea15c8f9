//! What a surface does to a ray that meets it: whether the ray goes on, and
//! with how much of its light.
//!
//! The directions of the outgoing rays are the caller's arithmetic. What is
//! decided here is whether a ray is scattered at all, which of the
//! candidate rays leaves the surface, and what attenuation it carries.

use crate::ray::Ray;
use crate::ray::ScatteredRay;
use crate::scalar::Scalar;
use crate::texture::SolidColor;
use crate::vec3::Vec3;
use vstd::prelude::*;

verus! {

/// A diffuse surface, whose colour is the texture `albedo`.
#[derive(Debug, PartialEq, Eq)]
pub struct Lambertian<T> {
    pub albedo: T,
}

impl<T> Lambertian<T> {
    /// The diffuse surface with the given texture.
    pub fn new(albedo: T) -> (r: Lambertian<T>)
        ensures
            r.albedo == albedo,
    {
        Lambertian { albedo }
    }

    /// Scatters a ray into `scattered`, the ray from the point hit along the
    /// normal plus a random unit vector. The surface never absorbs; the
    /// attenuation is the colour `sample` reads from the albedo texture, so
    /// the surface lets through no more light than its albedo does.
    pub fn scatter<F: Fn(&T) -> Vec3>(&self, scattered: Ray, sample: &F) -> (r: Option<ScatteredRay>)
        requires
            sample.requires((&self.albedo,)),
        ensures
            r is Some,
            r->0.ray == scattered,
            sample.ensures((&self.albedo,), r->0.attenuation),
            (forall|color: Vec3| #[trigger]
                sample.ensures((&self.albedo,), color) ==> color.within_unit())
                ==> r->0.attenuation.within_unit(),
    {
        Some(ScatteredRay { ray: scattered, attenuation: sample(&self.albedo) })
    }

    /// The light the surface gives off: none.
    pub fn emitted(&self) -> (r: Vec3)
        ensures
            r == Vec3::spec_zero(),
    {
        Vec3::zero()
    }
}

impl Lambertian<SolidColor> {
    /// The diffuse surface of one colour.
    pub fn new_from_color(albedo: Vec3) -> (r: Lambertian<SolidColor>)
        ensures
            r.albedo.color == albedo,
    {
        Lambertian { albedo: SolidColor::new(albedo) }
    }
}

/// A mirror of colour `albedo`, blurred by `fuzz`.
#[derive(Clone, Copy, Debug, PartialEq, Eq, Structural)]
pub struct Metal {
    pub albedo: Vec3,
    pub fuzz: Scalar,
}

impl Metal {
    /// What `scatter` returns.
    pub open spec fn scatter_spec(self, facing: Scalar, scattered: Ray) -> Option<ScatteredRay> {
        if facing.spec_gt(Scalar::spec_zero()) {
            Some(ScatteredRay { ray: scattered, attenuation: self.albedo })
        } else {
            None
        }
    }

    /// The mirror with the given colour and blur.
    pub fn new(albedo: Vec3, fuzz: Scalar) -> (r: Metal)
        ensures
            r == (Metal { albedo, fuzz }),
    {
        Metal { albedo, fuzz }
    }

    /// Scatters a ray by reflection. `scattered` is the ray from the point
    /// hit along the mirrored direction, blurred, and `facing` the dot
    /// product of its direction with the surface normal.
    ///
    /// A blurred reflection that points into the surface, or along it, is
    /// absorbed; any other leaves with the mirror's colour as attenuation.
    pub fn scatter(&self, facing: Scalar, scattered: Ray) -> (r: Option<ScatteredRay>)
        ensures
            r == self.scatter_spec(facing, scattered),
    {
        if facing.gt(Scalar::zero()) {
            Some(ScatteredRay { ray: scattered, attenuation: self.albedo })
        } else {
            None
        }
    }

    /// The light the surface gives off: none.
    pub fn emitted(&self) -> (r: Vec3)
        ensures
            r == Vec3::spec_zero(),
    {
        Vec3::zero()
    }
}

/// A clear material such as glass or water.
#[derive(Clone, Copy, Debug, PartialEq, Eq, Structural)]
pub struct Dielectric {
    pub refractive_index: Scalar,
}

/// The attenuation of a clear material: all light passes.
pub open spec fn clear() -> Vec3 {
    Vec3 { x: Scalar::spec_one(), y: Scalar::spec_one(), z: Scalar::spec_one() }
}

impl Dielectric {
    /// Whether a ray is mirrored rather than bent: always where it grazes
    /// the surface so flatly that Snell's law has no solution (`grazing`,
    /// the ratio of the refractive indices times the sine of the angle of
    /// incidence, exceeds one), and otherwise where the random `sample`
    /// falls below the reflectance `reflect_prob`.
    pub open spec fn reflects(grazing: Scalar, reflect_prob: Scalar, sample: Scalar) -> bool {
        grazing.spec_gt(Scalar::spec_one()) || sample.spec_lt(reflect_prob)
    }

    /// What `ratio` returns.
    pub open spec fn ratio_spec(self, front_face: bool, inverse: Scalar) -> Scalar {
        if front_face {
            inverse
        } else {
            self.refractive_index
        }
    }

    /// What `scatter` returns.
    pub open spec fn scatter_spec(
        grazing: Scalar,
        reflect_prob: Scalar,
        sample: Scalar,
        reflected: Ray,
        refracted: Ray,
    ) -> Option<ScatteredRay> {
        if Dielectric::reflects(grazing, reflect_prob, sample) {
            Some(ScatteredRay { ray: reflected, attenuation: clear() })
        } else {
            Some(ScatteredRay { ray: refracted, attenuation: clear() })
        }
    }

    /// The clear material with the given refractive index.
    pub fn new(refractive_index: Scalar) -> (r: Dielectric)
        ensures
            r.refractive_index == refractive_index,
    {
        Dielectric { refractive_index }
    }

    /// The ratio of the refractive indices a ray passes between: `inverse`,
    /// the reciprocal of the material's index, for a ray that enters through
    /// the front face, and the index itself for one that leaves.
    pub fn ratio(&self, front_face: bool, inverse: Scalar) -> (r: Scalar)
        ensures
            r == self.ratio_spec(front_face, inverse),
    {
        if front_face {
            inverse
        } else {
            self.refractive_index
        }
    }

    /// Scatters a ray by mirroring or bending it; see `reflects`.
    /// `reflected` and `refracted` are the two candidate rays. The material
    /// never absorbs and never tints.
    pub fn scatter(
        &self,
        grazing: Scalar,
        reflect_prob: Scalar,
        sample: Scalar,
        reflected: Ray,
        refracted: Ray,
    ) -> (r: Option<ScatteredRay>)
        ensures
            r == Dielectric::scatter_spec(grazing, reflect_prob, sample, reflected, refracted),
    {
        if grazing.gt(Scalar::one()) {
            return Some(ScatteredRay { ray: reflected, attenuation: Vec3::splat(Scalar::one()) });
        }
        if sample.lt(reflect_prob) {
            return Some(ScatteredRay { ray: reflected, attenuation: Vec3::splat(Scalar::one()) });
        }
        Some(ScatteredRay { ray: refracted, attenuation: Vec3::splat(Scalar::one()) })
    }

    /// The light the surface gives off: none.
    pub fn emitted(&self) -> (r: Vec3)
        ensures
            r == Vec3::spec_zero(),
    {
        Vec3::zero()
    }
}

/// A surface that gives off light and scatters none.
#[derive(Debug, PartialEq, Eq)]
pub struct DiffuseLight<T> {
    pub emit: T,
}

impl<T> DiffuseLight<T> {
    /// The light whose colour is the texture `emit`.
    pub fn new(emit: T) -> (r: DiffuseLight<T>)
        ensures
            r.emit == emit,
    {
        DiffuseLight { emit }
    }

    /// Scatters nothing: every ray that meets a light ends there.
    pub fn scatter(&self) -> (r: Option<ScatteredRay>)
        ensures
            r is None,
    {
        None
    }

    /// The light the surface gives off: the colour `sample` reads from the
    /// texture.
    pub fn emitted<F: Fn(&T) -> Vec3>(&self, sample: &F) -> (r: Vec3)
        requires
            sample.requires((&self.emit,)),
        ensures
            sample.ensures((&self.emit,), r),
    {
        sample(&self.emit)
    }
}

impl DiffuseLight<SolidColor> {
    /// The light of one colour.
    pub fn new_from_color(color: Vec3) -> (r: DiffuseLight<SolidColor>)
        ensures
            r.emit.color == color,
    {
        DiffuseLight { emit: SolidColor::new(color) }
    }
}

/// A ray that meets a clear surface head-on, between two media of the same
/// refractive index, is bent and never mirrored: it does not graze, and the
/// reflectance is zero, below which no sample falls.
pub proof fn lemma_matched_media_refract(
    grazing: Scalar,
    reflect_prob: Scalar,
    sample: Scalar,
    reflected: Ray,
    refracted: Ray,
)
    requires
        grazing.rank() == 0,
        reflect_prob.rank() == 0,
        !sample.nan() ==> sample.rank() >= 0,
    ensures
        Dielectric::scatter_spec(grazing, reflect_prob, sample, reflected, refracted) == Some(
            ScatteredRay { ray: refracted, attenuation: clear() },
        ),
{
}

} // verus!
