//! What is known about one intersection of a ray with a surface.

use crate::scalar::Scalar;
use crate::vec3::Vec3;
use vstd::prelude::*;

verus! {

/// One intersection: where along the ray it lies, where in space, how the
/// surface faces there and what the surface is made of.
///
/// The stored normal always opposes the incoming ray; `front_face` remembers
/// whether the surface's own outward normal did so when the record was made.
/// Materials are named by their index in the scene's material table.
#[derive(Clone, Copy, Debug, PartialEq, Eq)]
pub struct HitRecord {
    pub t: Scalar,
    pub point: Vec3,
    pub normal: Vec3,
    pub front_face: bool,
    pub uv: (Scalar, Scalar),
    pub material: Option<usize>,
}

/// The normal that opposes a ray, given the outward normal of the surface
/// and the ray's `incidence` on it (the dot product of the ray's direction
/// with the outward normal): the outward normal where the incidence is
/// negative, its opposite otherwise.
pub open spec fn opposing_normal(incidence: Scalar, outward_normal: Vec3) -> Vec3 {
    if incidence.spec_lt(Scalar::spec_zero()) {
        outward_normal
    } else {
        outward_normal.spec_neg()
    }
}

/// Turns a normal against a ray; see `opposing_normal`.
pub fn oppose(incidence: Scalar, outward_normal: Vec3) -> (r: Vec3)
    ensures
        r == opposing_normal(incidence, outward_normal),
{
    if incidence.lt(Scalar::zero()) {
        outward_normal
    } else {
        outward_normal.neg()
    }
}

impl HitRecord {
    /// The record `new_hit` builds.
    pub open spec fn spec_new_hit(
        t: Scalar,
        point: Vec3,
        outward_normal: Vec3,
        incidence: Scalar,
        uv: (Scalar, Scalar),
        material: usize,
    ) -> HitRecord {
        HitRecord {
            t,
            point,
            normal: opposing_normal(incidence, outward_normal),
            front_face: incidence.spec_lt(Scalar::spec_zero()),
            uv,
            material: Some(material),
        }
    }

    /// The record `new_hit_empty` builds.
    pub open spec fn spec_new_hit_empty() -> HitRecord {
        HitRecord {
            t: Scalar::spec_infinity(),
            point: Vec3::spec_zero(),
            normal: Vec3::spec_zero(),
            front_face: false,
            uv: (Scalar::spec_zero(), Scalar::spec_zero()),
            material: None,
        }
    }

    /// Records a hit at distance `t` and position `point` on a surface whose
    /// outward normal there is `outward_normal`. `incidence` is the dot
    /// product of the ray's direction with that normal: the ray meets the
    /// front of the surface exactly where it is negative, and the stored
    /// normal is turned to oppose the ray.
    pub fn new_hit(
        t: Scalar,
        point: Vec3,
        outward_normal: Vec3,
        incidence: Scalar,
        uv: (Scalar, Scalar),
        material: usize,
    ) -> (hit: HitRecord)
        ensures
            hit == HitRecord::spec_new_hit(t, point, outward_normal, incidence, uv, material),
            hit.normal == outward_normal || hit.normal == outward_normal.spec_neg(),
            hit.spec_outward_normal() == outward_normal,
    {
        let front_face = incidence.lt(Scalar::zero());
        let normal = oppose(incidence, outward_normal);
        HitRecord { t, point, normal, front_face, uv, material: Some(material) }
    }

    /// A record that stands for no surface: infinitely far away, at the
    /// origin, without a material.
    pub fn new_hit_empty() -> (hit: HitRecord)
        ensures
            hit == HitRecord::spec_new_hit_empty(),
    {
        HitRecord {
            t: Scalar::infinity(),
            point: Vec3::zero(),
            normal: Vec3::zero(),
            front_face: false,
            uv: (Scalar::zero(), Scalar::zero()),
            material: None,
        }
    }

    /// Whether the record stands for no surface.
    pub fn no_hit(&self) -> (r: bool)
        ensures
            r == (self.material is None),
    {
        self.material.is_none()
    }

    /// Distance along the ray.
    pub fn t(&self) -> (r: Scalar)
        ensures
            r == self.t,
    {
        self.t
    }

    /// Position of the intersection.
    pub fn point(&self) -> (r: Vec3)
        ensures
            r == self.point,
    {
        self.point
    }

    /// The surface normal, turned against the incoming ray.
    pub fn normal(&self) -> (r: Vec3)
        ensures
            r == self.normal,
    {
        self.normal
    }

    /// Whether the ray met the outward side of the surface.
    pub fn front_face(&self) -> (r: bool)
        ensures
            r == self.front_face,
    {
        self.front_face
    }

    /// The material at the intersection. Only a record of a surface has one.
    pub fn material(&self) -> (r: usize)
        requires
            self.material is Some,
        ensures
            Some(r) == self.material,
    {
        match self.material {
            Some(m) => m,
            None => 0,
        }
    }

    /// Surface coordinate of the intersection.
    pub fn uv(&self) -> (r: (Scalar, Scalar))
        ensures
            r == self.uv,
    {
        self.uv
    }

    /// Moves the recorded position to `destination`, the old position
    /// displaced by the caller. Nothing else changes.
    pub fn translate(&mut self, destination: Vec3)
        ensures
            *final(self) == (HitRecord { point: destination, ..*old(self) }),
    {
        self.point = destination;
    }

    /// Faces the record towards a ray whose incidence on the surface's
    /// outward normal `outward_normal` is `incidence`: the stored normal is
    /// turned against the ray, and `front_face` tells whether the outward
    /// normal opposed it. Distance, point, surface coordinate and material
    /// stay, and the outward normal can be had back from normal and flag.
    pub fn set_face_normal(&mut self, incidence: Scalar, outward_normal: Vec3)
        ensures
            *final(self) == (HitRecord {
                normal: opposing_normal(incidence, outward_normal),
                front_face: incidence.spec_lt(Scalar::spec_zero()),
                ..*old(self)
            }),
            final(self).spec_outward_normal() == outward_normal,
    {
        let front_face = incidence.lt(Scalar::zero());
        self.normal = oppose(incidence, outward_normal);
        self.front_face = front_face;
    }

    /// The outward normal of the surface at the intersection: the stored
    /// normal where the ray met the front, its opposite where it met the
    /// back.
    pub open spec fn spec_outward_normal(self) -> Vec3 {
        if self.front_face {
            self.normal
        } else {
            self.normal.spec_neg()
        }
    }

    /// The outward normal of the surface at the intersection.
    pub fn outward_normal(&self) -> (r: Vec3)
        ensures
            r == self.spec_outward_normal(),
    {
        if self.front_face {
            self.normal
        } else {
            self.normal.neg()
        }
    }
}

} // verus!
