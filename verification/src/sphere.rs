//! Spheres, and which of the two points where a line pierces one counts as
//! the hit.
//!
//! The caller solves the quadratic `|O + tD - C|^2 = r^2`; what is decided
//! here is which root, if any, is reported.

use crate::hit_record::HitRecord;
use crate::scalar::Double;
use crate::scalar::Scalar;
use crate::vec3::Vec3;
use vstd::prelude::*;

verus! {

/// A sphere of one material.
#[derive(Clone, Copy, Debug, PartialEq, Eq, Structural)]
pub struct Sphere {
    pub center: Vec3,
    pub radius: Double,
    pub material: usize,
}

/// What the caller has worked out about one root of the quadratic: the
/// distance along the ray, the point there, the outward normal of the sphere
/// at that point (the point as seen from the centre, divided by the radius),
/// the dot product of the ray's direction with that normal, and the surface
/// coordinate.
#[derive(Clone, Copy, Debug, PartialEq, Eq)]
pub struct Root {
    pub t: Scalar,
    pub point: Vec3,
    pub outward_normal: Vec3,
    pub incidence: Scalar,
    pub uv: (Scalar, Scalar),
}

/// Whether `t` lies strictly between `t_min` and `t_max`.
pub open spec fn strictly_between(t: Scalar, t_min: Scalar, t_max: Scalar) -> bool {
    t_min.spec_lt(t) && t.spec_lt(t_max)
}

/// The record of a hit at a root, on a sphere of the given material.
pub open spec fn record_at(root: Root, material: usize) -> HitRecord {
    HitRecord::spec_new_hit(
        root.t,
        root.point,
        root.outward_normal,
        root.incidence,
        root.uv,
        material,
    )
}

impl Sphere {
    /// What `hit` reports.
    pub open spec fn hit_spec(
        self,
        discriminant: Double,
        near: Root,
        far: Root,
        t_min: Scalar,
        t_max: Scalar,
    ) -> Option<HitRecord> {
        if !discriminant.not_negative() {
            None
        } else if strictly_between(near.t, t_min, t_max) {
            Some(record_at(near, self.material))
        } else if strictly_between(far.t, t_min, t_max) {
            Some(record_at(far, self.material))
        } else {
            None
        }
    }

    /// The sphere around `center` with the given radius and material.
    pub fn new(center: Vec3, radius: Double, material: usize) -> (r: Sphere)
        ensures
            r == (Sphere { center, radius, material }),
    {
        Sphere { center, radius, material }
    }

    /// Intersects a ray with the sphere, given the discriminant of the
    /// quadratic and its two roots, `near` the one with the root of the
    /// discriminant subtracted and `far` the one with it added.
    ///
    /// A ray whose discriminant is negative, or no number, has no real root
    /// and misses the sphere; a ray whose discriminant is zero touches it at
    /// one point, where both roots lie. The near root is reported where it
    /// lies strictly between `t_min` and `t_max`, else the far root where
    /// that one does, else nothing. A reported hit lies at a distance that
    /// is a number.
    pub fn hit(&self, discriminant: Double, near: &Root, far: &Root, t_min: Scalar, t_max: Scalar) -> (r:
        Option<HitRecord>)
        ensures
            r == self.hit_spec(discriminant, *near, *far, t_min, t_max),
            r matches Some(h) ==> strictly_between(h.t, t_min, t_max) && h.material == Some(
                self.material,
            ) && (h.t == near.t || h.t == far.t) && !h.t.nan(),
    {
        if discriminant.is_not_negative() {
            if t_min.lt(near.t) && near.t.lt(t_max) {
                return Some(
                    HitRecord::new_hit(
                        near.t,
                        near.point,
                        near.outward_normal,
                        near.incidence,
                        near.uv,
                        self.material,
                    ),
                );
            }
            if t_min.lt(far.t) && far.t.lt(t_max) {
                return Some(
                    HitRecord::new_hit(
                        far.t,
                        far.point,
                        far.outward_normal,
                        far.incidence,
                        far.uv,
                        self.material,
                    ),
                );
            }
        }
        None
    }
}

/// Of the roots that lie strictly between the bounds the smallest is
/// reported: where the near root is no greater than the far one, no root in
/// range lies closer than the reported hit, and nothing is reported only
/// where neither root is in range or the discriminant is negative or no
/// number.
pub proof fn lemma_smallest_root_in_range(
    sphere: Sphere,
    discriminant: Double,
    near: Root,
    far: Root,
    t_min: Scalar,
    t_max: Scalar,
)
    requires
        near.t.spec_le(far.t),
    ensures
        match sphere.hit_spec(discriminant, near, far, t_min, t_max) {
            Some(h) => {
                &&& strictly_between(near.t, t_min, t_max) ==> h.t.spec_le(near.t)
                &&& strictly_between(far.t, t_min, t_max) ==> h.t.spec_le(far.t)
            },
            None => !discriminant.not_negative() || (!strictly_between(near.t, t_min, t_max)
                && !strictly_between(far.t, t_min, t_max)),
        },
{
}

} // verus!
