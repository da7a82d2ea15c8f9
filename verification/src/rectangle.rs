//! Rectangles that lie in a plane perpendicular to one of the axes.
//!
//! The caller intersects a ray with the plane of the rectangle; whether the
//! crossing counts as a hit, how the surface faces there and which box
//! holds the rectangle is decided here.

use crate::aabb::AABB;
use crate::hit_record::HitRecord;
use crate::scalar::Scalar;
use crate::vec3::Vec3;
use vstd::prelude::*;

verus! {

/// One of the three coordinate axes.
#[derive(Clone, Copy, Debug, PartialEq, Eq, Structural)]
pub enum Axis {
    X,
    Y,
    Z,
}

impl Axis {
    /// The place of the axis among the components of a vector.
    pub open spec fn spec_index(self) -> usize {
        match self {
            Axis::X => 0,
            Axis::Y => 1,
            Axis::Z => 2,
        }
    }

    /// The place of the axis among the components of a vector: 0 for x, 1
    /// for y, 2 for z.
    #[verifier::when_used_as_spec(spec_index)]
    pub fn index(self) -> (r: usize)
        ensures
            r == self.spec_index(),
            r < 3,
    {
        match self {
            Axis::X => 0,
            Axis::Y => 1,
            Axis::Z => 2,
        }
    }
}

/// A rectangle in the plane where the coordinate along `axis_normal` is `k`.
/// Within the plane it reaches from `c0` to `c1`, whose first entries lie
/// along `axis_u` and whose second entries along `axis_v`.
#[derive(Clone, Copy, Debug, PartialEq, Eq)]
pub struct AxisRectangle {
    pub c0: [Scalar; 2],
    pub c1: [Scalar; 2],
    pub k: Scalar,
    pub axis_u: usize,
    pub axis_v: usize,
    pub axis_normal: usize,
    pub material: usize,
}

/// Whether a ray has no crossing with a plane that could be reported: the
/// distance, one of the two coordinates within the plane, or one of the two
/// surface coordinates is not a number. That is so for a ray that runs
/// within the plane, and for a rectangle without extent along one of its
/// sides.
pub open spec fn crossing_is_undefined(
    t: Scalar,
    along_u: Scalar,
    along_v: Scalar,
    uv: (Scalar, Scalar),
) -> bool {
    t.nan() || along_u.nan() || along_v.nan() || uv.0.nan() || uv.1.nan()
}

impl AxisRectangle {
    /// Whether the three axes of the rectangle are the three coordinate axes,
    /// each once.
    pub open spec fn well_formed(self) -> bool {
        &&& self.axis_u < 3
        &&& self.axis_v < 3
        &&& self.axis_normal < 3
        &&& self.axis_u != self.axis_v
        &&& self.axis_u != self.axis_normal
        &&& self.axis_v != self.axis_normal
    }

    /// The rectangle with the given extent, plane and axes.
    pub open spec fn spec_new(
        c0: [Scalar; 2],
        c1: [Scalar; 2],
        k: Scalar,
        axis_u: Axis,
        axis_v: Axis,
        axis_normal: Axis,
        material: usize,
    ) -> AxisRectangle {
        AxisRectangle {
            c0,
            c1,
            k,
            axis_u: axis_u.spec_index(),
            axis_v: axis_v.spec_index(),
            axis_normal: axis_normal.spec_index(),
            material,
        }
    }

    /// Whether the point of the plane with the coordinates `along_u` along
    /// `axis_u` and `along_v` along `axis_v` lies outside the rectangle.
    pub open spec fn excludes(self, along_u: Scalar, along_v: Scalar) -> bool {
        along_u.spec_lt(self.c0[0]) || self.c1[0].spec_lt(along_u) || along_v.spec_lt(self.c0[1])
            || self.c1[1].spec_lt(along_v)
    }

    /// The unit vector along the normal axis, which the rectangle turns
    /// outward.
    pub open spec fn spec_outward_normal(self) -> Vec3 {
        Vec3::spec_zero().spec_with_axis(self.axis_normal as int, Scalar::spec_one())
    }

    /// What `hit` reports.
    pub open spec fn hit_spec(
        self,
        t: Scalar,
        along_u: Scalar,
        along_v: Scalar,
        point: Vec3,
        incidence: Scalar,
        uv: (Scalar, Scalar),
        t_min: Scalar,
        t_max: Scalar,
    ) -> Option<HitRecord> {
        if crossing_is_undefined(t, along_u, along_v, uv) {
            None
        } else if t.spec_lt(t_min) || t_max.spec_lt(t) {
            None
        } else if self.excludes(along_u, along_v) {
            None
        } else {
            Some(
                HitRecord::spec_new_hit(
                    t,
                    point,
                    self.spec_outward_normal(),
                    incidence,
                    uv,
                    self.material,
                ),
            )
        }
    }

    /// The box `bounding_box` builds.
    pub open spec fn spec_bounding_box(self, below: Scalar, above: Scalar) -> AABB {
        AABB {
            min: Vec3::spec_zero().spec_with_axis(self.axis_u as int, self.c0[0]).spec_with_axis(
                self.axis_v as int,
                self.c0[1],
            ).spec_with_axis(self.axis_normal as int, below),
            max: Vec3::spec_zero().spec_with_axis(self.axis_u as int, self.c1[0]).spec_with_axis(
                self.axis_v as int,
                self.c1[1],
            ).spec_with_axis(self.axis_normal as int, above),
        }
    }

    /// A rectangle in the plane `z = k` that reaches from `(x0, y0)` to
    /// `(x1, y1)`.
    pub fn new_xy(x0: Scalar, x1: Scalar, y0: Scalar, y1: Scalar, k: Scalar, material: usize) -> (r:
        AxisRectangle)
        ensures
            r == AxisRectangle::spec_new([x0, y0], [x1, y1], k, Axis::X, Axis::Y, Axis::Z, material),
            r.well_formed(),
    {
        AxisRectangle::new([x0, y0], [x1, y1], k, Axis::X, Axis::Y, Axis::Z, material)
    }

    /// A rectangle in the plane `y = k` that reaches from `(x0, z0)` to
    /// `(x1, z1)`.
    pub fn new_xz(x0: Scalar, x1: Scalar, z0: Scalar, z1: Scalar, k: Scalar, material: usize) -> (r:
        AxisRectangle)
        ensures
            r == AxisRectangle::spec_new([x0, z0], [x1, z1], k, Axis::X, Axis::Z, Axis::Y, material),
            r.well_formed(),
    {
        AxisRectangle::new([x0, z0], [x1, z1], k, Axis::X, Axis::Z, Axis::Y, material)
    }

    /// A rectangle in the plane `x = k` that reaches from `(y0, z0)` to
    /// `(y1, z1)`.
    pub fn new_yz(y0: Scalar, y1: Scalar, z0: Scalar, z1: Scalar, k: Scalar, material: usize) -> (r:
        AxisRectangle)
        ensures
            r == AxisRectangle::spec_new([y0, z0], [y1, z1], k, Axis::Y, Axis::Z, Axis::X, material),
            r.well_formed(),
    {
        AxisRectangle::new([y0, z0], [y1, z1], k, Axis::Y, Axis::Z, Axis::X, material)
    }

    fn new(
        c0: [Scalar; 2],
        c1: [Scalar; 2],
        k: Scalar,
        axis_u: Axis,
        axis_v: Axis,
        axis_normal: Axis,
        material: usize,
    ) -> (r: AxisRectangle)
        ensures
            r == AxisRectangle::spec_new(c0, c1, k, axis_u, axis_v, axis_normal, material),
    {
        AxisRectangle {
            c0,
            c1,
            k,
            axis_u: axis_u.index(),
            axis_v: axis_v.index(),
            axis_normal: axis_normal.index(),
            material,
        }
    }

    /// Whether the three axes of the rectangle are the three coordinate axes,
    /// each once.
    pub fn is_well_formed(&self) -> (r: bool)
        ensures
            r == self.well_formed(),
    {
        self.axis_u < 3 && self.axis_v < 3 && self.axis_normal < 3 && self.axis_u != self.axis_v
            && self.axis_u != self.axis_normal && self.axis_v != self.axis_normal
    }

    /// The unit vector along the normal axis.
    pub fn outward_normal(&self) -> (r: Vec3)
        requires
            self.well_formed(),
        ensures
            r == self.spec_outward_normal(),
    {
        Vec3::zero().with_axis(self.axis_normal, Scalar::one())
    }

    /// Decides whether a ray that crosses the plane of the rectangle hits
    /// the rectangle between `t_min` and `t_max`.
    ///
    /// `t` is where the ray crosses the plane, `along_u` and `along_v` are the
    /// coordinates of the crossing along `axis_u` and `axis_v`, `point` is
    /// the crossing itself, `incidence` the dot product of the ray's
    /// direction with the outward normal, and `uv` the place of the crossing
    /// within the rectangle, each side scaled to one.
    ///
    /// A crossing before `t_min` or after `t_max` is no hit, and neither is
    /// one outside the extent of the rectangle; its edges belong to it. A
    /// ray without a crossing that could be reported (see
    /// `crossing_is_undefined`) is no hit either, so that a reported hit
    /// lies at a distance that is a number.
    pub fn hit(
        &self,
        t: Scalar,
        along_u: Scalar,
        along_v: Scalar,
        point: Vec3,
        incidence: Scalar,
        uv: (Scalar, Scalar),
        t_min: Scalar,
        t_max: Scalar,
    ) -> (r: Option<HitRecord>)
        requires
            self.well_formed(),
        ensures
            r == self.hit_spec(t, along_u, along_v, point, incidence, uv, t_min, t_max),
            r matches Some(h) ==> !h.t.nan() && h.t == t && h.material == Some(self.material),
    {
        if t.is_nan() || along_u.is_nan() || along_v.is_nan() || uv.0.is_nan() || uv.1.is_nan() {
            return None;
        }
        if t.lt(t_min) || t_max.lt(t) {
            return None;
        }
        if along_u.lt(self.c0[0]) || self.c1[0].lt(along_u) || along_v.lt(self.c0[1]) || self.c1[1].lt(along_v) {
            return None;
        }
        let outward_normal = self.outward_normal();
        Some(HitRecord::new_hit(t, point, outward_normal, incidence, uv, self.material))
    }

    /// The box around the rectangle. Along the two axes of its plane the box
    /// has the extent of the rectangle; along the normal axis it reaches from
    /// `below` to `above`, the plane's coordinate moved a little to either
    /// side by the caller so that the box is not flat.
    pub fn bounding_box(&self, below: Scalar, above: Scalar) -> (r: AABB)
        requires
            self.well_formed(),
        ensures
            r == self.spec_bounding_box(below, above),
            r.min.spec_axis(self.axis_u as int) == self.c0[0],
            r.min.spec_axis(self.axis_v as int) == self.c0[1],
            r.min.spec_axis(self.axis_normal as int) == below,
            r.max.spec_axis(self.axis_u as int) == self.c1[0],
            r.max.spec_axis(self.axis_v as int) == self.c1[1],
            r.max.spec_axis(self.axis_normal as int) == above,
    {
        let min = Vec3::zero().with_axis(self.axis_u, self.c0[0]).with_axis(
            self.axis_v,
            self.c0[1],
        ).with_axis(self.axis_normal, below);
        let max = Vec3::zero().with_axis(self.axis_u, self.c1[0]).with_axis(
            self.axis_v,
            self.c1[1],
        ).with_axis(self.axis_normal, above);
        AABB::new(min, max)
    }
}

} // verus!
