//! Boxes with sides parallel to the axes, made of six rectangles.

use crate::aabb::AABB;
use crate::hit_record::HitRecord;
use crate::hittable::closest;
use crate::hittable::HittableList;
use crate::rectangle::Axis;
use crate::rectangle::AxisRectangle;
use crate::vec3::Vec3;
use vstd::prelude::*;

verus! {

/// A closed box between two corners.
pub struct Cuboid {
    pub min: Vec3,
    pub max: Vec3,
    pub sides: HittableList<AxisRectangle>,
}

/// The six sides of the box between `low` and `high`: for each axis the side
/// at `high` and then the side at `low`, first across z, then across y, then
/// across x.
pub open spec fn faces(low: Vec3, high: Vec3, material: usize) -> Seq<AxisRectangle> {
    seq![
        AxisRectangle::spec_new([low.x, low.y], [high.x, high.y], high.z, Axis::X, Axis::Y, Axis::Z, material),
        AxisRectangle::spec_new([low.x, low.y], [high.x, high.y], low.z, Axis::X, Axis::Y, Axis::Z, material),
        AxisRectangle::spec_new([low.x, low.z], [high.x, high.z], high.y, Axis::X, Axis::Z, Axis::Y, material),
        AxisRectangle::spec_new([low.x, low.z], [high.x, high.z], low.y, Axis::X, Axis::Z, Axis::Y, material),
        AxisRectangle::spec_new([low.y, low.z], [high.y, high.z], high.x, Axis::Y, Axis::Z, Axis::X, material),
        AxisRectangle::spec_new([low.y, low.z], [high.y, high.z], low.x, Axis::Y, Axis::Z, Axis::X, material),
    ]
}

/// Whether a rectangle is a whole side of the box between `low` and `high`: it
/// lies in the plane through one of the two corners, and within that plane
/// it reaches from the one corner to the other.
pub open spec fn is_side_of(face: AxisRectangle, low: Vec3, high: Vec3) -> bool {
    &&& face.well_formed()
    &&& face.k == low.spec_axis(face.axis_normal as int) || face.k == high.spec_axis(
        face.axis_normal as int,
    )
    &&& face.c0[0] == low.spec_axis(face.axis_u as int)
    &&& face.c0[1] == low.spec_axis(face.axis_v as int)
    &&& face.c1[0] == high.spec_axis(face.axis_u as int)
    &&& face.c1[1] == high.spec_axis(face.axis_v as int)
}

impl Cuboid {
    /// The box between the corners `low` and `high`, all of one material.
    pub fn new(low: Vec3, high: Vec3, material: usize) -> (r: Cuboid)
        ensures
            r.min == low,
            r.max == high,
            r.sides.list@ == faces(low, high, material),
    {
        let mut sides: HittableList<AxisRectangle> = HittableList::new();
        sides.list.push(AxisRectangle::new_xy(low.x(), high.x(), low.y(), high.y(), high.z(), material));
        sides.list.push(AxisRectangle::new_xy(low.x(), high.x(), low.y(), high.y(), low.z(), material));
        sides.list.push(AxisRectangle::new_xz(low.x(), high.x(), low.z(), high.z(), high.y(), material));
        sides.list.push(AxisRectangle::new_xz(low.x(), high.x(), low.z(), high.z(), low.y(), material));
        sides.list.push(AxisRectangle::new_yz(low.y(), high.y(), low.z(), high.z(), high.x(), material));
        sides.list.push(AxisRectangle::new_yz(low.y(), high.y(), low.z(), high.z(), low.x(), material));
        proof {
            assert(sides.list@ =~= faces(low, high, material));
        }
        Cuboid { min: low, max: high, sides }
    }

    /// Intersects a ray with the six sides and returns the closest
    /// intersection. `probe` intersects the ray with one side.
    pub fn hit<F: Fn(&AxisRectangle) -> Option<HitRecord>>(&self, probe: &F) -> (r: Option<
        HitRecord,
    >)
        requires
            forall|i: int|
                0 <= i < self.sides.list@.len() ==> probe.requires(
                    (&#[trigger] self.sides.list@[i],),
                ),
        ensures
            exists|hits: Seq<Option<HitRecord>>|
                self.sides.probed(*probe, hits) && r == closest(hits),
    {
        self.sides.hit(probe)
    }

    /// The box itself.
    pub fn bounding_box(&self) -> (r: AABB)
        ensures
            r == (AABB { min: self.min, max: self.max }),
    {
        AABB::new(self.min, self.max)
    }
}

/// The six rectangles of a box are its six sides: each is a whole side of
/// the box's material, and across every axis one lies in the plane through
/// the first corner and one in the plane through the second.
pub proof fn lemma_faces_are_sides(low: Vec3, high: Vec3, material: usize)
    ensures
        faces(low, high, material).len() == 6,
        forall|i: int|
            0 <= i < 6 ==> is_side_of(#[trigger] faces(low, high, material)[i], low, high) && faces(
                low,
                high,
                material,
            )[i].material == material,
        closes_across(faces(low, high, material), 0, low, high),
        closes_across(faces(low, high, material), 1, low, high),
        closes_across(faces(low, high, material), 2, low, high),
{
    let f = faces(low, high, material);
    assert(is_side_of(f[0], low, high));
    assert(is_side_of(f[1], low, high));
    assert(is_side_of(f[2], low, high));
    assert(is_side_of(f[3], low, high));
    assert(is_side_of(f[4], low, high));
    assert(is_side_of(f[5], low, high));
    assert(faces_axis_at(f, 0, 2, high) && faces_axis_at(f, 1, 2, low));
    assert(faces_axis_at(f, 2, 1, high) && faces_axis_at(f, 3, 1, low));
    assert(faces_axis_at(f, 4, 0, high) && faces_axis_at(f, 5, 0, low));
}

/// Whether side `i` of `sides` lies across `axis`, in the plane through
/// `corner`.
pub open spec fn faces_axis_at(sides: Seq<AxisRectangle>, i: int, axis: int, corner: Vec3) -> bool {
    0 <= i < sides.len() && sides[i].axis_normal == axis && sides[i].k == corner.spec_axis(axis)
}

/// Whether `sides` closes the box between `low` and `high` across `axis`: one
/// side lies in the plane through `high` and one in the plane through `low`.
pub open spec fn closes_across(sides: Seq<AxisRectangle>, axis: int, low: Vec3, high: Vec3) -> bool {
    exists|i: int, j: int|
        #[trigger] faces_axis_at(sides, i, axis, high) && #[trigger] faces_axis_at(sides, j, axis, low)
}

} // verus!
