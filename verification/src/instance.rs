//! Moved and turned objects.
//!
//! A ray is intersected with such an object in the object's own place, and
//! the intersection is carried back into the scene. Turning an object about
//! an axis turns its bounding box out of line with the axes: the box of the
//! turned object is the box around the eight corners of the old box after
//! each has been turned. Moving and turning points is the caller's
//! arithmetic.

use crate::aabb::AABB;
use crate::hit_record::oppose;
use crate::hit_record::opposing_normal;
use crate::hit_record::HitRecord;
use crate::scalar::Scalar;
use crate::vec3::Vec3;
use vstd::prelude::*;

verus! {

/// The corner of a box that lies at the greatest coordinate along the axes
/// for which the flag is set, and at the least along the others.
pub open spec fn corner(aabb: AABB, i: bool, j: bool, k: bool) -> Vec3 {
    Vec3 {
        x: if i {
            aabb.max.x
        } else {
            aabb.min.x
        },
        y: if j {
            aabb.max.y
        } else {
            aabb.min.y
        },
        z: if k {
            aabb.max.z
        } else {
            aabb.min.z
        },
    }
}

/// The eight corners of a box, the z flag changing fastest and the x flag
/// slowest.
pub open spec fn corners_spec(aabb: AABB) -> Seq<Vec3> {
    seq![
        corner(aabb, false, false, false),
        corner(aabb, false, false, true),
        corner(aabb, false, true, false),
        corner(aabb, false, true, true),
        corner(aabb, true, false, false),
        corner(aabb, true, false, true),
        corner(aabb, true, true, false),
        corner(aabb, true, true, true),
    ]
}

/// The box that holds nothing: it starts at positive infinity and ends at
/// negative infinity along every axis, so that the first point taken in
/// sets both corners.
pub open spec fn empty_box() -> AABB {
    AABB {
        min: Vec3 {
            x: Scalar::spec_infinity(),
            y: Scalar::spec_infinity(),
            z: Scalar::spec_infinity(),
        },
        max: Vec3 {
            x: Scalar::spec_neg_infinity(),
            y: Scalar::spec_neg_infinity(),
            z: Scalar::spec_neg_infinity(),
        },
    }
}

/// The smallest box around a sequence of points, taken in one by one.
pub open spec fn enclosing_spec(points: Seq<Vec3>) -> AABB
    decreases points.len(),
{
    if points.len() == 0 {
        empty_box()
    } else {
        let before = enclosing_spec(points.drop_last());
        AABB {
            min: before.min.spec_min(points.last()),
            max: before.max.spec_max(points.last()),
        }
    }
}

/// Whether `point` lies within `aabb`, its faces included.
pub open spec fn holds(aabb: AABB, point: Vec3) -> bool {
    aabb.encloses(AABB { min: point, max: point })
}

/// The eight corners of a box.
pub fn corners(aabb: &AABB) -> (r: [Vec3; 8])
    ensures
        r@ == corners_spec(*aabb),
{
    let low = aabb.min();
    let high = aabb.max();
    let r = [
        Vec3::new(low.x(), low.y(), low.z()),
        Vec3::new(low.x(), low.y(), high.z()),
        Vec3::new(low.x(), high.y(), low.z()),
        Vec3::new(low.x(), high.y(), high.z()),
        Vec3::new(high.x(), low.y(), low.z()),
        Vec3::new(high.x(), low.y(), high.z()),
        Vec3::new(high.x(), high.y(), low.z()),
        Vec3::new(high.x(), high.y(), high.z()),
    ];
    proof {
        assert(r@ =~= corners_spec(*aabb));
    }
    r
}

/// The smallest box around eight points: along each axis it starts at the
/// least and ends at the greatest coordinate among them.
pub fn enclosing(points: &[Vec3; 8]) -> (r: AABB)
    ensures
        r == enclosing_spec(points@),
{
    let mut min = Vec3::splat(Scalar::infinity());
    let mut max = Vec3::splat(Scalar::neg_infinity());
    let mut n: usize = 0;
    while n < 8
        invariant
            n <= 8,
            (AABB { min, max }) == enclosing_spec(points@.take(n as int)),
        decreases 8 - n,
    {
        proof {
            assert(points@.take(n + 1).drop_last() =~= points@.take(n as int));
        }
        let compare = points[n];
        min = min.min(compare);
        max = max.max(compare);
        n += 1;
    }
    proof {
        assert(points@.take(8) =~= points@);
    }
    AABB::new(min, max)
}

/// Whether `turned` may be what `turn` makes of the corners of `aabb`, corner
/// by corner.
pub open spec fn turns_corners<F: Fn(Vec3) -> Vec3>(turn: F, aabb: AABB, turned: Seq<Vec3>) -> bool {
    &&& turned.len() == 8
    &&& forall|i: int|
        0 <= i < 8 ==> turn.ensures((corners_spec(aabb)[i],), #[trigger] turned[i])
}

/// The box of a turned object: the smallest box around the eight corners
/// of the object's own box after `turn` has turned each.
pub fn turned_box<F: Fn(Vec3) -> Vec3>(aabb: &AABB, turn: &F) -> (r: AABB)
    requires
        forall|i: int| 0 <= i < 8 ==> turn.requires((#[trigger] corners_spec(*aabb)[i],)),
    ensures
        exists|turned: Seq<Vec3>| turns_corners(*turn, *aabb, turned) && r == enclosing_spec(turned),
{
    let from = corners(aabb);
    let to = [
        turn(from[0]),
        turn(from[1]),
        turn(from[2]),
        turn(from[3]),
        turn(from[4]),
        turn(from[5]),
        turn(from[6]),
        turn(from[7]),
    ];
    proof {
        assert(turns_corners(*turn, *aabb, to@));
    }
    enclosing(&to)
}

/// Where an intersection found on the object in its own place lies once the
/// object is moved or turned into the scene: the point, the normal of the
/// intersection carried along with it (`outward_normal`, the side of the
/// surface that faced the ray in the object's own place), and the dot
/// product of the ray's direction with that normal, both taken in the scene.
#[derive(Clone, Copy, Debug, PartialEq, Eq)]
pub struct Placement {
    pub point: Vec3,
    pub outward_normal: Vec3,
    pub incidence: Scalar,
}

/// An intersection carried over to where `placement` puts it: the point is
/// replaced and the carried normal turned against the ray. Distance, surface
/// coordinate and material stay, and so does `front_face`, which tells of the
/// surface's own outward normal and is not changed by moving the object.
pub open spec fn placed(hit: HitRecord, placement: Placement) -> HitRecord {
    HitRecord {
        point: placement.point,
        normal: opposing_normal(placement.incidence, placement.outward_normal),
        ..hit
    }
}

/// Whether `r` may be what the intersection with a moved or turned `object`
/// comes to: nothing where `inner` finds nothing on the object in its own
/// place, and otherwise what `inner` finds, carried to where `place` puts
/// it.
pub open spec fn hit_outcome<H, I: Fn(&H) -> Option<HitRecord>, P: Fn(&HitRecord) -> Placement>(
    object: H,
    inner: I,
    place: P,
    r: Option<HitRecord>,
) -> bool {
    exists|found: Option<HitRecord>| #[trigger]
        inner.ensures((&object,), found) && match found {
            None => r is None,
            Some(hit) => exists|placement: Placement| #[trigger]
                place.ensures((&hit,), placement) && r == Some(placed(hit, placement)),
        }
}

/// Intersects a ray with a moved or turned object. `inner` intersects the
/// ray, taken into the object's own place, with the object; `place` carries
/// an intersection back into the scene. A ray that misses the object in its
/// own place misses it in the scene.
fn carry_back<H, I: Fn(&H) -> Option<HitRecord>, P: Fn(&HitRecord) -> Placement>(
    object: &H,
    inner: &I,
    place: &P,
) -> (r: Option<HitRecord>)
    requires
        inner.requires((object,)),
        forall|hit: HitRecord| place.requires((&hit,)),
    ensures
        hit_outcome(*object, *inner, *place, r),
{
    let hit_record = inner(object);
    match hit_record {
        None => None,
        Some(mut hit) => {
            let placement = place(&hit);
            let ghost found = hit;
            hit.translate(placement.point);
            hit.normal = oppose(placement.incidence, placement.outward_normal);
            proof {
                assert(hit == placed(found, placement));
            }
            Some(hit)
        },
    }
}

/// An object moved by an offset.
#[derive(Debug, PartialEq, Eq)]
pub struct Translate<H> {
    pub object: H,
    pub offset: Vec3,
}

impl<H> Translate<H> {
    /// `object`, moved by `offset`.
    pub fn new(object: H, offset: Vec3) -> (r: Translate<H>)
        ensures
            r.object == object,
            r.offset == offset,
    {
        Translate { object, offset }
    }

    /// Intersects a ray with the moved object. `inner` intersects the ray,
    /// moved back by the offset, with the object where it was; `place` moves
    /// an intersection along the offset. A ray that misses the object where
    /// it was misses it where it is.
    pub fn hit<I: Fn(&H) -> Option<HitRecord>, P: Fn(&HitRecord) -> Placement>(
        &self,
        inner: &I,
        place: &P,
    ) -> (r: Option<HitRecord>)
        requires
            inner.requires((&self.object,)),
            forall|hit: HitRecord| place.requires((&hit,)),
        ensures
            hit_outcome(self.object, *inner, *place, r),
    {
        carry_back(&self.object, inner, place)
    }
}

/// An object turned about the y axis.
#[derive(Debug, PartialEq, Eq)]
pub struct RotateY<H> {
    pub object: H,
    pub sin_theta: Scalar,
    pub cos_theta: Scalar,
    pub aabb: AABB,
}

impl<H> RotateY<H> {
    /// `object`, turned by the angle whose sine and cosine are given.
    /// `object_box` is the bounding box of the object as it stands, and
    /// `turn` turns a point by the angle; the box of the turned object is
    /// worked out once, here, as `turned_box` describes.
    pub fn new<F: Fn(Vec3) -> Vec3>(
        object: H,
        sin_theta: Scalar,
        cos_theta: Scalar,
        object_box: &AABB,
        turn: &F,
    ) -> (r: RotateY<H>)
        requires
            forall|i: int| 0 <= i < 8 ==> turn.requires((#[trigger] corners_spec(*object_box)[i],)),
        ensures
            r.object == object,
            r.sin_theta == sin_theta,
            r.cos_theta == cos_theta,
            exists|turned: Seq<Vec3>|
                turns_corners(*turn, *object_box, turned) && r.aabb == enclosing_spec(turned),
    {
        let aabb = turned_box(object_box, turn);
        RotateY { object, sin_theta, cos_theta, aabb }
    }

    /// Intersects a ray with the turned object. `inner` intersects the ray,
    /// turned back by the angle, with the object as it stood; `place` turns
    /// an intersection by the angle. A ray that misses the object as it
    /// stood misses it as it stands.
    pub fn hit<I: Fn(&H) -> Option<HitRecord>, P: Fn(&HitRecord) -> Placement>(
        &self,
        inner: &I,
        place: &P,
    ) -> (r: Option<HitRecord>)
        requires
            inner.requires((&self.object,)),
            forall|hit: HitRecord| place.requires((&hit,)),
        ensures
            hit_outcome(self.object, *inner, *place, r),
    {
        carry_back(&self.object, inner, place)
    }

    /// The box around the turned object.
    pub fn bounding_box(&self) -> (r: AABB)
        ensures
            r == self.aabb,
    {
        self.aabb
    }
}

/// Carrying an intersection away and back again restores it. Only the last
/// placement counts, so where the way back ends at the point and the
/// normal the intersection started from, and the ray still meets that
/// normal from the front, the intersection is what it was.
pub proof fn lemma_round_trip_restores_hit(hit: HitRecord, away: Placement, back: Placement)
    ensures
        placed(placed(hit, away), back) == placed(hit, back),
        back.point == hit.point && back.outward_normal == hit.normal && back.incidence.spec_lt(
            Scalar::spec_zero(),
        ) ==> placed(placed(hit, away), back) == hit,
{
}

/// The box around a sequence of points holds every one of them, and is a
/// box of numbers, provided the points are made of numbers and there is at
/// least one.
pub proof fn lemma_enclosing_holds_all(points: Seq<Vec3>)
    requires
        points.len() > 0,
        forall|i: int| 0 <= i < points.len() ==> !(#[trigger] points[i]).has_nan(),
    ensures
        enclosing_spec(points).is_numeric(),
        forall|i: int| 0 <= i < points.len() ==> holds(enclosing_spec(points), #[trigger] points[i]),
    decreases points.len(),
{
    let front = points.drop_last();
    let last = points.last();
    assert(!last.has_nan());
    if front.len() > 0 {
        assert forall|i: int| 0 <= i < front.len() implies !(#[trigger] front[i]).has_nan() by {
            assert(front[i] == points[i]);
        }
        lemma_enclosing_holds_all(front);
        assert forall|i: int| 0 <= i < points.len() implies holds(
            enclosing_spec(points),
            #[trigger] points[i],
        ) by {
            if i < front.len() {
                assert(front[i] == points[i]);
                assert(holds(enclosing_spec(front), front[i]));
            }
        }
    } else {
        assert(enclosing_spec(front) == empty_box());
    }
}

} // verus!
