//! Axis-aligned bounding boxes and the slab test of a ray against one.

use crate::scalar::Scalar;
use crate::vec3::Vec3;
use vstd::prelude::*;

verus! {

/// An axis-aligned box, given by its least and its greatest corner.
#[derive(Clone, Copy, Debug, PartialEq, Eq, Structural)]
pub struct AABB {
    pub min: Vec3,
    pub max: Vec3,
}

/// Where a ray crosses the two planes that bound a box along one axis.
///
/// `t0` is the ray parameter at the plane through the box's least corner,
/// `t1` the one at the plane through its greatest corner, and `inv_d` the
/// reciprocal of the ray's direction along the axis.
#[derive(Clone, Copy, Debug, PartialEq, Eq, Structural)]
pub struct Slab {
    pub t0: Scalar,
    pub t1: Scalar,
    pub inv_d: Scalar,
}

impl Slab {
    /// Where the ray enters the stretch between the two planes. A ray that
    /// runs down the axis meets the far plane first, so the two crossings
    /// change places where `inv_d` is negative.
    pub open spec fn entry(self) -> Scalar {
        if self.inv_d.spec_lt(Scalar::spec_zero()) {
            self.t1
        } else {
            self.t0
        }
    }

    /// Where the ray leaves the stretch between the two planes.
    pub open spec fn exit(self) -> Scalar {
        if self.inv_d.spec_lt(Scalar::spec_zero()) {
            self.t0
        } else {
            self.t1
        }
    }

    /// The crossings of the same line after the scene is mirrored in the
    /// origin: the ray runs the other way, and the planes through the least
    /// and the greatest corner change places.
    pub open spec fn mirrored(self) -> Slab {
        Slab { t0: self.t1, t1: self.t0, inv_d: self.inv_d.spec_neg() }
    }
}

/// The later of a start so far and an entry; an entry that is not a number
/// moves nothing.
pub open spec fn later(start: Scalar, entry: Scalar) -> Scalar {
    if entry.spec_gt(start) {
        entry
    } else {
        start
    }
}

/// The earlier of an end so far and an exit; an exit that is not a number
/// moves nothing.
pub open spec fn earlier(end: Scalar, exit: Scalar) -> Scalar {
    if exit.spec_lt(end) {
        exit
    } else {
        end
    }
}

/// The greatest of `tmin` and the entries along the first `axes` axes: where
/// the ray has come inside all of these slabs, and inside the caller's
/// interval.
pub open spec fn latest_entry(slabs: Seq<Slab>, tmin: Scalar, axes: int) -> Scalar
    decreases axes,
{
    if axes <= 0 {
        tmin
    } else {
        later(latest_entry(slabs, tmin, axes - 1), slabs[axes - 1].entry())
    }
}

/// The least of `tmax` and the exits along the first `axes` axes: where the
/// ray first leaves one of these slabs, or the caller's interval.
pub open spec fn earliest_exit(slabs: Seq<Slab>, tmax: Scalar, axes: int) -> Scalar
    decreases axes,
{
    if axes <= 0 {
        tmax
    } else {
        earlier(earliest_exit(slabs, tmax, axes - 1), slabs[axes - 1].exit())
    }
}

/// Whether a ray with the given crossings passes through the box between
/// `tmin` and `tmax`: it does where the greatest of `tmin` and the three
/// entries lies below the least of `tmax` and the three exits, so that some
/// stretch of the ray lies inside the box along all three axes at once.
pub open spec fn slab_hit(slabs: Seq<Slab>, tmin: Scalar, tmax: Scalar) -> bool {
    !earliest_exit(slabs, tmax, 3).spec_le(latest_entry(slabs, tmin, 3))
}

/// Once the stretch left over is empty it stays empty, whatever further axes
/// take from it.
proof fn lemma_empty_stays_empty(slabs: Seq<Slab>, tmin: Scalar, tmax: Scalar, axes: int, more: int)
    requires
        0 <= axes <= more,
        earliest_exit(slabs, tmax, axes).spec_le(latest_entry(slabs, tmin, axes)),
    ensures
        earliest_exit(slabs, tmax, more).spec_le(latest_entry(slabs, tmin, more)),
    decreases more - axes,
{
    if axes < more {
        assert(earliest_exit(slabs, tmax, axes + 1).spec_le(latest_entry(slabs, tmin, axes + 1)));
        lemma_empty_stays_empty(slabs, tmin, tmax, axes + 1, more);
    }
}

/// The slab test: decides from the crossings along the three axes whether
/// the ray passes through the box between `tmin` and `tmax`. The interval is
/// narrowed axis by axis, and the ray misses the box as soon as nothing is
/// left of it.
pub fn slab_intersect(slabs: &[Slab; 3], tmin: Scalar, tmax: Scalar) -> (hit: bool)
    ensures
        hit == slab_hit(slabs@, tmin, tmax),
{
    let mut low = tmin;
    let mut high = tmax;
    let mut a: usize = 0;
    while a < 3
        invariant
            a <= 3,
            low == latest_entry(slabs@, tmin, a as int),
            high == earliest_exit(slabs@, tmax, a as int),
            a > 0 ==> !high.spec_le(low),
        decreases 3 - a,
    {
        let slab = slabs[a];
        let mut t0 = slab.t0;
        let mut t1 = slab.t1;
        if slab.inv_d.lt(Scalar::zero()) {
            let swapped = t0;
            t0 = t1;
            t1 = swapped;
        }
        if t0.gt(low) {
            low = t0;
        }
        if t1.lt(high) {
            high = t1;
        }
        if high.le(low) {
            proof {
                lemma_empty_stays_empty(slabs@, tmin, tmax, a + 1, 3);
            }
            return false;
        }
        a += 1;
    }
    true
}

/// The slab test does not tell a scene from its mirror image in the origin:
/// turning the ray round and swapping the roles of the box's two corners
/// changes neither where the ray enters a slab nor where it leaves it, and
/// so not the answer for the box.
///
/// The direction must have a reciprocal that is a number other than zero
/// along every axis: a zero has no sign to turn.
pub proof fn lemma_slab_mirror_symmetry(slabs: Seq<Slab>, tmin: Scalar, tmax: Scalar)
    requires
        slabs.len() == 3,
        forall|axis: int|
            0 <= axis < 3 ==> !(#[trigger] slabs[axis]).inv_d.nan() && slabs[axis].inv_d.rank()
                != 0,
    ensures
        slab_hit(slabs, tmin, tmax) == slab_hit(slabs.map_values(|s: Slab| s.mirrored()), tmin, tmax),
        forall|axis: int|
            0 <= axis < 3 ==> (#[trigger] slabs[axis]).entry() == slabs[axis].mirrored().entry()
                && slabs[axis].exit() == slabs[axis].mirrored().exit(),
{
    let mirror = slabs.map_values(|s: Slab| s.mirrored());
    assert forall|axis: int| 0 <= axis < 3 implies (#[trigger] slabs[axis]).entry()
        == slabs[axis].mirrored().entry() && slabs[axis].exit() == slabs[axis].mirrored().exit() by {
        let s = slabs[axis];
        assert(s.inv_d.spec_neg().rank() == -s.inv_d.rank());
        assert(s.inv_d.spec_neg().nan() == s.inv_d.nan());
    }
    assert forall|axis: int| 0 <= axis < 3 implies (#[trigger] mirror[axis]) == slabs[axis].mirrored() by {}
    lemma_same_crossings(slabs, mirror, tmin, tmax, 3);
}

/// Crossings that enter and leave alike leave the same stretch.
proof fn lemma_same_crossings(first: Seq<Slab>, second: Seq<Slab>, tmin: Scalar, tmax: Scalar, axes: int)
    requires
        0 <= axes <= 3,
        first.len() == 3,
        second.len() == 3,
        forall|axis: int|
            0 <= axis < 3 ==> (#[trigger] first[axis]).entry() == second[axis].entry()
                && first[axis].exit() == second[axis].exit(),
    ensures
        latest_entry(first, tmin, axes) == latest_entry(second, tmin, axes),
        earliest_exit(first, tmax, axes) == earliest_exit(second, tmax, axes),
    decreases axes,
{
    if axes > 0 {
        lemma_same_crossings(first, second, tmin, tmax, axes - 1);
        assert(first[axes - 1].entry() == second[axes - 1].entry());
    }
}

impl AABB {
    /// Whether no coordinate of either corner fails to be a number.
    pub open spec fn is_numeric(self) -> bool {
        !self.min.has_nan() && !self.max.has_nan()
    }

    /// Whether `inner` lies inside `self`: along every axis `self` starts no
    /// later and ends no earlier.
    pub open spec fn encloses(self, inner: AABB) -> bool {
        &&& self.min.x.spec_le(inner.min.x)
        &&& self.min.y.spec_le(inner.min.y)
        &&& self.min.z.spec_le(inner.min.z)
        &&& inner.max.x.spec_le(self.max.x)
        &&& inner.max.y.spec_le(self.max.y)
        &&& inner.max.z.spec_le(self.max.z)
    }

    /// The smallest box around two boxes.
    pub open spec fn surrounding(box0: AABB, box1: AABB) -> AABB {
        AABB { min: box0.min.spec_min(box1.min), max: box0.max.spec_max(box1.max) }
    }

    /// The box with the given corners.
    pub fn new(min: Vec3, max: Vec3) -> (aabb: AABB)
        ensures
            aabb == (AABB { min, max }),
    {
        AABB { min, max }
    }

    /// The smallest box around `box0` and `box1`: its least corner takes the
    /// lesser coordinate along each axis, its greatest corner the greater.
    pub fn new_surrounding_box(box0: &AABB, box1: &AABB) -> (aabb: AABB)
        ensures
            aabb == AABB::surrounding(*box0, *box1),
    {
        let small = Vec3::new(
            box0.min().x().min(box1.min().x()),
            box0.min().y().min(box1.min().y()),
            box0.min().z().min(box1.min().z()),
        );
        let big = Vec3::new(
            box0.max().x().max(box1.max().x()),
            box0.max().y().max(box1.max().y()),
            box0.max().z().max(box1.max().z()),
        );
        AABB::new(small, big)
    }

    /// The least corner.
    pub fn min(&self) -> (r: Vec3)
        ensures
            r == self.min,
    {
        self.min
    }

    /// The greatest corner.
    pub fn max(&self) -> (r: Vec3)
        ensures
            r == self.max,
    {
        self.max
    }

    /// Tests a ray against the box between `tmin` and `tmax`. `crossings`
    /// works out where the ray crosses the planes of a box; the decision on
    /// what it returns is `slab_intersect`'s.
    pub fn is_hit<F: Fn(&AABB) -> [Slab; 3]>(&self, crossings: &F, tmin: Scalar, tmax: Scalar) -> (hit:
        bool)
        requires
            crossings.requires((self,)),
        ensures
            exists|slabs: [Slab; 3]|
                crossings.ensures((self,), slabs) && hit == slab_hit(slabs@, tmin, tmax),
    {
        let slabs = crossings(self);
        slab_intersect(&slabs, tmin, tmax)
    }
}

/// The box around two boxes of numbers encloses both, and is itself a box of
/// numbers.
pub proof fn lemma_surrounding_encloses(box0: AABB, box1: AABB)
    requires
        box0.is_numeric(),
        box1.is_numeric(),
    ensures
        AABB::surrounding(box0, box1).encloses(box0),
        AABB::surrounding(box0, box1).encloses(box1),
        AABB::surrounding(box0, box1).is_numeric(),
{
}

/// Enclosure is transitive, and every box of numbers encloses itself.
pub proof fn lemma_encloses_is_preorder(outer: AABB, middle: AABB, inner: AABB)
    ensures
        outer.encloses(middle) && middle.encloses(inner) ==> outer.encloses(inner),
        inner.is_numeric() ==> inner.encloses(inner),
{
}

} // verus!
