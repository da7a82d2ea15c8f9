//! The scene as a plain list of objects, searched one by one.
//!
//! The list does not know how a ray meets one of its objects: the caller
//! hands in the test as a function, and the list decides which of the
//! answers is the closest.

use crate::aabb::lemma_encloses_is_preorder;
use crate::aabb::lemma_surrounding_encloses;
use crate::aabb::AABB;
use crate::hit_record::HitRecord;
use vstd::prelude::*;

verus! {

/// The nearer of two intersections. A new candidate replaces the best one so
/// far only where it lies strictly closer along the ray, so of two
/// intersections at the same distance the earlier one stays.
pub open spec fn nearer(best: Option<HitRecord>, candidate: Option<HitRecord>) -> Option<
    HitRecord,
> {
    match (best, candidate) {
        (_, None) => best,
        (None, Some(_)) => candidate,
        (Some(b), Some(c)) => if c.t.spec_lt(b.t) {
            candidate
        } else {
            best
        },
    }
}

/// The closest of a sequence of intersections, each either found or absent:
/// the first among those of least distance.
pub open spec fn closest(hits: Seq<Option<HitRecord>>) -> Option<HitRecord>
    decreases hits.len(),
{
    if hits.len() == 0 {
        None
    } else {
        nearer(closest(hits.drop_last()), hits.last())
    }
}

/// The smallest box around a sequence of boxes, taken up one after another.
pub open spec fn surrounding_all(boxes: Seq<AABB>) -> AABB
    recommends
        boxes.len() > 0,
    decreases boxes.len(),
{
    if boxes.len() <= 1 {
        boxes[0]
    } else {
        AABB::surrounding(surrounding_all(boxes.drop_last()), boxes.last())
    }
}

/// Whether an intersection, where there is one, lies at a distance that is
/// a number.
pub open spec fn distance_is_number(hit: Option<HitRecord>) -> bool {
    hit is Some ==> !hit->0.t.nan()
}

/// Whether the intersections found all lie at distances that are numbers.
pub open spec fn distances_are_numbers(hits: Seq<Option<HitRecord>>) -> bool {
    forall|i: int| 0 <= i < hits.len() ==> distance_is_number(#[trigger] hits[i])
}

/// Whether `other`, where it is found, lies no closer than `h`.
pub open spec fn no_closer(other: Option<HitRecord>, h: HitRecord) -> bool {
    other is Some ==> h.t.spec_le(other->0.t)
}

/// Whether `other`, where it is found, lies strictly further than `h`.
pub open spec fn further(other: Option<HitRecord>, h: HitRecord) -> bool {
    other is Some ==> h.t.spec_lt(other->0.t)
}

/// Picks the nearer of two intersections; see `nearer`.
pub fn nearer_hit(best: Option<HitRecord>, candidate: Option<HitRecord>) -> (r: Option<HitRecord>)
    ensures
        r == nearer(best, candidate),
{
    match candidate {
        None => best,
        Some(c) => match best {
            None => candidate,
            Some(b) => if c.t().lt(b.t()) {
                candidate
            } else {
                best
            },
        },
    }
}

/// Picks the closest of the intersections in `hits`; see `closest`.
pub fn closest_hit(hits: &Vec<Option<HitRecord>>) -> (r: Option<HitRecord>)
    ensures
        r == closest(hits@),
{
    let mut best: Option<HitRecord> = None;
    let mut i: usize = 0;
    while i < hits.len()
        invariant
            i <= hits.len(),
            best == closest(hits@.take(i as int)),
        decreases hits.len() - i,
    {
        proof {
            assert(hits@.take(i + 1).drop_last() =~= hits@.take(i as int));
        }
        best = nearer_hit(best, hits[i]);
        i += 1;
    }
    proof {
        assert(hits@.take(i as int) =~= hits@);
    }
    best
}

/// An unordered collection of scene objects.
pub struct HittableList<T> {
    pub list: Vec<T>,
}

impl<T> HittableList<T> {
    /// Whether `hits` may be what `probe` answers for the objects of the
    /// list, in list order.
    pub open spec fn probed<F: Fn(&T) -> Option<HitRecord>>(
        self,
        probe: F,
        hits: Seq<Option<HitRecord>>,
    ) -> bool {
        &&& hits.len() == self.list@.len()
        &&& forall|i: int|
            0 <= i < hits.len() ==> probe.ensures((&self.list@[i],), #[trigger] hits[i])
    }

    /// Whether `boxes` may be what `bounds` answers for the objects of the
    /// list, in list order.
    pub open spec fn bounded<F: Fn(&T) -> AABB>(self, bounds: F, boxes: Seq<AABB>) -> bool {
        &&& boxes.len() == self.list@.len()
        &&& forall|i: int|
            0 <= i < boxes.len() ==> bounds.ensures((&self.list@[i],), #[trigger] boxes[i])
    }

    /// The empty list.
    pub fn new() -> (r: Self)
        ensures
            r.list@.len() == 0,
    {
        HittableList { list: Vec::new() }
    }

    /// Intersects a ray with every object of the list and returns the
    /// closest intersection, or none where no object is met. `probe` tests
    /// the ray against one object; it is asked once for each object, in list
    /// order.
    pub fn hit<F: Fn(&T) -> Option<HitRecord>>(&self, probe: &F) -> (r: Option<HitRecord>)
        requires
            forall|i: int| 0 <= i < self.list@.len() ==> probe.requires((&#[trigger] self.list@[i],)),
        ensures
            exists|hits: Seq<Option<HitRecord>>| self.probed(*probe, hits) && r == closest(hits),
    {
        let mut closest_hit: Option<HitRecord> = None;
        let ghost mut hits: Seq<Option<HitRecord>> = Seq::empty();
        let mut i: usize = 0;
        while i < self.list.len()
            invariant
                i <= self.list@.len(),
                hits.len() == i,
                forall|j: int|
                    0 <= j < self.list@.len() ==> probe.requires((&#[trigger] self.list@[j],)),
                forall|j: int| 0 <= j < i ==> probe.ensures((&self.list@[j],), #[trigger] hits[j]),
                closest_hit == closest(hits),
            decreases self.list@.len() - i,
        {
            let hit = probe(&self.list[i]);
            proof {
                assert(hits.push(hit).drop_last() =~= hits);
                hits = hits.push(hit);
            }
            closest_hit = nearer_hit(closest_hit, hit);
            i += 1;
        }
        proof {
            assert(self.probed(*probe, hits));
        }
        closest_hit
    }

    /// The boxes of the objects of the list, in list order: what a hierarchy
    /// over the list is built from. `bounds` gives the box of one object; it
    /// is asked once for each object.
    pub fn boxes<F: Fn(&T) -> AABB>(&self, bounds: &F) -> (r: Vec<AABB>)
        requires
            forall|i: int| 0 <= i < self.list@.len() ==> bounds.requires((&#[trigger] self.list@[i],)),
        ensures
            self.bounded(*bounds, r@),
    {
        let mut boxes: Vec<AABB> = Vec::new();
        let mut i: usize = 0;
        while i < self.list.len()
            invariant
                i <= self.list@.len(),
                boxes@.len() == i,
                forall|j: int|
                    0 <= j < self.list@.len() ==> bounds.requires((&#[trigger] self.list@[j],)),
                forall|j: int|
                    0 <= j < i ==> bounds.ensures((&self.list@[j],), #[trigger] boxes@[j]),
            decreases self.list@.len() - i,
        {
            boxes.push(bounds(&self.list[i]));
            i += 1;
        }
        boxes
    }

    /// The smallest box around all objects of the list. `bounds` gives the
    /// box of one object; it is asked once for each object, in list order.
    /// An empty list has no box.
    pub fn bounding_box<F: Fn(&T) -> AABB>(&self, bounds: &F) -> (r: AABB)
        requires
            self.list@.len() > 0,
            forall|i: int| 0 <= i < self.list@.len() ==> bounds.requires((&#[trigger] self.list@[i],)),
        ensures
            exists|boxes: Seq<AABB>| self.bounded(*bounds, boxes) && r == surrounding_all(boxes),
    {
        let mut bounding_box = bounds(&self.list[0]);
        let ghost mut boxes: Seq<AABB> = seq![bounding_box];
        let mut i: usize = 1;
        while i < self.list.len()
            invariant
                1 <= i <= self.list@.len(),
                boxes.len() == i,
                forall|j: int|
                    0 <= j < self.list@.len() ==> bounds.requires((&#[trigger] self.list@[j],)),
                forall|j: int| 0 <= j < i ==> bounds.ensures((&self.list@[j],), #[trigger] boxes[j]),
                bounding_box == surrounding_all(boxes),
            decreases self.list@.len() - i,
        {
            let next = bounds(&self.list[i]);
            proof {
                assert(boxes.push(next).drop_last() =~= boxes);
                boxes = boxes.push(next);
            }
            bounding_box = AABB::new_surrounding_box(&bounding_box, &next);
            i += 1;
        }
        proof {
            assert(self.bounded(*bounds, boxes));
        }
        bounding_box
    }
}

/// The box around a sequence of boxes of numbers is a box of numbers and
/// encloses every one of them.
pub proof fn lemma_surrounding_all_encloses(boxes: Seq<AABB>, i: int)
    requires
        forall|j: int| 0 <= j < boxes.len() ==> (#[trigger] boxes[j]).is_numeric(),
        0 <= i < boxes.len(),
    ensures
        surrounding_all(boxes).is_numeric(),
        surrounding_all(boxes).encloses(boxes[i]),
    decreases boxes.len(),
{
    if boxes.len() > 1 {
        let front = boxes.drop_last();
        assert forall|j: int| 0 <= j < front.len() implies (#[trigger] front[j]).is_numeric() by {
            assert(front[j] == boxes[j]);
        }
        assert(boxes.last().is_numeric());
        lemma_surrounding_all_encloses(front, 0);
        lemma_surrounding_encloses(surrounding_all(front), boxes.last());
        if i < front.len() {
            lemma_surrounding_all_encloses(front, i);
            assert(front[i] == boxes[i]);
            lemma_encloses_is_preorder(surrounding_all(boxes), surrounding_all(front), boxes[i]);
        }
    } else {
        assert(boxes[0].is_numeric());
        lemma_encloses_is_preorder(boxes[0], boxes[0], boxes[0]);
    }
}

/// Whether entry `k` of `hits` is the intersection `h`, no entry lies closer,
/// and every entry before it lies strictly further.
pub open spec fn first_least_at(hits: Seq<Option<HitRecord>>, h: HitRecord, k: int) -> bool {
    &&& 0 <= k < hits.len()
    &&& hits[k] == Some(h)
    &&& forall|i: int| 0 <= i < hits.len() ==> no_closer(#[trigger] hits[i], h)
    &&& forall|i: int| 0 <= i < k ==> further(#[trigger] hits[i], h)
}

/// What makes an intersection the closest of a sequence: none is found
/// exactly where every entry is absent; otherwise it is one of the entries,
/// no entry lies closer, and every entry before it lies strictly further.
pub open spec fn is_first_least(hits: Seq<Option<HitRecord>>, r: Option<HitRecord>) -> bool {
    match r {
        None => forall|i: int| 0 <= i < hits.len() ==> (#[trigger] hits[i]) is None,
        Some(h) => exists|k: int| first_least_at(hits, h, k),
    }
}

/// The linear scan returns the first intersection of least distance,
/// whenever all distances are numbers.
pub proof fn lemma_closest_is_first_least(hits: Seq<Option<HitRecord>>)
    requires
        distances_are_numbers(hits),
    ensures
        is_first_least(hits, closest(hits)),
    decreases hits.len(),
{
    if hits.len() > 0 {
        let front = hits.drop_last();
        assert forall|i: int| 0 <= i < front.len() implies distance_is_number(
            #[trigger] front[i],
        ) by {
            assert(front[i] == hits[i]);
        }
        lemma_closest_is_first_least(front);
        let before = closest(front);
        let r = closest(hits);
        let last = hits.len() - 1;
        assert(distance_is_number(hits[last]));
        match r {
            None => {
                assert forall|i: int| 0 <= i < hits.len() implies (#[trigger] hits[i]) is None by {
                    if i < last {
                        assert(front[i] is None);
                    }
                }
            },
            Some(h) => {
                if before == r {
                    let k = choose|k: int| first_least_at(front, h, k);
                    assert(hits[k] == front[k]);
                    assert(distance_is_number(hits[k]));
                    assert forall|i: int| 0 <= i < hits.len() implies no_closer(
                        #[trigger] hits[i],
                        h,
                    ) by {
                        if i < last {
                            assert(no_closer(front[i], h));
                        }
                    }
                    assert forall|i: int| 0 <= i < k implies further(#[trigger] hits[i], h) by {
                        assert(further(front[i], h));
                    }
                    assert(first_least_at(hits, h, k));
                } else {
                    assert(hits[last] == r);
                    assert forall|i: int| 0 <= i < last implies further(#[trigger] hits[i], h) by {
                        assert(front[i] == hits[i]);
                        assert(distance_is_number(hits[i]));
                        match before {
                            None => {
                                assert(front[i] is None);
                            },
                            Some(b) => {
                                let kb = choose|kb: int| first_least_at(front, b, kb);
                                assert(no_closer(front[i], b));
                                assert(front[kb] == hits[kb]);
                                assert(distance_is_number(hits[kb]));
                            },
                        }
                    }
                    assert forall|i: int| 0 <= i < hits.len() implies no_closer(
                        #[trigger] hits[i],
                        h,
                    ) by {
                        if i < last {
                            assert(further(hits[i], h));
                        }
                    }
                    assert(first_least_at(hits, h, last));
                }
            },
        }
    }
}

} // verus!
