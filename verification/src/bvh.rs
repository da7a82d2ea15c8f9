//! The bounding volume hierarchy: a binary tree of boxes over the scene's
//! primitives, built once and then used to skip every subtree whose box a
//! ray misses.
//!
//! Primitives are named by their index in the scene's list. The hierarchy is
//! built from their boxes alone; how a ray meets a primitive or crosses the
//! planes of a box is worked out by functions the caller hands in.

use crate::aabb::lemma_encloses_is_preorder;
use crate::aabb::lemma_surrounding_encloses;
use crate::aabb::slab_hit;
use crate::aabb::slab_intersect;
use crate::aabb::Slab;
use crate::aabb::AABB;
use crate::hit_record::HitRecord;
use crate::hittable::closest;
use crate::hittable::distance_is_number;
use crate::hittable::distances_are_numbers;
use crate::hittable::first_least_at;
use crate::hittable::lemma_closest_is_first_least;
use crate::hittable::nearer;
use crate::hittable::nearer_hit;
use crate::hittable::no_closer;
use crate::scalar::Scalar;
use core::cmp::Ordering;
use rand::Rng;
use vstd::prelude::*;

verus! {

/// The box of a primitive.
pub open spec fn box_of(boxes: Seq<AABB>, primitive: usize) -> AABB {
    boxes[primitive as int]
}

/// Where a box starts along `axis`, as a position on the number line.
pub open spec fn start_rank(aabb: AABB, axis: usize) -> int {
    aabb.min.spec_axis(axis as int).rank()
}

/// Whether a box starts at a number along `axis`.
pub open spec fn starts_at_number(aabb: AABB, axis: usize) -> bool {
    !aabb.min.spec_axis(axis as int).nan()
}

/// Where the box of a primitive starts along `axis`: what primitives are
/// sorted by.
pub open spec fn sort_key(boxes: Seq<AABB>, primitive: usize, axis: usize) -> int {
    start_rank(box_of(boxes, primitive), axis)
}

/// Whether `primitive` has a box, and that box starts at a number along
/// `axis`.
pub open spec fn sortable(boxes: Seq<AABB>, primitive: usize, axis: usize) -> bool {
    primitive < boxes.len() && starts_at_number(box_of(boxes, primitive), axis)
}

/// The primitives that stand between positions `start` and `end` of an
/// ordering, both included.
pub open spec fn entries(order: Seq<usize>, start: int, end: int) -> Set<usize> {
    Set::new(|x: usize| exists|i: int| start <= i <= end && #[trigger] order[i] == x)
}

/// Whether no primitive stands twice between `start` and `end`.
pub open spec fn distinct_between(order: Seq<usize>, start: int, end: int) -> bool {
    forall|i: int, j: int| start <= i < j <= end ==> order[i] != order[j]
}

/// Whether the primitives between `start` and `end` stand in the order of
/// their keys along `axis`, least first.
pub open spec fn sorted_between(
    boxes: Seq<AABB>,
    order: Seq<usize>,
    start: int,
    end: int,
    axis: usize,
) -> bool {
    forall|i: int, j: int|
        start <= i < j <= end ==> sort_key(boxes, order[i], axis) <= sort_key(
            boxes,
            order[j],
            axis,
        )
}

/// Compares two boxes by where they start along `axis` (0 is x, 1 is y, 2 is
/// z). Both coordinates must be numbers.
pub fn box_compare(a: &AABB, b: &AABB, axis: usize) -> (r: Ordering)
    requires
        axis < 3,
        starts_at_number(*a, axis),
        starts_at_number(*b, axis),
    ensures
        r is Less <==> start_rank(*a, axis) < start_rank(*b, axis),
        r is Equal <==> start_rank(*a, axis) == start_rank(*b, axis),
        r is Greater <==> start_rank(*a, axis) > start_rank(*b, axis),
{
    let left: i64 = a.min().axis(axis).position();
    let right: i64 = b.min().axis(axis).position();
    if left < right {
        Ordering::Less
    } else if left == right {
        Ordering::Equal
    } else {
        Ordering::Greater
    }
}

/// `rand::Rng::gen_range` on the generator of the calling thread
/// (`rand::thread_rng`), for machine-sized integers: some integer from `low`
/// up to but not including `high`. Which one is not known.
#[verifier::external_body]
fn random_between(low: usize, high: usize) -> (r: usize)
    requires
        low < high,
    ensures
        low <= r < high,
{
    rand::thread_rng().gen_range(low, high)
}

/// Picks the axis a subtree is split along: 0, 1 or 2, at random.
pub fn random_axis() -> (axis: usize)
    ensures
        axis < 3,
{
    random_between(0, 3)
}

/// Whether `from` and `to` describe how `now` rearranges `before` between
/// `start` and `end`: entry `i` of `now` stood at place `from[i]` in
/// `before`, `to` leads back from every place to where its entry stands now,
/// and no place outside the stretch is touched.
pub open spec fn tracks(
    before: Seq<usize>,
    now: Seq<usize>,
    from: Seq<int>,
    to: Seq<int>,
    start: int,
    end: int,
) -> bool {
    &&& now.len() == before.len()
    &&& from.len() == before.len()
    &&& to.len() == before.len()
    &&& forall|i: int|
        0 <= i < now.len() ==> 0 <= #[trigger] from[i] < now.len() && now[i] == before[from[i]]
            && to[from[i]] == i
    &&& forall|p: int| 0 <= p < now.len() ==> 0 <= #[trigger] to[p] < now.len() && from[to[p]] == p
    &&& forall|i: int| 0 <= i < now.len() && !(start <= i <= end) ==> #[trigger] from[i] == i
    &&& forall|i: int| start <= i <= end ==> start <= #[trigger] from[i] <= end
}

/// Whether the primitive at position `a` belongs before the one at position
/// `b`: its key is less, or the keys are equal and it stood at an earlier
/// place.
pub open spec fn goes_before(
    boxes: Seq<AABB>,
    axis: usize,
    now: Seq<usize>,
    from: Seq<int>,
    a: int,
    b: int,
) -> bool {
    sort_key(boxes, now[a], axis) < sort_key(boxes, now[b], axis) || (sort_key(
        boxes,
        now[a],
        axis,
    ) == sort_key(boxes, now[b], axis) && from[a] < from[b])
}

/// Whether `after` is `before` with the stretch from `start` to `end` sorted
/// by key along `axis`, entries of equal key in the order of the places they
/// stood at: some rearrangement of the places of the stretch leads from the
/// one to the other and brings every pair of entries in order.
pub open spec fn stably_sorted(
    boxes: Seq<AABB>,
    before: Seq<usize>,
    after: Seq<usize>,
    start: int,
    end: int,
    axis: usize,
) -> bool {
    exists|from: Seq<int>, to: Seq<int>|
        {
            &&& #[trigger] tracks(before, after, from, to, start, end)
            &&& forall|a: int, b: int|
                start <= a < b <= end ==> #[trigger] goes_before(boxes, axis, after, from, a, b)
        }
}

/// What a tracked rearrangement that is in order gives to those who see
/// only the two orderings.
proof fn lemma_tracked_order(
    boxes: Seq<AABB>,
    before: Seq<usize>,
    now: Seq<usize>,
    from: Seq<int>,
    to: Seq<int>,
    start: int,
    end: int,
    axis: usize,
)
    requires
        0 <= start <= end < before.len(),
        tracks(before, now, from, to, start, end),
        forall|a: int, b: int|
            start <= a < b <= end ==> #[trigger] goes_before(boxes, axis, now, from, a, b),
    ensures
        forall|i: int| 0 <= i < now.len() && !(start <= i <= end) ==> now[i] == before[i],
        entries(now, start, end) == entries(before, start, end),
        distinct_between(before, start, end) ==> distinct_between(now, start, end),
        sorted_between(boxes, now, start, end, axis),
        stably_sorted(boxes, before, now, start, end, axis),
{
    assert forall|i: int| 0 <= i < now.len() && !(start <= i <= end) implies now[i] == before[i] by {
        assert(from[i] == i);
    }
    assert forall|p: int| start <= p <= end implies start <= #[trigger] to[p] <= end by {
        if !(start <= to[p] <= end) {
            assert(from[to[p]] == to[p]);
        }
    }
    assert forall|x: usize| entries(now, start, end).contains(x) == entries(
        before,
        start,
        end,
    ).contains(x) by {
        if entries(now, start, end).contains(x) {
            let i = choose|i: int| start <= i <= end && #[trigger] now[i] == x;
            assert(before[from[i]] == x);
        }
        if entries(before, start, end).contains(x) {
            let p = choose|p: int| start <= p <= end && #[trigger] before[p] == x;
            assert(now[to[p]] == x);
        }
    }
    assert(entries(now, start, end) =~= entries(before, start, end));
    if distinct_between(before, start, end) {
        assert forall|i: int, j: int| start <= i < j <= end implies now[i] != now[j] by {
            assert(to[from[i]] == i);
            assert(to[from[j]] == j);
        }
    }
    assert forall|i: int, j: int| start <= i < j <= end implies sort_key(boxes, now[i], axis)
        <= sort_key(boxes, now[j], axis) by {
        assert(goes_before(boxes, axis, now, from, i, j));
    }
}

/// Sorts the primitives that stand between `start` and `end` of `order` by
/// where their boxes start along `axis`, least first. Primitives whose boxes
/// start at the same coordinate keep the order they stood in, and the rest of
/// `order` is left alone. A primitive may stand in the stretch more than
/// once.
pub fn sort_by_axis(
    order: &mut Vec<usize>,
    boxes: &Vec<AABB>,
    start: usize,
    end: usize,
    axis: usize,
)
    requires
        start <= end < old(order)@.len(),
        axis < 3,
        forall|i: int| start <= i <= end ==> sortable(boxes@, #[trigger] old(order)@[i], axis),
    ensures
        final(order)@.len() == old(order)@.len(),
        forall|i: int|
            0 <= i < old(order)@.len() && !(start <= i <= end) ==> final(order)@[i] == old(
                order,
            )@[i],
        entries(final(order)@, start as int, end as int) == entries(
            old(order)@,
            start as int,
            end as int,
        ),
        distinct_between(old(order)@, start as int, end as int) ==> distinct_between(
            final(order)@,
            start as int,
            end as int,
        ),
        sorted_between(boxes@, final(order)@, start as int, end as int, axis),
        stably_sorted(boxes@, old(order)@, final(order)@, start as int, end as int, axis),
{
    let ghost before = order@;
    let len: usize = order.len();
    let ghost mut from: Seq<int> = Seq::new(order@.len(), |i: int| i);
    let ghost mut to: Seq<int> = Seq::new(order@.len(), |i: int| i);
    let mut i: usize = start + 1;
    while i <= end
        invariant
            start < i <= end + 1,
            end < before.len() == len,
            axis < 3,
            tracks(before, order@, from, to, start as int, end as int),
            forall|k: int| start <= k <= end ==> sortable(boxes@, #[trigger] before[k], axis),
            forall|a: int, b: int|
                start <= a < b < i ==> #[trigger] goes_before(boxes@, axis, order@, from, a, b),
            forall|a: int| start <= a < i ==> (#[trigger] from[a]) < i,
            forall|a: int| i <= a <= end ==> #[trigger] from[a] == a,
        decreases end + 1 - i,
    {
        let mut j: usize = i;
        let mut moving = true;
        while moving && j > start
            invariant
                start <= j <= i <= end,
                end < before.len(),
                axis < 3,
                tracks(before, order@, from, to, start as int, end as int),
                forall|k: int| start <= k <= end ==> sortable(boxes@, #[trigger] before[k], axis),
                from[j as int] == i,
                forall|a: int, b: int|
                    start <= a < b <= i && a != j && b != j ==> #[trigger] goes_before(
                        boxes@,
                        axis,
                        order@,
                        from,
                        a,
                        b,
                    ),
                forall|b: int|
                    j < b <= i ==> sort_key(boxes@, order@[j as int], axis) < sort_key(
                        boxes@,
                        #[trigger] order@[b],
                        axis,
                    ),
                forall|a: int| start <= a <= i && a != j ==> (#[trigger] from[a]) < i,
                forall|a: int| i < a <= end ==> #[trigger] from[a] == a,
                !moving && j > start ==> sort_key(boxes@, order@[j - 1], axis) <= sort_key(
                    boxes@,
                    order@[j as int],
                    axis,
                ),
            decreases j + if moving { 1int } else { 0int },
        {
            let moved = order[j];
            let other = order[j - 1];
            proof {
                assert(sortable(boxes@, before[from[j as int]], axis));
                assert(sortable(boxes@, before[from[j - 1]], axis));
            }
            if starts_before(boxes, moved, other, axis) {
                let ghost order_then = order@;
                let ghost from_then = from;
                order[j] = other;
                order[j - 1] = moved;
                proof {
                    let fj = from[j as int];
                    let fo = from[j - 1];
                    from = from.update(j as int, fo).update(j - 1, fj);
                    to = to.update(fj, j - 1).update(fo, j as int);
                    assert forall|a: int, b: int|
                        start <= a < b <= i && a != j - 1 && b != j - 1 implies #[trigger] goes_before(
                        boxes@,
                        axis,
                        order@,
                        from,
                        a,
                        b,
                    ) by {
                        let a_then = if a == j { j - 1 } else { a };
                        let b_then = if b == j { j - 1 } else { b };
                        assert(goes_before(boxes@, axis, order_then, from_then, a_then, b_then));
                    }
                }
                j -= 1;
            } else {
                moving = false;
            }
        }
        proof {
            assert forall|a: int, b: int| start <= a < b < i + 1 implies #[trigger] goes_before(
                boxes@,
                axis,
                order@,
                from,
                a,
                b,
            ) by {
                if a == j {
                } else if b == j {
                    if a < j - 1 {
                        assert(goes_before(boxes@, axis, order@, from, a, j - 1));
                    }
                } else {
                }
            }
        }
        i += 1;
    }
    proof {
        lemma_tracked_order(boxes@, before, order@, from, to, start as int, end as int, axis);
    }
}

/// One side of a node: a primitive of the scene, or a smaller hierarchy.
#[derive(Debug)]
pub enum BVHChild {
    Primitive(usize),
    Node(Box<BVHNode>),
}

/// A node of the hierarchy: two children and the box around both.
#[derive(Debug)]
pub struct BVHNode {
    pub aabb: AABB,
    pub left: BVHChild,
    pub right: BVHChild,
}

/// Whether no primitive of `low` has a box that starts after the box of a
/// primitive of `high` along `axis`.
pub open spec fn separated(boxes: Seq<AABB>, axis: usize, low: Set<usize>, high: Set<usize>) -> bool {
    forall|a: usize, b: usize|
        low.contains(a) && high.contains(b) ==> sort_key(boxes, a, axis) <= sort_key(
            boxes,
            b,
            axis,
        )
}

impl BVHChild {
    /// The primitives below this child.
    pub open spec fn primitives(self) -> Set<usize>
        decreases self,
    {
        match self {
            BVHChild::Primitive(i) => set![i],
            BVHChild::Node(node) => node.primitives(),
        }
    }

    /// How many primitives stand below this child.
    pub open spec fn count(self) -> nat
        decreases self,
    {
        match self {
            BVHChild::Primitive(_) => 1,
            BVHChild::Node(node) => node.count(),
        }
    }

    /// The box of this child: the primitive's own, or the node's.
    pub open spec fn bounds(self, boxes: Seq<AABB>) -> AABB {
        match self {
            BVHChild::Primitive(i) => box_of(boxes, i),
            BVHChild::Node(node) => node.aabb,
        }
    }

    /// See `BVHNode::well_formed`.
    pub open spec fn well_formed(self, boxes: Seq<AABB>) -> bool
        decreases self,
    {
        match self {
            BVHChild::Primitive(i) => i < boxes.len(),
            BVHChild::Node(node) => node.well_formed(boxes),
        }
    }

    /// See `BVHNode::median_split`.
    pub open spec fn median_split(self, boxes: Seq<AABB>) -> bool
        decreases self,
    {
        match self {
            BVHChild::Primitive(_) => true,
            BVHChild::Node(node) => node.median_split(boxes),
        }
    }
}

impl BVHNode {
    /// The primitives below this node.
    pub open spec fn primitives(self) -> Set<usize>
        decreases self,
    {
        self.left.primitives().union(self.right.primitives())
    }

    /// How many primitives stand below this node. A node whose two children
    /// are the same primitive holds one.
    pub open spec fn count(self) -> nat
        decreases self,
    {
        match (self.left, self.right) {
            (BVHChild::Primitive(a), BVHChild::Primitive(b)) => if a == b {
                1
            } else {
                2
            },
            _ => self.left.count() + self.right.count(),
        }
    }

    /// Whether the hierarchy fits the scene whose primitives have the boxes
    /// `boxes`: every primitive it names exists, and the box of every node is
    /// the smallest box around the boxes of its two children.
    pub open spec fn well_formed(self, boxes: Seq<AABB>) -> bool
        decreases self,
    {
        &&& self.left.well_formed(boxes)
        &&& self.right.well_formed(boxes)
        &&& self.aabb == AABB::surrounding(self.left.bounds(boxes), self.right.bounds(boxes))
    }

    /// Whether every node was split as the construction splits: a node over
    /// one or two primitives holds them directly; a node over more holds two
    /// nodes, the left one over half of the primitives, rounded down, and
    /// along some axis no box on the left starts after a box on the right.
    pub open spec fn median_split(self, boxes: Seq<AABB>) -> bool
        decreases self,
    {
        match (self.left, self.right) {
            (BVHChild::Primitive(_), BVHChild::Primitive(_)) => true,
            (BVHChild::Node(l), BVHChild::Node(r)) => {
                &&& self.count() >= 3
                &&& l.count() == self.count() / 2
                &&& exists|axis: usize|
                    axis < 3 && #[trigger] separated(boxes, axis, l.primitives(), r.primitives())
                &&& l.median_split(boxes)
                &&& r.median_split(boxes)
            },
            _ => false,
        }
    }

    /// The box around everything below this node.
    pub fn bounding_box(&self) -> (r: AABB)
        ensures
            r == self.aabb,
    {
        self.aabb
    }
}

/// Whether every primitive between `start` and `end` of an ordering has a
/// box and, where three or more stand there and so will be sorted, a box
/// that starts at a number along every axis.
pub open spec fn ready_between(boxes: Seq<AABB>, order: Seq<usize>, start: int, end: int) -> bool {
    &&& forall|i: int| start <= i <= end ==> (#[trigger] order[i]) < boxes.len()
    &&& end - start >= 2 ==> forall|i: int|
        start <= i <= end ==> sortable_along_all(boxes, #[trigger] order[i])
}

/// Whether `primitive` has a box that starts at a number along every axis.
pub open spec fn sortable_along_all(boxes: Seq<AABB>, primitive: usize) -> bool {
    sortable(boxes, primitive, 0) && sortable(boxes, primitive, 1) && sortable(boxes, primitive, 2)
}

/// The primitives of a stretch are those of its two parts.
proof fn lemma_entries_split(order: Seq<usize>, start: int, mid: int, end: int)
    requires
        start <= mid <= end + 1,
    ensures
        entries(order, start, end) == entries(order, start, mid - 1).union(
            entries(order, mid, end),
        ),
{
    assert forall|x: usize| entries(order, start, end).contains(x) == (entries(
        order,
        start,
        mid - 1,
    ).contains(x) || entries(order, mid, end).contains(x)) by {
        if entries(order, start, end).contains(x) {
            let i = choose|i: int| start <= i <= end && #[trigger] order[i] == x;
            if i < mid {
                assert(entries(order, start, mid - 1).contains(order[i]));
            } else {
                assert(entries(order, mid, end).contains(order[i]));
            }
        }
        if entries(order, start, mid - 1).contains(x) {
            let i = choose|i: int| start <= i <= mid - 1 && #[trigger] order[i] == x;
            assert(entries(order, start, end).contains(order[i]));
        }
        if entries(order, mid, end).contains(x) {
            let i = choose|i: int| mid <= i <= end && #[trigger] order[i] == x;
            assert(entries(order, start, end).contains(order[i]));
        }
    }
    assert(entries(order, start, end) =~= entries(order, start, mid - 1).union(
        entries(order, mid, end),
    ));
}

/// Two orderings that agree on a stretch hold the same primitives there.
proof fn lemma_entries_agree(first: Seq<usize>, second: Seq<usize>, start: int, end: int)
    requires
        forall|i: int| start <= i <= end ==> first[i] == second[i],
    ensures
        entries(first, start, end) == entries(second, start, end),
{
    assert forall|x: usize| entries(first, start, end).contains(x) == entries(
        second,
        start,
        end,
    ).contains(x) by {
        if entries(first, start, end).contains(x) {
            let i = choose|i: int| start <= i <= end && #[trigger] first[i] == x;
            assert(second[i] == x);
        }
        if entries(second, start, end).contains(x) {
            let i = choose|i: int| start <= i <= end && #[trigger] second[i] == x;
            assert(first[i] == x);
        }
    }
    assert(entries(first, start, end) =~= entries(second, start, end));
}

/// The box of a child, looked up.
fn child_box(child: &BVHChild, boxes: &Vec<AABB>) -> (r: AABB)
    requires
        child.well_formed(boxes@),
    ensures
        r == child.bounds(boxes@),
{
    match child {
        BVHChild::Primitive(i) => boxes[*i],
        BVHChild::Node(node) => node.bounding_box(),
    }
}

impl BVHNode {
    /// Whether the hierarchy is what the construction makes of the primitives
    /// that stand between `start` and `end` of `order`.
    pub open spec fn built_over(self, boxes: Seq<AABB>, order: Seq<usize>, start: int, end: int) -> bool {
        &&& self.well_formed(boxes)
        &&& self.median_split(boxes)
        &&& self.primitives() == entries(order, start, end)
        &&& self.count() == end - start + 1
        &&& end == start ==> self.left == BVHChild::Primitive(order[start]) && self.right
            == BVHChild::Primitive(order[start])
        &&& end == start + 1 ==> self.left == BVHChild::Primitive(order[start]) && self.right
            == BVHChild::Primitive(order[end])
    }

    /// Builds the hierarchy over the primitives between `start` and `end` of
    /// `order`, rearranging that stretch as it sorts.
    fn build(boxes: &Vec<AABB>, order: &mut Vec<usize>, start: usize, end: usize) -> (node: BVHNode)
        requires
            start <= end < old(order)@.len(),
            ready_between(boxes@, old(order)@, start as int, end as int),
            distinct_between(old(order)@, start as int, end as int),
        ensures
            final(order)@.len() == old(order)@.len(),
            forall|i: int|
                0 <= i < old(order)@.len() && !(start <= i <= end) ==> final(order)@[i] == old(
                    order,
                )@[i],
            entries(final(order)@, start as int, end as int) == entries(
                old(order)@,
                start as int,
                end as int,
            ),
            distinct_between(final(order)@, start as int, end as int),
            node.built_over(boxes@, old(order)@, start as int, end as int),
        decreases end - start,
    {
        let ghost given = order@;
        let axis = random_axis();
        let length: usize = order.len();
        let num_objects: usize = end - start + 1;
        if num_objects == 1 {
            let only = order[start];
            let aabb = AABB::new_surrounding_box(&boxes[only], &boxes[only]);
            let node = BVHNode {
                aabb,
                left: BVHChild::Primitive(only),
                right: BVHChild::Primitive(only),
            };
            proof {
                assert(node.primitives() =~= entries(given, start as int, end as int)) by {
                    assert(entries(given, start as int, end as int).contains(given[start as int]));
                }
            }
            node
        } else if num_objects == 2 {
            let first = order[start];
            let second = order[end];
            let aabb = AABB::new_surrounding_box(&boxes[first], &boxes[second]);
            let node = BVHNode {
                aabb,
                left: BVHChild::Primitive(first),
                right: BVHChild::Primitive(second),
            };
            proof {
                assert(node.primitives() =~= entries(given, start as int, end as int)) by {
                    assert(entries(given, start as int, end as int).contains(given[start as int]));
                    assert(entries(given, start as int, end as int).contains(given[end as int]));
                }
            }
            node
        } else {
            sort_by_axis(order, boxes, start, end, axis);
            let ghost sorted = order@;
            let mid: usize = start + num_objects / 2;
            proof {
                assert forall|i: int| start <= i <= end implies (#[trigger] sorted[i]) < boxes@.len()
                    && sortable_along_all(boxes@, sorted[i]) by {
                    assert(entries(sorted, start as int, end as int).contains(sorted[i]));
                    let k = choose|k: int| start <= k <= end && #[trigger] given[k] == sorted[i];
                    assert(given[k] < boxes@.len());
                }
            }
            let left = BVHNode::build(boxes, order, start, mid - 1);
            let ghost halfway = order@;
            proof {
                assert forall|i: int| mid <= i <= end implies (#[trigger] halfway[i]) < boxes@.len()
                    && sortable_along_all(boxes@, halfway[i]) by {
                    assert(halfway[i] == sorted[i]);
                }
            }
            let right = BVHNode::build(boxes, order, mid, end);
            let aabb = AABB::new_surrounding_box(&left.bounding_box(), &right.bounding_box());
            proof {
                let low = entries(sorted, start as int, mid - 1);
                let high = entries(sorted, mid as int, end as int);
                lemma_entries_agree(sorted, halfway, mid as int, end as int);
                lemma_entries_agree(halfway, order@, start as int, mid - 1);
                lemma_entries_split(sorted, start as int, mid as int, end as int);
                lemma_entries_split(order@, start as int, mid as int, end as int);
                assert(left.primitives() == low);
                assert(right.primitives() == high);
                assert(separated(boxes@, axis, low, high)) by {
                    assert forall|a: usize, b: usize| low.contains(a) && high.contains(
                        b,
                    ) implies sort_key(boxes@, a, axis) <= sort_key(boxes@, b, axis) by {
                        let i = choose|i: int| start <= i <= mid - 1 && #[trigger] sorted[i] == a;
                        let j = choose|j: int| mid <= j <= end && #[trigger] sorted[j] == b;
                        assert(sort_key(boxes@, sorted[i], axis) <= sort_key(
                            boxes@,
                            sorted[j],
                            axis,
                        ));
                    }
                }
                assert forall|i: int, j: int| start <= i < j <= end implies order@[i] != order@[j] by {
                    if i < mid && mid <= j {
                        assert(order@[i] == halfway[i]);
                        assert(entries(halfway, start as int, mid - 1).contains(halfway[i]));
                        assert(entries(order@, mid as int, end as int).contains(order@[j]));
                        let p = choose|p: int| start <= p <= mid - 1 && #[trigger] sorted[p] == order@[i];
                        let q = choose|q: int| mid <= q <= end && #[trigger] sorted[q] == order@[j];
                        assert(sorted[p] != sorted[q]);
                    } else if j < mid {
                        assert(order@[i] == halfway[i] && order@[j] == halfway[j]);
                    }
                }
            }
            BVHNode { aabb, left: BVHChild::Node(Box::new(left)), right: BVHChild::Node(Box::new(right)) }
        }
    }

    /// Builds the hierarchy over the primitives `start` to `end` of a scene,
    /// both included. `boxes` holds the bounding box of every primitive of
    /// the scene, in scene order.
    ///
    /// A subtree over one primitive holds it on both sides; one over two
    /// holds the first on the left and the second on the right. A larger one
    /// picks an axis at random, sorts its primitives by where their boxes
    /// start along it, and hands those before the middle to the left and the
    /// others to the right, so that of an odd number the right side gets one
    /// more. The box of a node is the smallest around its children's.
    ///
    /// Where three or more primitives are given their boxes must start at
    /// numbers, since they are sorted.
    pub fn new(boxes: &Vec<AABB>, start: usize, end: usize) -> (node: BVHNode)
        requires
            start <= end < boxes@.len(),
            end - start >= 2 ==> forall|primitive: usize|
                start <= primitive <= end ==> #[trigger] sortable_along_all(boxes@, primitive),
        ensures
            node.well_formed(boxes@),
            node.median_split(boxes@),
            node.primitives() == Set::new(|primitive: usize| start <= primitive <= end),
            node.count() == end - start + 1,
            end == start ==> node.left == BVHChild::Primitive(start) && node.right
                == BVHChild::Primitive(start),
            end == start + 1 ==> node.left == BVHChild::Primitive(start) && node.right
                == BVHChild::Primitive(end),
    {
        let mut order: Vec<usize> = Vec::new();
        let length: usize = boxes.len();
        let mut i: usize = 0;
        while i <= end
            invariant
                i <= end + 1,
                end < length,
                order@.len() == i,
                forall|k: int| 0 <= k < i ==> order@[k] == k,
            decreases end + 1 - i,
        {
            order.push(i);
            i += 1;
        }
        let ghost identity = order@;
        let node = BVHNode::build(boxes, &mut order, start, end);
        proof {
            assert(entries(identity, start as int, end as int) =~= Set::new(
                |primitive: usize| start <= primitive <= end,
            )) by {
                assert forall|x: usize| start <= x <= end implies entries(
                    identity,
                    start as int,
                    end as int,
                ).contains(x) by {
                    assert(identity[x as int] == x);
                }
            }
        }
        node
    }
}

/// Whether `slabs` tells what `crossings` answers: whatever it returns for a
/// box is what `slabs` holds for that box.
pub open spec fn describes_crossings<C: Fn(&AABB) -> [Slab; 3]>(
    crossings: C,
    slabs: spec_fn(AABB) -> Seq<Slab>,
) -> bool {
    forall|aabb: AABB, out: [Slab; 3]|
        #[trigger] crossings.ensures((&aabb,), out) ==> out@ == slabs(aabb)
}

/// Whether `hits` tells what `probe` answers: whatever it returns for a
/// primitive is what `hits` holds for that primitive.
pub open spec fn describes_probes<P: Fn(usize) -> Option<HitRecord>>(
    probe: P,
    hits: Seq<Option<HitRecord>>,
) -> bool {
    forall|primitive: usize, out: Option<HitRecord>|
        primitive < hits.len() && #[trigger] probe.ensures((primitive,), out) ==> out
            == hits[primitive as int]
}

impl BVHChild {
    /// Whether the search may ask for the crossings of `aabb`.
    pub open spec fn asks(self, aabb: AABB) -> bool
        decreases self,
    {
        match self {
            BVHChild::Primitive(_) => false,
            BVHChild::Node(node) => node.asks(aabb),
        }
    }

    /// See `BVHNode::hit_spec`.
    pub open spec fn hit_spec(
        self,
        hits: Seq<Option<HitRecord>>,
        slabs: spec_fn(AABB) -> Seq<Slab>,
        t_min: Scalar,
        t_max: Scalar,
    ) -> Option<HitRecord>
        decreases self,
    {
        match self {
            BVHChild::Primitive(i) => hits[i as int],
            BVHChild::Node(node) => node.hit_spec(hits, slabs, t_min, t_max),
        }
    }

    /// See `BVHNode::hit_outcome`: a primitive may come to whatever `probe`
    /// may answer for it.
    pub open spec fn hit_outcome<C: Fn(&AABB) -> [Slab; 3], P: Fn(usize) -> Option<HitRecord>>(
        self,
        crossings: C,
        probe: P,
        t_min: Scalar,
        t_max: Scalar,
        r: Option<HitRecord>,
    ) -> bool
        decreases self,
    {
        match self {
            BVHChild::Primitive(i) => probe.ensures((i,), r),
            BVHChild::Node(node) => node.hit_outcome(crossings, probe, t_min, t_max, r),
        }
    }

    /// See `BVHNode::conservative`.
    pub open spec fn conservative(
        self,
        hits: Seq<Option<HitRecord>>,
        slabs: spec_fn(AABB) -> Seq<Slab>,
        t_min: Scalar,
        t_max: Scalar,
    ) -> bool
        decreases self,
    {
        match self {
            BVHChild::Primitive(_) => true,
            BVHChild::Node(node) => node.conservative(hits, slabs, t_min, t_max),
        }
    }

    /// Searches one side of a node.
    fn hit<C: Fn(&AABB) -> [Slab; 3], P: Fn(usize) -> Option<HitRecord>>(
        &self,
        crossings: &C,
        probe: &P,
        t_min: Scalar,
        t_max: Scalar,
    ) -> (r: Option<HitRecord>)
        requires
            forall|aabb: AABB| #[trigger] self.asks(aabb) ==> crossings.requires((&aabb,)),
            forall|primitive: usize| #[trigger]
                self.primitives().contains(primitive) ==> probe.requires((primitive,)),
        ensures
            forall|slabs: spec_fn(AABB) -> Seq<Slab>, hits: Seq<Option<HitRecord>>|
                describes_crossings(*crossings, slabs) && describes_probes(*probe, hits) && (forall|
                    primitive: usize,
                | #[trigger]
                    self.primitives().contains(primitive) ==> primitive < hits.len()) ==> r
                    == #[trigger] self.hit_spec(hits, slabs, t_min, t_max),
            r is Some ==> exists|primitive: usize|
                self.primitives().contains(primitive) && probe.ensures((primitive,), r),
            self.hit_outcome(*crossings, *probe, t_min, t_max, r),
        decreases self,
    {
        match self {
            BVHChild::Primitive(i) => {
                proof {
                    assert(self.primitives().contains(*i));
                }
                probe(*i)
            },
            BVHChild::Node(node) => {
                proof {
                    assert forall|aabb: AABB| node.asks(aabb) implies crossings.requires(
                        (&aabb,),
                    ) by {
                        assert(self.asks(aabb));
                    }
                    assert forall|primitive: usize|
                        node.primitives().contains(primitive) implies probe.requires(
                        (primitive,),
                    ) by {
                        assert(self.primitives().contains(primitive));
                    }
                }
                let r = node.hit(crossings, probe, t_min, t_max);
                proof {
                    assert forall|slabs: spec_fn(AABB) -> Seq<Slab>, hits: Seq<Option<HitRecord>>|
                        describes_crossings(*crossings, slabs) && describes_probes(*probe, hits)
                            && (forall|primitive: usize| #[trigger]
                            self.primitives().contains(primitive) ==> primitive
                                < hits.len()) implies r == #[trigger] self.hit_spec(
                        hits,
                        slabs,
                        t_min,
                        t_max,
                    ) by {
                        assert forall|primitive: usize| #[trigger]
                            node.primitives().contains(primitive) implies primitive
                            < hits.len() by {
                            assert(self.primitives().contains(primitive));
                        }
                        assert(r == node.hit_spec(hits, slabs, t_min, t_max));
                    }
                    if r is Some {
                        let primitive = choose|primitive: usize|
                            node.primitives().contains(primitive) && probe.ensures(
                                (primitive,),
                                r,
                            );
                        assert(self.primitives().contains(primitive));
                    }
                }
                r
            },
        }
    }
}

impl BVHNode {
    /// Whether the search may ask for the crossings of `aabb`: it is the box
    /// of this node or of a node below.
    pub open spec fn asks(self, aabb: AABB) -> bool
        decreases self,
    {
        self.aabb == aabb || self.left.asks(aabb) || self.right.asks(aabb)
    }

    /// What the search finds, given what the ray does to every primitive
    /// (`hits`) and where it crosses the planes of every box (`slabs`): where
    /// the ray misses the node's box between `t_min` and `t_max`, nothing;
    /// otherwise the nearer of what is found on the two sides.
    pub open spec fn hit_spec(
        self,
        hits: Seq<Option<HitRecord>>,
        slabs: spec_fn(AABB) -> Seq<Slab>,
        t_min: Scalar,
        t_max: Scalar,
    ) -> Option<HitRecord>
        decreases self,
    {
        if !slab_hit(slabs(self.aabb), t_min, t_max) {
            None
        } else {
            nearer(
                self.left.hit_spec(hits, slabs, t_min, t_max),
                self.right.hit_spec(hits, slabs, t_min, t_max),
            )
        }
    }

    /// Whether `r` may be what the search returns, whatever the two functions
    /// answer, also where they answer the same question differently from
    /// one time to the next: nothing, where the crossings that `crossings`
    /// gave for the box of the node miss the box between `t_min` and
    /// `t_max`; otherwise the nearer of what the left and the right side may
    /// come to.
    pub open spec fn hit_outcome<C: Fn(&AABB) -> [Slab; 3], P: Fn(usize) -> Option<HitRecord>>(
        self,
        crossings: C,
        probe: P,
        t_min: Scalar,
        t_max: Scalar,
        r: Option<HitRecord>,
    ) -> bool
        decreases self,
    {
        exists|slabs: [Slab; 3]| #[trigger]
            crossings.ensures((&self.aabb,), slabs) && if !slab_hit(slabs@, t_min, t_max) {
                r is None
            } else {
                exists|left: Option<HitRecord>, right: Option<HitRecord>|
                    self.left.hit_outcome(crossings, probe, t_min, t_max, left)
                        && self.right.hit_outcome(crossings, probe, t_min, t_max, right) && r
                        == #[trigger] nearer(left, right)
            }
    }

    /// Whether the boxes never hide an intersection: wherever the ray misses
    /// the box of a node, it meets no primitive below that node.
    pub open spec fn conservative(
        self,
        hits: Seq<Option<HitRecord>>,
        slabs: spec_fn(AABB) -> Seq<Slab>,
        t_min: Scalar,
        t_max: Scalar,
    ) -> bool
        decreases self,
    {
        &&& !slab_hit(slabs(self.aabb), t_min, t_max) ==> forall|primitive: usize|
            self.primitives().contains(primitive) ==> hits[primitive as int] is None
        &&& self.left.conservative(hits, slabs, t_min, t_max)
        &&& self.right.conservative(hits, slabs, t_min, t_max)
    }

    /// Intersects a ray with the primitives below this node and returns the
    /// closest intersection between `t_min` and `t_max`, or none.
    ///
    /// `crossings` works out where the ray crosses the planes of a box, and
    /// `probe` intersects the ray with one primitive. The box of the node is
    /// tested first; where the ray misses it nothing below is asked. Where
    /// the ray meets it both sides are searched and the nearer result is
    /// returned, the left one where both lie equally far.
    ///
    /// Whatever the two functions answer, the result is as `hit_outcome`
    /// describes, and an intersection that is returned is one that `probe`
    /// gave for a primitive below this node. Where the two functions answer
    /// the same question always alike, the result is `hit_spec` of their
    /// answers.
    pub fn hit<C: Fn(&AABB) -> [Slab; 3], P: Fn(usize) -> Option<HitRecord>>(
        &self,
        crossings: &C,
        probe: &P,
        t_min: Scalar,
        t_max: Scalar,
    ) -> (r: Option<HitRecord>)
        requires
            forall|aabb: AABB| #[trigger] self.asks(aabb) ==> crossings.requires((&aabb,)),
            forall|primitive: usize| #[trigger]
                self.primitives().contains(primitive) ==> probe.requires((primitive,)),
        ensures
            forall|slabs: spec_fn(AABB) -> Seq<Slab>, hits: Seq<Option<HitRecord>>|
                describes_crossings(*crossings, slabs) && describes_probes(*probe, hits) && (forall|
                    primitive: usize,
                | #[trigger]
                    self.primitives().contains(primitive) ==> primitive < hits.len()) ==> r
                    == #[trigger] self.hit_spec(hits, slabs, t_min, t_max),
            r is Some ==> exists|primitive: usize|
                self.primitives().contains(primitive) && probe.ensures((primitive,), r),
            self.hit_outcome(*crossings, *probe, t_min, t_max, r),
        decreases self,
    {
        proof {
            assert(self.asks(self.aabb));
        }
        let slabs_here = crossings(&self.aabb);
        if !slab_intersect(&slabs_here, t_min, t_max) {
            proof {
                assert forall|slabs: spec_fn(AABB) -> Seq<Slab>, hits: Seq<Option<HitRecord>>|
                    describes_crossings(*crossings, slabs) implies None::<HitRecord>
                    == #[trigger] self.hit_spec(hits, slabs, t_min, t_max) by {
                    assert(slabs_here@ == slabs(self.aabb));
                }
            }
            return None;
        }
        proof {
            assert forall|aabb: AABB| #[trigger] self.left.asks(aabb) implies crossings.requires(
                (&aabb,),
            ) by {
                assert(self.asks(aabb));
            }
            assert forall|aabb: AABB| #[trigger] self.right.asks(aabb) implies crossings.requires(
                (&aabb,),
            ) by {
                assert(self.asks(aabb));
            }
            assert forall|primitive: usize| #[trigger]
                self.left.primitives().contains(primitive) implies probe.requires((primitive,)) by {
                assert(self.primitives().contains(primitive));
            }
            assert forall|primitive: usize| #[trigger]
                self.right.primitives().contains(primitive) implies probe.requires(
                (primitive,),
            ) by {
                assert(self.primitives().contains(primitive));
            }
        }
        let hit_left = self.left.hit(crossings, probe, t_min, t_max);
        let hit_right = self.right.hit(crossings, probe, t_min, t_max);
        let r = nearer_hit(hit_left, hit_right);
        proof {
            assert forall|slabs: spec_fn(AABB) -> Seq<Slab>, hits: Seq<Option<HitRecord>>|
                describes_crossings(*crossings, slabs) && describes_probes(*probe, hits) && (forall|
                    primitive: usize,
                | #[trigger]
                    self.primitives().contains(primitive) ==> primitive < hits.len()) implies r
                == #[trigger] self.hit_spec(hits, slabs, t_min, t_max) by {
                assert(slabs_here@ == slabs(self.aabb));
                assert forall|primitive: usize| #[trigger]
                    self.left.primitives().contains(primitive) implies primitive < hits.len() by {
                    assert(self.primitives().contains(primitive));
                }
                assert forall|primitive: usize| #[trigger]
                    self.right.primitives().contains(primitive) implies primitive < hits.len() by {
                    assert(self.primitives().contains(primitive));
                }
                assert(hit_left == self.left.hit_spec(hits, slabs, t_min, t_max));
                assert(hit_right == self.right.hit_spec(hits, slabs, t_min, t_max));
            }
            if r is Some {
                if r == hit_left {
                    let primitive = choose|primitive: usize|
                        self.left.primitives().contains(primitive) && probe.ensures(
                            (primitive,),
                            r,
                        );
                    assert(self.primitives().contains(primitive));
                } else {
                    let primitive = choose|primitive: usize|
                        self.right.primitives().contains(primitive) && probe.ensures(
                            (primitive,),
                            r,
                        );
                    assert(self.primitives().contains(primitive));
                }
            }
        }
        r
    }
}

/// Whether `r` is a closest intersection among the primitives in `among`:
/// nothing, exactly where the ray meets none of them; otherwise what the ray
/// does to one of them, with none of them closer.
pub open spec fn is_least_among(
    hits: Seq<Option<HitRecord>>,
    among: Set<usize>,
    r: Option<HitRecord>,
) -> bool {
    match r {
        None => forall|primitive: usize|
            among.contains(primitive) ==> hits[primitive as int] is None,
        Some(h) => {
            &&& exists|primitive: usize|
                among.contains(primitive) && hits[primitive as int] == r
            &&& forall|primitive: usize|
                among.contains(primitive) ==> no_closer(hits[primitive as int], h)
        },
    }
}

/// Whether two searches agree: both find nothing, or both find an
/// intersection and the two lie at the same distance.
pub open spec fn same_distance(first: Option<HitRecord>, second: Option<HitRecord>) -> bool {
    match (first, second) {
        (None, None) => true,
        (Some(a), Some(b)) => a.t.rank() == b.t.rank(),
        _ => false,
    }
}

/// The nearer of the closest intersections of two groups of primitives is a
/// closest intersection of both groups together.
proof fn lemma_nearer_is_least(
    hits: Seq<Option<HitRecord>>,
    low: Set<usize>,
    high: Set<usize>,
    first: Option<HitRecord>,
    second: Option<HitRecord>,
)
    requires
        distances_are_numbers(hits),
        forall|primitive: usize| low.union(high).contains(primitive) ==> primitive < hits.len(),
        is_least_among(hits, low, first),
        is_least_among(hits, high, second),
    ensures
        is_least_among(hits, low.union(high), nearer(first, second)),
{
    let r = nearer(first, second);
    if first is Some {
        let p = choose|p: usize| low.contains(p) && hits[p as int] == first;
        assert(low.union(high).contains(p));
        assert(distance_is_number(hits[p as int]));
    }
    if second is Some {
        let q = choose|q: usize| high.contains(q) && hits[q as int] == second;
        assert(low.union(high).contains(q));
        assert(distance_is_number(hits[q as int]));
    }
    match r {
        None => {},
        Some(h) => {
            assert forall|primitive: usize| low.union(high).contains(primitive) implies no_closer(
                hits[primitive as int],
                h,
            ) by {
                assert(distance_is_number(hits[primitive as int]));
                if low.contains(primitive) {
                    if first is Some {
                        assert(no_closer(hits[primitive as int], first->0));
                    }
                } else {
                    if second is Some {
                        assert(no_closer(hits[primitive as int], second->0));
                    }
                }
            }
        },
    }
}

/// The search through a hierarchy with conservative boxes finds a closest
/// intersection among the primitives below it.
pub proof fn lemma_search_finds_least(
    node: BVHNode,
    hits: Seq<Option<HitRecord>>,
    slabs: spec_fn(AABB) -> Seq<Slab>,
    t_min: Scalar,
    t_max: Scalar,
)
    requires
        distances_are_numbers(hits),
        forall|primitive: usize| node.primitives().contains(primitive) ==> primitive < hits.len(),
        node.conservative(hits, slabs, t_min, t_max),
    ensures
        is_least_among(hits, node.primitives(), node.hit_spec(hits, slabs, t_min, t_max)),
    decreases node,
{
    if slab_hit(slabs(node.aabb), t_min, t_max) {
        assert forall|primitive: usize|
            node.left.primitives().union(node.right.primitives()).contains(
                primitive,
            ) implies primitive < hits.len() by {
            assert(node.primitives().contains(primitive));
        }
        assert forall|primitive: usize|
            node.left.primitives().contains(primitive) implies primitive < hits.len() by {
            assert(node.left.primitives().union(node.right.primitives()).contains(primitive));
        }
        assert forall|primitive: usize|
            node.right.primitives().contains(primitive) implies primitive < hits.len() by {
            assert(node.left.primitives().union(node.right.primitives()).contains(primitive));
        }
        lemma_side_finds_least(node.left, hits, slabs, t_min, t_max);
        lemma_side_finds_least(node.right, hits, slabs, t_min, t_max);
        lemma_nearer_is_least(
            hits,
            node.left.primitives(),
            node.right.primitives(),
            node.left.hit_spec(hits, slabs, t_min, t_max),
            node.right.hit_spec(hits, slabs, t_min, t_max),
        );
    }
}

/// `lemma_search_finds_least`, for one side of a node.
proof fn lemma_side_finds_least(
    child: BVHChild,
    hits: Seq<Option<HitRecord>>,
    slabs: spec_fn(AABB) -> Seq<Slab>,
    t_min: Scalar,
    t_max: Scalar,
)
    requires
        distances_are_numbers(hits),
        forall|primitive: usize| child.primitives().contains(primitive) ==> primitive < hits.len(),
        child.conservative(hits, slabs, t_min, t_max),
    ensures
        is_least_among(hits, child.primitives(), child.hit_spec(hits, slabs, t_min, t_max)),
    decreases child,
{
    match child {
        BVHChild::Primitive(i) => {
            assert(child.primitives().contains(i));
            assert(distance_is_number(hits[i as int]));
        },
        BVHChild::Node(node) => {
            assert forall|primitive: usize|
                node.primitives().contains(primitive) implies primitive < hits.len() by {
                assert(child.primitives().contains(primitive));
            }
            lemma_search_finds_least(*node, hits, slabs, t_min, t_max);
        },
    }
}

/// The hierarchy and the linear scan agree. Where a hierarchy holds every
/// primitive of the scene and its boxes are conservative for a ray, the
/// search through the hierarchy and the scan of all primitives one by one
/// either both find nothing or find intersections at the same distance.
pub proof fn lemma_search_agrees_with_scan(
    node: BVHNode,
    hits: Seq<Option<HitRecord>>,
    slabs: spec_fn(AABB) -> Seq<Slab>,
    t_min: Scalar,
    t_max: Scalar,
)
    requires
        hits.len() <= usize::MAX,
        distances_are_numbers(hits),
        node.primitives() == Set::new(|primitive: usize| primitive < hits.len()),
        node.conservative(hits, slabs, t_min, t_max),
    ensures
        same_distance(node.hit_spec(hits, slabs, t_min, t_max), closest(hits)),
{
    let found = node.hit_spec(hits, slabs, t_min, t_max);
    let scanned = closest(hits);
    assert forall|primitive: usize| node.primitives().contains(primitive) implies primitive
        < hits.len() by {}
    lemma_search_finds_least(node, hits, slabs, t_min, t_max);
    lemma_closest_is_first_least(hits);
    match scanned {
        None => {
            if found is Some {
                let p = choose|p: usize| node.primitives().contains(p) && hits[p as int] == found;
                assert(hits[p as int] is None);
            }
        },
        Some(s) => {
            let k = choose|k: int| first_least_at(hits, s, k);
            let at: usize = k as usize;
            assert(at == k);
            assert(node.primitives().contains(at));
            assert(distance_is_number(hits[k]));
            match found {
                None => {
                    assert(hits[at as int] is None);
                },
                Some(f) => {
                    let p = choose|p: usize|
                        node.primitives().contains(p) && hits[p as int] == found;
                    assert(distance_is_number(hits[p as int]));
                    assert(no_closer(hits[p as int], s));
                    assert(no_closer(hits[at as int], f));
                },
            }
        },
    }
}

/// Whether the box test never turns a hit into a miss when the box grows:
/// a ray that passes through a box passes through every box around it.
pub open spec fn grows_with_box(slabs: spec_fn(AABB) -> Seq<Slab>, t_min: Scalar, t_max: Scalar) -> bool {
    forall|inner: AABB, outer: AABB|
        #[trigger] outer.encloses(inner) && slab_hit(slabs(inner), t_min, t_max) ==> slab_hit(
            slabs(outer),
            t_min,
            t_max,
        )
}

/// Whether a ray that meets a primitive passes through the primitive's box.
pub open spec fn boxes_hold_primitives(
    boxes: Seq<AABB>,
    hits: Seq<Option<HitRecord>>,
    slabs: spec_fn(AABB) -> Seq<Slab>,
    t_min: Scalar,
    t_max: Scalar,
) -> bool {
    forall|primitive: usize|
        primitive < hits.len() && (#[trigger] hits[primitive as int]) is Some ==> slab_hit(
            slabs(box_of(boxes, primitive)),
            t_min,
            t_max,
        )
}

/// Whether the boxes of all primitives are boxes of numbers.
pub open spec fn boxes_are_numeric(boxes: Seq<AABB>) -> bool {
    forall|i: int| 0 <= i < boxes.len() ==> (#[trigger] boxes[i]).is_numeric()
}

/// The box of a well-formed node is a box of numbers and encloses the box of
/// every primitive below the node.
pub proof fn lemma_node_box_encloses(node: BVHNode, boxes: Seq<AABB>, primitive: usize)
    requires
        node.well_formed(boxes),
        boxes_are_numeric(boxes),
        node.primitives().contains(primitive),
    ensures
        node.aabb.is_numeric(),
        node.aabb.encloses(box_of(boxes, primitive)),
    decreases node,
{
    lemma_side_box_is_numeric(node.left, boxes);
    lemma_side_box_is_numeric(node.right, boxes);
    let left = node.left.bounds(boxes);
    let right = node.right.bounds(boxes);
    lemma_surrounding_encloses(left, right);
    if node.left.primitives().contains(primitive) {
        match node.left {
            BVHChild::Primitive(i) => {},
            BVHChild::Node(below) => {
                lemma_node_box_encloses(*below, boxes, primitive);
                lemma_encloses_is_preorder(node.aabb, left, box_of(boxes, primitive));
            },
        }
    } else {
        match node.right {
            BVHChild::Primitive(i) => {},
            BVHChild::Node(below) => {
                lemma_node_box_encloses(*below, boxes, primitive);
                lemma_encloses_is_preorder(node.aabb, right, box_of(boxes, primitive));
            },
        }
    }
}

/// The box of one side of a well-formed node is a box of numbers.
proof fn lemma_side_box_is_numeric(child: BVHChild, boxes: Seq<AABB>)
    requires
        child.well_formed(boxes),
        boxes_are_numeric(boxes),
    ensures
        child.bounds(boxes).is_numeric(),
    decreases child,
{
    match child {
        BVHChild::Primitive(i) => {
            assert(boxes[i as int].is_numeric());
        },
        BVHChild::Node(node) => {
            lemma_side_box_is_numeric(node.left, boxes);
            lemma_side_box_is_numeric(node.right, boxes);
            lemma_surrounding_encloses(node.left.bounds(boxes), node.right.bounds(boxes));
        },
    }
}

/// The boxes of a well-formed hierarchy are conservative for every ray
/// whose box test grows with the box and which passes through the box of
/// every primitive it meets.
pub proof fn lemma_well_formed_is_conservative(
    node: BVHNode,
    boxes: Seq<AABB>,
    hits: Seq<Option<HitRecord>>,
    slabs: spec_fn(AABB) -> Seq<Slab>,
    t_min: Scalar,
    t_max: Scalar,
)
    requires
        node.well_formed(boxes),
        boxes_are_numeric(boxes),
        hits.len() == boxes.len(),
        grows_with_box(slabs, t_min, t_max),
        boxes_hold_primitives(boxes, hits, slabs, t_min, t_max),
    ensures
        node.conservative(hits, slabs, t_min, t_max),
    decreases node,
{
    assert forall|primitive: usize|
        node.primitives().contains(primitive) && !slab_hit(
            slabs(node.aabb),
            t_min,
            t_max,
        ) implies hits[primitive as int] is None by {
        lemma_node_box_encloses(node, boxes, primitive);
        lemma_primitives_exist(node, boxes, primitive);
        assert(node.aabb.encloses(box_of(boxes, primitive)));
    }
    match node.left {
        BVHChild::Primitive(_) => {},
        BVHChild::Node(below) => {
            lemma_well_formed_is_conservative(*below, boxes, hits, slabs, t_min, t_max);
        },
    }
    match node.right {
        BVHChild::Primitive(_) => {},
        BVHChild::Node(below) => {
            lemma_well_formed_is_conservative(*below, boxes, hits, slabs, t_min, t_max);
        },
    }
}

/// Every primitive below a well-formed node has a box.
pub proof fn lemma_primitives_exist(node: BVHNode, boxes: Seq<AABB>, primitive: usize)
    requires
        node.well_formed(boxes),
        node.primitives().contains(primitive),
    ensures
        primitive < boxes.len(),
    decreases node,
{
    if node.left.primitives().contains(primitive) {
        match node.left {
            BVHChild::Primitive(i) => {},
            BVHChild::Node(below) => {
                lemma_primitives_exist(*below, boxes, primitive);
            },
        }
    } else {
        match node.right {
            BVHChild::Primitive(i) => {},
            BVHChild::Node(below) => {
                lemma_primitives_exist(*below, boxes, primitive);
            },
        }
    }
}

/// Whether the box of primitive `a` starts before that of primitive `b`
/// along `axis`.
fn starts_before(boxes: &Vec<AABB>, a: usize, b: usize, axis: usize) -> (r: bool)
    requires
        axis < 3,
        sortable(boxes@, a, axis),
        sortable(boxes@, b, axis),
    ensures
        r == (sort_key(boxes@, a, axis) < sort_key(boxes@, b, axis)),
{
    match box_compare(&boxes[a], &boxes[b], axis) {
        Ordering::Less => true,
        Ordering::Equal => false,
        Ordering::Greater => false,
    }
}

} // verus!
