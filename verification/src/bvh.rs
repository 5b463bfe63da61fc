//! The bounding-volume hierarchy: a binary tree over a set of objects, built
//! once by median splits, that finds the closest hit without probing every
//! object.
use vstd::prelude::*;
use std::cmp::Ordering;
use crate::aabb::{slabs_of, AABB, Slab};
use crate::hittable_list::answers_of;
use crate::hittable::HitRecord;
use crate::ray::Ray;
use crate::scalar::Scalar;
use crate::utilities::random_int_with_bounds;
use crate::vec3::Vec3;

verus! {

/// An object as the hierarchy sees it: the caller's handle to it, and the
/// box the object reported, if it reported one.
#[derive(Clone, Copy, Debug)]
pub struct Bounded<T> {
    pub object: T,
    pub bound: Option<AABB>,
}

/// A child of a node: one object, or a node in turn.
pub enum BVHChild<T> {
    Leaf(Bounded<T>),
    Node(Box<BVHNode<T>>),
}

/// A node: two children and the union of their boxes.
pub struct BVHNode<T> {
    pub bound: AABB,
    pub left: BVHChild<T>,
    pub right: BVHChild<T>,
}

/// The box that stands in for an object without one: a single point at the
/// origin.
pub open spec fn origin_box() -> AABB {
    AABB {
        minimum: Vec3 { x: Scalar::zero_spec(), y: Scalar::zero_spec(), z: Scalar::zero_spec() },
        maximum: Vec3 { x: Scalar::zero_spec(), y: Scalar::zero_spec(), z: Scalar::zero_spec() },
    }
}

/// Whether the sequence is in ascending order of `place(.., axis)`.
pub open spec fn in_row<T: Copy>(part: Seq<Bounded<T>>, axis: usize) -> bool {
    forall|i: int, j: int|
        0 <= i < j < part.len() ==> (#[trigger] part[i]).place(axis) <= (#[trigger] part[j]).place(
            axis,
        )
}

/// Whether `row` holds the objects of `items` in the places that `from`
/// names: the object in place `i` of the row is object `from[i]` of the
/// items, and no object is taken twice.
pub open spec fn taken_from<T: Copy>(
    items: Seq<Bounded<T>>,
    row: Seq<Bounded<T>>,
    from: Seq<int>,
) -> bool {
    &&& from.len() == items.len()
    &&& row.len() == items.len()
    &&& forall|i: int|
        0 <= i < from.len() ==> 0 <= #[trigger] from[i] < items.len() && row[i] == items[from[i]]
    &&& forall|i: int, j: int|
        0 <= i < j < from.len() ==> #[trigger] from[i] != #[trigger] from[j]
}

/// Whether `row` is `items` put in a row along an axis without changing
/// the order of objects that stand at the same place: of two objects in the
/// row, the first stands before the second, or they stand at the same
/// place and the first came first among the items.
pub open spec fn in_stable_row<T: Copy>(
    items: Seq<Bounded<T>>,
    row: Seq<Bounded<T>>,
    axis: usize,
) -> bool {
    exists|from: Seq<int>| #[trigger]
        taken_from(items, row, from) && forall|i: int, j: int|
            0 <= i < j < row.len() ==> (#[trigger] row[i]).place(axis) < (#[trigger] row[j]).place(
                axis,
            ) || (row[i].place(axis) == row[j].place(axis) && from[i] < from[j])
}

/// Of two hits, the closer: the second where its parameter is at most the
/// first's, else the first; the one there is where the other is missing.
pub open spec fn closer<M>(first: Option<HitRecord<M>>, second: Option<HitRecord<M>>) -> Option<
    HitRecord<M>,
> {
    match (first, second) {
        (None, _) => second,
        (Some(_), None) => first,
        (Some(a), Some(b)) => if b.t.le_spec(a.t) {
            second
        } else {
            first
        },
    }
}

/// The upper end of the interval for the second child: the first child's
/// hit parameter if it hit, else the end as it was.
pub open spec fn limit<M>(first: Option<HitRecord<M>>, hi: Scalar) -> Scalar {
    match first {
        Some(rec) => rec.t,
        None => hi,
    }
}

impl<T: Copy> Bounded<T> {
    /// The box used for the object: its own, or the origin box if it has
    /// none.
    pub open spec fn extent_spec(self) -> AABB {
        match self.bound {
            Some(b) => b,
            None => origin_box(),
        }
    }

    /// Where the object stands along an axis: the sort rank of its box's
    /// minimum there.
    pub open spec fn place(self, axis: usize) -> int {
        self.extent_spec().minimum.axis(axis as int).sort_rank()
    }

    pub fn new(object: T, bound: Option<AABB>) -> (b: Bounded<T>)
        ensures
            b.object == object,
            b.bound == bound,
    {
        Bounded { object, bound }
    }

    #[verifier::when_used_as_spec(extent_spec)]
    pub fn extent(self) -> (bx: AABB)
        ensures
            bx == self.extent_spec(),
    {
        match self.bound {
            Some(b) => b,
            None => AABB::new(Vec3::splat(Scalar::zero()), Vec3::splat(Scalar::zero())),
        }
    }
}

impl<T: Copy> BVHChild<T> {
    /// The child's box.
    pub open spec fn extent_spec(&self) -> AABB {
        match *self {
            BVHChild::Leaf(b) => b.extent_spec(),
            BVHChild::Node(n) => n.bound,
        }
    }

    /// Whether every node below holds the union of its children's boxes.
    pub open spec fn sound(self) -> bool
        decreases self,
    {
        match self {
            BVHChild::Leaf(_) => true,
            BVHChild::Node(n) => n.sound(),
        }
    }

    /// The objects below, from left to right.
    pub open spec fn leaves(self) -> Seq<Bounded<T>>
        decreases self,
    {
        match self {
            BVHChild::Leaf(b) => seq![b],
            BVHChild::Node(n) => n.leaves(),
        }
    }

    /// What a hit test of the child on `[lo, hi]` may return: for a leaf
    /// what the hit test of the object returns, for a node what the node's
    /// test returns. `slabs` and `hits` say what the caller's arithmetic
    /// and hit test return, as for `AABB::crosses` and
    /// `HittableList::scan`.
    pub open spec fn answers<M>(
        self,
        slabs: spec_fn(usize, Scalar, Scalar, Slab) -> bool,
        hits: spec_fn(T, Scalar, Scalar, Option<HitRecord<M>>) -> bool,
        lo: Scalar,
        hi: Scalar,
        out: Option<HitRecord<M>>,
    ) -> bool
        decreases self, 0int,
    {
        match self {
            BVHChild::Leaf(b) => hits(b.object, lo, hi, out),
            BVHChild::Node(n) => n.probes(slabs, hits, lo, hi, out),
        }
    }

    #[verifier::when_used_as_spec(extent_spec)]
    pub fn extent(&self) -> (bx: AABB)
        ensures
            bx == self.extent_spec(),
    {
        match self {
            BVHChild::Leaf(b) => b.extent(),
            BVHChild::Node(n) => n.bound,
        }
    }

    /// Whether every object below reported a box.
    pub fn all_bounded(&self) -> (yes: bool)
        ensures
            yes == forall|k: int| 0 <= k < self.leaves().len() ==> (#[trigger] self.leaves()[k]).bound.is_some(),
        decreases self,
    {
        match self {
            BVHChild::Leaf(b) => {
                assert(self.leaves()[0] == *b);
                b.bound.is_some()
            },
            BVHChild::Node(n) => n.all_bounded(),
        }
    }

    /// The hit test of the child on `[t_min, t_max]`.
    pub fn hit<
        M,
        S: Fn(&Ray, usize, Scalar, Scalar) -> Slab,
        P: Fn(&T, &Ray, Scalar, Scalar) -> Option<HitRecord<M>>,
    >(&self, r: &Ray, t_min: Scalar, t_max: Scalar, slab: &S, probe: &P) -> (out: Option<
        HitRecord<M>,
    >)
        requires
            forall|i: usize, a: Scalar, b: Scalar| i < 3 ==> #[trigger] slab.requires((r, i, a, b)),
            forall|o: &T, lo: Scalar, hi: Scalar| #[trigger] probe.requires((o, r, lo, hi)),
        ensures
            self.answers(slabs_of(*slab, *r), answers_of(*probe, *r), t_min, t_max, out),
        decreases self,
    {
        match self {
            BVHChild::Leaf(b) => probe(&b.object, r, t_min, t_max),
            BVHChild::Node(n) => n.hit(r, t_min, t_max, slab, probe),
        }
    }
}

impl<T: Copy> BVHNode<T> {
    /// Whether this node and every node below holds the union of its
    /// children's boxes.
    pub open spec fn sound(self) -> bool
        decreases self,
    {
        &&& self.bound == self.left.extent_spec().union(self.right.extent_spec())
        &&& self.left.sound()
        &&& self.right.sound()
    }

    /// The objects below, from left to right. An object that is both
    /// children of a node is listed twice.
    pub open spec fn leaves(self) -> Seq<Bounded<T>>
        decreases self,
    {
        self.left.leaves() + self.right.leaves()
    }

    /// Whether the tree is one that `new` may build over `items`.
    ///
    /// Over one object both children are that object. Over two the children
    /// are the two objects, first the one that stands before the other along
    /// some axis, and the second of the pair where neither does. Over more
    /// the objects are put in a row along some axis, those at the same
    /// place in the order in which they came, and the row is cut in the
    /// middle: the left child is a tree over the first half, the right child
    /// over the rest. In each case the node's box is the union of its
    /// children's.
    pub open spec fn arranges(self, items: Seq<Bounded<T>>) -> bool
        decreases self,
    {
        &&& self.bound == self.left.extent_spec().union(self.right.extent_spec())
        &&& if items.len() == 1 {
            self.left == BVHChild::Leaf(items[0]) && self.right == BVHChild::Leaf(items[0])
        } else if items.len() == 2 {
            exists|axis: usize|
                axis < 3 && if (#[trigger] items[0].place(axis)) < items[1].place(axis) {
                    self.left == BVHChild::Leaf(items[0]) && self.right == BVHChild::Leaf(items[1])
                } else {
                    self.left == BVHChild::Leaf(items[1]) && self.right == BVHChild::Leaf(items[0])
                }
        } else {
            exists|axis: usize, part: Seq<Bounded<T>>|
                axis < 3 && part.len() == items.len() && part.to_multiset()
                    == items.to_multiset() && #[trigger] in_row(part, axis) && in_stable_row(
                    items,
                    part,
                    axis,
                ) && match (self.left, self.right) {
                    (BVHChild::Node(l), BVHChild::Node(r)) => l.arranges(
                        part.take(items.len() as int / 2),
                    ) && r.arranges(part.skip(items.len() as int / 2)),
                    _ => false,
                }
        }
    }

    /// What the hit test of the node on `[lo, hi]` may return. The node's
    /// box is tested first; where the ray misses it there is no hit. Else
    /// the left child is tested on the interval as the box test left it,
    /// then the right child on the same interval cut off at the left child's
    /// hit, and the closer of the two hits is returned.
    pub open spec fn probes<M>(
        self,
        slabs: spec_fn(usize, Scalar, Scalar, Slab) -> bool,
        hits: spec_fn(T, Scalar, Scalar, Option<HitRecord<M>>) -> bool,
        lo: Scalar,
        hi: Scalar,
        out: Option<HitRecord<M>>,
    ) -> bool
        decreases self, 1int,
    {
        exists|passes: bool, lo2: Scalar, hi2: Scalar| #[trigger]
            self.bound.crosses(slabs, 0, lo, hi, (passes, lo2, hi2)) && self.descends(
                slabs,
                hits,
                passes,
                lo2,
                hi2,
                out,
            )
    }

    /// What the node's hit test may return once its box has been tested:
    /// nothing where the ray missed the box, else the closer of what the two
    /// children return on `[lo, hi]`.
    pub open spec fn descends<M>(
        self,
        slabs: spec_fn(usize, Scalar, Scalar, Slab) -> bool,
        hits: spec_fn(T, Scalar, Scalar, Option<HitRecord<M>>) -> bool,
        passes: bool,
        lo: Scalar,
        hi: Scalar,
        out: Option<HitRecord<M>>,
    ) -> bool
        decreases self, 0int,
    {
        if !passes {
            out.is_none()
        } else {
            exists|first: Option<HitRecord<M>>, second: Option<HitRecord<M>>|
                self.left.answers(slabs, hits, lo, hi, first) && self.right.answers(
                    slabs,
                    hits,
                    lo,
                    limit(first, hi),
                    second,
                ) && out == #[trigger] closer(first, second)
        }
    }

    /// Whether `a` stands before `b` along the axis.
    fn precedes(a: &Bounded<T>, b: &Bounded<T>, axis: usize) -> (yes: bool)
        requires
            axis < 3,
        ensures
            yes == (a.place(axis) < b.place(axis)),
    {
        let a_rank = a.extent().minimum.get(axis).sort_ordinal();
        let b_rank = b.extent().minimum.get(axis).sort_ordinal();
        a_rank < b_rank
    }

    /// Compares two objects by the minimum of their boxes on an axis. A
    /// minimum that is no number comes after every number.
    pub fn box_compare(a: &Bounded<T>, b: &Bounded<T>, axis: usize) -> (o: Ordering)
        requires
            axis < 3,
        ensures
            o == Ordering::Less <==> a.place(axis) < b.place(axis),
            o == Ordering::Equal <==> a.place(axis) == b.place(axis),
            o == Ordering::Greater <==> a.place(axis) > b.place(axis),
    {
        let a_rank = a.extent().minimum.get(axis).sort_ordinal();
        let b_rank = b.extent().minimum.get(axis).sort_ordinal();
        if a_rank < b_rank {
            Ordering::Less
        } else if a_rank == b_rank {
            Ordering::Equal
        } else {
            Ordering::Greater
        }
    }

    /// `Vec::sort_by` with `box_compare` along `axis` as the order, which is
    /// a total one. The standard library documents that the result holds
    /// the same elements, in ascending order of the comparison, and that
    /// elements which compare equal keep their order.
    #[verifier::external_body]
    fn sort_by_axis(part: &mut Vec<Bounded<T>>, axis: usize)
        requires
            axis < 3,
        ensures
            final(part)@.len() == old(part)@.len(),
            final(part)@.to_multiset() == old(part)@.to_multiset(),
            in_row(final(part)@, axis),
            in_stable_row(old(part)@, final(part)@, axis),
    {
        part.sort_by(|a, b| Self::box_compare(a, b, axis));
    }

    /// A tree over `src_objects[start..end]`, split at every node along an
    /// axis drawn at random.
    pub fn new(src_objects: &Vec<Bounded<T>>, start: usize, end: usize) -> (node: BVHNode<T>)
        requires
            start < end <= src_objects.len(),
        ensures
            node.arranges(src_objects@.subrange(start as int, end as int)),
        decreases end - start, 1int,
    {
        let axis = random_int_with_bounds(0, 3);
        Self::split(src_objects, start, end, axis as usize)
    }

    /// A tree over `src_objects[start..end]` whose root splits along `axis`;
    /// the nodes below draw their own.
    pub fn split(src_objects: &Vec<Bounded<T>>, start: usize, end: usize, axis: usize) -> (node:
        BVHNode<T>)
        requires
            start < end <= src_objects.len(),
            axis < 3,
        ensures
            node.arranges(src_objects@.subrange(start as int, end as int)),
            node.splits_along(src_objects@.subrange(start as int, end as int), axis),
        decreases end - start, 0int,
    {
        let ghost items = src_objects@.subrange(start as int, end as int);
        let object_span = end - start;
        let left: BVHChild<T>;
        let right: BVHChild<T>;
        if object_span == 1 {
            left = BVHChild::Leaf(src_objects[start]);
            right = BVHChild::Leaf(src_objects[start]);
        } else if object_span == 2 {
            if Self::precedes(&src_objects[start], &src_objects[start + 1], axis) {
                left = BVHChild::Leaf(src_objects[start]);
                right = BVHChild::Leaf(src_objects[start + 1]);
            } else {
                left = BVHChild::Leaf(src_objects[start + 1]);
                right = BVHChild::Leaf(src_objects[start]);
            }
            assert(items[0].place(axis) == src_objects[start as int].place(axis));
        } else {
            let mut part: Vec<Bounded<T>> = Vec::new();
            let mut i: usize = start;
            while i < end
                invariant
                    start <= i <= end <= src_objects.len(),
                    part@ == src_objects@.subrange(start as int, i as int),
                decreases end - i,
            {
                part.push(src_objects[i]);
                assert(part@ =~= src_objects@.subrange(start as int, i + 1));
                i += 1;
            }
            Self::sort_by_axis(&mut part, axis);
            let mid = object_span / 2;
            let l = BVHNode::new(&part, 0, mid);
            let r = BVHNode::new(&part, mid, object_span);
            assert(part@.subrange(0, mid as int) =~= part@.take(mid as int));
            assert(part@.subrange(mid as int, object_span as int) =~= part@.skip(mid as int));
            assert(in_row(part@, axis));
            left = BVHChild::Node(Box::new(l));
            right = BVHChild::Node(Box::new(r));
        }
        let bound = AABB::surrounding_box(&left.extent(), &right.extent());
        BVHNode { left, right, bound }
    }

    /// Whether the root of a tree over `items` splits along `axis`: the
    /// statement of `arranges` for the root, with the axis fixed.
    pub open spec fn splits_along(self, items: Seq<Bounded<T>>, axis: usize) -> bool {
        if items.len() == 1 {
            true
        } else if items.len() == 2 {
            if items[0].place(axis) < items[1].place(axis) {
                self.left == BVHChild::Leaf(items[0]) && self.right == BVHChild::Leaf(items[1])
            } else {
                self.left == BVHChild::Leaf(items[1]) && self.right == BVHChild::Leaf(items[0])
            }
        } else {
            exists|part: Seq<Bounded<T>>|
                part.len() == items.len() && part.to_multiset() == items.to_multiset()
                    && #[trigger] in_row(part, axis) && in_stable_row(items, part, axis) && match (
                    self.left,
                    self.right,
                ) {
                    (BVHChild::Node(l), BVHChild::Node(r)) => l.arranges(
                        part.take(items.len() as int / 2),
                    ) && r.arranges(part.skip(items.len() as int / 2)),
                    _ => false,
                }
        }
    }

    /// The node's box, whatever the times.
    pub fn bounding_box(&self, _time0: Scalar, _time1: Scalar) -> (out: Option<AABB>)
        ensures
            out == Some(self.bound),
    {
        Some(self.bound)
    }

    /// Whether every object in the tree reported a box. Where one did not,
    /// the origin box stood in for it and the tree's boxes may be too small.
    pub fn all_bounded(&self) -> (yes: bool)
        ensures
            yes == forall|k: int| 0 <= k < self.leaves().len() ==> (#[trigger] self.leaves()[k]).bound.is_some(),
        decreases self,
    {
        let l = self.left.all_bounded();
        let r = self.right.all_bounded();
        proof {
            let ll = self.left.leaves();
            let rl = self.right.leaves();
            if l && r {
                assert forall|k: int| 0 <= k < self.leaves().len() implies (#[trigger] self.leaves()[k]).bound.is_some() by {
                    if k < ll.len() {
                        assert(self.leaves()[k] == ll[k]);
                    } else {
                        assert(self.leaves()[k] == rl[k - ll.len()]);
                    }
                }
            } else if !l {
                let k = choose|k: int| 0 <= k < ll.len() && !(#[trigger] ll[k]).bound.is_some();
                assert(self.leaves()[k] == ll[k]);
            } else {
                let k = choose|k: int| 0 <= k < rl.len() && !(#[trigger] rl[k]).bound.is_some();
                assert(self.leaves()[k + ll.len()] == rl[k]);
            }
        }
        l && r
    }

    /// The closest hit in the tree on `[t_min, t_max]`. `slab` is the
    /// caller's arithmetic for the box test (see `AABB::hit`), `probe` the
    /// caller's hit test of one object.
    pub fn hit<
        M,
        S: Fn(&Ray, usize, Scalar, Scalar) -> Slab,
        P: Fn(&T, &Ray, Scalar, Scalar) -> Option<HitRecord<M>>,
    >(&self, r: &Ray, t_min: Scalar, t_max: Scalar, slab: &S, probe: &P) -> (out: Option<
        HitRecord<M>,
    >)
        requires
            forall|i: usize, a: Scalar, b: Scalar| i < 3 ==> #[trigger] slab.requires((r, i, a, b)),
            forall|o: &T, lo: Scalar, hi: Scalar| #[trigger] probe.requires((o, r, lo, hi)),
        ensures
            self.probes(slabs_of(*slab, *r), answers_of(*probe, *r), t_min, t_max, out),
        decreases self,
    {
        let ghost slabs = slabs_of(*slab, *r);
        let ghost hits = answers_of::<T, M, P>(*probe, *r);
        let mut lo = t_min;
        let mut hi = t_max;
        if !self.bound.hit(r, &mut lo, &mut hi, slab) {
            assert(self.bound.crosses(slabs, 0, t_min, t_max, (false, lo, hi)));
            assert(self.descends(slabs, hits, false, lo, hi, None::<HitRecord<M>>));
            return None;
        }
        assert(self.bound.crosses(slabs, 0, t_min, t_max, (true, lo, hi)));
        let first = self.left.hit(r, lo, hi, slab, probe);
        let cut = match &first {
            Some(rec) => rec.t,
            None => hi,
        };
        let second = self.right.hit(r, lo, cut, slab, probe);
        let ghost first0 = first;
        let ghost second0 = second;
        let out = match (first, second) {
            (None, s) => s,
            (Some(a), None) => Some(a),
            (Some(a), Some(b)) => if b.t.le(a.t) {
                Some(b)
            } else {
                Some(a)
            },
        };
        assert(self.right.answers(slabs, hits, lo, limit(first0, hi), second0));
        assert(out == closer(first0, second0));
        assert(self.descends(slabs, hits, true, lo, hi, out));
        out
    }
}

} // verus!
