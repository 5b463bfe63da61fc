//! The hierarchy finds what the scan finds: for objects that answer as a
//! hit test should and boxes that shelter their objects, the closest hit
//! from a tree built over a set of objects is as close as the closest hit
//! from a scan over the same set.
use vstd::prelude::*;
use vstd::seq_lib::to_multiset_contains;
use crate::aabb::{AABB, Slab};
use crate::bvh::{closer, limit, BVHChild, BVHNode, Bounded};
use crate::hittable::HitRecord;
use crate::hittable_list::HittableList;
use crate::scalar::Scalar;

verus! {

/// The handles of a sequence of bounded objects.
pub open spec fn objects_of<T: Copy>(es: Seq<Bounded<T>>) -> Seq<T> {
    Seq::new(es.len(), |k: int| es[k].object)
}

/// Whether the ray meets one of the objects at the parameter of rank `x`,
/// where `crossings` gives for each object the ranks of all parameters at
/// which the ray meets it.
pub open spec fn meets<T>(objects: Seq<T>, crossings: spec_fn(T) -> Set<int>, x: int) -> bool {
    exists|k: int| 0 <= k < objects.len() && #[trigger] crossings(objects[k]).contains(x)
}

/// Whether `out` is the closest meeting of the ray with the objects on the
/// interval of ranks `[lo, hi]`: nothing if there is no meeting there, else
/// a record whose parameter is a number, is one of the meetings there, and
/// is the least of them.
pub open spec fn nearest<T, M>(
    objects: Seq<T>,
    crossings: spec_fn(T) -> Set<int>,
    lo: int,
    hi: int,
    out: Option<HitRecord<M>>,
) -> bool {
    match out {
        None => forall|x: int| lo <= x <= hi ==> !#[trigger] meets(objects, crossings, x),
        Some(rec) => {
            &&& !rec.t.is_nan_spec()
            &&& lo <= rec.t.rank() <= hi
            &&& meets(objects, crossings, rec.t.rank())
            &&& forall|x: int|
                lo <= x <= hi && #[trigger] meets(objects, crossings, x) ==> rec.t.rank() <= x
        },
    }
}

/// Whether the hit test answers for the object `o` as it should: on every
/// interval of two numbers, with the closest meeting of the ray and the
/// object there, or with nothing if there is none. `hits(o, lo, hi, h)`
/// says that `h` is what the hit test returns for `o` on `[lo, hi]`.
pub open spec fn honest<T, M>(
    hits: spec_fn(T, Scalar, Scalar, Option<HitRecord<M>>) -> bool,
    crossings: spec_fn(T) -> Set<int>,
    o: T,
) -> bool {
    forall|lo: Scalar, hi: Scalar, out: Option<HitRecord<M>>|
        !lo.is_nan_spec() && !hi.is_nan_spec() && #[trigger] hits(o, lo, hi, out) ==> nearest(
            seq![o],
            crossings,
            lo.rank(),
            hi.rank(),
            out,
        )
}

/// Whether boxes shelter the object `e`: the slab test of any box that
/// encloses the object's box passes wherever the ray meets the object, and
/// leaves that meeting inside the interval. `slabs` says what the ray
/// yields against the planes of a box, as for `AABB::crosses`.
pub open spec fn sheltered<T: Copy>(
    slabs: spec_fn(usize, Scalar, Scalar, Slab) -> bool,
    crossings: spec_fn(T) -> Set<int>,
    e: Bounded<T>,
) -> bool {
    forall|b: AABB, lo: Scalar, hi: Scalar, passes: bool, lo2: Scalar, hi2: Scalar, x: int|
        #![trigger b.crosses(slabs, 0, lo, hi, (passes, lo2, hi2)), crossings(e.object).contains(x)]
        b.encloses(e.extent_spec()) && !lo.is_nan_spec() && !hi.is_nan_spec() && crossings(
            e.object,
        ).contains(x) && lo.rank() <= x <= hi.rank() && b.crosses(
            slabs,
            0,
            lo,
            hi,
            (passes, lo2, hi2),
        ) ==> passes && lo2.rank() <= x <= hi2.rank()
}

/// What the law asks of an object: it reported a box in order, the hit
/// test answers for it as it should, and boxes shelter it.
pub open spec fn lawful<T: Copy, M>(
    e: Bounded<T>,
    slabs: spec_fn(usize, Scalar, Scalar, Slab) -> bool,
    hits: spec_fn(T, Scalar, Scalar, Option<HitRecord<M>>) -> bool,
    crossings: spec_fn(T) -> Set<int>,
) -> bool {
    &&& e.bound.is_some()
    &&& e.extent_spec().wf()
    &&& honest(hits, crossings, e.object)
    &&& sheltered(slabs, crossings, e)
}

/// Whether two results are the same hit as far as distance goes: both
/// nothing, or both a hit at the same number.
pub open spec fn same_hit<M>(a: Option<HitRecord<M>>, b: Option<HitRecord<M>>) -> bool {
    match (a, b) {
        (None, None) => true,
        (Some(x), Some(y)) => x.t.equals_spec(y.t),
        _ => false,
    }
}

proof fn meets_concat<T: Copy>(
    a: Seq<Bounded<T>>,
    b: Seq<Bounded<T>>,
    crossings: spec_fn(T) -> Set<int>,
    x: int,
)
    ensures
        meets(objects_of(a + b), crossings, x) <==> meets(objects_of(a), crossings, x) || meets(
            objects_of(b),
            crossings,
            x,
        ),
{
    let ab = objects_of(a + b);
    if meets(ab, crossings, x) {
        let k = choose|k: int| 0 <= k < ab.len() && #[trigger] crossings(ab[k]).contains(x);
        if k < a.len() {
            assert(objects_of(a)[k] == ab[k]);
        } else {
            assert(objects_of(b)[k - a.len()] == ab[k]);
        }
    }
    if meets(objects_of(a), crossings, x) {
        let k = choose|k: int|
            0 <= k < objects_of(a).len() && #[trigger] crossings(objects_of(a)[k]).contains(x);
        assert(ab[k] == objects_of(a)[k]);
    }
    if meets(objects_of(b), crossings, x) {
        let k = choose|k: int|
            0 <= k < objects_of(b).len() && #[trigger] crossings(objects_of(b)[k]).contains(x);
        assert(ab[k + a.len()] == objects_of(b)[k]);
    }
}

/// The box of a sound tree over boxes in order is in order and encloses the
/// box of every object in the tree.
pub proof fn bound_encloses_leaves<T: Copy>(node: BVHNode<T>)
    requires
        node.sound(),
        forall|k: int|
            0 <= k < node.leaves().len() ==> (#[trigger] node.leaves()[k]).extent_spec().wf(),
    ensures
        node.bound.wf(),
        forall|k: int|
            0 <= k < node.leaves().len() ==> node.bound.encloses(
                (#[trigger] node.leaves()[k]).extent_spec(),
            ),
    decreases node, 1int,
{
    let ll = node.left.leaves();
    let rl = node.right.leaves();
    let all = node.leaves();
    assert forall|k: int| 0 <= k < ll.len() implies (#[trigger] ll[k]).extent_spec().wf() by {
        assert(all[k] == ll[k]);
    }
    assert forall|k: int| 0 <= k < rl.len() implies (#[trigger] rl[k]).extent_spec().wf() by {
        assert(all[k + ll.len()] == rl[k]);
    }
    extent_encloses_leaves(node.left);
    extent_encloses_leaves(node.right);
    AABB::union_encloses(node.left.extent_spec(), node.right.extent_spec());
    assert forall|k: int| 0 <= k < all.len() implies node.bound.encloses(
        (#[trigger] all[k]).extent_spec(),
    ) by {
        if k < ll.len() {
            assert(all[k] == ll[k]);
        } else {
            assert(all[k] == rl[k - ll.len()]);
        }
    }
}

proof fn extent_encloses_leaves<T: Copy>(child: BVHChild<T>)
    requires
        child.sound(),
        forall|k: int|
            0 <= k < child.leaves().len() ==> (#[trigger] child.leaves()[k]).extent_spec().wf(),
    ensures
        child.extent_spec().wf(),
        forall|k: int|
            0 <= k < child.leaves().len() ==> child.extent_spec().encloses(
                (#[trigger] child.leaves()[k]).extent_spec(),
            ),
    decreases child, 0int,
{
    match child {
        BVHChild::Leaf(e) => {
            assert(child.leaves()[0] == e);
        },
        BVHChild::Node(n) => {
            bound_encloses_leaves(*n);
        },
    }
}

/// The hit test of a sound tree over lawful objects returns the closest
/// meeting of the ray with the objects of the tree.
pub proof fn node_finds_nearest<T: Copy, M>(
    node: BVHNode<T>,
    slabs: spec_fn(usize, Scalar, Scalar, Slab) -> bool,
    hits: spec_fn(T, Scalar, Scalar, Option<HitRecord<M>>) -> bool,
    crossings: spec_fn(T) -> Set<int>,
    lo: Scalar,
    hi: Scalar,
    out: Option<HitRecord<M>>,
)
    requires
        node.sound(),
        forall|k: int|
            0 <= k < node.leaves().len() ==> lawful(#[trigger] node.leaves()[k], slabs, hits, crossings),
        !lo.is_nan_spec(),
        !hi.is_nan_spec(),
        node.probes(slabs, hits, lo, hi, out),
    ensures
        nearest(objects_of(node.leaves()), crossings, lo.rank(), hi.rank(), out),
    decreases node, 1int,
{
    let ll = node.left.leaves();
    let rl = node.right.leaves();
    let all = node.leaves();
    assert forall|k: int| 0 <= k < ll.len() implies lawful(#[trigger] ll[k], slabs, hits, crossings) by {
        assert(all[k] == ll[k]);
    }
    assert forall|k: int| 0 <= k < rl.len() implies lawful(#[trigger] rl[k], slabs, hits, crossings) by {
        assert(all[k + ll.len()] == rl[k]);
    }
    bound_encloses_leaves(node);
    let (passes, lo2, hi2) = choose|passes: bool, lo2: Scalar, hi2: Scalar| #[trigger]
        node.bound.crosses(slabs, 0, lo, hi, (passes, lo2, hi2)) && node.descends(
            slabs,
            hits,
            passes,
            lo2,
            hi2,
            out,
        );
    node.bound.crosses_narrows(slabs, 0, lo, hi, (passes, lo2, hi2));
    assert forall|x: int|
        lo.rank() <= x <= hi.rank() && #[trigger] meets(
            objects_of(all),
            crossings,
            x,
        ) implies passes && lo2.rank() <= x <= hi2.rank() by {
        let objs = objects_of(all);
        let k = choose|k: int| 0 <= k < objs.len() && #[trigger] crossings(objs[k]).contains(x);
        let e = all[k];
        assert(lawful(e, slabs, hits, crossings));
        assert(node.bound.encloses(e.extent_spec()));
        assert(crossings(e.object).contains(x));
    }
    if passes {
        let (first, second) = choose|first: Option<HitRecord<M>>, second: Option<HitRecord<M>>|
            node.left.answers(slabs, hits, lo2, hi2, first) && node.right.answers(
                slabs,
                hits,
                lo2,
                limit(first, hi2),
                second,
            ) && out == #[trigger] closer(first, second);
        child_finds_nearest(node.left, slabs, hits, crossings, lo2, hi2, first);
        child_finds_nearest(node.right, slabs, hits, crossings, lo2, limit(first, hi2), second);
        assert forall|x: int|
            #[trigger] meets(objects_of(all), crossings, x) <==> meets(
                objects_of(ll),
                crossings,
                x,
            ) || meets(objects_of(rl), crossings, x) by {
            meets_concat(ll, rl, crossings, x);
        }
        match out {
            Some(rec) => {
                meets_concat(ll, rl, crossings, rec.t.rank());
            },
            None => {},
        }
    }
}

/// The hit test of a child of a sound tree over lawful objects returns the
/// closest meeting of the ray with the objects below it.
pub proof fn child_finds_nearest<T: Copy, M>(
    child: BVHChild<T>,
    slabs: spec_fn(usize, Scalar, Scalar, Slab) -> bool,
    hits: spec_fn(T, Scalar, Scalar, Option<HitRecord<M>>) -> bool,
    crossings: spec_fn(T) -> Set<int>,
    lo: Scalar,
    hi: Scalar,
    out: Option<HitRecord<M>>,
)
    requires
        child.sound(),
        forall|k: int|
            0 <= k < child.leaves().len() ==> lawful(#[trigger] child.leaves()[k], slabs, hits, crossings),
        !lo.is_nan_spec(),
        !hi.is_nan_spec(),
        child.answers(slabs, hits, lo, hi, out),
    ensures
        nearest(objects_of(child.leaves()), crossings, lo.rank(), hi.rank(), out),
    decreases child, 0int,
{
    match child {
        BVHChild::Leaf(e) => {
            assert(child.leaves()[0] == e);
            assert(lawful(e, slabs, hits, crossings));
            assert(objects_of(child.leaves()) =~= seq![e.object]);
        },
        BVHChild::Node(n) => {
            node_finds_nearest(*n, slabs, hits, crossings, lo, hi, out);
        },
    }
}

proof fn meets_one_more<T>(objects: Seq<T>, crossings: spec_fn(T) -> Set<int>, n: int, x: int)
    requires
        0 <= n < objects.len(),
    ensures
        meets(objects.take(n + 1), crossings, x) <==> meets(objects.take(n), crossings, x) || meets(
            seq![objects[n]],
            crossings,
            x,
        ),
{
    let more = objects.take(n + 1);
    let less = objects.take(n);
    let one = seq![objects[n]];
    if meets(more, crossings, x) {
        let k = choose|k: int| 0 <= k < more.len() && #[trigger] crossings(more[k]).contains(x);
        if k < n {
            assert(less[k] == more[k]);
        } else {
            assert(one[0] == more[k]);
        }
    }
    if meets(less, crossings, x) {
        let k = choose|k: int| 0 <= k < less.len() && #[trigger] crossings(less[k]).contains(x);
        assert(more[k] == less[k]);
    }
    if meets(one, crossings, x) {
        let k = choose|k: int| 0 <= k < one.len() && #[trigger] crossings(one[k]).contains(x);
        assert(more[n] == one[k]);
    }
}

/// A scan over objects for which the hit test answers as it should
/// returns the closest meeting of the ray with the objects. The statement
/// is of a scan under way: `best` is the closest meeting with the objects
/// before `from`, and `closest` the end of the interval that it leaves.
pub proof fn scan_finds_nearest<T, M>(
    objects: Seq<T>,
    t_min: Scalar,
    t_max: Scalar,
    hits: spec_fn(T, Scalar, Scalar, Option<HitRecord<M>>) -> bool,
    crossings: spec_fn(T) -> Set<int>,
    from: int,
    closest: Scalar,
    best: Option<HitRecord<M>>,
    out: Option<HitRecord<M>>,
)
    requires
        0 <= from <= objects.len(),
        forall|k: int| 0 <= k < objects.len() ==> honest(hits, crossings, #[trigger] objects[k]),
        !t_min.is_nan_spec(),
        !t_max.is_nan_spec(),
        closest == limit(best, t_max),
        nearest(objects.take(from), crossings, t_min.rank(), t_max.rank(), best),
        HittableList::<T>::scan(objects, t_min, hits, from, closest, best, out),
    ensures
        nearest(objects, crossings, t_min.rank(), t_max.rank(), out),
    decreases objects.len() - from,
{
    if from >= objects.len() {
        assert(objects.take(from) =~= objects);
    } else {
        let o = choose|o: Option<HitRecord<M>>| #[trigger]
            hits(objects[from], t_min, closest, o) && match o {
                Some(rec) => HittableList::<T>::scan(
                    objects,
                    t_min,
                    hits,
                    from + 1,
                    rec.t,
                    Some(rec),
                    out,
                ),
                None => HittableList::<T>::scan(objects, t_min, hits, from + 1, closest, best, out),
            };
        assert(honest(hits, crossings, objects[from]));
        assert(nearest(seq![objects[from]], crossings, t_min.rank(), closest.rank(), o));
        assert forall|x: int|
            #[trigger] meets(objects.take(from + 1), crossings, x) <==> meets(
                objects.take(from),
                crossings,
                x,
            ) || meets(seq![objects[from]], crossings, x) by {
            meets_one_more(objects, crossings, from, x);
        }
        match o {
            Some(rec) => {
                meets_one_more(objects, crossings, from, rec.t.rank());
                scan_finds_nearest(
                    objects,
                    t_min,
                    t_max,
                    hits,
                    crossings,
                    from + 1,
                    rec.t,
                    Some(rec),
                    out,
                );
            },
            None => {
                match best {
                    Some(b) => {
                        meets_one_more(objects, crossings, from, b.t.rank());
                    },
                    None => {},
                }
                scan_finds_nearest(
                    objects,
                    t_min,
                    t_max,
                    hits,
                    crossings,
                    from + 1,
                    closest,
                    best,
                    out,
                );
            },
        }
    }
}

/// A tree that `new` may build over `items` is sound, and its objects are
/// the items.
pub proof fn arranged_is_sound<T: Copy>(node: BVHNode<T>, items: Seq<Bounded<T>>)
    requires
        items.len() > 0,
        node.arranges(items),
    ensures
        node.sound(),
        forall|e: Bounded<T>|
            #![trigger node.leaves().contains(e)]
            #![trigger items.contains(e)]
            node.leaves().contains(e) <==> items.contains(e),
    decreases node,
{
    let n = items.len() as int;
    let leaves = node.leaves();
    if n == 1 {
        assert(leaves =~= seq![items[0], items[0]]);
        assert forall|e: Bounded<T>| leaves.contains(e) <==> items.contains(e) by {
            if leaves.contains(e) {
                let k = choose|k: int| 0 <= k < leaves.len() && leaves[k] == e;
                assert(items[0] == e);
            }
            if items.contains(e) {
                let k = choose|k: int| 0 <= k < items.len() && items[k] == e;
                assert(leaves[0] == e);
            }
        }
    } else if n == 2 {
        assert(leaves =~= seq![items[0], items[1]] || leaves =~= seq![items[1], items[0]]);
        assert forall|e: Bounded<T>| leaves.contains(e) <==> items.contains(e) by {
            if leaves.contains(e) {
                let k = choose|k: int| 0 <= k < leaves.len() && leaves[k] == e;
                assert(items[0] == e || items[1] == e);
            }
            if items.contains(e) {
                let k = choose|k: int| 0 <= k < items.len() && items[k] == e;
                assert(leaves[0] == e || leaves[1] == e);
            }
        }
    } else {
        let half = n / 2;
        let (axis, part) = choose|axis: usize, part: Seq<Bounded<T>>|
            axis < 3 && part.len() == items.len() && part.to_multiset() == items.to_multiset()
                && #[trigger] crate::bvh::in_row(part, axis) && crate::bvh::in_stable_row(
                items,
                part,
                axis,
            ) && match (node.left, node.right) {
                (BVHChild::Node(l), BVHChild::Node(r)) => l.arranges(part.take(half))
                    && r.arranges(part.skip(half)),
                _ => false,
            };
        match (node.left, node.right) {
            (BVHChild::Node(l), BVHChild::Node(r)) => {
                let front = part.take(half);
                let back = part.skip(half);
                arranged_is_sound(*l, front);
                arranged_is_sound(*r, back);
                let ll = l.leaves();
                let rl = r.leaves();
                assert(leaves =~= ll + rl);
                assert forall|e: Bounded<T>| leaves.contains(e) <==> items.contains(e) by {
                    to_multiset_contains(part, e);
                    to_multiset_contains(items, e);
                    if leaves.contains(e) {
                        let k = choose|k: int| 0 <= k < leaves.len() && leaves[k] == e;
                        if k < ll.len() {
                            assert(ll[k] == e);
                            assert(ll.contains(e));
                            assert(front.contains(e));
                            let j = choose|j: int| 0 <= j < front.len() && front[j] == e;
                            assert(part[j] == e);
                        } else {
                            assert(rl[k - ll.len()] == e);
                            assert(rl.contains(e));
                            assert(back.contains(e));
                            let j = choose|j: int| 0 <= j < back.len() && back[j] == e;
                            assert(part[j + half] == e);
                        }
                        assert(part.contains(e));
                    }
                    if items.contains(e) {
                        assert(part.contains(e));
                        let j = choose|j: int| 0 <= j < part.len() && part[j] == e;
                        if j < half {
                            assert(front[j] == e);
                            assert(front.contains(e));
                            assert(ll.contains(e));
                            let k = choose|k: int| 0 <= k < ll.len() && ll[k] == e;
                            assert(leaves[k] == e);
                        } else {
                            assert(back[j - half] == e);
                            assert(back.contains(e));
                            assert(rl.contains(e));
                            let k = choose|k: int| 0 <= k < rl.len() && rl[k] == e;
                            assert(leaves[k + ll.len()] == e);
                        }
                    }
                }
            },
            _ => {},
        }
    }
}

/// For any set of objects and any ray: the closest hit that a tree built
/// over the objects returns and the closest hit that a scan over the same
/// objects returns are both nothing, or are hits at the same number. This
/// holds for objects that reported a box in order, for which the hit test
/// answers on every interval with the closest meeting there, and whose
/// meetings with the ray lie where the slab test of every enclosing box
/// passes. Which of two objects met at the same number is returned may
/// differ between the two.
///
/// `slabs` and `hits` say what the caller's arithmetic and hit test return
/// for the ray, as for `BVHNode::probes` and `HittableList::scan`;
/// `crossings` gives for each object the ranks of the parameters at which
/// the ray meets it.
pub proof fn tree_agrees_with_scan<T: Copy, M>(
    node: BVHNode<T>,
    items: Seq<Bounded<T>>,
    slabs: spec_fn(usize, Scalar, Scalar, Slab) -> bool,
    hits: spec_fn(T, Scalar, Scalar, Option<HitRecord<M>>) -> bool,
    crossings: spec_fn(T) -> Set<int>,
    t_min: Scalar,
    t_max: Scalar,
    from_tree: Option<HitRecord<M>>,
    from_scan: Option<HitRecord<M>>,
)
    requires
        items.len() > 0,
        node.arranges(items),
        forall|k: int| 0 <= k < items.len() ==> lawful(#[trigger] items[k], slabs, hits, crossings),
        !t_min.is_nan_spec(),
        !t_max.is_nan_spec(),
        node.probes(slabs, hits, t_min, t_max, from_tree),
        HittableList::<T>::scan(objects_of(items), t_min, hits, 0, t_max, None, from_scan),
    ensures
        same_hit(from_tree, from_scan),
{
    let leaves = node.leaves();
    let objs = objects_of(items);
    arranged_is_sound(node, items);
    assert forall|k: int| 0 <= k < leaves.len() implies lawful(#[trigger] leaves[k], slabs, hits, crossings) by {
        assert(leaves.contains(leaves[k]));
        assert(items.contains(leaves[k]));
        let j = choose|j: int| 0 <= j < items.len() && items[j] == leaves[k];
        assert(lawful(items[j], slabs, hits, crossings));
    }
    node_finds_nearest(node, slabs, hits, crossings, t_min, t_max, from_tree);
    assert forall|k: int| 0 <= k < objs.len() implies honest(
        hits,
        crossings,
        #[trigger] objs[k],
    ) by {
        assert(lawful(items[k], slabs, hits, crossings));
    }
    assert(objs.take(0) =~= Seq::<T>::empty());
    scan_finds_nearest(objs, t_min, t_max, hits, crossings, 0, t_max, None, from_scan);
    assert forall|x: int|
        #[trigger] meets(objects_of(leaves), crossings, x) <==> meets(objs, crossings, x) by {
        let lo = objects_of(leaves);
        if meets(lo, crossings, x) {
            let k = choose|k: int| 0 <= k < lo.len() && #[trigger] crossings(lo[k]).contains(x);
            assert(leaves.contains(leaves[k]));
            let j = choose|j: int| 0 <= j < items.len() && items[j] == leaves[k];
            assert(objs[j] == lo[k]);
        }
        if meets(objs, crossings, x) {
            let j = choose|j: int| 0 <= j < objs.len() && #[trigger] crossings(objs[j]).contains(x);
            assert(items.contains(items[j]));
            let k = choose|k: int| 0 <= k < leaves.len() && leaves[k] == items[j];
            assert(lo[k] == objs[j]);
        }
    }
    match (from_tree, from_scan) {
        (Some(a), Some(b)) => {
            assert(meets(objects_of(leaves), crossings, a.t.rank()));
            assert(meets(objs, crossings, a.t.rank()));
            assert(meets(objs, crossings, b.t.rank()));
            assert(meets(objects_of(leaves), crossings, b.t.rank()));
        },
        (Some(a), None) => {
            assert(meets(objects_of(leaves), crossings, a.t.rank()));
            assert(meets(objs, crossings, a.t.rank()));
        },
        (None, Some(b)) => {
            assert(meets(objs, crossings, b.t.rank()));
            assert(meets(objects_of(leaves), crossings, b.t.rank()));
        },
        (None, None) => {},
    }
}

} // verus!
