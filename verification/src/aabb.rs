//! Axis-aligned bounding boxes: the slab test against a ray, the union of
//! two boxes, and the box around a set of points.
use vstd::prelude::*;
use crate::ray::Ray;
use crate::scalar::Scalar;
use crate::vec3::{Point3, Vec3};

verus! {

/// What a ray yields against one pair of parallel planes: the inverse of the
/// ray's direction on that axis, and the ray parameters at which it meets
/// the plane of the box's minimum (`t0`) and of its maximum (`t1`).
#[derive(Clone, Copy, Debug, PartialEq, Eq, Structural)]
pub struct Slab {
    pub inv_d: Scalar,
    pub t0: Scalar,
    pub t1: Scalar,
}

impl Slab {
    /// The parameter at which the ray enters the slab: the crossings swap
    /// when the ray runs towards smaller coordinates.
    pub open spec fn entry(self) -> Scalar {
        if self.inv_d.lt_spec(Scalar::zero_spec()) {
            self.t1
        } else {
            self.t0
        }
    }

    /// The parameter at which the ray leaves the slab.
    pub open spec fn exit(self) -> Scalar {
        if self.inv_d.lt_spec(Scalar::zero_spec()) {
            self.t0
        } else {
            self.t1
        }
    }

    /// The lower end of `[lo, ..]` after the slab: the entry if it comes
    /// later. A crossing that is no number leaves the interval alone.
    pub open spec fn raise(self, lo: Scalar) -> Scalar {
        if self.entry().gt_spec(lo) {
            self.entry()
        } else {
            lo
        }
    }

    /// The upper end of `[.., hi]` after the slab: the exit if it comes
    /// sooner.
    pub open spec fn lower(self, hi: Scalar) -> Scalar {
        if self.exit().lt_spec(hi) {
            self.exit()
        } else {
            hi
        }
    }
}

/// What the caller's arithmetic `slab` may return for the ray `r`: the
/// slab `s` against the planes at `lowest` and `highest` on an axis.
pub open spec fn slabs_of<F: Fn(&Ray, usize, Scalar, Scalar) -> Slab>(slab: F, r: Ray) -> spec_fn(
    usize,
    Scalar,
    Scalar,
    Slab,
) -> bool {
    |axis: usize, lowest: Scalar, highest: Scalar, s: Slab|
        slab.ensures((&r, axis, lowest, highest), s)
}

/// A box given by its corner of smallest and its corner of largest
/// coordinates.
#[derive(Clone, Copy, Debug, PartialEq, Eq, Structural)]
pub struct AABB {
    pub minimum: Point3,
    pub maximum: Point3,
}

impl AABB {
    /// On every axis the minimum is at most the maximum. A box of no
    /// thickness is in order; a coordinate that is no number is not.
    pub open spec fn wf(self) -> bool {
        &&& self.minimum.x.le_spec(self.maximum.x)
        &&& self.minimum.y.le_spec(self.maximum.y)
        &&& self.minimum.z.le_spec(self.maximum.z)
    }

    /// The union of two boxes: the smaller minimum and the larger maximum
    /// on each axis.
    pub open spec fn union(self, other: AABB) -> AABB {
        AABB {
            minimum: self.minimum.min_spec(other.minimum),
            maximum: self.maximum.max_spec(other.maximum),
        }
    }

    /// Whether `inner` lies within this box, on every axis.
    pub open spec fn encloses(self, inner: AABB) -> bool {
        &&& self.minimum.x.le_spec(inner.minimum.x) && inner.maximum.x.le_spec(self.maximum.x)
        &&& self.minimum.y.le_spec(inner.minimum.y) && inner.maximum.y.le_spec(self.maximum.y)
        &&& self.minimum.z.le_spec(inner.minimum.z) && inner.maximum.z.le_spec(self.maximum.z)
    }

    /// The box that holds nothing yet: every minimum at positive infinity,
    /// every maximum at negative infinity.
    pub open spec fn empty() -> AABB {
        AABB {
            minimum: Vec3 {
                x: Scalar::infinity_spec(),
                y: Scalar::infinity_spec(),
                z: Scalar::infinity_spec(),
            },
            maximum: Vec3 {
                x: Scalar::neg_infinity_spec(),
                y: Scalar::neg_infinity_spec(),
                z: Scalar::neg_infinity_spec(),
            },
        }
    }

    /// The box stretched to hold one more point.
    pub open spec fn grown(self, p: Point3) -> AABB {
        AABB { minimum: p.min_spec(self.minimum), maximum: p.max_spec(self.maximum) }
    }

    /// The box around a sequence of points: the empty box grown by each in
    /// turn.
    pub open spec fn around(points: Seq<Point3>) -> AABB
        decreases points.len(),
    {
        if points.len() == 0 {
            AABB::empty()
        } else {
            AABB::around(points.drop_last()).grown(points.last())
        }
    }

    /// One of the eight corners: on each axis the maximum where the flag is
    /// set, the minimum where it is not.
    pub open spec fn corner(self, i: bool, j: bool, k: bool) -> Point3 {
        Vec3 {
            x: if i { self.maximum.x } else { self.minimum.x },
            y: if j { self.maximum.y } else { self.minimum.y },
            z: if k { self.maximum.z } else { self.minimum.z },
        }
    }

    /// The eight corners, the x flag changing slowest and the z flag fastest.
    pub open spec fn corner_seq(self) -> Seq<Point3> {
        seq![
            self.corner(false, false, false),
            self.corner(false, false, true),
            self.corner(false, true, false),
            self.corner(false, true, true),
            self.corner(true, false, false),
            self.corner(true, false, true),
            self.corner(true, true, false),
            self.corner(true, true, true),
        ]
    }

    /// What the slab test yields from axis `axis` on, started with the
    /// interval `[lo, hi]`: whether the ray passes, and the interval as the
    /// test leaves it. `slabs(axis, lowest, highest, s)` says that `s` is
    /// what the ray yields against the planes at `lowest` and `highest` on
    /// that axis. Each axis narrows the interval by its slab; the test stops
    /// at the first axis that leaves the interval empty.
    pub open spec fn crosses(
        self,
        slabs: spec_fn(usize, Scalar, Scalar, Slab) -> bool,
        axis: usize,
        lo: Scalar,
        hi: Scalar,
        out: (bool, Scalar, Scalar),
    ) -> bool
        decreases 3 - axis,
    {
        if axis >= 3 {
            out == (true, lo, hi)
        } else {
            exists|s: Slab| #[trigger]
                slabs(axis, self.minimum.axis(axis as int), self.maximum.axis(axis as int), s)
                    && if s.raise(lo).ge_spec(s.lower(hi)) {
                    out == (false, s.raise(lo), s.lower(hi))
                } else {
                    self.crosses(slabs, (axis + 1) as usize, s.raise(lo), s.lower(hi), out)
                }
        }
    }

    pub fn new(a: Point3, b: Point3) -> (bx: AABB)
        ensures
            bx == (AABB { minimum: a, maximum: b }),
    {
        AABB { minimum: a, maximum: b }
    }

    pub fn min(&self) -> (p: Point3)
        ensures
            p == self.minimum,
    {
        self.minimum
    }

    pub fn max(&self) -> (p: Point3)
        ensures
            p == self.maximum,
    {
        self.maximum
    }

    /// Whether the minimum is at most the maximum on every axis.
    pub fn is_ordered(&self) -> (b: bool)
        ensures
            b == self.wf(),
    {
        self.minimum.x.le(self.maximum.x) && self.minimum.y.le(self.maximum.y)
            && self.minimum.z.le(self.maximum.z)
    }

    /// The slab test. `slab(r, axis, lowest, highest)` is the caller's
    /// arithmetic: for the two planes of the box on that axis it returns the
    /// inverse direction and the two crossing parameters. The interval
    /// `[t_min, t_max]` is narrowed in place, one axis after the other, and
    /// the test fails as soon as it is empty.
    pub fn hit<F: Fn(&Ray, usize, Scalar, Scalar) -> Slab>(
        &self,
        r: &Ray,
        t_min: &mut Scalar,
        t_max: &mut Scalar,
        slab: &F,
    ) -> (passes: bool)
        requires
            forall|i: usize, a: Scalar, b: Scalar| i < 3 ==> #[trigger] slab.requires((r, i, a, b)),
        ensures
            self.crosses(
                slabs_of(*slab, *r),
                0,
                *old(t_min),
                *old(t_max),
                (passes, *final(t_min), *final(t_max)),
            ),
    {
        let ghost lo0 = *t_min;
        let ghost hi0 = *t_max;
        let ghost slabs = slabs_of(*slab, *r);
        let mut i: usize = 0;
        while i < 3
            invariant
                i <= 3,
                lo0 == *old(t_min),
                hi0 == *old(t_max),
                slabs == slabs_of(*slab, *r),
                forall|i: usize, a: Scalar, b: Scalar|
                    i < 3 ==> #[trigger] slab.requires((r, i, a, b)),
                forall|out: (bool, Scalar, Scalar)|
                    self.crosses(slabs, i, *t_min, *t_max, out) ==> self.crosses(
                        slabs,
                        0,
                        lo0,
                        hi0,
                        out,
                    ),
            decreases 3 - i,
        {
            let s = slab(r, i, self.minimum.get(i), self.maximum.get(i));
            let ghost lo1 = *t_min;
            let ghost hi1 = *t_max;
            let (t0, t1) = if s.inv_d.lt(Scalar::zero()) {
                (s.t1, s.t0)
            } else {
                (s.t0, s.t1)
            };
            let lo = if t0.gt(*t_min) {
                t0
            } else {
                *t_min
            };
            let hi = if t1.lt(*t_max) {
                t1
            } else {
                *t_max
            };
            *t_min = lo;
            *t_max = hi;
            assert(lo == s.raise(lo1) && hi == s.lower(hi1));
            assert(slabs(i, self.minimum.axis(i as int), self.maximum.axis(i as int), s));
            if lo.ge(hi) {
                assert(self.crosses(slabs, i, lo1, hi1, (false, lo, hi)));
                return false;
            }
            assert forall|out: (bool, Scalar, Scalar)|
                self.crosses(slabs, (i + 1) as usize, lo, hi, out) implies self.crosses(
                slabs,
                0,
                lo0,
                hi0,
                out,
            ) by {
                assert(self.crosses(slabs, i, lo1, hi1, out));
            }
            i += 1;
        }
        true
    }

    /// The box around two boxes.
    pub fn surrounding_box(box0: &AABB, box1: &AABB) -> (bx: AABB)
        ensures
            bx == box0.union(*box1),
            box0.wf() && box1.wf() ==> bx.wf() && bx.encloses(*box0) && bx.encloses(*box1),
    {
        let small = box0.minimum.min(box1.minimum);
        let big = box0.maximum.max(box1.maximum);
        proof {
            if box0.wf() && box1.wf() {
                AABB::union_encloses(*box0, *box1);
            }
        }
        AABB::new(small, big)
    }

    /// The eight corners of the box, in the order of `corner_seq`.
    pub fn corners(&self) -> (cs: Vec<Point3>)
        ensures
            cs@ == self.corner_seq(),
    {
        let lo = self.minimum;
        let hi = self.maximum;
        let mut cs: Vec<Point3> = Vec::new();
        cs.push(Vec3::new(lo.x, lo.y, lo.z));
        cs.push(Vec3::new(lo.x, lo.y, hi.z));
        cs.push(Vec3::new(lo.x, hi.y, lo.z));
        cs.push(Vec3::new(lo.x, hi.y, hi.z));
        cs.push(Vec3::new(hi.x, lo.y, lo.z));
        cs.push(Vec3::new(hi.x, lo.y, hi.z));
        cs.push(Vec3::new(hi.x, hi.y, lo.z));
        cs.push(Vec3::new(hi.x, hi.y, hi.z));
        assert(cs@ =~= self.corner_seq());
        cs
    }

    /// The smallest box around the given points: on each axis the least and
    /// the greatest coordinate among them. Without points it is the empty
    /// box; around a point with numbers for coordinates it is in order.
    pub fn enclosing(points: &Vec<Point3>) -> (bx: AABB)
        ensures
            bx == AABB::around(points@),
            forall|k: int|
                0 <= k < points.len() && (#[trigger] points[k]).is_numeric() ==> bx.holds(
                    points[k],
                ),
            (exists|k: int| 0 <= k < points.len() && (#[trigger] points[k]).is_numeric())
                ==> bx.wf(),
    {
        let mut bx = AABB::new(
            Vec3::splat(Scalar::infinity()),
            Vec3::splat(Scalar::neg_infinity()),
        );
        let mut n: usize = 0;
        assert(points@.take(0) =~= Seq::<Point3>::empty());
        while n < points.len()
            invariant
                n <= points.len(),
                bx == AABB::around(points@.take(n as int)),
            decreases points.len() - n,
        {
            let p = points[n];
            assert(points@.take(n + 1).drop_last() =~= points@.take(n as int));
            bx = AABB::new(p.min(bx.minimum), p.max(bx.maximum));
            n += 1;
        }
        assert(points@.take(n as int) =~= points@);
        proof {
            AABB::around_holds_all(points@);
        }
        bx
    }

    /// Whether a point lies in the box, its faces included.
    pub open spec fn holds(self, p: Point3) -> bool {
        &&& self.minimum.x.le_spec(p.x) && p.x.le_spec(self.maximum.x)
        &&& self.minimum.y.le_spec(p.y) && p.y.le_spec(self.maximum.y)
        &&& self.minimum.z.le_spec(p.z) && p.z.le_spec(self.maximum.z)
    }

    /// The slab test only narrows: started on an interval of two numbers it
    /// leaves an interval of two numbers, no wider at either end.
    pub proof fn crosses_narrows(
        self,
        slabs: spec_fn(usize, Scalar, Scalar, Slab) -> bool,
        axis: usize,
        lo: Scalar,
        hi: Scalar,
        out: (bool, Scalar, Scalar),
    )
        requires
            !lo.is_nan_spec(),
            !hi.is_nan_spec(),
            self.crosses(slabs, axis, lo, hi, out),
        ensures
            !out.1.is_nan_spec(),
            !out.2.is_nan_spec(),
            lo.rank() <= out.1.rank(),
            out.2.rank() <= hi.rank(),
        decreases 3 - axis,
    {
        if axis < 3 {
            let s = choose|s: Slab| #[trigger]
                slabs(axis, self.minimum.axis(axis as int), self.maximum.axis(axis as int), s)
                    && if s.raise(lo).ge_spec(s.lower(hi)) {
                    out == (false, s.raise(lo), s.lower(hi))
                } else {
                    self.crosses(slabs, (axis + 1) as usize, s.raise(lo), s.lower(hi), out)
                };
            if !s.raise(lo).ge_spec(s.lower(hi)) {
                self.crosses_narrows(slabs, (axis + 1) as usize, s.raise(lo), s.lower(hi), out);
            }
        }
    }

    /// The union of two boxes in order is in order and encloses both.
    pub proof fn union_encloses(a: AABB, b: AABB)
        requires
            a.wf(),
            b.wf(),
        ensures
            a.union(b).wf(),
            a.union(b).encloses(a),
            a.union(b).encloses(b),
    {
    }

    /// The union does not depend on the order of the two boxes.
    pub proof fn union_commutative(a: AABB, b: AABB)
        requires
            a.wf(),
            b.wf(),
        ensures
            a.union(b) == b.union(a),
    {
        Scalar::key_is_one_to_one(a.minimum.x, b.minimum.x);
        Scalar::key_is_one_to_one(a.minimum.y, b.minimum.y);
        Scalar::key_is_one_to_one(a.minimum.z, b.minimum.z);
        Scalar::key_is_one_to_one(a.maximum.x, b.maximum.x);
        Scalar::key_is_one_to_one(a.maximum.y, b.maximum.y);
        Scalar::key_is_one_to_one(a.maximum.z, b.maximum.z);
    }

    /// The union of three boxes does not depend on which two are joined
    /// first.
    pub proof fn union_associative(a: AABB, b: AABB, c: AABB)
        requires
            a.wf(),
            b.wf(),
            c.wf(),
        ensures
            a.union(b).union(c) == a.union(b.union(c)),
    {
    }

    /// The union of a box with itself is that box.
    pub proof fn union_idempotent(a: AABB)
        ensures
            a.union(a) == a,
    {
    }

    /// The box around a set of points holds each of them that has numbers
    /// for coordinates.
    pub proof fn around_holds_all(points: Seq<Point3>)
        ensures
            forall|k: int|
                0 <= k < points.len() && (#[trigger] points[k]).is_numeric() ==> AABB::around(
                    points,
                ).holds(points[k]),
        decreases points.len(),
    {
        if points.len() > 0 {
            let front = points.drop_last();
            AABB::around_holds_all(front);
            AABB::around_bounds(front);
            assert forall|k: int|
                0 <= k < points.len() && (#[trigger] points[k]).is_numeric() implies AABB::around(
                points,
            ).holds(points[k]) by {
                if k < points.len() - 1 {
                    assert(front[k] == points[k]);
                    assert(AABB::around(front).holds(points[k]));
                }
            }
        }
    }

    /// No coordinate of the box around a set of points is a pattern without
    /// a number, and its minima never exceed positive infinity nor do its
    /// maxima fall below negative infinity.
    pub proof fn around_bounds(points: Seq<Point3>)
        ensures
            AABB::around(points).minimum.is_numeric(),
            AABB::around(points).maximum.is_numeric(),
        decreases points.len(),
    {
        if points.len() > 0 {
            AABB::around_bounds(points.drop_last());
        }
    }
}

} // verus!
