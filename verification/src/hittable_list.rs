//! A plain list of objects: the closest hit by a scan, and the box around
//! all of them.
use vstd::prelude::*;
use crate::aabb::AABB;
use crate::hittable::HitRecord;
use crate::ray::Ray;
use crate::scalar::Scalar;

verus! {

/// Objects in the order in which they were added. What an object is, and
/// how a ray is tested against it, is the caller's: the list asks through
/// the functions it is handed.
pub struct HittableList<T> {
    pub objects: Vec<T>,
}

/// What the caller's hit test `probe` may return for the ray `r`: the
/// result `h` for an object on the interval `[lo, hi]`.
pub open spec fn answers_of<T, M, F: Fn(&T, &Ray, Scalar, Scalar) -> Option<HitRecord<M>>>(
    probe: F,
    r: Ray,
) -> spec_fn(T, Scalar, Scalar, Option<HitRecord<M>>) -> bool {
    |o: T, lo: Scalar, hi: Scalar, h: Option<HitRecord<M>>| probe.ensures((&o, &r, lo, hi), h)
}

/// What the caller's `bounds` may return between `time0` and `time1`: the
/// box `b` of an object, or none.
pub open spec fn boxes_of<T, G: Fn(&T, Scalar, Scalar) -> Option<AABB>>(
    bounds: G,
    time0: Scalar,
    time1: Scalar,
) -> spec_fn(T, Option<AABB>) -> bool {
    |o: T, b: Option<AABB>| bounds.ensures((&o, time0, time1), b)
}

impl<T> HittableList<T> {
    /// What a scan yields from object `from` on, when `best` is the hit kept
    /// so far and `closest` the upper end of the interval still open.
    /// `answers(o, lo, hi, h)` says that `h` is what the hit test of the
    /// object `o` returns on `[lo, hi]`. Each object is probed on
    /// `[t_min, closest]`; a hit replaces the one kept and closes the
    /// interval at its parameter.
    pub open spec fn scan<M>(
        objects: Seq<T>,
        t_min: Scalar,
        answers: spec_fn(T, Scalar, Scalar, Option<HitRecord<M>>) -> bool,
        from: int,
        closest: Scalar,
        best: Option<HitRecord<M>>,
        out: Option<HitRecord<M>>,
    ) -> bool
        decreases objects.len() - from,
    {
        if from < 0 || from >= objects.len() {
            out == best
        } else {
            exists|o: Option<HitRecord<M>>| #[trigger]
                answers(objects[from], t_min, closest, o) && match o {
                    Some(rec) => Self::scan(objects, t_min, answers, from + 1, rec.t, Some(rec), out),
                    None => Self::scan(objects, t_min, answers, from + 1, closest, best, out),
                }
        }
    }

    /// What gathering the boxes yields from object `from` on, when `acc` is
    /// the union so far: nothing as soon as one object has no box, else the
    /// union of all. `boxes(o, b)` says that `b` is the box of the object
    /// `o`, or that it has none.
    pub open spec fn gather(
        objects: Seq<T>,
        boxes: spec_fn(T, Option<AABB>) -> bool,
        from: int,
        acc: Option<AABB>,
        out: Option<AABB>,
    ) -> bool
        decreases objects.len() - from,
    {
        if from < 0 || from >= objects.len() {
            out == acc
        } else {
            exists|b: Option<AABB>| #[trigger]
                boxes(objects[from], b) && match b {
                    None => out.is_none(),
                    Some(bx) => Self::gather(
                        objects,
                        boxes,
                        from + 1,
                        Some(
                            match acc {
                                None => bx,
                                Some(a) => a.union(bx),
                            },
                        ),
                        out,
                    ),
                }
        }
    }

    pub fn new() -> (list: HittableList<T>)
        ensures
            list.objects@.len() == 0,
    {
        HittableList { objects: Vec::new() }
    }

    pub fn add(&mut self, object: T)
        ensures
            final(self).objects@ == old(self).objects@.push(object),
    {
        self.objects.push(object);
    }

    /// The closest hit among the objects, by a scan in list order.
    /// `probe(object, r, lo, hi)` is the caller's hit test of one object on
    /// the interval `[lo, hi]`. Every object is probed from `t_min` up to
    /// the closest hit found before it, so a later hit is never farther; the
    /// last one found is returned.
    pub fn hit<M, F: Fn(&T, &Ray, Scalar, Scalar) -> Option<HitRecord<M>>>(
        &self,
        r: &Ray,
        t_min: Scalar,
        t_max: Scalar,
        probe: &F,
    ) -> (out: Option<HitRecord<M>>)
        requires
            forall|i: int, lo: Scalar, hi: Scalar|
                0 <= i < self.objects.len() ==> #[trigger] probe.requires(
                    (&self.objects[i], r, lo, hi),
                ),
        ensures
            Self::scan(self.objects@, t_min, answers_of(*probe, *r), 0, t_max, None, out),
    {
        let ghost answers = answers_of(*probe, *r);
        let mut rec: Option<HitRecord<M>> = None;
        let mut closest_so_far = t_max;
        let mut i: usize = 0;
        while i < self.objects.len()
            invariant
                i <= self.objects.len(),
                forall|i: int, lo: Scalar, hi: Scalar|
                    0 <= i < self.objects.len() ==> #[trigger] probe.requires(
                        (&self.objects[i], r, lo, hi),
                    ),
                answers == answers_of(*probe, *r),
                forall|out: Option<HitRecord<M>>|
                    Self::scan(self.objects@, t_min, answers, i as int, closest_so_far, rec, out)
                        ==> Self::scan(self.objects@, t_min, answers, 0, t_max, None, out),
            decreases self.objects.len() - i,
        {
            let ghost closest0 = closest_so_far;
            let ghost rec0 = rec;
            let found = probe(&self.objects[i], r, t_min, closest_so_far);
            let ghost found0 = found;
            if let Some(record) = found {
                closest_so_far = record.t;
                rec = Some(record);
            }
            assert forall|out: Option<HitRecord<M>>|
                Self::scan(
                    self.objects@,
                    t_min,
                    answers,
                    i + 1,
                    closest_so_far,
                    rec,
                    out,
                ) implies Self::scan(self.objects@, t_min, answers, 0, t_max, None, out) by {
                assert(answers(self.objects@[i as int], t_min, closest0, found0));
                assert(Self::scan(self.objects@, t_min, answers, i as int, closest0, rec0, out));
            }
            i += 1;
        }
        rec
    }

    /// The box around all objects between `time0` and `time1`.
    /// `bounds(object, time0, time1)` is the caller's box of one object.
    /// There is no box when the list is empty or when an object has none.
    pub fn bounding_box<G: Fn(&T, Scalar, Scalar) -> Option<AABB>>(
        &self,
        time0: Scalar,
        time1: Scalar,
        bounds: &G,
    ) -> (out: Option<AABB>)
        requires
            forall|i: int|
                0 <= i < self.objects.len() ==> #[trigger] bounds.requires(
                    (&self.objects[i], time0, time1),
                ),
        ensures
            Self::gather(self.objects@, boxes_of(*bounds, time0, time1), 0, None, out),
    {
        let ghost boxes = boxes_of(*bounds, time0, time1);
        let mut acc: Option<AABB> = None;
        let mut i: usize = 0;
        while i < self.objects.len()
            invariant
                i <= self.objects.len(),
                forall|i: int|
                    0 <= i < self.objects.len() ==> #[trigger] bounds.requires(
                        (&self.objects[i], time0, time1),
                    ),
                boxes == boxes_of(*bounds, time0, time1),
                forall|out: Option<AABB>|
                    Self::gather(self.objects@, boxes, i as int, acc, out) ==> Self::gather(
                        self.objects@,
                        boxes,
                        0,
                        None,
                        out,
                    ),
            decreases self.objects.len() - i,
        {
            let ghost acc0 = acc;
            let found = bounds(&self.objects[i], time0, time1);
            assert(boxes(self.objects@[i as int], found));
            match found {
                None => {
                    assert(Self::gather(self.objects@, boxes, i as int, acc0, None));
                    return None;
                },
                Some(bx) => {
                    acc = Some(
                        match acc {
                            None => bx,
                            Some(a) => AABB::surrounding_box(&a, &bx),
                        },
                    );
                },
            }
            assert forall|out: Option<AABB>|
                Self::gather(self.objects@, boxes, i + 1, acc, out) implies Self::gather(
                self.objects@,
                boxes,
                0,
                None,
                out,
            ) by {
                assert(Self::gather(self.objects@, boxes, i as int, acc0, out));
            }
            i += 1;
        }
        acc
    }
}

} // verus!
