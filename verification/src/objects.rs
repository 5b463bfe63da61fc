//! The shapes of a scene as the library holds them: what they are made of,
//! and the parts of their construction and hit tests that are decided by
//! comparing. Their arithmetic is the caller's.
use vstd::prelude::*;
use vstd::pervasive::cloned;
use crate::aabb::AABB;
use crate::hittable::HitRecord;
use crate::hittable_list::{answers_of, HittableList};
use crate::material::Isotropic;
use crate::ray::Ray;
use crate::scalar::Scalar;
use crate::vec3::{Point3, Vec3};

verus! {

/// Whether `t` is neither below `t_min` nor above `t_max`.
pub open spec fn in_range(t: Scalar, t_min: Scalar, t_max: Scalar) -> bool {
    !(t.lt_spec(t_min) || t_max.lt_spec(t))
}

/// Which root of a sphere's quadratic is the hit on `[t_min, t_max]`.
/// `near` and `far` are the smaller and the larger root. There is no hit
/// where the discriminant is below zero; else it is the near root unless
/// that lies outside the interval, then the far root unless that lies
/// outside too.
pub open spec fn nearest_root_spec(
    discriminant: Scalar,
    near: Scalar,
    far: Scalar,
    t_min: Scalar,
    t_max: Scalar,
) -> Option<Scalar> {
    if discriminant.lt_spec(Scalar::zero_spec()) {
        None
    } else if in_range(near, t_min, t_max) {
        Some(near)
    } else if in_range(far, t_min, t_max) {
        Some(far)
    } else {
        None
    }
}

#[verifier::when_used_as_spec(nearest_root_spec)]
pub fn nearest_root(
    discriminant: Scalar,
    near: Scalar,
    far: Scalar,
    t_min: Scalar,
    t_max: Scalar,
) -> (root: Option<Scalar>)
    ensures
        root == nearest_root_spec(discriminant, near, far, t_min, t_max),
{
    if discriminant.lt(Scalar::zero()) {
        return None;
    }
    let mut root = near;
    if root.lt(t_min) || root.gt(t_max) {
        root = far;
        if root.lt(t_min) || t_max.lt(root) {
            return None;
        }
    }
    Some(root)
}

/// The quadratic of a ray against a sphere, solved: its discriminant and
/// its two roots, the smaller first.
#[derive(Clone, Copy, Debug, PartialEq, Eq, Structural)]
pub struct Roots {
    pub discriminant: Scalar,
    pub near: Scalar,
    pub far: Scalar,
}

/// A surface where a ray meets it: the point, the outward normal, the dot
/// product `facing` of the ray's direction with that normal, and the
/// surface coordinates.
#[derive(Clone, Copy, Debug, PartialEq, Eq, Structural)]
pub struct Surface {
    pub p: Point3,
    pub outward_normal: Vec3,
    pub facing: Scalar,
    pub u: Scalar,
    pub v: Scalar,
}

/// The record of a hit at parameter `t` on the surface `s`, with material
/// `m`: the normal turned against the ray.
pub open spec fn record<M>(t: Scalar, s: Surface, m: M) -> HitRecord<M> {
    HitRecord {
        p: s.p,
        normal: HitRecord::<M>::turned(s.facing, s.outward_normal),
        t,
        u: s.u,
        v: s.v,
        front_face: HitRecord::<M>::meets_front(s.facing),
        mat_ptr: m,
    }
}

/// What the hit test of a round object may return on `[t_min, t_max]`:
/// with the roots that `solve` returns, nothing where `nearest_root` finds
/// none, else the record of the surface that `surface` returns at the root,
/// with a clone of the material.
pub open spec fn round_hit<
    O,
    M: Clone,
    A: Fn(&O, &Ray) -> Roots,
    B: Fn(&O, &Ray, Scalar) -> Surface,
>(
    object: O,
    mat_ptr: M,
    r: Ray,
    t_min: Scalar,
    t_max: Scalar,
    solve: A,
    surface: B,
    out: Option<HitRecord<M>>,
) -> bool {
    exists|roots: Roots| #[trigger]
        solve.ensures((&object, &r), roots) && match nearest_root_spec(
            roots.discriminant,
            roots.near,
            roots.far,
            t_min,
            t_max,
        ) {
            None => out.is_none(),
            Some(root) => exists|s: Surface, m: M|
                #![trigger surface.ensures((&object, &r, root), s), cloned(mat_ptr, m)]
                surface.ensures((&object, &r, root), s) && cloned(mat_ptr, m) && out == Some(
                    record(root, s, m),
                ),
        }
}

fn hit_round<O, M: Clone, A: Fn(&O, &Ray) -> Roots, B: Fn(&O, &Ray, Scalar) -> Surface>(
    object: &O,
    mat_ptr: &M,
    r: &Ray,
    t_min: Scalar,
    t_max: Scalar,
    solve: &A,
    surface: &B,
) -> (out: Option<HitRecord<M>>)
    requires
        solve.requires((object, r)),
        forall|root: Scalar| #[trigger] surface.requires((object, r, root)),
    ensures
        round_hit(*object, *mat_ptr, *r, t_min, t_max, *solve, *surface, out),
{
    let roots = solve(object, r);
    match nearest_root(roots.discriminant, roots.near, roots.far, t_min, t_max) {
        None => None,
        Some(root) => {
            let s = surface(object, r, root);
            let m = mat_ptr.clone();
            let rec = HitRecord::new(root, s.p, s.facing, s.outward_normal, s.u, s.v, m);
            assert(surface.ensures((object, r, root), s) && cloned(*mat_ptr, m));
            assert(rec == record(root, s, m));
            Some(rec)
        },
    }
}

/// A sphere.
pub struct Sphere<M> {
    pub center: Point3,
    pub radius: Scalar,
    pub mat_ptr: M,
}

impl<M> Sphere<M> {
    pub fn new(center: Point3, radius: Scalar, mat_ptr: M) -> (s: Sphere<M>)
        ensures
            s.center == center,
            s.radius == radius,
            s.mat_ptr == mat_ptr,
    {
        Sphere { center, radius, mat_ptr }
    }
}

impl<M: Clone> Sphere<M> {
    /// The hit of a ray on the sphere. `solve` is the caller's solution of
    /// the quadratic, `surface` the caller's arithmetic for the surface at
    /// a root. The near root is taken if it lies on `[t_min, t_max]`, else
    /// the far one if that does.
    pub fn hit<A: Fn(&Sphere<M>, &Ray) -> Roots, B: Fn(&Sphere<M>, &Ray, Scalar) -> Surface>(
        &self,
        r: &Ray,
        t_min: Scalar,
        t_max: Scalar,
        solve: &A,
        surface: &B,
    ) -> (out: Option<HitRecord<M>>)
        requires
            solve.requires((self, r)),
            forall|root: Scalar| #[trigger] surface.requires((self, r, root)),
        ensures
            round_hit(*self, self.mat_ptr, *r, t_min, t_max, *solve, *surface, out),
    {
        hit_round(self, &self.mat_ptr, r, t_min, t_max, solve, surface)
    }
}

/// A sphere whose centre moves in a straight line from `center0` at
/// `time0` to `center1` at `time1`.
pub struct MovingSphere<M> {
    pub center0: Point3,
    pub center1: Point3,
    pub time0: Scalar,
    pub time1: Scalar,
    pub radius: Scalar,
    pub mat_ptr: M,
}

impl<M> MovingSphere<M> {
    pub fn new(
        center0: Point3,
        center1: Point3,
        time0: Scalar,
        time1: Scalar,
        radius: Scalar,
        mat_ptr: M,
    ) -> (s: MovingSphere<M>)
        ensures
            s.center0 == center0,
            s.center1 == center1,
            s.time0 == time0,
            s.time1 == time1,
            s.radius == radius,
            s.mat_ptr == mat_ptr,
    {
        MovingSphere { center0, center1, time0, time1, radius, mat_ptr }
    }
}

impl<M: Clone> MovingSphere<M> {
    /// The hit of a ray on the sphere where it is at the ray's time;
    /// `solve` and `surface` as for `Sphere::hit`.
    pub fn hit<
        A: Fn(&MovingSphere<M>, &Ray) -> Roots,
        B: Fn(&MovingSphere<M>, &Ray, Scalar) -> Surface,
    >(&self, r: &Ray, t_min: Scalar, t_max: Scalar, solve: &A, surface: &B) -> (out: Option<
        HitRecord<M>,
    >)
        requires
            solve.requires((self, r)),
            forall|root: Scalar| #[trigger] surface.requires((self, r, root)),
        ensures
            round_hit(*self, self.mat_ptr, *r, t_min, t_max, *solve, *surface, out),
    {
        hit_round(self, &self.mat_ptr, r, t_min, t_max, solve, surface)
    }
}

impl<M> MovingSphere<M> {

    /// The box of the sphere over a span of time: the union of its box at
    /// the start, `box0`, and its box at the end, `box1`.
    pub fn bounding_box(&self, box0: &AABB, box1: &AABB) -> (out: Option<AABB>)
        ensures
            out == Some(box0.union(*box1)),
    {
        Some(AABB::surrounding_box(box0, box1))
    }
}

/// A rectangle in the plane `z = k`.
pub struct XyRect<M> {
    pub x0: Scalar,
    pub x1: Scalar,
    pub y0: Scalar,
    pub y1: Scalar,
    pub k: Scalar,
    pub mp: M,
}

impl<M> XyRect<M> {
    pub fn new(x0: Scalar, x1: Scalar, y0: Scalar, y1: Scalar, k: Scalar, mp: M) -> (r: XyRect<M>)
        ensures
            r.x0 == x0,
            r.x1 == x1,
            r.y0 == y0,
            r.y1 == y1,
            r.k == k,
            r.mp == mp,
    {
        XyRect { x0, x1, y0, y1, k, mp }
    }
}

/// A rectangle in the plane `x = k`.
pub struct YzRect<M> {
    pub y0: Scalar,
    pub y1: Scalar,
    pub z0: Scalar,
    pub z1: Scalar,
    pub k: Scalar,
    pub mp: M,
}

impl<M> YzRect<M> {
    pub fn new(y0: Scalar, y1: Scalar, z0: Scalar, z1: Scalar, k: Scalar, mp: M) -> (r: YzRect<M>)
        ensures
            r.y0 == y0,
            r.y1 == y1,
            r.z0 == z0,
            r.z1 == z1,
            r.k == k,
            r.mp == mp,
    {
        YzRect { y0, y1, z0, z1, k, mp }
    }
}

/// A rectangle in the plane `y = k`.
pub struct XzRect<M> {
    pub x0: Scalar,
    pub x1: Scalar,
    pub z0: Scalar,
    pub z1: Scalar,
    pub k: Scalar,
    pub mp: M,
}

impl<M> XzRect<M> {
    pub fn new(x0: Scalar, x1: Scalar, z0: Scalar, z1: Scalar, k: Scalar, mp: M) -> (r: XzRect<M>)
        ensures
            r.x0 == x0,
            r.x1 == x1,
            r.z0 == z0,
            r.z1 == z1,
            r.k == k,
            r.mp == mp,
    {
        XzRect { x0, x1, z0, z1, k, mp }
    }
}

/// Whether a rectangle's plane is met inside the rectangle: the ray
/// parameter `t` lies on `[t_min, t_max]`, and the point met, at `a` and
/// `b` along the rectangle's two axes, lies within its extent.
pub open spec fn lands_spec(
    t: Scalar,
    t_min: Scalar,
    t_max: Scalar,
    a: Scalar,
    a0: Scalar,
    a1: Scalar,
    b: Scalar,
    b0: Scalar,
    b1: Scalar,
) -> bool {
    in_range(t, t_min, t_max) && in_range(a, a0, a1) && in_range(b, b0, b1)
}

#[verifier::when_used_as_spec(lands_spec)]
pub fn lands(
    t: Scalar,
    t_min: Scalar,
    t_max: Scalar,
    a: Scalar,
    a0: Scalar,
    a1: Scalar,
    b: Scalar,
    b0: Scalar,
    b1: Scalar,
) -> (yes: bool)
    ensures
        yes == lands_spec(t, t_min, t_max, a, a0, a1, b, b0, b1),
{
    if t.lt(t_min) || t.gt(t_max) {
        return false;
    }
    if a.lt(a0) || a.gt(a1) || b.lt(b0) || b.gt(b1) {
        return false;
    }
    true
}

/// A ray against the plane of a rectangle: the parameter at which it
/// meets the plane, where that is along the rectangle's two axes, and the
/// surface there.
#[derive(Clone, Copy, Debug, PartialEq, Eq, Structural)]
pub struct Meeting {
    pub t: Scalar,
    pub a: Scalar,
    pub b: Scalar,
    pub surface: Surface,
}

/// What the hit test of a rectangle with the extent `[a0, a1]` by
/// `[b0, b1]` may return: with the meeting that `meet` returns, the record
/// of its surface if it lands in the rectangle, else nothing.
pub open spec fn flat_hit<O, M: Clone, A: Fn(&O, &Ray) -> Meeting>(
    object: O,
    a0: Scalar,
    a1: Scalar,
    b0: Scalar,
    b1: Scalar,
    mp: M,
    r: Ray,
    t_min: Scalar,
    t_max: Scalar,
    meet: A,
    out: Option<HitRecord<M>>,
) -> bool {
    exists|m: Meeting| #[trigger]
        meet.ensures((&object, &r), m) && if lands_spec(
            m.t,
            t_min,
            t_max,
            m.a,
            a0,
            a1,
            m.b,
            b0,
            b1,
        ) {
            exists|mat: M| #[trigger] cloned(mp, mat) && out == Some(record(m.t, m.surface, mat))
        } else {
            out.is_none()
        }
}

fn hit_flat<O, M: Clone, A: Fn(&O, &Ray) -> Meeting>(
    object: &O,
    a0: Scalar,
    a1: Scalar,
    b0: Scalar,
    b1: Scalar,
    mp: &M,
    r: &Ray,
    t_min: Scalar,
    t_max: Scalar,
    meet: &A,
) -> (out: Option<HitRecord<M>>)
    requires
        meet.requires((object, r)),
    ensures
        flat_hit(*object, a0, a1, b0, b1, *mp, *r, t_min, t_max, *meet, out),
{
    let m = meet(object, r);
    if !lands(m.t, t_min, t_max, m.a, a0, a1, m.b, b0, b1) {
        return None;
    }
    let mat = mp.clone();
    let s = m.surface;
    let rec = HitRecord::new(m.t, s.p, s.facing, s.outward_normal, s.u, s.v, mat);
    assert(cloned(*mp, mat) && rec == record(m.t, m.surface, mat));
    Some(rec)
}

impl<M: Clone> XyRect<M> {
    /// The hit of a ray on the rectangle; `meet` is the caller's arithmetic
    /// for the ray against the plane `z = k`, with `a` along x and `b`
    /// along y.
    pub fn hit<A: Fn(&XyRect<M>, &Ray) -> Meeting>(
        &self,
        r: &Ray,
        t_min: Scalar,
        t_max: Scalar,
        meet: &A,
    ) -> (out: Option<HitRecord<M>>)
        requires
            meet.requires((self, r)),
        ensures
            flat_hit(
                *self,
                self.x0,
                self.x1,
                self.y0,
                self.y1,
                self.mp,
                *r,
                t_min,
                t_max,
                *meet,
                out,
            ),
    {
        hit_flat(self, self.x0, self.x1, self.y0, self.y1, &self.mp, r, t_min, t_max, meet)
    }
}

impl<M: Clone> YzRect<M> {
    /// The hit of a ray on the rectangle; `meet` is the caller's arithmetic
    /// for the ray against the plane `x = k`, with `a` along y and `b`
    /// along z.
    pub fn hit<A: Fn(&YzRect<M>, &Ray) -> Meeting>(
        &self,
        r: &Ray,
        t_min: Scalar,
        t_max: Scalar,
        meet: &A,
    ) -> (out: Option<HitRecord<M>>)
        requires
            meet.requires((self, r)),
        ensures
            flat_hit(
                *self,
                self.y0,
                self.y1,
                self.z0,
                self.z1,
                self.mp,
                *r,
                t_min,
                t_max,
                *meet,
                out,
            ),
    {
        hit_flat(self, self.y0, self.y1, self.z0, self.z1, &self.mp, r, t_min, t_max, meet)
    }
}

impl<M: Clone> XzRect<M> {
    /// The hit of a ray on the rectangle; `meet` is the caller's arithmetic
    /// for the ray against the plane `y = k`, with `a` along x and `b`
    /// along z.
    pub fn hit<A: Fn(&XzRect<M>, &Ray) -> Meeting>(
        &self,
        r: &Ray,
        t_min: Scalar,
        t_max: Scalar,
        meet: &A,
    ) -> (out: Option<HitRecord<M>>)
        requires
            meet.requires((self, r)),
        ensures
            flat_hit(
                *self,
                self.x0,
                self.x1,
                self.z0,
                self.z1,
                self.mp,
                *r,
                t_min,
                t_max,
                *meet,
                out,
            ),
    {
        hit_flat(self, self.x0, self.x1, self.z0, self.z1, &self.mp, r, t_min, t_max, meet)
    }
}

/// A face of a box: a rectangle in one of the three orientations.
pub enum Rect<M> {
    Xy(XyRect<M>),
    Xz(XzRect<M>),
    Yz(YzRect<M>),
}

/// A box with faces along the axes, between two opposite corners.
pub struct Cubic<M> {
    pub sides: HittableList<Rect<M>>,
    pub p1: Point3,
    pub p2: Point3,
}

impl<M: Clone> Cubic<M> {
    /// Whether `side` is face number `n` of the box between `p1` and `p2`,
    /// with a clone of `mat_ptr` for its material. Faces 0 and 1 are the
    /// front and the back, in the planes `z = p1.z` and `z = p2.z`; 2 and 3
    /// the bottom and the top, in `y = p1.y` and `y = p2.y`; 4 and 5 the
    /// left and the right, in `x = p1.x` and `x = p2.x`.
    pub open spec fn is_face(side: Rect<M>, n: int, p1: Point3, p2: Point3, mat_ptr: M) -> bool {
        if n == 0 || n == 1 {
            side matches Rect::Xy(r) && r.x0 == p1.x && r.x1 == p2.x && r.y0 == p1.y && r.y1
                == p2.y && r.k == (if n == 0 {
                p1.z
            } else {
                p2.z
            }) && cloned(mat_ptr, r.mp)
        } else if n == 2 || n == 3 {
            side matches Rect::Xz(r) && r.x0 == p1.x && r.x1 == p2.x && r.z0 == p1.z && r.z1
                == p2.z && r.k == (if n == 2 {
                p1.y
            } else {
                p2.y
            }) && cloned(mat_ptr, r.mp)
        } else {
            side matches Rect::Yz(r) && r.y0 == p1.y && r.y1 == p2.y && r.z0 == p1.z && r.z1
                == p2.z && r.k == (if n == 4 {
                p1.x
            } else {
                p2.x
            }) && cloned(mat_ptr, r.mp)
        }
    }

    /// The box between the corners `p1` and `p2`: its six faces, all of one
    /// material.
    pub fn new(p1: Point3, p2: Point3, mat_ptr: M) -> (c: Cubic<M>)
        ensures
            c.p1 == p1,
            c.p2 == p2,
            c.sides.objects@.len() == 6,
            forall|n: int| 0 <= n < 6 ==> Self::is_face(#[trigger] c.sides.objects@[n], n, p1, p2, mat_ptr),
    {
        let mut sides: HittableList<Rect<M>> = HittableList::new();
        sides.add(Rect::Xy(XyRect::new(p1.x, p2.x, p1.y, p2.y, p1.z, mat_ptr.clone())));
        sides.add(Rect::Xy(XyRect::new(p1.x, p2.x, p1.y, p2.y, p2.z, mat_ptr.clone())));
        sides.add(Rect::Xz(XzRect::new(p1.x, p2.x, p1.z, p2.z, p1.y, mat_ptr.clone())));
        sides.add(Rect::Xz(XzRect::new(p1.x, p2.x, p1.z, p2.z, p2.y, mat_ptr.clone())));
        sides.add(Rect::Yz(YzRect::new(p1.y, p2.y, p1.z, p2.z, p1.x, mat_ptr.clone())));
        sides.add(Rect::Yz(YzRect::new(p1.y, p2.y, p1.z, p2.z, p2.x, mat_ptr.clone())));
        Cubic { sides, p1, p2 }
    }

    /// The closest hit among the six faces; `probe` is the caller's hit
    /// test of one face.
    pub fn hit<F: Fn(&Rect<M>, &Ray, Scalar, Scalar) -> Option<HitRecord<M>>>(
        &self,
        r: &Ray,
        t_min: Scalar,
        t_max: Scalar,
        probe: &F,
    ) -> (out: Option<HitRecord<M>>)
        requires
            forall|i: int, lo: Scalar, hi: Scalar|
                0 <= i < self.sides.objects.len() ==> #[trigger] probe.requires(
                    (&self.sides.objects[i], r, lo, hi),
                ),
        ensures
            HittableList::<Rect<M>>::scan(
                self.sides.objects@,
                t_min,
                answers_of(*probe, *r),
                0,
                t_max,
                None,
                out,
            ),
    {
        self.sides.hit(r, t_min, t_max, probe)
    }

    /// The box itself, whatever the times.
    pub fn bounding_box(&self, _time0: Scalar, _time1: Scalar) -> (out: Option<AABB>)
        ensures
            out == Some(AABB { minimum: self.p1, maximum: self.p2 }),
    {
        Some(AABB::new(self.p1, self.p2))
    }
}

/// An object turned about the y axis.
pub struct RotateY<T> {
    pub ptr: T,
    pub sin_theta: Scalar,
    pub cos_theta: Scalar,
    pub has_box: bool,
    pub bbox: AABB,
}

impl<T> RotateY<T> {
    /// The box that the turned object starts from: the object's own, or a
    /// single point at the origin where it has none.
    pub open spec fn start_box(child_box: Option<AABB>) -> AABB {
        match child_box {
            Some(b) => b,
            None => AABB {
                minimum: Vec3 {
                    x: Scalar::zero_spec(),
                    y: Scalar::zero_spec(),
                    z: Scalar::zero_spec(),
                },
                maximum: Vec3 {
                    x: Scalar::zero_spec(),
                    y: Scalar::zero_spec(),
                    z: Scalar::zero_spec(),
                },
            },
        }
    }

    /// Whether `turned` are the eight corners of a box after the turn: each
    /// is what `turn` returns for the corner of the same number.
    pub open spec fn turns<F: Fn(Point3) -> Point3>(
        turn: F,
        corners: Seq<Point3>,
        turned: Seq<Point3>,
    ) -> bool {
        &&& turned.len() == corners.len()
        &&& forall|n: int| 0 <= n < corners.len() ==> turn.ensures((corners[n],), #[trigger] turned[n])
    }

    /// The object `ptr` turned by an angle with the given sine and cosine.
    /// `child_box` is the box of the object, `turn` the caller's rotation
    /// of a point by the angle. The box of the turned object is the
    /// smallest one around the eight turned corners of the object's box.
    pub fn new<F: Fn(Point3) -> Point3>(
        ptr: T,
        sin_theta: Scalar,
        cos_theta: Scalar,
        child_box: Option<AABB>,
        turn: &F,
    ) -> (rot: RotateY<T>)
        requires
            forall|p: Point3| #[trigger] turn.requires((p,)),
        ensures
            rot.ptr == ptr,
            rot.sin_theta == sin_theta,
            rot.cos_theta == cos_theta,
            rot.has_box == child_box.is_some(),
            exists|turned: Seq<Point3>|
                Self::turns(*turn, Self::start_box(child_box).corner_seq(), turned) && rot.bbox
                    == #[trigger] AABB::around(turned),
    {
        let has_box = child_box.is_some();
        let bbox = match child_box {
            Some(b) => b,
            None => AABB::new(Vec3::splat(Scalar::zero()), Vec3::splat(Scalar::zero())),
        };
        let corners = bbox.corners();
        let mut turned: Vec<Point3> = Vec::new();
        let mut n: usize = 0;
        while n < corners.len()
            invariant
                n <= corners.len(),
                turned.len() == n,
                forall|p: Point3| #[trigger] turn.requires((p,)),
                forall|k: int| 0 <= k < n ==> turn.ensures((corners@[k],), #[trigger] turned@[k]),
            decreases corners.len() - n,
        {
            turned.push(turn(corners[n]));
            n += 1;
        }
        let bbox = AABB::enclosing(&turned);
        assert(Self::turns(*turn, Self::start_box(child_box).corner_seq(), turned@));
        RotateY { ptr, sin_theta, cos_theta, bbox, has_box }
    }

    /// The box of the turned object, whatever the times.
    pub fn bounding_box(&self, _time0: Scalar, _time1: Scalar) -> (out: Option<AABB>)
        ensures
            out == Some(self.bbox),
    {
        Some(self.bbox)
    }

    /// What the hit test of the turned object may return. The ray is taken
    /// into the object's space: origin and direction each through
    /// `to_object`. The object is probed with that ray. Of a hit, the point
    /// and the normal are taken back through `to_world`; the rest of the
    /// record stays, so the normal still faces the ray.
    pub open spec fn turned_hit<
        M,
        P: Fn(&T, &Ray, Scalar, Scalar) -> Option<HitRecord<M>>,
        A: Fn(Vec3) -> Vec3,
        B: Fn(Vec3) -> Vec3,
    >(
        ptr: T,
        r: Ray,
        t_min: Scalar,
        t_max: Scalar,
        probe: P,
        to_object: A,
        to_world: B,
        out: Option<HitRecord<M>>,
    ) -> bool {
        exists|origin: Vec3, direction: Vec3, inner: Option<HitRecord<M>>|
            #![trigger to_object.ensures((r.origin,), origin), to_object.ensures((r.direction,), direction), probe.ensures((&ptr, &Ray { origin, direction, time: r.time }, t_min, t_max), inner)]
            to_object.ensures((r.origin,), origin) && to_object.ensures((r.direction,), direction)
                && probe.ensures(
                (&ptr, &Ray { origin, direction, time: r.time }, t_min, t_max),
                inner,
            ) && match inner {
                None => out.is_none(),
                Some(rec) => exists|p: Point3, normal: Vec3|
                    #![trigger to_world.ensures((rec.p,), p), to_world.ensures((rec.normal,), normal)]
                    to_world.ensures((rec.p,), p) && to_world.ensures((rec.normal,), normal)
                        && out == Some(
                        HitRecord {
                            p,
                            normal,
                            front_face: rec.front_face,
                            t: rec.t,
                            u: rec.u,
                            v: rec.v,
                            mat_ptr: rec.mat_ptr,
                        },
                    ),
            }
    }

    /// The hit of a ray on the turned object on `[t_min, t_max]`. `probe`
    /// is the caller's hit test of the object, `to_object` the rotation
    /// against the angle and `to_world` the rotation by the angle.
    pub fn hit<
        M,
        P: Fn(&T, &Ray, Scalar, Scalar) -> Option<HitRecord<M>>,
        A: Fn(Vec3) -> Vec3,
        B: Fn(Vec3) -> Vec3,
    >(&self, r: &Ray, t_min: Scalar, t_max: Scalar, probe: &P, to_object: &A, to_world: &B) -> (out:
        Option<HitRecord<M>>)
        requires
            forall|ray: &Ray, lo: Scalar, hi: Scalar| #[trigger] probe.requires((&self.ptr, ray, lo, hi)),
            forall|v: Vec3| #[trigger] to_object.requires((v,)),
            forall|v: Vec3| #[trigger] to_world.requires((v,)),
        ensures
            Self::turned_hit(self.ptr, *r, t_min, t_max, *probe, *to_object, *to_world, out),
    {
        let origin = to_object(r.origin);
        let direction = to_object(r.direction);
        let rotated_r = Ray::new(origin, direction, r.time);
        let inner = probe(&self.ptr, &rotated_r, t_min, t_max);
        let ghost inner0 = inner;
        assert(probe.ensures(
            (&self.ptr, &Ray { origin, direction, time: r.time }, t_min, t_max),
            inner0,
        ));
        match inner {
            None => None,
            Some(rec) => {
                let ghost rec0 = rec;
                let mut rec = rec;
                let p = to_world(rec.p);
                let normal = to_world(rec.normal);
                rec.p = p;
                rec.normal = normal;
                assert(to_world.ensures((rec0.p,), p) && to_world.ensures((rec0.normal,), normal));
                assert(rec == (HitRecord {
                    p,
                    normal,
                    front_face: rec0.front_face,
                    t: rec0.t,
                    u: rec0.u,
                    v: rec0.v,
                    mat_ptr: rec0.mat_ptr,
                }));
                Some(rec)
            },
        }
    }
}

/// An object moved by an offset.
pub struct Translate<T> {
    pub obj: T,
    pub offset: Vec3,
}

impl<T> Translate<T> {
    pub fn new(obj: T, offset: Vec3) -> (t: Translate<T>)
        ensures
            t.obj == obj,
            t.offset == offset,
    {
        Translate { obj, offset }
    }

    /// What the hit test of the moved object may return. The ray is moved
    /// against the offset: its origin becomes what `back` returns for it.
    /// The object is probed with that ray. Of a hit, the point becomes what
    /// `forth` returns for it; the rest of the record stays.
    pub open spec fn moved_hit<
        M,
        P: Fn(&T, &Ray, Scalar, Scalar) -> Option<HitRecord<M>>,
        A: Fn(Point3, Vec3) -> Point3,
        B: Fn(Point3, Vec3) -> Point3,
    >(
        obj: T,
        offset: Vec3,
        r: Ray,
        t_min: Scalar,
        t_max: Scalar,
        probe: P,
        back: A,
        forth: B,
        out: Option<HitRecord<M>>,
    ) -> bool {
        exists|origin: Point3, inner: Option<HitRecord<M>>|
            #![trigger back.ensures((r.origin, offset), origin), probe.ensures((&obj, &Ray { origin, direction: r.direction, time: r.time }, t_min, t_max), inner)]
            back.ensures((r.origin, offset), origin) && probe.ensures(
                (&obj, &Ray { origin, direction: r.direction, time: r.time }, t_min, t_max),
                inner,
            ) && match inner {
                None => out.is_none(),
                Some(rec) => exists|p: Point3| #[trigger]
                    forth.ensures((rec.p, offset), p) && out == Some(
                        HitRecord {
                            p,
                            normal: rec.normal,
                            front_face: rec.front_face,
                            t: rec.t,
                            u: rec.u,
                            v: rec.v,
                            mat_ptr: rec.mat_ptr,
                        },
                    ),
            }
    }

    /// The hit of a ray on the moved object on `[t_min, t_max]`. `probe`
    /// is the caller's hit test of the object; `back(p, offset)` is
    /// `p - offset` and `forth(p, offset)` is `p + offset`, the caller's
    /// arithmetic.
    pub fn hit<
        M,
        P: Fn(&T, &Ray, Scalar, Scalar) -> Option<HitRecord<M>>,
        A: Fn(Point3, Vec3) -> Point3,
        B: Fn(Point3, Vec3) -> Point3,
    >(&self, r: &Ray, t_min: Scalar, t_max: Scalar, probe: &P, back: &A, forth: &B) -> (out:
        Option<HitRecord<M>>)
        requires
            forall|ray: &Ray, lo: Scalar, hi: Scalar| #[trigger] probe.requires((&self.obj, ray, lo, hi)),
            forall|p: Point3, o: Vec3| #[trigger] back.requires((p, o)),
            forall|p: Point3, o: Vec3| #[trigger] forth.requires((p, o)),
        ensures
            Self::moved_hit(self.obj, self.offset, *r, t_min, t_max, *probe, *back, *forth, out),
    {
        let origin = back(r.origin, self.offset);
        let moved_ray = Ray::new(origin, r.direction, r.time);
        let inner = probe(&self.obj, &moved_ray, t_min, t_max);
        let ghost inner0 = inner;
        assert(probe.ensures(
            (&self.obj, &Ray { origin, direction: r.direction, time: r.time }, t_min, t_max),
            inner0,
        ));
        match inner {
            Some(rec) => {
                let ghost rec0 = rec;
                let mut rec = rec;
                let p = forth(rec.p, self.offset);
                rec.p = p;
                assert(forth.ensures((rec0.p, self.offset), p));
                assert(rec == (HitRecord {
                    p,
                    normal: rec0.normal,
                    front_face: rec0.front_face,
                    t: rec0.t,
                    u: rec0.u,
                    v: rec0.v,
                    mat_ptr: rec0.mat_ptr,
                }));
                Some(rec)
            },
            None => None,
        }
    }

    /// What the box of the moved object may be: nothing where the object
    /// has none, else the object's box with both corners moved by `forth`.
    pub open spec fn moved_box<G: Fn(&T, Scalar, Scalar) -> Option<AABB>, B: Fn(Point3, Vec3) -> Point3>(
        obj: T,
        offset: Vec3,
        time0: Scalar,
        time1: Scalar,
        bounds: G,
        forth: B,
        out: Option<AABB>,
    ) -> bool {
        exists|inner: Option<AABB>| #[trigger]
            bounds.ensures((&obj, time0, time1), inner) && match inner {
                None => out.is_none(),
                Some(b) => exists|lowest: Point3, highest: Point3|
                    #![trigger forth.ensures((b.minimum, offset), lowest), forth.ensures((b.maximum, offset), highest)]
                    forth.ensures((b.minimum, offset), lowest) && forth.ensures(
                        (b.maximum, offset),
                        highest,
                    ) && out == Some(AABB { minimum: lowest, maximum: highest }),
            }
    }

    /// The box of the moved object between `time0` and `time1`. `bounds`
    /// is the caller's box of the object, `forth` as for `hit`.
    pub fn bounding_box<G: Fn(&T, Scalar, Scalar) -> Option<AABB>, B: Fn(Point3, Vec3) -> Point3>(
        &self,
        time0: Scalar,
        time1: Scalar,
        bounds: &G,
        forth: &B,
    ) -> (out: Option<AABB>)
        requires
            bounds.requires((&self.obj, time0, time1)),
            forall|p: Point3, o: Vec3| #[trigger] forth.requires((p, o)),
        ensures
            Self::moved_box(self.obj, self.offset, time0, time1, *bounds, *forth, out),
    {
        match bounds(&self.obj, time0, time1) {
            None => None,
            Some(b) => {
                let lowest = forth(b.min(), self.offset);
                let highest = forth(b.max(), self.offset);
                assert(forth.ensures((b.minimum, self.offset), lowest) && forth.ensures(
                    (b.maximum, self.offset),
                    highest,
                ));
                Some(AABB::new(lowest, highest))
            },
        }
    }
}

/// The way of a ray through a medium: how far it travels inside the
/// boundary, how far it gets before it scatters, and the parameter and the
/// point at which it would scatter.
#[derive(Clone, Copy, Debug, PartialEq, Eq, Structural)]
pub struct Travel {
    pub distance_inside: Scalar,
    pub hit_distance: Scalar,
    pub t: Scalar,
    pub p: Point3,
}

/// The record of a scattering inside a medium. Normal, face and surface
/// coordinates mean nothing there and are set to fixed values.
pub open spec fn inner_record<M>(tr: Travel, mat_ptr: M) -> HitRecord<M> {
    HitRecord {
        t: tr.t,
        p: tr.p,
        mat_ptr,
        normal: Vec3 { x: Scalar::one_spec(), y: Scalar::zero_spec(), z: Scalar::zero_spec() },
        front_face: true,
        u: Scalar::zero_spec(),
        v: Scalar::zero_spec(),
    }
}

/// A medium of constant density, such as smoke, that fills a boundary.
pub struct ConstantMedium<T, X> {
    pub boundary: T,
    pub phase_function: Isotropic<X>,
    pub neg_inv_density: Scalar,
}

impl<T, X> ConstantMedium<T, X> {
    /// The medium inside `boundary`, coloured by `text`. `neg_inv_density`
    /// is minus one over the density.
    pub fn new(boundary: T, text: X, neg_inv_density: Scalar) -> (m: ConstantMedium<T, X>)
        ensures
            m.boundary == boundary,
            m.phase_function.albedo == text,
            m.neg_inv_density == neg_inv_density,
    {
        ConstantMedium { boundary, phase_function: Isotropic::new(text), neg_inv_density }
    }

    /// What probing the boundary twice yields: the parameters at which the
    /// ray enters and leaves it, or nothing when it does not do both. The
    /// entry is the boundary's hit on `[lo, hi]`, the exit its hit from
    /// just past the entry on.
    pub open spec fn passage<
        M,
        P: Fn(&T, &Ray, Scalar, Scalar) -> Option<HitRecord<M>>,
        N: Fn(Scalar) -> Scalar,
    >(
        boundary: T,
        r: Ray,
        lo: Scalar,
        hi: Scalar,
        probe: P,
        past: N,
        out: Option<(Scalar, Scalar)>,
    ) -> bool {
        exists|first: Option<HitRecord<M>>| #[trigger]
            probe.ensures((&boundary, &r, lo, hi), first) && match first {
                None => out.is_none(),
                Some(rec1) => exists|from: Scalar, second: Option<HitRecord<M>>|
                    #![trigger past.ensures((rec1.t,), from), probe.ensures((&boundary, &r, from, hi), second)]
                    past.ensures((rec1.t,), from) && probe.ensures(
                        (&boundary, &r, from, hi),
                        second,
                    ) && match second {
                        None => out.is_none(),
                        Some(rec2) => out == Some((rec1.t, rec2.t)),
                    },
            }
    }

    /// The two crossings of the boundary on `[t_min, t_max]`. `probe` is
    /// the caller's hit test of the boundary, `past(t)` the caller's
    /// arithmetic for the parameter just past `t`.
    pub fn crossings<
        M,
        P: Fn(&T, &Ray, Scalar, Scalar) -> Option<HitRecord<M>>,
        N: Fn(Scalar) -> Scalar,
    >(&self, r: &Ray, t_min: Scalar, t_max: Scalar, probe: &P, past: &N) -> (out: Option<
        (Scalar, Scalar),
    >)
        requires
            forall|lo: Scalar, hi: Scalar| #[trigger] probe.requires((&self.boundary, r, lo, hi)),
            forall|t: Scalar| #[trigger] past.requires((t,)),
        ensures
            Self::passage(self.boundary, *r, t_min, t_max, *probe, *past, out),
    {
        let first = probe(&self.boundary, r, t_min, t_max);
        let ghost first0 = first;
        match first {
            None => None,
            Some(rec) => {
                let t1 = rec.t;
                let from = past(t1);
                let second = probe(&self.boundary, r, from, t_max);
                let ghost second0 = second;
                assert(past.ensures((rec.t,), from) && probe.ensures(
                    (&self.boundary, r, from, t_max),
                    second0,
                ));
                match second {
                    None => None,
                    Some(rec2) => Some((t1, rec2.t)),
                }
            },
        }
    }

    /// What the hit test of the medium may return: nothing where the ray
    /// does not pass through the boundary, or where it leaves the boundary
    /// before it scatters; else the record of the scattering.
    pub open spec fn medium_hit<
        M,
        P: Fn(&T, &Ray, Scalar, Scalar) -> Option<HitRecord<M>>,
        N: Fn(Scalar) -> Scalar,
        D: Fn(&Ray, Scalar, Scalar) -> Travel,
    >(
        boundary: T,
        r: Ray,
        t_min: Scalar,
        t_max: Scalar,
        probe: P,
        past: N,
        travel: D,
        mat_ptr: M,
        out: Option<HitRecord<M>>,
    ) -> bool {
        exists|c: Option<(Scalar, Scalar)>| #[trigger]
            Self::passage(boundary, r, t_min, t_max, probe, past, c) && match c {
                None => out.is_none(),
                Some((t1, t2)) => exists|tr: Travel| #[trigger]
                    travel.ensures((&r, t1, t2), tr) && if Self::scatters_inside_spec(
                        tr.hit_distance,
                        tr.distance_inside,
                    ) {
                        out == Some(inner_record(tr, mat_ptr))
                    } else {
                        out.is_none()
                    },
            }
    }

    /// The hit of a ray on the medium on `[t_min, t_max]`. `probe` and
    /// `past` as for `crossings`; `travel(r, t1, t2)` is the caller's
    /// arithmetic and random draw for a ray that is inside from `t1` to
    /// `t2`; `mat_ptr` is the caller's handle for the medium's phase
    /// function, which becomes the material of the hit.
    pub fn hit<
        M,
        P: Fn(&T, &Ray, Scalar, Scalar) -> Option<HitRecord<M>>,
        N: Fn(Scalar) -> Scalar,
        D: Fn(&Ray, Scalar, Scalar) -> Travel,
    >(
        &self,
        r: &Ray,
        t_min: Scalar,
        t_max: Scalar,
        probe: &P,
        past: &N,
        travel: &D,
        mat_ptr: M,
    ) -> (out: Option<HitRecord<M>>)
        requires
            forall|lo: Scalar, hi: Scalar| #[trigger] probe.requires((&self.boundary, r, lo, hi)),
            forall|t: Scalar| #[trigger] past.requires((t,)),
            forall|t1: Scalar, t2: Scalar| #[trigger] travel.requires((r, t1, t2)),
        ensures
            Self::medium_hit(
                self.boundary,
                *r,
                t_min,
                t_max,
                *probe,
                *past,
                *travel,
                mat_ptr,
                out,
            ),
    {
        match self.crossings(r, t_min, t_max, probe, past) {
            None => None,
            Some((t1, t2)) => {
                let tr = travel(r, t1, t2);
                if !Self::scatters_inside(tr.hit_distance, tr.distance_inside) {
                    return None;
                }
                Some(
                    HitRecord {
                        t: tr.t,
                        p: tr.p,
                        mat_ptr,
                        normal: Vec3::new(Scalar::one(), Scalar::zero(), Scalar::zero()),
                        front_face: true,
                        u: Scalar::zero(),
                        v: Scalar::zero(),
                    },
                )
            },
        }
    }

    /// Whether the ray scatters inside the medium: unless the distance
    /// drawn for the next scattering is above the distance that the ray
    /// travels inside the boundary.
    pub open spec fn scatters_inside_spec(hit_distance: Scalar, distance_inside: Scalar) -> bool {
        !hit_distance.gt_spec(distance_inside)
    }

    #[verifier::when_used_as_spec(scatters_inside_spec)]
    pub fn scatters_inside(hit_distance: Scalar, distance_inside: Scalar) -> (yes: bool)
        ensures
            yes == Self::scatters_inside_spec(hit_distance, distance_inside),
    {
        !hit_distance.gt(distance_inside)
    }
}

} // verus!
