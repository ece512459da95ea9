//! Hit records and the surfaces that rays are tested against.
use vstd::prelude::*;
use std::sync::Arc;
use crate::aabb::Aabb;
use crate::bvh_node::BvhNode;
use crate::constant_medium::ConstantMedium;
use crate::fixed::Fixed;
use crate::hittable_list::HittableList;
use crate::interval::Interval;
use crate::material::Material;
use crate::quad::Quad;
use crate::ray::Ray;
use crate::rtweekend::degrees_to_radians;
use crate::sphere::Sphere;
use crate::trig::sin_cos;
use crate::vec3::{Point3, Vec3, dot, lemma_dot_neg, lemma_dot_symmetric};

verus! {

/// What is known of the place where a ray meets a surface.
#[derive(Clone)]
pub struct HitRecord {
    /// The point of the hit.
    pub p: Point3,
    /// The surface normal, turned against the ray.
    pub normal: Vec3,
    /// The ray parameter of the hit.
    pub t: Fixed,
    /// Surface coordinates of the hit.
    pub u: Fixed,
    pub v: Fixed,
    /// Whether the ray met the outer face of the surface.
    pub front_face: bool,
    /// The material of the surface.
    pub mat: Option<Arc<Material>>,
}

impl Default for HitRecord {
    fn default() -> (r: Self)
        ensures
            r == HitRecord::spec_blank(),
    {
        HitRecord {
            p: Vec3::zero(),
            normal: Vec3::zero(),
            t: Fixed::zero(),
            u: Fixed::zero(),
            v: Fixed::zero(),
            front_face: false,
            mat: None,
        }
    }
}

/// Another handle on the same shared value, from `Arc::clone` of the
/// standard library. That the new handle reads as the one it was made from
/// is taken on trust, not proved.
#[verifier::external_body]
pub(crate) fn share<T>(a: &Arc<T>) -> (r: Arc<T>)
    ensures
        r == *a,
{
    Arc::clone(a)
}

/// Holds of everything that a test of a surface can give; it marks the
/// outcome that a statement speaks of.
pub open spec fn is_outcome(res: Option<HitRecord>) -> bool {
    true
}

impl HitRecord {
    /// The record of no hit: zeros and no material.
    pub open spec fn spec_blank() -> HitRecord {
        HitRecord {
            p: Vec3::zero(),
            normal: Vec3::zero(),
            t: Fixed::zero(),
            u: Fixed::zero(),
            v: Fixed::zero(),
            front_face: false,
            mat: None,
        }
    }

    /// The record with its normal set from the outward normal of the
    /// surface: the face is the front when the ray runs against the outward
    /// normal, and the normal kept is the one that opposes the ray.
    pub open spec fn spec_set_face_normal(self, r: &Ray, outward_normal: Vec3) -> HitRecord {
        let front_face = dot(r.dir, outward_normal)@ < 0;
        HitRecord {
            front_face,
            normal: if front_face {
                outward_normal
            } else {
                outward_normal.neg()
            },
            ..self
        }
    }

    /// Sets the normal from the outward normal of the surface: the face is
    /// the front when the ray runs against the outward normal, and the normal
    /// kept is the one that opposes the ray, so that its dot product with the
    /// ray direction is never positive.
    pub fn set_face_normal(&mut self, r: &Ray, outward_normal: Vec3)
        ensures
            *final(self) == old(self).spec_set_face_normal(r, outward_normal),
            final(self).front_face == (dot(r.dir, outward_normal)@ < 0),
            dot(final(self).normal, r.dir)@ <= 0,
    {
        proof {
            lemma_dot_symmetric(r.dir, outward_normal);
            lemma_dot_neg(outward_normal, r.dir);
        }
        self.front_face = dot(r.direction(), outward_normal).lt(Fixed::zero());
        self.normal = if self.front_face {
            outward_normal
        } else {
            outward_normal.neg()
        };
    }
}

/// A surface moved by an offset.
#[derive(Clone)]
pub struct Translate {
    pub object: Arc<Hittable>,
    pub offset: Vec3,
    pub bbox: Aabb,
}

impl Translate {
    /// `object` moved by `offset`; the box is that of the object, moved.
    pub fn new(object: Arc<Hittable>, offset: Vec3) -> (r: Self)
        ensures
            r.object == object,
            r.offset == offset,
            r.bbox == object.spec_bounding_box().spec_offset(offset),
    {
        let bbox = object.bounding_box().offset(offset);
        Translate { object, offset, bbox }
    }

    /// The ray as the surface sees it before it was moved.
    #[verifier::opaque]
    pub open spec fn spec_object_ray(&self, r: &Ray) -> Ray {
        Ray::new_time(r.orig.sub(self.offset), r.dir, r.tm)
    }

    /// A hit on the surface before it was moved, carried to where it is.
    #[verifier::opaque]
    pub open spec fn spec_lift(&self, found: Option<HitRecord>) -> Option<HitRecord> {
        match found {
            None => None,
            Some(h) => Some(HitRecord { p: h.p.add(self.offset), ..h }),
        }
    }

    /// No surface within draws random numbers when it is tested.
    pub open spec fn deterministic(&self) -> bool
        decreases self,
    {
        self.object.deterministic()
    }

    /// Every material within is non-negative.
    pub open spec fn non_negative(&self) -> bool
        decreases self,
    {
        self.object.non_negative()
    }

    /// The hit on the moved surface: the ray is moved back by the offset,
    /// tested against the surface, and the point of the hit moved forth.
    pub open spec fn spec_hit(&self, r: &Ray, ray_t: &Interval) -> Option<HitRecord>
        decreases self,
    {
        self.spec_lift(self.object.spec_hit(&self.spec_object_ray(r), ray_t))
    }

    /// Whether `res` can come out of [`Translate::hit`]: it is what can come
    /// out of the surface for the ray moved back, carried to where the
    /// surface is.
    pub open spec fn can_hit(&self, r: &Ray, ray_t: &Interval, res: Option<HitRecord>) -> bool
        decreases self,
    {
        exists|inner: Option<HitRecord>|
            self.object.can_hit(&self.spec_object_ray(r), ray_t, inner) && res
                == #[trigger] self.spec_lift(inner)
    }

    /// The hit on the moved surface within `ray_t`.
    pub fn hit(&self, r: &Ray, ray_t: &Interval) -> (res: Option<HitRecord>)
        ensures
            self.can_hit(r, ray_t, res),
            self.deterministic() ==> res == self.spec_hit(r, ray_t),
            self.deterministic() ==> (res matches Some(h) ==> ray_t.contains(h.t)),
            res matches Some(h) ==> h.mat is Some,
            self.non_negative() ==> (res matches Some(h) ==> h.mat.unwrap().non_negative()),
        decreases self,
    {
        reveal(Translate::spec_object_ray);
        reveal(Translate::spec_lift);
        let offset_r = Ray::new_time(r.origin().sub(self.offset), r.direction(), r.time());
        let inner = self.object.hit(&offset_r, ray_t);
        let ghost tested = inner;
        let res = match inner {
            None => None,
            Some(h) => {
                let mut rec = h;
                rec.p = rec.p.add(self.offset);
                Some(rec)
            },
        };
        assert(self.object.can_hit(&self.spec_object_ray(r), ray_t, tested) && res
            == self.spec_lift(tested));
        res
    }

    pub fn bounding_box(&self) -> (b: &Aabb)
        ensures
            *b == self.bbox,
    {
        &self.bbox
    }
}

/// A surface turned about the y axis.
#[derive(Clone)]
pub struct RotateY {
    pub object: Arc<Hittable>,
    pub sin_theta: Fixed,
    pub cos_theta: Fixed,
    pub bbox: Aabb,
}

/// The vector turned about the y axis by the angle of the given sine and
/// cosine: `(cos x + sin z, y, -sin x + cos z)`.
#[verifier::opaque]
pub open spec fn spec_turn(v: Vec3, sin_theta: Fixed, cos_theta: Fixed) -> Vec3 {
    Vec3 {
        x: cos_theta.mul(v.x).add(sin_theta.mul(v.z)),
        y: v.y,
        z: sin_theta.neg().mul(v.x).add(cos_theta.mul(v.z)),
    }
}

/// The vector turned about the y axis by the angle of the given sine and
/// cosine.
#[verifier::when_used_as_spec(spec_turn)]
pub fn turn(v: Vec3, sin_theta: Fixed, cos_theta: Fixed) -> (r: Vec3)
    ensures
        r == spec_turn(v, sin_theta, cos_theta),
{
    reveal(spec_turn);
    Vec3 {
        x: cos_theta.mul(v.x).add(sin_theta.mul(v.z)),
        y: v.y,
        z: sin_theta.neg().mul(v.x).add(cos_theta.mul(v.z)),
    }
}

/// The vector turned back: `(cos x - sin z, y, sin x + cos z)`.
#[verifier::opaque]
pub open spec fn spec_turn_back(v: Vec3, sin_theta: Fixed, cos_theta: Fixed) -> Vec3 {
    Vec3 {
        x: cos_theta.mul(v.x).sub(sin_theta.mul(v.z)),
        y: v.y,
        z: sin_theta.mul(v.x).add(cos_theta.mul(v.z)),
    }
}

/// The vector turned back.
#[verifier::when_used_as_spec(spec_turn_back)]
pub fn turn_back(v: Vec3, sin_theta: Fixed, cos_theta: Fixed) -> (r: Vec3)
    ensures
        r == spec_turn_back(v, sin_theta, cos_theta),
{
    reveal(spec_turn_back);
    Vec3 {
        x: cos_theta.mul(v.x).sub(sin_theta.mul(v.z)),
        y: v.y,
        z: sin_theta.mul(v.x).add(cos_theta.mul(v.z)),
    }
}

/// The corner of a box that the count `n` in `0..8` names: bit 2 picks the
/// far end on x, bit 1 on y, bit 0 on z.
pub open spec fn spec_box_corner(b: Aabb, n: int) -> Vec3 {
    Vec3 {
        x: if n / 4 == 1 {
            b.x.max
        } else {
            b.x.min
        },
        y: if (n / 2) % 2 == 1 {
            b.y.max
        } else {
            b.y.min
        },
        z: if n % 2 == 1 {
            b.z.max
        } else {
            b.z.min
        },
    }
}

/// The least and the greatest coordinates among the first `n` corners of the
/// box, each turned about the y axis.
pub open spec fn spec_turned_extent(b: Aabb, sin_theta: Fixed, cos_theta: Fixed, n: nat) -> (
    Vec3,
    Vec3,
)
    decreases n,
{
    if n == 0 {
        (
            Vec3::new(Fixed::infinity(), Fixed::infinity(), Fixed::infinity()),
            Vec3::new(Fixed::neg_infinity(), Fixed::neg_infinity(), Fixed::neg_infinity()),
        )
    } else {
        let e = spec_turned_extent(b, sin_theta, cos_theta, (n - 1) as nat);
        let c = spec_turn(spec_box_corner(b, n - 1), sin_theta, cos_theta);
        (
            Vec3::new(e.0.x.min(c.x), e.0.y.min(c.y), e.0.z.min(c.z)),
            Vec3::new(e.1.x.max(c.x), e.1.y.max(c.y), e.1.z.max(c.z)),
        )
    }
}

impl RotateY {
    /// The box of the eight corners of `b`, each turned about the y axis.
    pub open spec fn spec_turned_box(b: Aabb, sin_theta: Fixed, cos_theta: Fixed) -> Aabb {
        Aabb::spec_new_point(
            &spec_turned_extent(b, sin_theta, cos_theta, 8).0,
            &spec_turned_extent(b, sin_theta, cos_theta, 8).1,
        )
    }

    /// `p` turned about the y axis by `angle` degrees. The box is that of
    /// the eight corners of the box of `p`, each turned.
    pub fn new(p: Arc<Hittable>, angle: Fixed) -> (r: Self)
        ensures
            r.object == p,
            r.sin_theta == sin_cos(degrees_to_radians(angle)).0,
            r.cos_theta == sin_cos(degrees_to_radians(angle)).1,
            r.bbox == RotateY::spec_turned_box(p.spec_bounding_box(), r.sin_theta, r.cos_theta),
    {
        let radians = degrees_to_radians(angle);
        let sc = sin_cos(radians);
        let sin_theta = sc.0;
        let cos_theta = sc.1;
        let bbox = *p.bounding_box();
        let mut min = Vec3::new(Fixed::infinity(), Fixed::infinity(), Fixed::infinity());
        let mut max = Vec3::new(
            Fixed::neg_infinity(),
            Fixed::neg_infinity(),
            Fixed::neg_infinity(),
        );
        let mut n: usize = 0;
        while n < 8
            invariant
                n <= 8,
                (min, max) == spec_turned_extent(bbox, sin_theta, cos_theta, n as nat),
            decreases 8 - n,
        {
            let x = if n / 4 == 1 { bbox.x.max } else { bbox.x.min };
            let y = if (n / 2) % 2 == 1 { bbox.y.max } else { bbox.y.min };
            let z = if n % 2 == 1 { bbox.z.max } else { bbox.z.min };
            let tester = turn(Vec3::new(x, y, z), sin_theta, cos_theta);
            min = Vec3::new(min.x.min(tester.x), min.y.min(tester.y), min.z.min(tester.z));
            max = Vec3::new(max.x.max(tester.x), max.y.max(tester.y), max.z.max(tester.z));
            n += 1;
        }
        let bbox = Aabb::new_point(&min, &max);
        RotateY { object: p, sin_theta, cos_theta, bbox }
    }

    /// The ray as the surface sees it before it was turned.
    pub open spec fn spec_object_ray(&self, r: &Ray) -> Ray {
        Ray::new_time(
            spec_turn_back(r.orig, self.sin_theta, self.cos_theta),
            spec_turn_back(r.dir, self.sin_theta, self.cos_theta),
            r.tm,
        )
    }

    /// A hit on the surface before it was turned, carried to where it is.
    pub open spec fn spec_lift(&self, found: Option<HitRecord>) -> Option<HitRecord> {
        match found {
            None => None,
            Some(h) => Some(
                HitRecord {
                    p: spec_turn(h.p, self.sin_theta, self.cos_theta),
                    normal: spec_turn(h.normal, self.sin_theta, self.cos_theta),
                    ..h
                },
            ),
        }
    }

    /// No surface within draws random numbers when it is tested.
    pub open spec fn deterministic(&self) -> bool
        decreases self,
    {
        self.object.deterministic()
    }

    /// Every material within is non-negative.
    pub open spec fn non_negative(&self) -> bool
        decreases self,
    {
        self.object.non_negative()
    }

    /// The hit on the turned surface: the ray is turned back, tested against
    /// the surface, and the point and the normal of the hit turned forth.
    pub open spec fn spec_hit(&self, r: &Ray, ray_t: &Interval) -> Option<HitRecord>
        decreases self,
    {
        self.spec_lift(self.object.spec_hit(&self.spec_object_ray(r), ray_t))
    }

    /// Whether `res` can come out of [`RotateY::hit`]: it is what can come
    /// out of the surface for the ray turned back, carried to where the
    /// surface is.
    pub open spec fn can_hit(&self, r: &Ray, ray_t: &Interval, res: Option<HitRecord>) -> bool
        decreases self,
    {
        exists|inner: Option<HitRecord>|
            self.object.can_hit(&self.spec_object_ray(r), ray_t, inner) && res
                == #[trigger] self.spec_lift(inner)
    }

    /// The hit on the turned surface within `ray_t`.
    pub fn hit(&self, r: &Ray, ray_t: &Interval) -> (res: Option<HitRecord>)
        ensures
            self.can_hit(r, ray_t, res),
            self.deterministic() ==> res == self.spec_hit(r, ray_t),
            self.deterministic() ==> (res matches Some(h) ==> ray_t.contains(h.t)),
            res matches Some(h) ==> h.mat is Some,
            self.non_negative() ==> (res matches Some(h) ==> h.mat.unwrap().non_negative()),
        decreases self,
    {
        let origin = turn_back(r.origin(), self.sin_theta, self.cos_theta);
        let direction = turn_back(r.direction(), self.sin_theta, self.cos_theta);
        let rotated_r = Ray::new_time(origin, direction, r.time());
        let inner = self.object.hit(&rotated_r, ray_t);
        let ghost tested = inner;
        let res = match inner {
            None => None,
            Some(h) => {
                let mut rec = h;
                rec.p = turn(rec.p, self.sin_theta, self.cos_theta);
                rec.normal = turn(rec.normal, self.sin_theta, self.cos_theta);
                Some(rec)
            },
        };
        assert(self.object.can_hit(&self.spec_object_ray(r), ray_t, tested) && res
            == self.spec_lift(tested));
        res
    }

    pub fn bounding_box(&self) -> (b: &Aabb)
        ensures
            *b == self.bbox,
    {
        &self.bbox
    }
}

/// A surface of one of the kinds this library knows.
pub enum Hittable {
    Sphere(Sphere),
    Quad(Quad),
    List(HittableList),
    Bvh(BvhNode),
    Translate(Translate),
    RotateY(RotateY),
    Medium(ConstantMedium),
}

impl Hittable {
    /// Testing the surface draws no random numbers: there is no medium in it.
    pub open spec fn deterministic(&self) -> bool
        decreases self,
    {
        match self {
            Hittable::Sphere(_) => true,
            Hittable::Quad(_) => true,
            Hittable::List(l) => l.deterministic(),
            Hittable::Bvh(b) => b.deterministic(),
            Hittable::Translate(t) => t.deterministic(),
            Hittable::RotateY(y) => y.deterministic(),
            Hittable::Medium(_) => false,
        }
    }

    /// Every material in the surface is non-negative.
    pub open spec fn non_negative(&self) -> bool
        decreases self,
    {
        match self {
            Hittable::Sphere(s) => s.mat.non_negative(),
            Hittable::Quad(q) => q.mat.non_negative(),
            Hittable::List(l) => l.non_negative(),
            Hittable::Bvh(b) => b.non_negative(),
            Hittable::Translate(t) => t.non_negative(),
            Hittable::RotateY(y) => y.non_negative(),
            Hittable::Medium(m) => m.phase_function.non_negative(),
        }
    }

    /// The box that holds the surface.
    pub open spec fn spec_bounding_box(&self) -> Aabb
        decreases self,
    {
        match self {
            Hittable::Sphere(s) => s.bbox,
            Hittable::Quad(q) => q.bbox,
            Hittable::List(l) => l.bbox,
            Hittable::Bvh(b) => b.bbox,
            Hittable::Translate(t) => t.bbox,
            Hittable::RotateY(y) => y.bbox,
            Hittable::Medium(m) => m.boundary.spec_bounding_box(),
        }
    }

    /// The box that holds the surface.
    pub fn bounding_box(&self) -> (b: &Aabb)
        ensures
            *b == self.spec_bounding_box(),
        decreases self,
    {
        match self {
            Hittable::Sphere(s) => s.bounding_box(),
            Hittable::Quad(q) => q.bounding_box(),
            Hittable::List(l) => l.bounding_box(),
            Hittable::Bvh(b) => b.bounding_box(),
            Hittable::Translate(t) => t.bounding_box(),
            Hittable::RotateY(y) => y.bounding_box(),
            Hittable::Medium(m) => m.boundary.bounding_box(),
        }
    }

    /// The hit of the ray on the surface within `ray_t`, for a surface with
    /// no medium in it. (A medium scatters at random: see
    /// [`ConstantMedium::spec_scatter_point`].)
    pub open spec fn spec_hit(&self, r: &Ray, ray_t: &Interval) -> Option<HitRecord>
        decreases self,
    {
        match self {
            Hittable::Sphere(s) => s.spec_hit(r, ray_t),
            Hittable::Quad(q) => q.spec_hit(r, ray_t),
            Hittable::List(l) => l.spec_hit(r, ray_t),
            Hittable::Bvh(b) => b.spec_hit(r, ray_t),
            Hittable::Translate(t) => t.spec_hit(r, ray_t),
            Hittable::RotateY(y) => y.spec_hit(r, ray_t),
            Hittable::Medium(_) => None,
        }
    }

    /// Whether `res` can come out of [`Hittable::hit`]. For a sphere and a
    /// quad one outcome can; a medium scatters at a distance that a random
    /// unit sample decides, and every surface that holds a medium passes
    /// that on.
    pub open spec fn can_hit(&self, r: &Ray, ray_t: &Interval, res: Option<HitRecord>) -> bool
        decreases self,
    {
        match self {
            Hittable::Sphere(s) => res == s.spec_hit(r, ray_t),
            Hittable::Quad(q) => res == q.spec_hit(r, ray_t),
            Hittable::List(l) => l.can_hit(r, ray_t, res),
            Hittable::Bvh(b) => b.can_hit(r, ray_t, res),
            Hittable::Translate(t) => t.can_hit(r, ray_t, res),
            Hittable::RotateY(y) => y.can_hit(r, ray_t, res),
            Hittable::Medium(m) => m.can_hit(r, ray_t, res),
        }
    }

    /// The hit of the ray on the surface within `ray_t`: one of the outcomes
    /// that [`Hittable::can_hit`] states, and the one that
    /// [`Hittable::spec_hit`] states when there is no medium in the surface.
    /// Whatever the surface, a hit has a material.
    pub fn hit(&self, r: &Ray, ray_t: &Interval) -> (res: Option<HitRecord>)
        ensures
            self.can_hit(r, ray_t, res),
            self.deterministic() ==> res == self.spec_hit(r, ray_t),
            self.deterministic() ==> (res matches Some(h) ==> ray_t.contains(h.t)),
            res matches Some(h) ==> h.mat is Some,
            self.non_negative() ==> (res matches Some(h) ==> h.mat.unwrap().non_negative()),
        decreases self,
    {
        match self {
            Hittable::Sphere(s) => s.hit(r, ray_t),
            Hittable::Quad(q) => q.hit(r, ray_t),
            Hittable::List(l) => l.hit(r, ray_t),
            Hittable::Bvh(b) => b.hit(r, ray_t),
            Hittable::Translate(t) => t.hit(r, ray_t),
            Hittable::RotateY(y) => y.hit(r, ray_t),
            Hittable::Medium(m) => m.hit(r, ray_t),
        }
    }

    /// The density, per solid angle about `origin`, with which
    /// [`Hittable::random`] gives `direction`: that of the quad for a quad,
    /// zero for every other surface.
    pub open spec fn spec_pdf_value(&self, origin: Point3, direction: Vec3) -> Fixed {
        match self {
            Hittable::Quad(q) => q.spec_pdf_value(origin, direction),
            _ => Fixed::zero(),
        }
    }

    /// The density, per solid angle about `origin`, with which
    /// [`Hittable::random`] gives `direction`.
    pub fn pdf_value(&self, origin: Point3, direction: Vec3) -> (d: Fixed)
        ensures
            d == self.spec_pdf_value(origin, direction),
    {
        match self {
            Hittable::Quad(q) => q.pdf_value(origin, direction),
            _ => Fixed::zero(),
        }
    }

    /// A direction from `origin` toward the surface: toward a random point
    /// of a quad, and the x axis for every other surface.
    pub fn random(&self, origin: Point3) -> (d: Vec3)
        ensures
            !(self is Quad) ==> d == Vec3::from_ints(1, 0, 0),
            self matches Hittable::Quad(q) ==> exists|s1: Fixed, s2: Fixed|
                crate::rtweekend::is_unit_sample(s1) && crate::rtweekend::is_unit_sample(s2) && d
                    == q.spec_toward(origin, s1, s2),
    {
        match self {
            Hittable::Quad(q) => q.random(origin),
            _ => Vec3::from_ints(1, 0, 0),
        }
    }
}

/// A surface without a medium in it has one outcome: whatever testing it can
/// give is the hit that [`Hittable::spec_hit`] states.
pub proof fn lemma_one_outcome(h: &Hittable, r: &Ray, ray_t: &Interval, res: Option<HitRecord>)
    requires
        h.deterministic(),
        h.can_hit(r, ray_t, res),
    ensures
        res == h.spec_hit(r, ray_t),
    decreases h,
{
    match h {
        Hittable::Sphere(_) => {},
        Hittable::Quad(_) => {},
        Hittable::List(l) => {
            lemma_one_scan(l.objects@, r, ray_t, l.objects@.len(), res);
        },
        Hittable::Bvh(b) => {
            if b.bbox.spec_hit(r, *ray_t) {
                let (on_left, on_right) = choose|
                    on_left: Option<HitRecord>,
                    on_right: Option<HitRecord>,
                |
                    b.left.can_hit(r, ray_t, on_left) && b.right.can_hit(
                        r,
                        &crate::hittable_list::spec_narrowed(ray_t, on_left),
                        on_right,
                    ) && res == #[trigger] crate::hittable_list::spec_later(on_left, on_right);
                lemma_one_outcome(&b.left, r, ray_t, on_left);
                lemma_one_outcome(
                    &b.right,
                    r,
                    &crate::hittable_list::spec_narrowed(ray_t, on_left),
                    on_right,
                );
            }
        },
        Hittable::Translate(t) => {
            let inner = choose|inner: Option<HitRecord>|
                t.object.can_hit(&t.spec_object_ray(r), ray_t, inner) && res == #[trigger] t.spec_lift(
                    inner,
                );
            lemma_one_outcome(&t.object, &t.spec_object_ray(r), ray_t, inner);
        },
        Hittable::RotateY(y) => {
            let inner = choose|inner: Option<HitRecord>|
                y.object.can_hit(&y.spec_object_ray(r), ray_t, inner) && res == #[trigger] y.spec_lift(
                    inner,
                );
            lemma_one_outcome(&y.object, &y.spec_object_ray(r), ray_t, inner);
        },
        Hittable::Medium(_) => {},
    }
}

/// A scan of surfaces without a medium in them has one outcome.
pub proof fn lemma_one_scan(
    objects: Seq<Arc<Hittable>>,
    r: &Ray,
    ray_t: &Interval,
    n: nat,
    res: Option<HitRecord>,
)
    requires
        forall|i: int| 0 <= i < objects.len() ==> (#[trigger] objects[i]).deterministic(),
        HittableList::can_scan(objects, r, ray_t, n, res),
    ensures
        res == HittableList::scan(objects, r, ray_t, n),
    decreases objects, n,
{
    if n > 0 && n <= objects.len() {
        let (found, next) = choose|found: Option<HitRecord>, next: Option<HitRecord>|
            HittableList::can_scan(objects, r, ray_t, (n - 1) as nat, found) && objects[n
                - 1].can_hit(r, &crate::hittable_list::spec_narrowed(ray_t, found), next) && res
                == #[trigger] crate::hittable_list::spec_later(found, next);
        lemma_one_scan(objects, r, ray_t, (n - 1) as nat, found);
        lemma_one_outcome(
            &objects[n - 1],
            r,
            &crate::hittable_list::spec_narrowed(ray_t, found),
            next,
        );
    }
}

/// A turn by no angle has the sine zero and the cosine one.
pub proof fn lemma_no_turn()
    ensures
        sin_cos(degrees_to_radians(Fixed::spec_zero())) == (Fixed::spec_zero(), Fixed::spec_one()),
{
    let pi = Fixed::spec_pi();
    assert(0 * pi@ == 0) by (nonlinear_arith);
    assert(Fixed::spec_zero().spec_mul(pi)@ == 0);
    assert(0 * crate::fixed::ONE_RAW == 0) by (nonlinear_arith);
    assert(Fixed::spec_from_int(180)@ == 180 * 0x1_0000_0000);
    assert(degrees_to_radians(Fixed::spec_zero())@ == 0);
    assert(crate::trig::principal_angle(0) == 0);
}

/// Whether the components of a vector are stored as they read.
pub open spec fn in_normal_form(v: Vec3) -> bool {
    v.x.normal_form() && v.y.normal_form() && v.z.normal_form()
}

/// Turning a vector by no angle, forth or back, gives the vector.
pub proof fn lemma_turn_by_nothing(v: Vec3)
    requires
        in_normal_form(v),
    ensures
        spec_turn(v, Fixed::spec_zero(), Fixed::spec_one()) == v,
        spec_turn_back(v, Fixed::spec_zero(), Fixed::spec_one()) == v,
{
    reveal(spec_turn);
    reveal(spec_turn_back);
    vstd::arithmetic::div_mod::lemma_div_multiples_vanish(v.x@, crate::fixed::ONE_RAW as int);
    vstd::arithmetic::div_mod::lemma_div_multiples_vanish(-v.x@, crate::fixed::ONE_RAW as int);
    vstd::arithmetic::div_mod::lemma_div_multiples_vanish(v.z@, crate::fixed::ONE_RAW as int);
    vstd::arithmetic::div_mod::lemma_div_multiples_vanish(-v.z@, crate::fixed::ONE_RAW as int);
    assert(crate::fixed::ONE_RAW * v.x@ == v.x@ * crate::fixed::ONE_RAW) by (nonlinear_arith);
    assert(crate::fixed::ONE_RAW * v.z@ == v.z@ * crate::fixed::ONE_RAW) by (nonlinear_arith);
    assert(crate::fixed::ONE_RAW * (-v.x@) == (-v.x@) * crate::fixed::ONE_RAW) by (nonlinear_arith);
    assert(crate::fixed::ONE_RAW * (-v.z@) == (-v.z@) * crate::fixed::ONE_RAW) by (nonlinear_arith);
    assert(0 * v.x@ == 0 && 0 * v.z@ == 0) by (nonlinear_arith);
}

/// A turn by no angle gives the box back: the box of the eight corners of a
/// box, each turned by nothing, is that box, when its ends are stored as
/// they read and none of its extents is empty.
pub proof fn lemma_no_turn_keeps_the_box(b: Aabb)
    requires
        b.x.min.normal_form() && b.x.max.normal_form() && b.x.min@ <= b.x.max@,
        b.y.min.normal_form() && b.y.max.normal_form() && b.y.min@ <= b.y.max@,
        b.z.min.normal_form() && b.z.max.normal_form() && b.z.min@ <= b.z.max@,
    ensures
        RotateY::spec_turned_box(b, Fixed::spec_zero(), Fixed::spec_one()) == b,
{
    reveal_with_fuel(spec_turned_extent, 9);
    lemma_turn_by_nothing(spec_box_corner(b, 0));
    lemma_turn_by_nothing(spec_box_corner(b, 1));
    lemma_turn_by_nothing(spec_box_corner(b, 2));
    lemma_turn_by_nothing(spec_box_corner(b, 3));
    lemma_turn_by_nothing(spec_box_corner(b, 4));
    lemma_turn_by_nothing(spec_box_corner(b, 5));
    lemma_turn_by_nothing(spec_box_corner(b, 6));
    lemma_turn_by_nothing(spec_box_corner(b, 7));
}

/// A surface turned by no angle is hit as the surface is: the ray is handed
/// on as it is, and a hit comes back as it is, when the components of the
/// ray and of the hit are stored as they read.
pub proof fn lemma_no_turn_keeps_the_hit(y: &RotateY, r: &Ray, found: Option<HitRecord>)
    requires
        y.sin_theta == Fixed::spec_zero(),
        y.cos_theta == Fixed::spec_one(),
        in_normal_form(r.orig),
        in_normal_form(r.dir),
        found matches Some(h) ==> in_normal_form(h.p) && in_normal_form(h.normal),
    ensures
        y.spec_object_ray(r) == *r,
        y.spec_lift(found) == found,
{
    lemma_turn_by_nothing(r.orig);
    lemma_turn_by_nothing(r.dir);
    match found {
        Some(h) => {
            lemma_turn_by_nothing(h.p);
            lemma_turn_by_nothing(h.normal);
        },
        None => {},
    }
}

} // verus!
