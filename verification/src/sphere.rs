//! Spheres, at rest or moving in a straight line during the exposure.
use vstd::prelude::*;
use std::sync::Arc;
use crate::aabb::Aabb;
use crate::fixed::Fixed;
use crate::hittable::{HitRecord, share};
use crate::interval::Interval;
use crate::material::Material;
use crate::ray::Ray;
use crate::trig::{acos_turns, atan2_turns};
use crate::vec3::{Point3, Vec3, dot};

verus! {

/// A sphere whose centre moves along `center` as the ray time runs from zero
/// to one; a sphere at rest has a centre ray of zero direction.
#[derive(Clone)]
pub struct Sphere {
    pub center: Ray,
    pub radius: Fixed,
    pub mat: Arc<Material>,
    pub bbox: Aabb,
}

impl Sphere {
    /// The box about the sphere of radius `radius` at `center`.
    pub open spec fn spec_box_about(center: Point3, radius: Fixed) -> Aabb {
        Aabb::spec_new_point(
            &center.sub(Vec3::new(radius, radius, radius)),
            &center.add(Vec3::new(radius, radius, radius)),
        )
    }

    fn box_about(center: Point3, radius: Fixed) -> (b: Aabb)
        ensures
            b == Sphere::spec_box_about(center, radius),
    {
        let rvec = Vec3::new(radius, radius, radius);
        Aabb::new_point(&center.sub(rvec), &center.add(rvec))
    }

    /// A sphere at rest. A negative radius counts as zero.
    pub fn new(static_center: Point3, radius: Fixed, mat: Arc<Material>) -> (s: Self)
        ensures
            s.center == Ray::new(static_center, Vec3::zero()),
            s.radius == radius.max(Fixed::zero()),
            s.mat == mat,
            s.bbox == Sphere::spec_box_about(static_center, radius.max(Fixed::zero())),
    {
        let radius = radius.max(Fixed::zero());
        let bbox = Sphere::box_about(static_center, radius);
        Sphere { center: Ray::new(static_center, Vec3::zero()), radius, mat, bbox }
    }

    /// A sphere that moves from `center1` at time zero to `center2` at time
    /// one. A negative radius counts as zero. Its box holds both ends.
    pub fn new_move(center1: Point3, center2: Point3, radius: Fixed, mat: Arc<Material>) -> (s:
        Self)
        ensures
            s.center == Ray::new(center1, center2.sub(center1)),
            s.radius == radius.max(Fixed::zero()),
            s.mat == mat,
            s.bbox == Aabb::spec_new_aabb(
                &Sphere::spec_box_about(s.center.at(Fixed::zero()), s.radius),
                &Sphere::spec_box_about(s.center.at(Fixed::one()), s.radius),
            ),
    {
        let radius = radius.max(Fixed::zero());
        let center = Ray::new(center1, center2.sub(center1));
        let box1 = Sphere::box_about(center.at(Fixed::zero()), radius);
        let box2 = Sphere::box_about(center.at(Fixed::one()), radius);
        Sphere { center, radius, mat, bbox: Aabb::new_aabb(&box1, &box2) }
    }

    /// Surface coordinates of a point of the unit sphere: `u` is the angle
    /// about the y axis from `x = -1`, as a part of a whole turn, and `v` is
    /// the angle up from `y = -1`, as a part of a half turn. Both angles are
    /// measured in turns, so that they are exact at the axes.
    pub open spec fn spec_get_sphere_uv(p: Point3) -> (Fixed, Fixed) {
        (
            atan2_turns(p.z.neg(), p.x).add(Fixed::half()),
            acos_turns(p.y.neg()).add(acos_turns(p.y.neg())),
        )
    }

    /// Surface coordinates of a point of the unit sphere.
    #[verifier::when_used_as_spec(spec_get_sphere_uv)]
    pub fn get_sphere_uv(p: Point3) -> (uv: (Fixed, Fixed))
        ensures
            uv == Sphere::spec_get_sphere_uv(p),
    {
        let theta = acos_turns(p.y().neg());
        let phi = atan2_turns(p.z().neg(), p.x());
        (phi.add(Fixed::half()), theta.add(theta))
    }

    /// At the six points where the axes meet the unit sphere the surface
    /// coordinates are exact.
    pub proof fn lemma_uv_at_the_axes()
        ensures
            Sphere::spec_get_sphere_uv(Vec3::spec_from_ints(1, 0, 0)) == (
                Fixed::spec_half(),
                Fixed::spec_half(),
            ),
            Sphere::spec_get_sphere_uv(Vec3::spec_from_ints(0, 0, 1)) == (
                Fixed::of(0x4000_0000),
                Fixed::spec_half(),
            ),
            Sphere::spec_get_sphere_uv(Vec3::spec_from_ints(0, 0, -1i32)) == (
                Fixed::of(0xC000_0000),
                Fixed::spec_half(),
            ),
            Sphere::spec_get_sphere_uv(Vec3::spec_from_ints(-1i32, 0, 0)).1 == Fixed::spec_half(),
            Sphere::spec_get_sphere_uv(Vec3::spec_from_ints(0, 1, 0)).1 == Fixed::spec_one(),
            Sphere::spec_get_sphere_uv(Vec3::spec_from_ints(0, -1i32, 0)).1 == Fixed::spec_zero(),
    {
    }

    /// The centre at the time of the ray.
    pub open spec fn spec_center_at(&self, r: &Ray) -> Point3 {
        self.center.at(r.tm)
    }

    /// The two ray parameters at which the ray meets the sphere, the smaller
    /// first: the roots `(h -+ sqrt(h^2 - a c)) / a` of `|O + t D - C|^2 = r^2`
    /// with `a = D.D`, `h = D.(C - O)` and `c = |C - O|^2 - r^2`. None when
    /// the discriminant is negative or the direction has no length.
    #[verifier::opaque]
    pub open spec fn spec_roots(&self, r: &Ray) -> Option<(Fixed, Fixed)> {
        let oc = self.spec_center_at(r).sub(r.orig);
        let a = r.dir.length_squared();
        let h = dot(r.dir, oc);
        let c = oc.length_squared().sub(self.radius.mul(self.radius));
        if a@ == 0 || h@ * h@ - a@ * c@ < 0 {
            None
        } else {
            let sqrtd = Fixed::spec_sqrt_wide(h@ * h@ - a@ * c@);
            Some((h.sub(sqrtd).div(a), h.add(sqrtd).div(a)))
        }
    }

    /// The ray parameter of the hit within `ray_t`: the smaller root when it
    /// lies strictly inside the range, else the larger when that one does.
    pub open spec fn spec_root(&self, r: &Ray, ray_t: &Interval) -> Option<Fixed> {
        match self.spec_roots(r) {
            None => None,
            Some(roots) => if ray_t.surrounds(roots.0) {
                Some(roots.0)
            } else if ray_t.surrounds(roots.1) {
                Some(roots.1)
            } else {
                None
            },
        }
    }

    /// The record of the hit at ray parameter `t`.
    #[verifier::opaque]
    pub open spec fn spec_record(&self, r: &Ray, t: Fixed) -> HitRecord {
        let p = r.at(t);
        let outward_normal = p.sub(self.spec_center_at(r)).div(self.radius);
        let uv = Sphere::spec_get_sphere_uv(outward_normal);
        HitRecord {
            p,
            normal: outward_normal,
            t,
            u: uv.0,
            v: uv.1,
            front_face: false,
            mat: Some(self.mat),
        }.spec_set_face_normal(r, outward_normal)
    }

    /// The nearest hit of the ray on the sphere strictly inside `ray_t`.
    pub open spec fn spec_hit(&self, r: &Ray, ray_t: &Interval) -> Option<HitRecord> {
        match self.spec_root(r, ray_t) {
            None => None,
            Some(t) => Some(self.spec_record(r, t)),
        }
    }

    /// The nearest hit of the ray on the sphere strictly inside `ray_t`.
    pub fn hit(&self, r: &Ray, ray_t: &Interval) -> (res: Option<HitRecord>)
        ensures
            res == self.spec_hit(r, ray_t),
            res matches Some(h) ==> h.mat == Some(self.mat) && ray_t.surrounds(h.t),
    {
        reveal(Sphere::spec_roots);
        reveal(Sphere::spec_record);
        let current_center = self.center.at(r.time());
        let oc = current_center.sub(r.origin());
        let a = r.direction().length_squared();
        let h = dot(r.direction(), oc);
        let c = oc.length_squared().sub(self.radius.mul(self.radius));
        if a.same(Fixed::zero()) {
            return None;
        }
        let discriminant: i128 = h.wide_mul(h) - a.wide_mul(c);
        if discriminant < 0 {
            return None;
        }
        let sqrtd = Fixed::sqrt_wide(discriminant);
        let mut root = h.sub(sqrtd).div(a);
        if !ray_t.surrounds(root) {
            root = h.add(sqrtd).div(a);
            if !ray_t.surrounds(root) {
                return None;
            }
        }
        let p = r.at(root);
        let outward_normal = p.sub(current_center).div(self.radius);
        let uv = Sphere::get_sphere_uv(outward_normal);
        let mut rec = HitRecord {
            p,
            normal: outward_normal,
            t: root,
            u: uv.0,
            v: uv.1,
            front_face: false,
            mat: Some(share(&self.mat)),
        };
        rec.set_face_normal(r, outward_normal);
        Some(rec)
    }

    pub fn bounding_box(&self) -> (b: &Aabb)
        ensures
            *b == self.bbox,
    {
        &self.bbox
    }
}

/// Of the two ray parameters at which a ray meets a sphere, the first is
/// not above the second.
pub proof fn lemma_sphere_roots_ordered(s: &Sphere, r: &Ray)
    ensures
        s.spec_roots(r) matches Some(roots) ==> roots.0@ <= roots.1@,
{
    reveal(Sphere::spec_roots);
    let oc = s.spec_center_at(r).sub(r.orig);
    let a = r.dir.length_squared();
    let h = dot(r.dir, oc);
    let c = oc.length_squared().sub(s.radius.mul(s.radius));
    if s.spec_roots(r) is Some {
        let w = h@ * h@ - a@ * c@;
        let sqrtd = Fixed::spec_sqrt_wide(w);
        assert(sqrtd@ >= 0) by {
            if w > 0 {
                crate::fixed::lemma_isqrt_exists(w);
            }
        }
        crate::vec3::lemma_length_squared_sign(r.dir);
        crate::fixed::lemma_div_monotone(h.sub(sqrtd), h.add(sqrtd), a);
    }
}

/// The record of a hit on a sphere states the ray parameter of the hit.
pub proof fn lemma_sphere_record_t(s: &Sphere, r: &Ray, t: Fixed)
    ensures
        s.spec_record(r, t).t == t,
{
    reveal(Sphere::spec_record);
}

} // verus!
