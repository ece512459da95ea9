//! Planar quadrilaterals, and boxes made of six of them.
use vstd::prelude::*;
use std::sync::Arc;
use crate::aabb::Aabb;
use crate::fixed::Fixed;
use crate::hittable::{HitRecord, Hittable, share};
use crate::hittable_list::HittableList;
use crate::interval::Interval;
use crate::material::Material;
use crate::ray::Ray;
use crate::rtweekend::{random_double, is_unit_sample};
use crate::vec3::{Point3, Vec3, cross, dot, unit_vector};

verus! {

/// The parallelogram with corner `q` and edges `u` and `v`.
#[derive(Clone)]
pub struct Quad {
    pub q: Point3,
    pub u: Vec3,
    pub v: Vec3,
    pub mat: Arc<Material>,
    pub bbox: Aabb,
    /// The unit normal of the plane, `u` cross `v` at unit length.
    pub normal: Vec3,
    /// The plane is the set of points `p` with `normal . p = d`.
    pub d: Fixed,
    /// The area, the length of `u` cross `v`.
    pub area: Fixed,
}

impl Quad {
    /// The box of the four corners. It has no thickness where the quad lies
    /// in a plane of an axis.
    pub open spec fn spec_bbox(q: Point3, u: Vec3, v: Vec3) -> Aabb {
        Aabb::spec_new_aabb(
            &Aabb::spec_new_point(&q, &q.add(u).add(v)),
            &Aabb::spec_new_point(&q.add(u), &q.add(v)),
        )
    }

    #[verifier::opaque]
    pub open spec fn spec_new(q: Point3, u: Vec3, v: Vec3, mat: Arc<Material>) -> Quad {
        Quad {
            q,
            u,
            v,
            mat,
            bbox: Quad::spec_bbox(q, u, v),
            normal: unit_vector(cross(u, v)),
            d: dot(unit_vector(cross(u, v)), q),
            area: cross(u, v).length(),
        }
    }

    /// The parallelogram with corner `q` and edges `u` and `v`. Its box is
    /// that of the four corners.
    pub fn new(q: Point3, u: Vec3, v: Vec3, mat: Arc<Material>) -> (r: Self)
        ensures
            r == Quad::spec_new(q, u, v, mat),
    {
        reveal(Quad::spec_new);
        let bbox_diagonal1 = Aabb::new_point(&q, &q.add(u).add(v));
        let bbox_diagonal2 = Aabb::new_point(&q.add(u), &q.add(v));
        let bbox = Aabb::new_aabb(&bbox_diagonal1, &bbox_diagonal2);
        let n = cross(u, v);
        let normal = unit_vector(n);
        let d = dot(normal, q);
        let area = n.length();
        Quad { q, u, v, mat, bbox, normal, d, area }
    }

    /// Whether plane coordinates `(a, b)` lie in the unit square, edges
    /// included.
    pub open spec fn spec_interior(a: Fixed, b: Fixed) -> bool {
        Interval::new(Fixed::zero(), Fixed::one()).contains(a) && Interval::new(
            Fixed::zero(),
            Fixed::one(),
        ).contains(b)
    }

    /// Whether plane coordinates `(a, b)` lie in the unit square, edges
    /// included; if so they become the surface coordinates of the record.
    pub fn is_interior(&self, a: Fixed, b: Fixed, rec: &mut HitRecord) -> (inside: bool)
        ensures
            inside == Quad::spec_interior(a, b),
            inside ==> *final(rec) == (HitRecord { u: a, v: b, ..*old(rec) }),
            !inside ==> *final(rec) == *old(rec),
    {
        let unit_interval = Interval::new(Fixed::zero(), Fixed::one());
        if !unit_interval.contains(a) || !unit_interval.contains(b) {
            return false;
        }
        rec.u = a;
        rec.v = b;
        true
    }

    /// Rays whose direction has a smaller share than this along the normal
    /// count as parallel to the plane: `1 / 100000000`.
    pub open spec fn spec_parallel_limit() -> Fixed {
        Fixed::from_ratio(1, 100000000)
    }

    /// The ray parameter at which the ray meets the plane of the quad; none
    /// for a ray that is parallel to the plane, or nearly so.
    #[verifier::opaque]
    pub open spec fn spec_plane_t(&self, r: &Ray) -> Option<Fixed> {
        let denom = dot(self.normal, r.dir);
        if denom.abs()@ < Quad::spec_parallel_limit()@ {
            None
        } else {
            Some(self.d.sub(dot(self.normal, r.orig)).div(denom))
        }
    }

    /// The coordinate of the plane point `p` along the edge `u`, in units of
    /// that edge.
    #[verifier::opaque]
    pub open spec fn spec_alpha(&self, p: Point3) -> Fixed {
        dot(self.normal, cross(p.sub(self.q), self.v)).div(self.area)
    }

    /// The coordinate of the plane point `p` along the edge `v`, in units of
    /// that edge.
    #[verifier::opaque]
    pub open spec fn spec_beta(&self, p: Point3) -> Fixed {
        dot(self.normal, cross(self.u, p.sub(self.q))).div(self.area)
    }

    /// The record of the hit at ray parameter `t`.
    #[verifier::opaque]
    pub open spec fn spec_record(&self, r: &Ray, t: Fixed) -> HitRecord {
        HitRecord {
            p: r.at(t),
            normal: self.normal,
            t,
            u: self.spec_alpha(r.at(t)),
            v: self.spec_beta(r.at(t)),
            front_face: false,
            mat: Some(self.mat),
        }.spec_set_face_normal(r, self.normal)
    }

    /// The hit of the ray on the quad: where the ray meets the plane, when
    /// that is within `ray_t`, ends included, and within the unit square of
    /// the two edges.
    pub open spec fn spec_hit(&self, r: &Ray, ray_t: &Interval) -> Option<HitRecord> {
        match self.spec_plane_t(r) {
            None => None,
            Some(t) => if ray_t.contains(t) && Quad::spec_interior(
                self.spec_alpha(r.at(t)),
                self.spec_beta(r.at(t)),
            ) {
                Some(self.spec_record(r, t))
            } else {
                None
            },
        }
    }

    /// The hit of the ray on the quad within `ray_t`, ends included.
    pub fn hit(&self, r: &Ray, ray_t: &Interval) -> (res: Option<HitRecord>)
        ensures
            res == self.spec_hit(r, ray_t),
            res matches Some(h) ==> h.mat == Some(self.mat) && ray_t.contains(h.t),
    {
        reveal(Quad::spec_plane_t);
        reveal(Quad::spec_alpha);
        reveal(Quad::spec_beta);
        reveal(Quad::spec_record);
        let denom = dot(self.normal, r.direction());
        if denom.abs().lt(Fixed::from_ratio(1, 100000000)) {
            return None;
        }
        let t = self.d.sub(dot(self.normal, r.origin())).div(denom);
        if !ray_t.contains(t) {
            return None;
        }
        let intersection = r.at(t);
        let planar_hitpt_vector = intersection.sub(self.q);
        let alpha = dot(self.normal, cross(planar_hitpt_vector, self.v)).div(self.area);
        let beta = dot(self.normal, cross(self.u, planar_hitpt_vector)).div(self.area);
        let mut rec = HitRecord {
            p: intersection,
            normal: self.normal,
            t,
            u: Fixed::zero(),
            v: Fixed::zero(),
            front_face: false,
            mat: Some(share(&self.mat)),
        };
        if !self.is_interior(alpha, beta, &mut rec) {
            return None;
        }
        rec.set_face_normal(r, self.normal);
        Some(rec)
    }

    pub fn bounding_box(&self) -> (b: &Aabb)
        ensures
            *b == self.bbox,
    {
        &self.bbox
    }

    /// The range in which a ray toward the quad is tested: from `1 / 10000`
    /// on, without end.
    pub open spec fn spec_sampling_range() -> Interval {
        Interval { min: Fixed::from_ratio(1, 10000), max: Fixed::infinity() }
    }

    /// The density, per solid angle about `origin`, with which
    /// [`Quad::random`] gives `direction`: zero when the ray misses the quad,
    /// else `distance^2 / (|cosine| * area)`, with the distance to the hit
    /// and the cosine of the angle between the ray and the normal.
    #[verifier::opaque]
    pub open spec fn spec_pdf_value(&self, origin: Point3, direction: Vec3) -> Fixed {
        match self.spec_hit(&Ray::new(origin, direction), &Quad::spec_sampling_range()) {
            None => Fixed::zero(),
            Some(rec) => {
                let distance_squared = rec.t.mul(rec.t).mul(direction.length_squared());
                let cosine = dot(direction, rec.normal).div(direction.length()).abs();
                distance_squared.div(cosine.mul(self.area))
            },
        }
    }

    /// The density, per solid angle about `origin`, with which
    /// [`Quad::random`] gives `direction`.
    pub fn pdf_value(&self, origin: Point3, direction: Vec3) -> (d: Fixed)
        ensures
            d == self.spec_pdf_value(origin, direction),
    {
        reveal(Quad::spec_pdf_value);
        let r = Ray::new(origin, direction);
        let range = Interval::new(Fixed::from_ratio(1, 10000), Fixed::infinity());
        match self.hit(&r, &range) {
            None => Fixed::zero(),
            Some(rec) => {
                let distance_squared = rec.t.mul(rec.t).mul(direction.length_squared());
                let cosine = dot(direction, rec.normal).div(direction.length()).abs();
                distance_squared.div(cosine.mul(self.area))
            },
        }
    }

    /// The direction from `origin` to the point of the quad with plane
    /// coordinates `(s1, s2)`.
    pub open spec fn spec_toward(&self, origin: Point3, s1: Fixed, s2: Fixed) -> Vec3 {
        self.q.add(self.u.scale(s1)).add(self.v.scale(s2)).sub(origin)
    }

    /// The direction from `origin` to the point of the quad with plane
    /// coordinates `(s1, s2)`.
    #[verifier::when_used_as_spec(spec_toward)]
    pub fn toward(&self, origin: Point3, s1: Fixed, s2: Fixed) -> (d: Vec3)
        ensures
            d == self.spec_toward(origin, s1, s2),
    {
        self.q.add(self.u.scale(s1)).add(self.v.scale(s2)).sub(origin)
    }

    /// The direction from `origin` to a random point of the quad.
    pub fn random(&self, origin: Point3) -> (d: Vec3)
        ensures
            exists|s1: Fixed, s2: Fixed|
                is_unit_sample(s1) && is_unit_sample(s2) && d == self.spec_toward(origin, s1, s2),
    {
        let s1 = random_double();
        let s2 = random_double();
        self.toward(origin, s1, s2)
    }
}

/// The corner of least coordinates of the box with opposite corners `a`
/// and `b`.
pub open spec fn spec_box_min(a: Point3, b: Point3) -> Point3 {
    Vec3 { x: a.x.min(b.x), y: a.y.min(b.y), z: a.z.min(b.z) }
}

/// The corner of greatest coordinates of the box with opposite corners `a`
/// and `b`.
pub open spec fn spec_box_max(a: Point3, b: Point3) -> Point3 {
    Vec3 { x: a.x.max(b.x), y: a.y.max(b.y), z: a.z.max(b.z) }
}

/// The side `k` of the box with opposite corners `a` and `b`: front,
/// right, back, left, top and bottom, for `k` from 0 to 5.
#[verifier::opaque]
pub open spec fn spec_box_side(a: Point3, b: Point3, mat: Arc<Material>, k: int) -> Quad {
    let min = spec_box_min(a, b);
    let max = spec_box_max(a, b);
    let dx = Vec3::new(max.x.sub(min.x), Fixed::zero(), Fixed::zero());
    let dy = Vec3::new(Fixed::zero(), max.y.sub(min.y), Fixed::zero());
    let dz = Vec3::new(Fixed::zero(), Fixed::zero(), max.z.sub(min.z));
    if k == 0 {
        Quad::spec_new(Vec3::new(min.x, min.y, max.z), dx, dy, mat)
    } else if k == 1 {
        Quad::spec_new(Vec3::new(max.x, min.y, max.z), dz.neg(), dy, mat)
    } else if k == 2 {
        Quad::spec_new(Vec3::new(max.x, min.y, min.z), dx.neg(), dy, mat)
    } else if k == 3 {
        Quad::spec_new(Vec3::new(min.x, min.y, min.z), dz, dy, mat)
    } else if k == 4 {
        Quad::spec_new(Vec3::new(min.x, max.y, max.z), dx, dz.neg(), mat)
    } else {
        Quad::spec_new(Vec3::new(min.x, min.y, min.z), dx, dz, mat)
    }
}

/// The side `k` of the box with opposite corners `a` and `b`.
fn box_side(a: Point3, b: Point3, mat: &Arc<Material>, k: usize) -> (side: Arc<Hittable>)
    ensures
        *side == Hittable::Quad(spec_box_side(a, b, *mat, k as int)),
{
    reveal(spec_box_side);
    let min = Vec3::new(a.x().min(b.x()), a.y().min(b.y()), a.z().min(b.z()));
    let max = Vec3::new(a.x().max(b.x()), a.y().max(b.y()), a.z().max(b.z()));
    let dx = Vec3::new(max.x().sub(min.x()), Fixed::zero(), Fixed::zero());
    let dy = Vec3::new(Fixed::zero(), max.y().sub(min.y()), Fixed::zero());
    let dz = Vec3::new(Fixed::zero(), Fixed::zero(), max.z().sub(min.z()));
    let quad = if k == 0 {
        Quad::new(Vec3::new(min.x(), min.y(), max.z()), dx, dy, share(mat))
    } else if k == 1 {
        Quad::new(Vec3::new(max.x(), min.y(), max.z()), dz.neg(), dy, share(mat))
    } else if k == 2 {
        Quad::new(Vec3::new(max.x(), min.y(), min.z()), dx.neg(), dy, share(mat))
    } else if k == 3 {
        Quad::new(Vec3::new(min.x(), min.y(), min.z()), dz, dy, share(mat))
    } else if k == 4 {
        Quad::new(Vec3::new(min.x(), max.y(), max.z()), dx, dz.neg(), share(mat))
    } else {
        Quad::new(Vec3::new(min.x(), min.y(), min.z()), dx, dz, share(mat))
    };
    Arc::new(Hittable::Quad(quad))
}

/// Whether `sides` holds the six sides of the box with opposite corners `a`
/// and `b`, in the order front, right, back, left, top and bottom, and the
/// box of them all.
pub open spec fn is_box_of(sides: &HittableList, a: Point3, b: Point3, mat: Arc<Material>) -> bool {
    &&& sides.objects@.len() == 6
    &&& forall|k: int|
        0 <= k < 6 ==> *(#[trigger] sides.objects@[k]) == Hittable::Quad(
            spec_box_side(a, b, mat, k),
        )
    &&& sides.bbox == HittableList::spec_bbox_of(sides.objects@, 6)
}

/// Whether the box `b` spans exactly from `lo` to `hi` on every axis.
pub open spec fn spans(b: Aabb, lo: Point3, hi: Point3) -> bool {
    &&& b.x.min@ == lo.x@ && b.x.max@ == hi.x@
    &&& b.y.min@ == lo.y@ && b.y.max@ == hi.y@
    &&& b.z.min@ == lo.z@ && b.z.max@ == hi.z@
}

/// Whether the sides of the box between `a` and `b` are within the range of
/// numbers: no side is longer than the greatest number.
pub open spec fn box_fits(a: Point3, b: Point3) -> bool {
    &&& spec_box_max(a, b).x@ - spec_box_min(a, b).x@ <= crate::fixed::LIMIT_RAW
    &&& spec_box_max(a, b).y@ - spec_box_min(a, b).y@ <= crate::fixed::LIMIT_RAW
    &&& spec_box_max(a, b).z@ - spec_box_min(a, b).z@ <= crate::fixed::LIMIT_RAW
}

/// The box of each side of a box lies on the box: the front spans it on x
/// and y at its far z, the right side spans it on y and z at its far x, and
/// no side reaches beyond it.
pub proof fn lemma_side_box(a: Point3, b: Point3, mat: Arc<Material>, k: int)
    requires
        0 <= k < 6,
        box_fits(a, b),
    ensures
        spec_box_min(a, b).x@ <= spec_box_side(a, b, mat, k).bbox.x.min@,
        spec_box_side(a, b, mat, k).bbox.x.max@ <= spec_box_max(a, b).x@,
        spec_box_min(a, b).y@ <= spec_box_side(a, b, mat, k).bbox.y.min@,
        spec_box_side(a, b, mat, k).bbox.y.max@ <= spec_box_max(a, b).y@,
        spec_box_min(a, b).z@ <= spec_box_side(a, b, mat, k).bbox.z.min@,
        spec_box_side(a, b, mat, k).bbox.z.max@ <= spec_box_max(a, b).z@,
        k == 0 ==> spec_box_side(a, b, mat, k).bbox.x.min@ == spec_box_min(a, b).x@
            && spec_box_side(a, b, mat, k).bbox.x.max@ == spec_box_max(a, b).x@
            && spec_box_side(a, b, mat, k).bbox.y.min@ == spec_box_min(a, b).y@
            && spec_box_side(a, b, mat, k).bbox.y.max@ == spec_box_max(a, b).y@,
        k == 1 ==> spec_box_side(a, b, mat, k).bbox.z.min@ == spec_box_min(a, b).z@
            && spec_box_side(a, b, mat, k).bbox.z.max@ == spec_box_max(a, b).z@,
{
    reveal(spec_box_side);
    let min = spec_box_min(a, b);
    let max = spec_box_max(a, b);
    let zero = Fixed::zero();
    let wx = max.x.sub(min.x);
    let wy = max.y.sub(min.y);
    let wz = max.z.sub(min.z);
    if k == 0 {
        lemma_quad_box(Vec3::new(min.x, min.y, max.z), Vec3::new(wx, zero, zero), Vec3::new(zero, wy, zero), mat);
        lemma_rect_axis(min.x, max.x, min.x, wx, zero);
        lemma_rect_axis(min.y, max.y, min.y, zero, wy);
        lemma_rect_axis(min.z, max.z, max.z, zero, zero);
    } else if k == 1 {
        lemma_quad_box(Vec3::new(max.x, min.y, max.z), Vec3::new(zero, zero, wz).neg(), Vec3::new(zero, wy, zero), mat);
        lemma_rect_axis(min.x, max.x, max.x, zero.neg(), zero);
        lemma_rect_axis(min.y, max.y, min.y, zero.neg(), wy);
        lemma_rect_axis(min.z, max.z, max.z, wz.neg(), zero);
    } else if k == 2 {
        lemma_quad_box(Vec3::new(max.x, min.y, min.z), Vec3::new(wx, zero, zero).neg(), Vec3::new(zero, wy, zero), mat);
        lemma_rect_axis(min.x, max.x, max.x, wx.neg(), zero);
        lemma_rect_axis(min.y, max.y, min.y, zero.neg(), wy);
        lemma_rect_axis(min.z, max.z, min.z, zero.neg(), zero);
    } else if k == 3 {
        lemma_quad_box(Vec3::new(min.x, min.y, min.z), Vec3::new(zero, zero, wz), Vec3::new(zero, wy, zero), mat);
        lemma_rect_axis(min.x, max.x, min.x, zero, zero);
        lemma_rect_axis(min.y, max.y, min.y, zero, wy);
        lemma_rect_axis(min.z, max.z, min.z, wz, zero);
    } else if k == 4 {
        lemma_quad_box(Vec3::new(min.x, max.y, max.z), Vec3::new(wx, zero, zero), Vec3::new(zero, zero, wz).neg(), mat);
        lemma_rect_axis(min.x, max.x, min.x, wx, zero.neg());
        lemma_rect_axis(min.y, max.y, max.y, zero, zero.neg());
        lemma_rect_axis(min.z, max.z, max.z, zero, wz.neg());
    } else {
        lemma_quad_box(Vec3::new(min.x, min.y, min.z), Vec3::new(wx, zero, zero), Vec3::new(zero, zero, wz), mat);
        lemma_rect_axis(min.x, max.x, min.x, wx, zero);
        lemma_rect_axis(min.y, max.y, min.y, zero, zero);
        lemma_rect_axis(min.z, max.z, min.z, zero, wz);
    }
}

/// The extent on one axis of the box of the four corners of a quad with
/// corner coordinate `q` and edge components `u` and `v`.
pub open spec fn rect_axis(q: Fixed, u: Fixed, v: Fixed) -> Interval {
    Interval::spec_new_interval(
        Interval { min: q.min(q.add(u).add(v)), max: q.max(q.add(u).add(v)) },
        Interval { min: q.add(u).min(q.add(v)), max: q.add(u).max(q.add(v)) },
    )
}

/// On an axis along which at most one edge of a quad runs, from one end of
/// a range to the other, the box of the quad spans that range; where no edge
/// runs along the axis it has no thickness.
pub proof fn lemma_rect_axis(lo: Fixed, hi: Fixed, q: Fixed, u: Fixed, v: Fixed)
    requires
        lo@ <= hi@,
        hi@ - lo@ <= crate::fixed::LIMIT_RAW,
        q@ == lo@ || q@ == hi@,
        u@ == 0 || v@ == 0,
        u@ == 0 || (q@ == lo@ && u@ == hi@ - lo@) || (q@ == hi@ && u@ == lo@ - hi@),
        v@ == 0 || (q@ == lo@ && v@ == hi@ - lo@) || (q@ == hi@ && v@ == lo@ - hi@),
    ensures
        u@ == 0 && v@ == 0 ==> rect_axis(q, u, v).min@ == q@ && rect_axis(q, u, v).max@ == q@,
        u@ != 0 || v@ != 0 ==> rect_axis(q, u, v).min@ == lo@ && rect_axis(q, u, v).max@ == hi@,
{
}

/// The box of a quad is the box of its four corners, axis by axis.
pub proof fn lemma_quad_box(q: Point3, u: Vec3, v: Vec3, mat: Arc<Material>)
    ensures
        Quad::spec_new(q, u, v, mat).bbox == Quad::spec_bbox(q, u, v),
        Quad::spec_bbox(q, u, v).x == rect_axis(q.x, u.x, v.x),
        Quad::spec_bbox(q, u, v).y == rect_axis(q.y, u.y, v.y),
        Quad::spec_bbox(q, u, v).z == rect_axis(q.z, u.z, v.z),
{
    reveal(Quad::spec_new);
}

/// The box with opposite corners `a` and `b`: a list of its six sides,
/// front, right, back, left, top and bottom. Its box spans exactly from the
/// least to the greatest coordinates of `a` and `b`.
pub fn box_(a: Point3, b: Point3, mat: Arc<Material>) -> (r: Arc<Hittable>)
    ensures
        *r matches Hittable::List(sides) && is_box_of(&sides, a, b, mat),
        box_fits(a, b) ==> spans(r.spec_bounding_box(), spec_box_min(a, b), spec_box_max(a, b)),
{
    let mut sides = HittableList::default();
    let mut k: usize = 0;
    while k < 6
        invariant
            k <= 6,
            box_fits(a, b) && k >= 1 ==> {
                &&& spec_box_min(a, b).x@ == sides.bbox.x.min@
                &&& sides.bbox.x.max@ == spec_box_max(a, b).x@
                &&& spec_box_min(a, b).y@ == sides.bbox.y.min@
                &&& sides.bbox.y.max@ == spec_box_max(a, b).y@
                &&& spec_box_min(a, b).z@ <= sides.bbox.z.min@
                &&& sides.bbox.z.max@ <= spec_box_max(a, b).z@
            },
            box_fits(a, b) && k >= 2 ==> spans(
                sides.bbox,
                spec_box_min(a, b),
                spec_box_max(a, b),
            ),
            sides.objects@.len() == k,
            forall|i: int|
                0 <= i < k ==> *(#[trigger] sides.objects@[i]) == Hittable::Quad(
                    spec_box_side(a, b, mat, i),
                ),
            sides.bbox == HittableList::spec_bbox_of(sides.objects@, k as nat),
        decreases 6 - k,
    {
        let ghost before = sides.objects@;
        let side = box_side(a, b, &mat, k);
        proof {
            if box_fits(a, b) {
                lemma_side_box(a, b, mat, k as int);
            }
        }
        sides.add(side);
        proof {
            lemma_bbox_of_prefix(before, sides.objects@, k as nat);
        }
        k += 1;
    }
    Arc::new(Hittable::List(sides))
}

/// The box of the first surfaces of a sequence does not depend on the ones
/// after them.
pub proof fn lemma_bbox_of_prefix(
    shorter: Seq<Arc<Hittable>>,
    longer: Seq<Arc<Hittable>>,
    n: nat,
)
    requires
        n <= shorter.len() <= longer.len(),
        forall|i: int| 0 <= i < shorter.len() ==> shorter[i] == longer[i],
    ensures
        HittableList::spec_bbox_of(shorter, n) == HittableList::spec_bbox_of(longer, n),
    decreases n,
{
    if n > 0 {
        lemma_bbox_of_prefix(shorter, longer, (n - 1) as nat);
    }
}

/// The record of a hit on a quad states the ray parameter of the hit.
pub proof fn lemma_quad_record_t(q: &Quad, r: &Ray, t: Fixed)
    ensures
        q.spec_record(r, t).t == t,
{
    reveal(Quad::spec_record);
}

} // verus!
