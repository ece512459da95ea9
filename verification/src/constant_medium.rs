//! Media of constant density, such as smoke, inside a boundary surface.
use vstd::prelude::*;
use std::sync::Arc;
use crate::aabb::Aabb;
use crate::color::Color;
use crate::fixed::Fixed;
use crate::hittable::{HitRecord, Hittable, is_outcome, share};
use crate::interval::Interval;
use crate::material::{Isotropic, Material};
use crate::ray::Ray;
use crate::rtweekend::{is_unit_sample, random_double};
use crate::texture::Texture;
use crate::trig::ln;
use crate::vec3::Vec3;

verus! {

/// A medium that fills a convex boundary and scatters a ray after a random
/// distance whose mean is one over the density.
pub struct ConstantMedium {
    pub boundary: Arc<Hittable>,
    pub neg_inv_density: Fixed,
    pub phase_function: Arc<Material>,
}

impl ConstantMedium {
    /// A medium of the given density whose color a texture gives.
    pub fn new(boundary: Arc<Hittable>, density: Fixed, a: Arc<Texture>) -> (r: Self)
        ensures
            r.boundary == boundary,
            r.neg_inv_density == Fixed::from_int(-1i32).div(density),
            *r.phase_function == Material::Isotropic(Isotropic { tex: a }),
    {
        ConstantMedium {
            boundary,
            neg_inv_density: Fixed::from_int(-1).div(density),
            phase_function: Arc::new(Material::Isotropic(Isotropic::new(a))),
        }
    }

    /// A medium of the given density and color.
    pub fn new_with_color(boundary: Arc<Hittable>, density: Fixed, albedo: Color) -> (r: Self)
        ensures
            r.boundary == boundary,
            r.neg_inv_density == Fixed::from_int(-1i32).div(density),
            *r.phase_function matches Material::Isotropic(i) && *i.tex == Texture::Solid(
                crate::texture::SolidColor { albedo },
            ),
    {
        ConstantMedium {
            boundary,
            neg_inv_density: Fixed::from_int(-1).div(density),
            phase_function: Arc::new(Material::Isotropic(Isotropic::new_with_color(albedo))),
        }
    }

    /// The range in which the ray is looked for leaving the boundary, once it
    /// has entered at `t_in`: from `1 / 10000` past the entry, without end.
    pub open spec fn spec_exit_range(t_in: Fixed) -> Interval {
        Interval { min: t_in.add(Fixed::from_ratio(1, 10000)), max: Fixed::infinity() }
    }

    /// Where the ray scatters in the medium, if it does, given the ray
    /// parameters `t_in` and `t_out` at which it crosses the boundary and a
    /// unit sample. The crossings are brought within `ray_t`, and the entry
    /// to zero at least; nothing is left when the entry is not before the
    /// exit. The ray travels `-ln(sample) / density` and scatters if that is
    /// no more than its way through the medium. The record has the x axis
    /// for its normal, which stands for no direction, and the phase function
    /// for its material.
    #[verifier::opaque]
    pub open spec fn spec_scatter_point(
        &self,
        r: &Ray,
        ray_t: &Interval,
        t_in: Fixed,
        t_out: Fixed,
        sample: Fixed,
    ) -> Option<HitRecord> {
        let t1 = t_in.max(ray_t.min);
        let t2 = t_out.min(ray_t.max);
        if t1@ >= t2@ {
            None
        } else {
            let t0 = t1.max(Fixed::zero());
            let ray_length = r.dir.length();
            let distance_inside_boundary = t2.sub(t0).mul(ray_length);
            let hit_distance = self.neg_inv_density.mul(ln(sample));
            if hit_distance@ > distance_inside_boundary@ {
                None
            } else {
                let t = t0.add(hit_distance.div(ray_length));
                Some(
                    HitRecord {
                        p: r.at(t),
                        normal: Vec3::from_ints(1, 0, 0),
                        t,
                        u: Fixed::zero(),
                        v: Fixed::zero(),
                        front_face: true,
                        mat: Some(self.phase_function),
                    },
                )
            }
        }
    }

    /// Where the ray scatters in the medium, if it does, given the ray
    /// parameters at which it crosses the boundary and a unit sample.
    pub fn scatter_point(
        &self,
        r: &Ray,
        ray_t: &Interval,
        t_in: Fixed,
        t_out: Fixed,
        sample: Fixed,
    ) -> (res: Option<HitRecord>)
        ensures
            res == self.spec_scatter_point(r, ray_t, t_in, t_out, sample),
            res matches Some(h) ==> h.mat == Some(self.phase_function),
    {
        reveal(ConstantMedium::spec_scatter_point);
        let t1 = t_in.max(ray_t.min);
        let t2 = t_out.min(ray_t.max);
        if t1.ge(t2) {
            return None;
        }
        let t0 = t1.max(Fixed::zero());
        let ray_length = r.direction().length();
        let distance_inside_boundary = t2.sub(t0).mul(ray_length);
        let hit_distance = self.neg_inv_density.mul(ln(sample));
        if hit_distance.gt(distance_inside_boundary) {
            return None;
        }
        let t = t0.add(hit_distance.div(ray_length));
        Some(
            HitRecord {
                p: r.at(t),
                normal: Vec3::from_ints(1, 0, 0),
                t,
                u: Fixed::zero(),
                v: Fixed::zero(),
                front_face: true,
                mat: Some(share(&self.phase_function)),
            },
        )
    }

    /// The ray parameters at which the ray enters and leaves the boundary,
    /// for a boundary with no medium in it: the hit anywhere along the line
    /// of the ray, and the next hit after it.
    pub open spec fn spec_crossings(&self, r: &Ray) -> Option<(Fixed, Fixed)>
        decreases self,
    {
        match self.boundary.spec_hit(r, &Interval::universe()) {
            None => None,
            Some(rec1) => match self.boundary.spec_hit(
                r,
                &ConstantMedium::spec_exit_range(rec1.t),
            ) {
                None => None,
                Some(rec2) => Some((rec1.t, rec2.t)),
            },
        }
    }

    /// Whether `res` can come out of [`ConstantMedium::hit`]: nothing when
    /// the ray does not cross the boundary twice, first anywhere along its
    /// line and then past that crossing; else what
    /// [`ConstantMedium::spec_scatter_point`] gives for the two crossings
    /// and some unit sample.
    pub open spec fn can_hit(&self, r: &Ray, ray_t: &Interval, res: Option<HitRecord>) -> bool
        decreases self,
    {
        exists|entry: Option<HitRecord>| #[trigger]
            is_outcome(entry) && self.boundary.can_hit(r, &Interval::universe(), entry)
                && match entry {
                None => res is None,
                Some(rec1) => self.can_leave(r, ray_t, rec1.t, res),
            }
    }

    /// Whether `res` can come out for a ray that has entered the boundary at
    /// `t_in`.
    pub open spec fn can_leave(&self, r: &Ray, ray_t: &Interval, t_in: Fixed, res: Option<
        HitRecord,
    >) -> bool
        decreases self, 0nat,
    {
        exists|exit: Option<HitRecord>| #[trigger]
            is_outcome(exit) && self.boundary.can_hit(
                r,
                &ConstantMedium::spec_exit_range(t_in),
                exit,
            ) && match exit {
                None => res is None,
                Some(rec2) => exists|sample: Fixed|
                    is_unit_sample(sample) && res == #[trigger] self.spec_scatter_point(
                        r,
                        ray_t,
                        t_in,
                        rec2.t,
                        sample,
                    ),
            }
    }

    /// Where the ray scatters in the medium within `ray_t`, if it does. The
    /// ray must cross the boundary twice; where it scatters between the
    /// crossings depends on a random unit sample, as
    /// [`ConstantMedium::spec_scatter_point`] states.
    pub fn hit(&self, r: &Ray, ray_t: &Interval) -> (res: Option<HitRecord>)
        ensures
            self.can_hit(r, ray_t, res),
            res matches Some(h) ==> h.mat == Some(self.phase_function),
            res is Some ==> exists|t_in: Fixed, t_out: Fixed, sample: Fixed|
                is_unit_sample(sample) && res == self.spec_scatter_point(
                    r,
                    ray_t,
                    t_in,
                    t_out,
                    sample,
                ),
            self.boundary.deterministic() ==> match self.spec_crossings(r) {
                None => res is None,
                Some(c) => exists|sample: Fixed|
                    is_unit_sample(sample) && res == self.spec_scatter_point(
                        r,
                        ray_t,
                        c.0,
                        c.1,
                        sample,
                    ),
            },
        decreases self,
    {
        let entry = self.boundary.hit(r, &Interval::universe());
        let rec1 = match entry {
            None => {
                assert(is_outcome(entry));
                return None;
            },
            Some(h) => h,
        };
        let exit_range = Interval::new(
            rec1.t.add(Fixed::from_ratio(1, 10000)),
            Fixed::infinity(),
        );
        let exit = self.boundary.hit(r, &exit_range);
        let rec2 = match exit {
            None => {
                assert(is_outcome(exit));
                assert(self.can_leave(r, ray_t, rec1.t, None));
                assert(is_outcome(entry));
                return None;
            },
            Some(h) => h,
        };
        let sample = random_double();
        let res = self.scatter_point(r, ray_t, rec1.t, rec2.t, sample);
        assert(is_unit_sample(sample) && res == self.spec_scatter_point(
            r,
            ray_t,
            rec1.t,
            rec2.t,
            sample,
        ));
        assert(is_outcome(exit));
        assert(self.can_leave(r, ray_t, rec1.t, res));
        assert(is_outcome(entry));
        res
    }

    pub fn bounding_box(&self) -> (b: &Aabb)
        ensures
            *b == self.boundary.spec_bounding_box(),
    {
        self.boundary.bounding_box()
    }
}

} // verus!
