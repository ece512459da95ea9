//! Densities over directions: each gives the density at a direction and
//! draws a direction at random.
use vstd::prelude::*;
use std::sync::Arc;
use crate::fixed::Fixed;
use crate::hittable::Hittable;
use crate::material::{cosine_density, spec_cosine_density, spec_uniform_sphere_density, uniform_sphere_density};
use crate::onb::Onb;
use crate::rtweekend::{is_unit_sample, random_double};
use crate::vec3::{
    Point3, Vec3, accepts_in_ball, accepts_in_disk, random_cosine_direction, random_unit_vector,
    spec_lift_to_hemisphere, unit_vector,
};

verus! {

/// The uniform density on the unit sphere.
pub struct SpherePdf;

impl SpherePdf {
    /// The density at any direction: `1 / (4 pi)`.
    pub fn value(&self, _direction: Vec3) -> (d: Fixed)
        ensures
            d == spec_uniform_sphere_density(),
    {
        uniform_sphere_density()
    }

    /// Whether `d` can come out of [`SpherePdf::generate`].
    pub open spec fn can_generate(d: Vec3) -> bool {
        d == Vec3::from_ints(1, 0, 0) || exists|p: Vec3| accepts_in_ball(p) && d == unit_vector(p)
    }

    /// A random direction.
    pub fn generate(&self) -> (d: Vec3)
        ensures
            SpherePdf::can_generate(d),
    {
        random_unit_vector()
    }
}

/// The density on the hemisphere about an axis that is proportional to the
/// cosine of the angle to the axis.
pub struct CosinePdf {
    pub uvw: Onb,
}

impl CosinePdf {
    /// The cosine-weighted density about `w`.
    pub fn new(w: Vec3) -> (r: Self)
        ensures
            r.uvw == Onb::spec_new(w),
    {
        CosinePdf { uvw: Onb::new(w) }
    }

    /// The density at `direction`: the cosine of its angle to the axis over
    /// pi, and zero below the horizon.
    pub open spec fn spec_value(&self, direction: Vec3) -> Fixed {
        spec_cosine_density(self.uvw.spec_w(), direction)
    }

    /// The density at `direction`.
    pub fn value(&self, direction: Vec3) -> (d: Fixed)
        ensures
            d == self.spec_value(direction),
            d@ >= 0,
    {
        cosine_density(self.uvw.w(), direction)
    }

    /// Whether `d` can come out of [`CosinePdf::generate`].
    pub open spec fn can_generate(&self, d: Vec3) -> bool {
        exists|p: Vec3| accepts_in_disk(p) && d == self.uvw.spec_transform(spec_lift_to_hemisphere(p))
    }

    /// A random direction about the axis.
    pub fn generate(&self) -> (d: Vec3)
        ensures
            self.can_generate(d),
    {
        self.uvw.transform(random_cosine_direction())
    }
}

/// The density of the directions from a point toward a surface.
#[derive(Clone)]
pub struct HittablePdf {
    pub objects: Arc<Hittable>,
    pub origin: Point3,
}

impl HittablePdf {
    pub fn new(objects: Arc<Hittable>, origin: Point3) -> (r: Self)
        ensures
            r.objects == objects,
            r.origin == origin,
    {
        HittablePdf { objects, origin }
    }

    /// The density at `direction`.
    pub open spec fn spec_value(&self, direction: Vec3) -> Fixed {
        self.objects.spec_pdf_value(self.origin, direction)
    }

    /// The density at `direction`.
    pub fn value(&self, direction: Vec3) -> (d: Fixed)
        ensures
            d == self.spec_value(direction),
    {
        self.objects.pdf_value(self.origin, direction)
    }

    /// Whether `d` can come out of [`HittablePdf::generate`].
    pub open spec fn can_generate(&self, d: Vec3) -> bool {
        match *self.objects {
            Hittable::Quad(q) => exists|s1: Fixed, s2: Fixed|
                is_unit_sample(s1) && is_unit_sample(s2) && d == q.spec_toward(self.origin, s1, s2),
            _ => d == Vec3::from_ints(1, 0, 0),
        }
    }

    /// A random direction toward the surface.
    pub fn generate(&self) -> (d: Vec3)
        ensures
            self.can_generate(d),
    {
        self.objects.random(self.origin)
    }
}

/// The density at `direction` of the even mixture of two densities: half of
/// that of the first plus half of that of the second.
pub open spec fn spec_mixture_value(first: Fixed, second: Fixed) -> Fixed {
    Fixed::half().mul(first).add(Fixed::half().mul(second))
}

/// The even mixture of two densities.
pub struct MixturePdf {
    pub p: (Arc<Pdf>, Arc<Pdf>),
}

impl MixturePdf {
    pub fn new(p0: Arc<Pdf>, p1: Arc<Pdf>) -> (r: Self)
        ensures
            r.p == (p0, p1),
    {
        MixturePdf { p: (p0, p1) }
    }

    /// The density at `direction`: half of that of the first density plus
    /// half of that of the second.
    pub open spec fn spec_value(&self, direction: Vec3) -> Fixed
        decreases self,
    {
        spec_mixture_value(self.p.0.spec_value(direction), self.p.1.spec_value(direction))
    }

    /// The density at `direction`: half of that of the first density plus
    /// half of that of the second.
    pub fn value(&self, direction: Vec3) -> (d: Fixed)
        ensures
            d == self.spec_value(direction),
            d == Fixed::half().mul(self.p.0.spec_value(direction)).add(
                Fixed::half().mul(self.p.1.spec_value(direction)),
            ),
        decreases self,
    {
        let a = self.p.0.value(direction);
        let b = self.p.1.value(direction);
        Fixed::half().mul(a).add(Fixed::half().mul(b))
    }

    /// Whether `d` can come out of [`MixturePdf::generate`]: it can come out
    /// of one of the two densities.
    pub open spec fn can_generate(&self, d: Vec3) -> bool
        decreases self,
    {
        self.p.0.can_generate(d) || self.p.1.can_generate(d)
    }

    /// Whether the unit sample `s` selects the first density: it does below
    /// one half.
    pub open spec fn spec_picks_first(s: Fixed) -> bool {
        s@ < Fixed::half()@
    }

    /// Whether the unit sample `s` selects the first density.
    #[verifier::when_used_as_spec(spec_picks_first)]
    pub fn picks_first(s: Fixed) -> (first: bool)
        ensures
            first == MixturePdf::spec_picks_first(s),
    {
        s.lt(Fixed::half())
    }

    /// A random direction: a unit sample selects the first density, from
    /// which the direction is then drawn, or the second, each with
    /// probability one half.
    pub fn generate(&self) -> (d: Vec3)
        ensures
            self.can_generate(d),
            exists|s: Fixed|
                is_unit_sample(s) && if MixturePdf::spec_picks_first(s) {
                    self.p.0.can_generate(d)
                } else {
                    self.p.1.can_generate(d)
                },
        decreases self,
    {
        let s = random_double();
        let d = if MixturePdf::picks_first(s) {
            self.p.0.generate()
        } else {
            self.p.1.generate()
        };
        assert(is_unit_sample(s) && if MixturePdf::spec_picks_first(s) {
            self.p.0.can_generate(d)
        } else {
            self.p.1.can_generate(d)
        });
        d
    }
}

/// A density of one of the kinds this library knows.
pub enum Pdf {
    Sphere(SpherePdf),
    Cosine(CosinePdf),
    Hittable(HittablePdf),
    Mixture(MixturePdf),
}

impl Pdf {
    /// The density at `direction`.
    pub open spec fn spec_value(&self, direction: Vec3) -> Fixed
        decreases self,
    {
        match self {
            Pdf::Sphere(_) => spec_uniform_sphere_density(),
            Pdf::Cosine(c) => c.spec_value(direction),
            Pdf::Hittable(h) => h.spec_value(direction),
            Pdf::Mixture(m) => m.spec_value(direction),
        }
    }

    /// The density at `direction`.
    pub fn value(&self, direction: Vec3) -> (d: Fixed)
        ensures
            d == self.spec_value(direction),
        decreases self,
    {
        match self {
            Pdf::Sphere(s) => s.value(direction),
            Pdf::Cosine(c) => c.value(direction),
            Pdf::Hittable(h) => h.value(direction),
            Pdf::Mixture(m) => m.value(direction),
        }
    }

    /// Whether `d` can come out of [`Pdf::generate`].
    pub open spec fn can_generate(&self, d: Vec3) -> bool
        decreases self,
    {
        match self {
            Pdf::Sphere(_) => SpherePdf::can_generate(d),
            Pdf::Cosine(c) => c.can_generate(d),
            Pdf::Hittable(h) => h.can_generate(d),
            Pdf::Mixture(m) => m.can_generate(d),
        }
    }

    /// A random direction.
    pub fn generate(&self) -> (d: Vec3)
        ensures
            self.can_generate(d),
        decreases self,
    {
        match self {
            Pdf::Sphere(s) => s.generate(),
            Pdf::Cosine(c) => c.generate(),
            Pdf::Hittable(h) => h.generate(),
            Pdf::Mixture(m) => m.generate(),
        }
    }
}

} // verus!
