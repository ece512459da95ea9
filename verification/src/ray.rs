//! Rays: an origin, a direction that need not have unit length, and the time
//! at which the ray is cast.
use vstd::prelude::*;
use crate::fixed::Fixed;
use crate::vec3::{Point3, Vec3};

verus! {

#[derive(Debug, Copy, Clone)]
pub struct Ray {
    pub orig: Point3,
    pub dir: Vec3,
    pub tm: Fixed,
}

impl Default for Ray {
    /// The ray that rests at the origin.
    fn default() -> (r: Self)
        ensures
            r == Ray::spec_new(Vec3::zero(), Vec3::zero()),
    {
        Ray { orig: Vec3::zero(), dir: Vec3::zero(), tm: Fixed::zero() }
    }
}

impl Ray {
    pub open spec fn spec_new(origin: Point3, direction: Vec3) -> Ray {
        Ray { orig: origin, dir: direction, tm: Fixed::zero() }
    }

    /// A ray cast at time zero.
    #[verifier::when_used_as_spec(spec_new)]
    pub fn new(origin: Point3, direction: Vec3) -> (r: Self)
        ensures
            r == Ray::spec_new(origin, direction),
    {
        Ray { orig: origin, dir: direction, tm: Fixed::zero() }
    }

    pub open spec fn spec_new_time(orig: Point3, direction: Vec3, time: Fixed) -> Ray {
        Ray { orig, dir: direction, tm: time }
    }

    #[verifier::when_used_as_spec(spec_new_time)]
    pub fn new_time(orig: Point3, direction: Vec3, time: Fixed) -> (r: Self)
        ensures
            r == Ray::spec_new_time(orig, direction, time),
    {
        Ray { orig, dir: direction, tm: time }
    }

    pub open spec fn spec_origin(&self) -> Point3 {
        self.orig
    }

    #[verifier::when_used_as_spec(spec_origin)]
    pub fn origin(&self) -> (r: Point3)
        ensures
            r == self.orig,
    {
        self.orig
    }

    pub open spec fn spec_direction(&self) -> Vec3 {
        self.dir
    }

    #[verifier::when_used_as_spec(spec_direction)]
    pub fn direction(&self) -> (r: Vec3)
        ensures
            r == self.dir,
    {
        self.dir
    }

    pub open spec fn spec_time(&self) -> Fixed {
        self.tm
    }

    #[verifier::when_used_as_spec(spec_time)]
    pub fn time(&self) -> (r: Fixed)
        ensures
            r == self.tm,
    {
        self.tm
    }

    pub open spec fn spec_at(&self, t: Fixed) -> Point3 {
        self.orig.add(self.dir.scale(t))
    }

    /// The point `origin + t * direction`.
    #[verifier::when_used_as_spec(spec_at)]
    pub fn at(&self, t: Fixed) -> (r: Point3)
        ensures
            r == self.spec_at(t),
    {
        self.orig.add(self.dir.scale(t))
    }
}

} // verus!
