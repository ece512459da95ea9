//! Orthonormal bases built about a given direction.
use vstd::prelude::*;
use crate::fixed::Fixed;
use crate::vec3::{Vec3, cross, unit_vector};

verus! {

/// Three axes `u`, `v`, `w`, the last along the direction the basis was
/// built about.
#[derive(Debug, Clone, Copy)]
pub struct Onb {
    pub axis: [Vec3; 3],
}

impl Onb {
    /// The axis that `w` is crossed with: y when `w` leans toward x by more
    /// than nine tenths, x otherwise.
    pub open spec fn spec_helper_axis(w: Vec3) -> Vec3 {
        if w.x@ > Fixed::from_ratio(9, 10)@ {
            Vec3::from_ints(0, 1, 0)
        } else {
            Vec3::from_ints(1, 0, 0)
        }
    }

    pub open spec fn spec_w_of(n: Vec3) -> Vec3 {
        unit_vector(n)
    }

    pub open spec fn spec_v_of(n: Vec3) -> Vec3 {
        unit_vector(cross(Onb::spec_w_of(n), Onb::spec_helper_axis(Onb::spec_w_of(n))))
    }

    pub open spec fn spec_u_of(n: Vec3) -> Vec3 {
        cross(Onb::spec_w_of(n), Onb::spec_v_of(n))
    }

    pub open spec fn spec_new(n: Vec3) -> Onb {
        Onb { axis: [Onb::spec_u_of(n), Onb::spec_v_of(n), Onb::spec_w_of(n)] }
    }

    /// The basis about `n`: `w` is `n` at unit length, `v` is the unit vector
    /// across `w` and a helper axis, and `u` is `w` cross `v`.
    #[verifier::when_used_as_spec(spec_new)]
    pub fn new(n: Vec3) -> (r: Self)
        ensures
            r == Onb::spec_new(n),
            r.axis@ == seq![Onb::spec_u_of(n), Onb::spec_v_of(n), Onb::spec_w_of(n)],
            r.spec_u() == Onb::spec_u_of(n),
            r.spec_v() == Onb::spec_v_of(n),
            r.spec_w() == Onb::spec_w_of(n),
    {
        let axis2 = unit_vector(n);
        let a = if axis2.x().gt(Fixed::from_ratio(9, 10)) {
            Vec3::from_ints(0, 1, 0)
        } else {
            Vec3::from_ints(1, 0, 0)
        };
        let axis1 = unit_vector(cross(axis2, a));
        let axis0 = cross(axis2, axis1);
        let axis: [Vec3; 3] = [axis0, axis1, axis2];
        assert(axis@ =~= seq![Onb::spec_u_of(n), Onb::spec_v_of(n), Onb::spec_w_of(n)]);
        Onb { axis }
    }

    pub open spec fn spec_u(&self) -> Vec3 {
        self.axis@[0]
    }

    #[verifier::when_used_as_spec(spec_u)]
    pub fn u(&self) -> (r: Vec3)
        ensures
            r == self.spec_u(),
    {
        self.axis[0]
    }

    pub open spec fn spec_v(&self) -> Vec3 {
        self.axis@[1]
    }

    #[verifier::when_used_as_spec(spec_v)]
    pub fn v(&self) -> (r: Vec3)
        ensures
            r == self.spec_v(),
    {
        self.axis[1]
    }

    pub open spec fn spec_w(&self) -> Vec3 {
        self.axis@[2]
    }

    #[verifier::when_used_as_spec(spec_w)]
    pub fn w(&self) -> (r: Vec3)
        ensures
            r == self.spec_w(),
    {
        self.axis[2]
    }

    pub open spec fn spec_transform(&self, v: Vec3) -> Vec3 {
        self.spec_u().scale(v.x).add(self.spec_v().scale(v.y)).add(self.spec_w().scale(v.z))
    }

    /// The vector whose coordinates in this basis are `v`.
    #[verifier::when_used_as_spec(spec_transform)]
    pub fn transform(&self, v: Vec3) -> (r: Vec3)
        ensures
            r == self.spec_transform(v),
    {
        self.axis[0].scale(v.x).add(self.axis[1].scale(v.y)).add(self.axis[2].scale(v.z))
    }
}

} // verus!
