//! Closed ranges of scalars.
use vstd::prelude::*;
use crate::fixed::{Fixed, ONE_RAW, LIMIT_RAW, tdiv};

verus! {

/// The range from `min` to `max`, both included. A range whose `min` is above
/// its `max` is empty.
#[derive(Debug, Clone, Copy)]
pub struct Interval {
    pub min: Fixed,
    pub max: Fixed,
}

impl Default for Interval {
    /// The empty range.
    fn default() -> (r: Self)
        ensures
            r == Interval::spec_empty(),
    {
        Interval { min: Fixed::infinity(), max: Fixed::neg_infinity() }
    }
}

impl Interval {
    pub open spec fn spec_new(min: Fixed, max: Fixed) -> Interval {
        Interval { min, max }
    }

    #[verifier::when_used_as_spec(spec_new)]
    pub fn new(min: Fixed, max: Fixed) -> (r: Self)
        ensures
            r == Interval::spec_new(min, max),
    {
        Interval { min, max }
    }

    pub open spec fn spec_empty() -> Interval {
        Interval { min: Fixed::infinity(), max: Fixed::neg_infinity() }
    }

    /// The range that holds nothing: from infinity down to minus infinity.
    #[verifier::when_used_as_spec(spec_empty)]
    pub fn empty() -> (r: Self)
        ensures
            r == Interval::spec_empty(),
    {
        Interval { min: Fixed::infinity(), max: Fixed::neg_infinity() }
    }

    pub open spec fn spec_universe() -> Interval {
        Interval { min: Fixed::neg_infinity(), max: Fixed::infinity() }
    }

    /// The range that holds every scalar.
    #[verifier::when_used_as_spec(spec_universe)]
    pub fn universe() -> (r: Self)
        ensures
            r == Interval::spec_universe(),
    {
        Interval { min: Fixed::neg_infinity(), max: Fixed::infinity() }
    }

    pub open spec fn spec_new_interval(a: Interval, b: Interval) -> Interval {
        Interval { min: a.min.min(b.min), max: a.max.max(b.max) }
    }

    /// The smallest range that holds both `a` and `b`.
    #[verifier::when_used_as_spec(spec_new_interval)]
    pub fn new_interval(a: Interval, b: Interval) -> (r: Self)
        ensures
            r == Interval::spec_new_interval(a, b),
            r.min@ <= a.min@ && r.min@ <= b.min@,
            r.max@ >= a.max@ && r.max@ >= b.max@,
            r.min@ == a.min@ || r.min@ == b.min@,
            r.max@ == a.max@ || r.max@ == b.max@,
    {
        Interval { min: a.min.min(b.min), max: a.max.max(b.max) }
    }

    pub open spec fn spec_size(&self) -> Fixed {
        self.max.sub(self.min)
    }

    /// The width `max - min`; negative for an empty range.
    #[verifier::when_used_as_spec(spec_size)]
    pub fn size(&self) -> (r: Fixed)
        ensures
            r == self.spec_size(),
    {
        self.max.sub(self.min)
    }

    pub open spec fn spec_contains(&self, x: Fixed) -> bool {
        self.min@ <= x@ <= self.max@
    }

    /// Whether `x` lies in the range, ends included.
    #[verifier::when_used_as_spec(spec_contains)]
    pub fn contains(&self, x: Fixed) -> (r: bool)
        ensures
            r == self.spec_contains(x),
    {
        self.min.le(x) && x.le(self.max)
    }

    pub open spec fn spec_surrounds(&self, x: Fixed) -> bool {
        self.min@ < x@ < self.max@
    }

    /// Whether `x` lies strictly between the ends.
    #[verifier::when_used_as_spec(spec_surrounds)]
    pub fn surrounds(&self, x: Fixed) -> (r: bool)
        ensures
            r == self.spec_surrounds(x),
    {
        self.min.lt(x) && x.lt(self.max)
    }

    pub open spec fn spec_clamp(&self, x: Fixed) -> Fixed {
        if x@ < self.min@ {
            self.min
        } else if x@ > self.max@ {
            self.max
        } else {
            x
        }
    }

    /// The scalar of the range nearest to `x`.
    #[verifier::when_used_as_spec(spec_clamp)]
    pub fn clamp(&self, x: Fixed) -> (r: Fixed)
        ensures
            r == self.spec_clamp(x),
            self.min@ <= self.max@ ==> self.min@ <= r@ <= self.max@,
    {
        if x.lt(self.min) {
            self.min
        } else if x.gt(self.max) {
            self.max
        } else {
            x
        }
    }

    pub open spec fn spec_expand(&self, delta: Fixed) -> Interval {
        Interval {
            min: self.min.sub(delta.mul(Fixed::half())),
            max: self.max.add(delta.mul(Fixed::half())),
        }
    }

    /// The range widened by `delta / 2` at each end.
    #[verifier::when_used_as_spec(spec_expand)]
    pub fn expand(&self, delta: Fixed) -> (r: Interval)
        ensures
            r == self.spec_expand(delta),
    {
        let padding = delta.mul(Fixed::half());
        Interval::new(self.min.sub(padding), self.max.add(padding))
    }

    pub open spec fn spec_shift(&self, offset: Fixed) -> Interval {
        Interval { min: self.min.add(offset), max: self.max.add(offset) }
    }

    /// The range moved by `offset`.
    #[verifier::when_used_as_spec(spec_shift)]
    pub fn shift(&self, offset: Fixed) -> (r: Interval)
        ensures
            r == self.spec_shift(offset),
    {
        Interval { min: self.min.add(offset), max: self.max.add(offset) }
    }

    /// Every scalar of `self` lies in `outer`.
    pub open spec fn within(&self, outer: Interval) -> bool {
        outer.min@ <= self.min@ && self.max@ <= outer.max@
    }

    /// The range holds no scalar.
    pub open spec fn holds_nothing(&self) -> bool {
        self.min@ > self.max@
    }

    /// The empty range stays empty when it is widened or moved; only a union
    /// adds to it, and then it adds nothing to what it is united with.
    pub proof fn lemma_empty_stays_empty(delta: Fixed, offset: Fixed, other: Interval)
        ensures
            Interval::spec_empty().holds_nothing(),
            Interval::spec_empty().spec_expand(delta).holds_nothing(),
            Interval::spec_empty().spec_shift(offset).holds_nothing(),
            Interval::spec_new_interval(Interval::spec_empty(), other).min@ == other.min@,
            Interval::spec_new_interval(Interval::spec_empty(), other).max@ == other.max@,
    {
        let w = delta@ * 0x8000_0000;
        assert(-LIMIT_RAW * 0x8000_0000 <= w <= LIMIT_RAW * 0x8000_0000) by (nonlinear_arith)
            requires
                w == delta@ * 0x8000_0000,
                -LIMIT_RAW <= delta@ <= LIMIT_RAW,
        ;
        assert(LIMIT_RAW * 0x8000_0000 == 0x2000_0000_0000_0000 * ONE_RAW);
        let m = if w >= 0 { w } else { -w };
        vstd::arithmetic::div_mod::lemma_div_is_ordered(
            m,
            0x2000_0000_0000_0000 * ONE_RAW,
            ONE_RAW as int,
        );
        vstd::arithmetic::div_mod::lemma_div_multiples_vanish(
            0x2000_0000_0000_0000,
            ONE_RAW as int,
        );
        assert(0x2000_0000_0000_0000 * ONE_RAW == ONE_RAW * 0x2000_0000_0000_0000);
        vstd::arithmetic::div_mod::lemma_div_pos_is_pos(m, ONE_RAW as int);
        assert(-0x2000_0000_0000_0000 <= tdiv(w, ONE_RAW as int) <= 0x2000_0000_0000_0000);
    }
}

} // verus!
