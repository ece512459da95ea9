//! Axis-aligned bounding boxes and the slab test.
use vstd::prelude::*;
use crate::fixed::{Fixed, lemma_div_monotone};
use crate::interval::Interval;
use crate::ray::Ray;
use crate::vec3::{Point3, Vec3};

verus! {

/// A box given by its extent on each axis. A box of no thickness on an axis
/// is valid.
#[derive(Debug, Clone, Copy)]
pub struct Aabb {
    pub x: Interval,
    pub y: Interval,
    pub z: Interval,
}

impl Default for Aabb {
    /// The empty box.
    fn default() -> (r: Self)
        ensures
            r == Aabb::spec_empty(),
    {
        Aabb { x: Interval::empty(), y: Interval::empty(), z: Interval::empty() }
    }
}

/// The passage of a ray that moves along an axis through the slab of that
/// axis: it runs between the two parameters `(bound - origin) / direction`,
/// the one for the nearer bound first.
#[verifier::opaque]
pub open spec fn passage(ax: Interval, origin: Fixed, dir: Fixed) -> Interval {
    if dir@ > 0 {
        Interval { min: ax.min.sub(origin).div(dir), max: ax.max.sub(origin).div(dir) }
    } else {
        Interval { min: ax.max.sub(origin).div(dir), max: ax.min.sub(origin).div(dir) }
    }
}

/// The passage of a ray that moves along an axis through the slab of that
/// axis.
pub fn passage_through(ax: Interval, origin: Fixed, dir: Fixed) -> (p: Interval)
    ensures
        p == passage(ax, origin, dir),
{
    reveal(passage);
    let t0 = ax.min.sub(origin).div(dir);
    let t1 = ax.max.sub(origin).div(dir);
    if dir.gt(Fixed::zero()) {
        Interval { min: t0, max: t1 }
    } else {
        Interval { min: t1, max: t0 }
    }
}

/// What is left of the running range `t` once the ray's passage through one
/// slab is taken out of it; `None` when nothing of positive length is left.
///
/// A ray that moves along the axis is in the slab during its
/// [`passage`]. A ray that does not move along the axis passes the whole
/// slab when its origin lies in it, bounds included, and none of it
/// otherwise.
#[verifier::opaque]
pub open spec fn slab(ax: Interval, origin: Fixed, dir: Fixed, t: Interval) -> Option<Interval> {
    if dir@ == 0 {
        if ax.min@ <= origin@ <= ax.max@ && t.min@ < t.max@ {
            Some(t)
        } else {
            None
        }
    } else {
        let lo = t.min.max(passage(ax, origin, dir).min);
        let hi = t.max.min(passage(ax, origin, dir).max);
        if hi@ <= lo@ {
            None
        } else {
            Some(Interval { min: lo, max: hi })
        }
    }
}

/// One step of the slab test.
#[verifier::when_used_as_spec(slab)]
pub fn clip_to_slab(ax: Interval, origin: Fixed, dir: Fixed, t: Interval) -> (r: Option<Interval>)
    ensures
        r == slab(ax, origin, dir, t),
{
    reveal(slab);
    if dir.same(Fixed::zero()) {
        if ax.contains(origin) && t.min.lt(t.max) {
            Some(t)
        } else {
            None
        }
    } else {
        let p = passage_through(ax, origin, dir);
        let lo = t.min.max(p.min);
        let hi = t.max.min(p.max);
        if hi.le(lo) {
            None
        } else {
            Some(Interval { min: lo, max: hi })
        }
    }
}

/// The one parameter at which a ray crosses a slab that it passes in no
/// time: the ray moves along the axis, and its passage begins and ends at
/// the same parameter, as it does through a slab of no thickness.
pub open spec fn crossing(ax: Interval, origin: Fixed, dir: Fixed) -> Option<Fixed> {
    if dir@ != 0 && passage(ax, origin, dir).min@ == passage(ax, origin, dir).max@ {
        Some(passage(ax, origin, dir).min)
    } else {
        None
    }
}

/// The one parameter at which a ray crosses a slab that it passes in no
/// time, if it does.
#[verifier::when_used_as_spec(crossing)]
pub fn crossing_of(ax: Interval, origin: Fixed, dir: Fixed) -> (c: Option<Fixed>)
    ensures
        c == crossing(ax, origin, dir),
{
    if dir.same(Fixed::zero()) {
        None
    } else {
        let p = passage_through(ax, origin, dir);
        if p.min.same(p.max) {
            Some(p.min)
        } else {
            None
        }
    }
}

/// One step of the slab test for a box that may have no thickness: a slab
/// that the ray crosses in no time leaves a range of positive length as it
/// is, and every other slab takes its [`slab`] out of the range.
pub open spec fn pass(ax: Interval, origin: Fixed, dir: Fixed, t: Interval) -> Option<Interval> {
    if crossing(ax, origin, dir) is Some {
        if t.min@ < t.max@ {
            Some(t)
        } else {
            None
        }
    } else {
        slab(ax, origin, dir, t)
    }
}

/// One step of the slab test for a box that may have no thickness.
#[verifier::when_used_as_spec(pass)]
pub fn pass_slab(ax: Interval, origin: Fixed, dir: Fixed, t: Interval) -> (r: Option<Interval>)
    ensures
        r == pass(ax, origin, dir, t),
{
    if crossing_of(ax, origin, dir).is_some() {
        if t.min.lt(t.max) {
            Some(t)
        } else {
            None
        }
    } else {
        clip_to_slab(ax, origin, dir, t)
    }
}

/// The one crossing among three, when there is exactly one.
pub open spec fn single(cx: Option<Fixed>, cy: Option<Fixed>, cz: Option<Fixed>) -> Option<Fixed> {
    match (cx, cy, cz) {
        (Some(t), None, None) => Some(t),
        (None, Some(t), None) => Some(t),
        (None, None, Some(t)) => Some(t),
        _ => None,
    }
}

/// A wider slab has a wider passage.
pub proof fn lemma_passage_monotone(ax: Interval, wide_ax: Interval, origin: Fixed, dir: Fixed)
    requires
        ax.within(wide_ax),
        dir@ != 0,
    ensures
        passage(ax, origin, dir).within(passage(wide_ax, origin, dir)),
{
    reveal(passage);
    lemma_div_monotone(wide_ax.min.sub(origin), ax.min.sub(origin), dir);
    lemma_div_monotone(ax.max.sub(origin), wide_ax.max.sub(origin), dir);
}

/// What a step of the slab test leaves has positive length, lies within the
/// range it was given and, for a slab with a passage of positive length,
/// within that passage.
pub proof fn lemma_pass_result(ax: Interval, origin: Fixed, dir: Fixed, t: Interval)
    ensures
        pass(ax, origin, dir, t) matches Some(left) ==> {
            &&& left.min@ < left.max@
            &&& left.within(t)
            &&& dir@ == 0 ==> ax.min@ <= origin@ <= ax.max@
            &&& dir@ != 0 && crossing(ax, origin, dir) is None ==> left.within(
                passage(ax, origin, dir),
            )
        },
{
    reveal(slab);
}

/// A step of the slab test keeps every range of positive length that lies
/// within the range it is given and within the passage through the slab.
pub proof fn lemma_pass_keeps(
    ax: Interval,
    origin: Fixed,
    dir: Fixed,
    t: Interval,
    inner: Interval,
)
    requires
        inner.min@ < inner.max@,
        inner.within(t),
        dir@ == 0 ==> ax.min@ <= origin@ <= ax.max@,
        dir@ != 0 && crossing(ax, origin, dir) is None ==> inner.within(passage(ax, origin, dir)),
    ensures
        pass(ax, origin, dir, t) matches Some(left) && inner.within(left),
{
    reveal(slab);
}

impl Aabb {
    pub open spec fn spec_empty() -> Aabb {
        Aabb { x: Interval::empty(), y: Interval::empty(), z: Interval::empty() }
    }

    /// The box that holds nothing.
    #[verifier::when_used_as_spec(spec_empty)]
    pub fn empty() -> (r: Self)
        ensures
            r == Aabb::spec_empty(),
    {
        Aabb { x: Interval::empty(), y: Interval::empty(), z: Interval::empty() }
    }

    pub open spec fn spec_universe() -> Aabb {
        Aabb { x: Interval::universe(), y: Interval::universe(), z: Interval::universe() }
    }

    /// The box that holds all of space.
    #[verifier::when_used_as_spec(spec_universe)]
    pub fn universe() -> (r: Self)
        ensures
            r == Aabb::spec_universe(),
    {
        Aabb { x: Interval::universe(), y: Interval::universe(), z: Interval::universe() }
    }

    /// The least thickness that [`Aabb::pad`] leaves on an axis: `1 / 10000`.
    pub open spec fn spec_pad_delta() -> Fixed {
        Fixed::from_ratio(1, 10000)
    }

    pub open spec fn spec_pad_interval(i: Interval) -> Interval {
        if i.size()@ < Aabb::spec_pad_delta()@ {
            i.expand(Aabb::spec_pad_delta())
        } else {
            i
        }
    }

    pub open spec fn spec_pad(&self) -> Aabb {
        Aabb {
            x: Aabb::spec_pad_interval(self.x),
            y: Aabb::spec_pad_interval(self.y),
            z: Aabb::spec_pad_interval(self.z),
        }
    }

    /// The box with every axis thinner than `1 / 10000` widened by that much.
    #[verifier::when_used_as_spec(spec_pad)]
    pub fn pad(&self) -> (r: Self)
        ensures
            r == self.spec_pad(),
    {
        let delta = Fixed::from_ratio(1, 10000);
        let new_x = if self.x.size().lt(delta) { self.x.expand(delta) } else { self.x };
        let new_y = if self.y.size().lt(delta) { self.y.expand(delta) } else { self.y };
        let new_z = if self.z.size().lt(delta) { self.z.expand(delta) } else { self.z };
        Aabb { x: new_x, y: new_y, z: new_z }
    }

    pub open spec fn spec_new_point(a: &Point3, b: &Point3) -> Aabb {
        Aabb {
            x: Interval { min: a.x.min(b.x), max: a.x.max(b.x) },
            y: Interval { min: a.y.min(b.y), max: a.y.max(b.y) },
            z: Interval { min: a.z.min(b.z), max: a.z.max(b.z) },
        }
    }

    /// The box with `a` and `b` at opposite corners.
    #[verifier::when_used_as_spec(spec_new_point)]
    pub fn new_point(a: &Point3, b: &Point3) -> (r: Self)
        ensures
            r == Aabb::spec_new_point(a, b),
    {
        Aabb {
            x: Interval::new(a.x.min(b.x), a.x.max(b.x)),
            y: Interval::new(a.y.min(b.y), a.y.max(b.y)),
            z: Interval::new(a.z.min(b.z), a.z.max(b.z)),
        }
    }

    pub open spec fn spec_new_aabb(box0: &Aabb, box1: &Aabb) -> Aabb {
        Aabb {
            x: Interval::new_interval(box0.x, box1.x),
            y: Interval::new_interval(box0.y, box1.y),
            z: Interval::new_interval(box0.z, box1.z),
        }
    }

    /// The smallest box that holds both `box0` and `box1`.
    #[verifier::when_used_as_spec(spec_new_aabb)]
    pub fn new_aabb(box0: &Aabb, box1: &Aabb) -> (r: Self)
        ensures
            r == Aabb::spec_new_aabb(box0, box1),
            box0.within(r),
            box1.within(r),
    {
        Aabb {
            x: Interval::new_interval(box0.x, box1.x),
            y: Interval::new_interval(box0.y, box1.y),
            z: Interval::new_interval(box0.z, box1.z),
        }
    }

    /// The extent on axis `n`: 0 is x, 1 is y, anything else is z.
    pub open spec fn spec_axis_interval(&self, n: usize) -> Interval {
        if n == 0 {
            self.x
        } else if n == 1 {
            self.y
        } else {
            self.z
        }
    }

    /// The extent on axis `n`: 0 is x, 1 is y, anything else is z.
    pub fn axis_interval(&self, n: usize) -> (r: &Interval)
        ensures
            *r == self.spec_axis_interval(n),
    {
        if n == 0 {
            &self.x
        } else if n == 1 {
            &self.y
        } else {
            &self.z
        }
    }

    /// Every point of `self` lies in `outer`.
    pub open spec fn within(&self, outer: Aabb) -> bool {
        self.x.within(outer.x) && self.y.within(outer.y) && self.z.within(outer.z)
    }

    /// What the three slabs leave of `ray_t`, each a step of [`pass`] in
    /// turn; `None` when nothing of positive length is left.
    pub open spec fn spec_thick_clip(&self, r: &Ray, ray_t: Interval) -> Option<Interval> {
        match pass(self.x, r.orig.x, r.dir.x, ray_t) {
            None => None,
            Some(tx) => match pass(self.y, r.orig.y, r.dir.y, tx) {
                None => None,
                Some(ty) => pass(self.z, r.orig.z, r.dir.z, ty),
            },
        }
    }

    /// Whether the ray crosses none of the three slabs in no time.
    pub open spec fn spec_no_crossing(&self, r: &Ray) -> bool {
        &&& crossing(self.x, r.orig.x, r.dir.x) is None
        &&& crossing(self.y, r.orig.y, r.dir.y) is None
        &&& crossing(self.z, r.orig.z, r.dir.z) is None
    }

    /// The parameter at which the ray crosses the one slab that it passes in
    /// no time, when there is exactly one such slab.
    pub open spec fn spec_crossing(&self, r: &Ray) -> Option<Fixed> {
        single(
            crossing(self.x, r.orig.x, r.dir.x),
            crossing(self.y, r.orig.y, r.dir.y),
            crossing(self.z, r.orig.z, r.dir.z),
        )
    }

    /// The part of `ray_t` on which the ray is inside the box.
    /// - For a ray that passes every slab in some time, it is what the three
    ///   slabs leave of `ray_t`, and has positive length.
    /// - For a ray that crosses one slab in no time, as it does a box of no
    ///   thickness, it is the parameter of that crossing, when that lies
    ///   strictly within what the other two slabs leave of `ray_t`.
    /// - Else it is nothing.
    pub open spec fn spec_clip(&self, r: &Ray, ray_t: Interval) -> Option<Interval> {
        match self.spec_thick_clip(r, ray_t) {
            None => None,
            Some(left) => if self.spec_no_crossing(r) {
                Some(left)
            } else {
                match self.spec_crossing(r) {
                    Some(t) => if left.min@ < t@ < left.max@ {
                        Some(Interval { min: t, max: t })
                    } else {
                        None
                    },
                    None => None,
                }
            },
        }
    }

    /// The part of `ray_t` on which the ray is inside the box: a range of
    /// positive length, or the one parameter at which the ray crosses a box
    /// of no thickness.
    #[verifier::when_used_as_spec(spec_clip)]
    pub fn clip(&self, r: &Ray, ray_t: Interval) -> (left: Option<Interval>)
        ensures
            left == self.spec_clip(r, ray_t),
    {
        let left = match pass_slab(self.x, r.orig.x, r.dir.x, ray_t) {
            None => {
                return None;
            },
            Some(tx) => match pass_slab(self.y, r.orig.y, r.dir.y, tx) {
                None => {
                    return None;
                },
                Some(ty) => match pass_slab(self.z, r.orig.z, r.dir.z, ty) {
                    None => {
                        return None;
                    },
                    Some(tz) => tz,
                },
            },
        };
        let cx = crossing_of(self.x, r.orig.x, r.dir.x);
        let cy = crossing_of(self.y, r.orig.y, r.dir.y);
        let cz = crossing_of(self.z, r.orig.z, r.dir.z);
        let only = match (cx, cy, cz) {
            (None, None, None) => {
                return Some(left);
            },
            (Some(t), None, None) => t,
            (None, Some(t), None) => t,
            (None, None, Some(t)) => t,
            _ => {
                return None;
            },
        };
        if left.min.lt(only) && only.lt(left.max) {
            Some(Interval { min: only, max: only })
        } else {
            None
        }
    }

    pub open spec fn spec_hit(&self, r: &Ray, ray_t: Interval) -> bool {
        self.spec_clip(r, ray_t) is Some
    }

    /// The slab test: whether the ray is inside the box within `ray_t`, over
    /// a part of it of positive length or, for a box of no thickness, at a
    /// parameter strictly within it. A zero direction component divides
    /// nothing: the ray then passes or misses that slab as a whole.
    #[verifier::when_used_as_spec(spec_hit)]
    pub fn hit(&self, r: &Ray, ray_t: Interval) -> (hit: bool)
        ensures
            hit == self.spec_hit(r, ray_t),
    {
        self.clip(r, ray_t).is_some()
    }

    /// A ray that is inside a box within a range is inside every box around
    /// it within every range around that one.
    pub proof fn lemma_hit_monotone(&self, outer: Aabb, r: &Ray, ray_t: Interval, wide_t: Interval)
        requires
            self.within(outer),
            ray_t.within(wide_t),
            self.spec_hit(r, ray_t),
        ensures
            outer.spec_hit(r, wide_t),
    {
        let tx = pass(self.x, r.orig.x, r.dir.x, ray_t).unwrap();
        let ty = pass(self.y, r.orig.y, r.dir.y, tx).unwrap();
        let tz = pass(self.z, r.orig.z, r.dir.z, ty).unwrap();
        lemma_pass_result(self.x, r.orig.x, r.dir.x, ray_t);
        lemma_pass_result(self.y, r.orig.y, r.dir.y, tx);
        lemma_pass_result(self.z, r.orig.z, r.dir.z, ty);
        if r.dir.x@ != 0 {
            lemma_passage_monotone(self.x, outer.x, r.orig.x, r.dir.x);
        }
        if r.dir.y@ != 0 {
            lemma_passage_monotone(self.y, outer.y, r.orig.y, r.dir.y);
        }
        if r.dir.z@ != 0 {
            lemma_passage_monotone(self.z, outer.z, r.orig.z, r.dir.z);
        }
        let px = passage(outer.x, r.orig.x, r.dir.x);
        let py = passage(outer.y, r.orig.y, r.dir.y);
        let pz = passage(outer.z, r.orig.z, r.dir.z);
        // the part of the inner passage that lies within every passage through the outer box
        let inner = if self.spec_no_crossing(r) {
            tz
        } else {
            let t = self.spec_crossing(r).unwrap();
            let lo = if crossing(self.x, r.orig.x, r.dir.x) is Some {
                tz.min.max(px.min)
            } else if crossing(self.y, r.orig.y, r.dir.y) is Some {
                tz.min.max(py.min)
            } else {
                tz.min.max(pz.min)
            };
            let hi = if crossing(self.x, r.orig.x, r.dir.x) is Some {
                tz.max.min(px.max)
            } else if crossing(self.y, r.orig.y, r.dir.y) is Some {
                tz.max.min(py.max)
            } else {
                tz.max.min(pz.max)
            };
            if outer.spec_no_crossing(r) {
                Interval { min: lo, max: hi }
            } else {
                tz
            }
        };
        assert(inner.min@ < inner.max@);
        assert(inner.within(wide_t));
        lemma_pass_keeps(outer.x, r.orig.x, r.dir.x, wide_t, inner);
        let wx = pass(outer.x, r.orig.x, r.dir.x, wide_t).unwrap();
        lemma_pass_keeps(outer.y, r.orig.y, r.dir.y, wx, inner);
        let wy = pass(outer.y, r.orig.y, r.dir.y, wx).unwrap();
        lemma_pass_keeps(outer.z, r.orig.z, r.dir.z, wy, inner);
    }

    /// A box of no thickness still registers a ray that stays in its plane:
    /// where the ray does not move along an axis and starts within the
    /// extent of the box on that axis, that slab takes nothing from the
    /// range, and the other two slabs alone decide.
    pub proof fn lemma_ray_in_plane(&self, r: &Ray, ray_t: Interval)
        requires
            ray_t.min@ < ray_t.max@,
        ensures
            r.dir.x@ == 0 && self.x.min@ <= r.orig.x@ <= self.x.max@ ==> crossing(
                self.x,
                r.orig.x,
                r.dir.x,
            ) is None && pass(self.x, r.orig.x, r.dir.x, ray_t) == Some(ray_t),
            r.dir.y@ == 0 && self.y.min@ <= r.orig.y@ <= self.y.max@ ==> crossing(
                self.y,
                r.orig.y,
                r.dir.y,
            ) is None && pass(self.y, r.orig.y, r.dir.y, ray_t) == Some(ray_t),
            r.dir.z@ == 0 && self.z.min@ <= r.orig.z@ <= self.z.max@ ==> crossing(
                self.z,
                r.orig.z,
                r.dir.z,
            ) is None && pass(self.z, r.orig.z, r.dir.z, ray_t) == Some(ray_t),
    {
        reveal(slab);
    }

    /// A box of no thickness registers a ray that crosses it: where the
    /// extent of the box on one axis is a single coordinate, a ray that
    /// moves along that axis and passes the other two slabs in some time is
    /// inside the box at the parameter
    /// `(coordinate - origin) / direction`, when that lies strictly within
    /// what the other two slabs leave of the range.
    pub proof fn lemma_flat_box_is_crossed(&self, r: &Ray, ray_t: Interval)
        requires
            self.x.min@ == self.x.max@,
            r.dir.x@ != 0,
            crossing(self.y, r.orig.y, r.dir.y) is None,
            crossing(self.z, r.orig.z, r.dir.z) is None,
        ensures
            crossing(self.x, r.orig.x, r.dir.x) == Some(self.x.min.sub(r.orig.x).div(r.dir.x)) || crossing(
                self.x,
                r.orig.x,
                r.dir.x,
            ) == Some(self.x.max.sub(r.orig.x).div(r.dir.x)),
            self.spec_hit(r, ray_t) <==> (self.spec_thick_clip(r, ray_t) matches Some(left)
                && left.min@ < self.x.min.sub(r.orig.x).div(r.dir.x)@ < left.max@),
    {
        reveal(passage);
    }

    /// The axis on which the box is longest: 0, 1 or 2 for x, y or z. Among
    /// axes of equal length x comes before y, and y before z.
    pub open spec fn spec_longest_axis(&self) -> i32 {
        if self.x.size()@ >= self.y.size()@ && self.x.size()@ >= self.z.size()@ {
            0
        } else if self.y.size()@ >= self.z.size()@ {
            1
        } else {
            2
        }
    }

    /// The axis on which the box is longest: 0, 1 or 2 for x, y or z. Among
    /// axes of equal length x comes before y, and y before z.
    #[verifier::when_used_as_spec(spec_longest_axis)]
    pub fn longest_axis(&self) -> (axis: i32)
        ensures
            axis == self.spec_longest_axis(),
            0 <= axis <= 2,
    {
        if self.x.size().ge(self.y.size()) && self.x.size().ge(self.z.size()) {
            0
        } else if self.y.size().ge(self.z.size()) {
            1
        } else {
            2
        }
    }

    pub open spec fn spec_offset(&self, offset: Vec3) -> Aabb {
        Aabb { x: self.x.shift(offset.x), y: self.y.shift(offset.y), z: self.z.shift(offset.z) }
    }

    /// The box moved by `offset`.
    #[verifier::when_used_as_spec(spec_offset)]
    pub fn offset(&self, offset: Vec3) -> (r: Aabb)
        ensures
            r == self.spec_offset(offset),
    {
        Aabb { x: self.x.shift(offset.x), y: self.y.shift(offset.y), z: self.z.shift(offset.z) }
    }
}

} // verus!
