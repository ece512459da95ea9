//! Ordered collections of surfaces.
use vstd::prelude::*;
use std::sync::Arc;
use crate::aabb::Aabb;
use crate::hittable::{HitRecord, Hittable};
use crate::interval::Interval;
use crate::ray::Ray;

verus! {

/// Surfaces in the order in which they were added, and a box that holds the
/// boxes of them all.
pub struct HittableList {
    pub objects: Vec<Arc<Hittable>>,
    pub bbox: Aabb,
}

impl Default for HittableList {
    /// The list of no surfaces, with the empty box.
    fn default() -> (r: Self)
        ensures
            r.objects@.len() == 0,
            r.bbox == Aabb::spec_empty(),
    {
        HittableList { objects: Vec::new(), bbox: Aabb::empty() }
    }
}

/// The range `ray_t` cut short at the hit found so far, if there is one.
pub open spec fn spec_narrowed(ray_t: &Interval, found: Option<HitRecord>) -> Interval {
    Interval {
        min: ray_t.min,
        max: match found {
            Some(h) => h.t,
            None => ray_t.max,
        },
    }
}

/// The range `ray_t` cut short at the hit found so far, if there is one.
pub fn narrowed(ray_t: &Interval, found: &Option<HitRecord>) -> (r: Interval)
    ensures
        r == spec_narrowed(ray_t, *found),
{
    Interval {
        min: ray_t.min,
        max: match found {
            Some(h) => h.t,
            None => ray_t.max,
        },
    }
}

/// The later of two finds, where there is one.
pub open spec fn spec_later(first: Option<HitRecord>, second: Option<HitRecord>) -> Option<
    HitRecord,
> {
    match second {
        Some(h) => Some(h),
        None => first,
    }
}

impl HittableList {
    /// The box that holds the boxes of the first `n` surfaces.
    pub open spec fn spec_bbox_of(objects: Seq<Arc<Hittable>>, n: nat) -> Aabb
        decreases n,
    {
        if n == 0 || n > objects.len() {
            Aabb::spec_empty()
        } else {
            Aabb::spec_new_aabb(
                &HittableList::spec_bbox_of(objects, (n - 1) as nat),
                &objects[n - 1].spec_bounding_box(),
            )
        }
    }

    /// The list of one surface.
    pub fn new(object: Arc<Hittable>) -> (r: Self)
        ensures
            r.objects@ == seq![object],
            r.bbox == Aabb::spec_new_aabb(&Aabb::spec_empty(), &object.spec_bounding_box()),
    {
        let mut list = HittableList::default();
        list.add(object);
        assert(list.objects@ =~= seq![object]);
        list
    }

    /// Takes every surface out. The box stays as it was.
    pub fn clear(&mut self)
        ensures
            final(self).objects@.len() == 0,
            final(self).bbox == old(self).bbox,
    {
        self.objects.clear();
    }

    /// Adds a surface at the end and widens the box to hold its box.
    pub fn add(&mut self, object: Arc<Hittable>)
        ensures
            final(self).objects@ == old(self).objects@.push(object),
            final(self).bbox == Aabb::spec_new_aabb(&old(self).bbox, &object.spec_bounding_box()),
    {
        self.bbox = Aabb::new_aabb(&self.bbox, object.bounding_box());
        self.objects.push(object);
    }

    /// The hit found by testing the first `n` surfaces in order, each within
    /// `ray_t` cut short at the hit found before it.
    pub open spec fn scan(objects: Seq<Arc<Hittable>>, r: &Ray, ray_t: &Interval, n: nat) -> Option<
        HitRecord,
    >
        decreases objects, n,
    {
        if n == 0 || n > objects.len() {
            None
        } else {
            let found = HittableList::scan(objects, r, ray_t, (n - 1) as nat);
            spec_later(found, objects[n - 1].spec_hit(r, &spec_narrowed(ray_t, found)))
        }
    }

    /// The nearest hit among the surfaces: they are tested in order, each
    /// within `ray_t` cut short at the hit found before it.
    pub open spec fn spec_hit(&self, r: &Ray, ray_t: &Interval) -> Option<HitRecord>
        decreases self,
    {
        HittableList::scan(self.objects@, r, ray_t, self.objects@.len())
    }

    /// Whether `res` can come out of testing the first `n` surfaces in
    /// order, each within `ray_t` cut short at the hit found before it:
    /// nothing can come out of testing none, and what can come out of
    /// testing `n` is the later of a find among the first `n - 1` and what
    /// can come out of the last of them.
    pub open spec fn can_scan(
        objects: Seq<Arc<Hittable>>,
        r: &Ray,
        ray_t: &Interval,
        n: nat,
        res: Option<HitRecord>,
    ) -> bool
        decreases objects, n,
    {
        if n == 0 || n > objects.len() {
            res is None
        } else {
            exists|found: Option<HitRecord>, next: Option<HitRecord>|
                HittableList::can_scan(objects, r, ray_t, (n - 1) as nat, found) && objects[n
                    - 1].can_hit(r, &spec_narrowed(ray_t, found), next) && res
                    == #[trigger] spec_later(found, next)
        }
    }

    /// Whether `res` can come out of [`HittableList::hit`].
    pub open spec fn can_hit(&self, r: &Ray, ray_t: &Interval, res: Option<HitRecord>) -> bool
        decreases self,
    {
        HittableList::can_scan(self.objects@, r, ray_t, self.objects@.len(), res)
    }

    /// No surface of the list draws random numbers when it is tested.
    pub open spec fn deterministic(&self) -> bool
        decreases self,
    {
        forall|i: int| 0 <= i < self.objects@.len() ==> (#[trigger] self.objects@[i]).deterministic()
    }

    /// Every material in the list is non-negative.
    pub open spec fn non_negative(&self) -> bool
        decreases self,
    {
        forall|i: int| 0 <= i < self.objects@.len() ==> (#[trigger] self.objects@[i]).non_negative()
    }

    /// The nearest hit among the surfaces within `ray_t`.
    pub fn hit(&self, r: &Ray, ray_t: &Interval) -> (res: Option<HitRecord>)
        ensures
            self.can_hit(r, ray_t, res),
            self.deterministic() ==> res == self.spec_hit(r, ray_t),
            self.deterministic() ==> (res matches Some(h) ==> ray_t.contains(h.t)),
            res matches Some(h) ==> h.mat is Some,
            self.non_negative() ==> (res matches Some(h) ==> h.mat.unwrap().non_negative()),
        decreases self,
    {
        let mut found: Option<HitRecord> = None;
        let mut i: usize = 0;
        while i < self.objects.len()
            invariant
                i <= self.objects@.len(),
                HittableList::can_scan(self.objects@, r, ray_t, i as nat, found),
                self.deterministic() ==> found == HittableList::scan(
                    self.objects@,
                    r,
                    ray_t,
                    i as nat,
                ),
                found matches Some(h) ==> h.mat is Some,
                self.deterministic() ==> (found matches Some(h) ==> ray_t.contains(h.t)),
                self.non_negative() ==> (found matches Some(h) ==> h.mat.unwrap().non_negative()),
            decreases self.objects@.len() - i,
        {
            let range = narrowed(ray_t, &found);
            proof {
                vstd::std_specs::vec::axiom_vec_index_decreases(self.objects, i as int);
            }
            let next = self.objects[i].hit(r, &range);
            let ghost before = found;
            let ghost tested = next;
            if next.is_some() {
                found = next;
            }
            proof {
                assert(found == spec_later(before, tested));
                assert(HittableList::can_scan(self.objects@, r, ray_t, i as nat, before)
                    && self.objects@[i as int].can_hit(r, &spec_narrowed(ray_t, before), tested)
                    && found == spec_later(before, tested));
            }
            i += 1;
        }
        found
    }

    pub fn bounding_box(&self) -> (b: &Aabb)
        ensures
            *b == self.bbox,
    {
        &self.bbox
    }
}

} // verus!
