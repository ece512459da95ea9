//! The nearest hit: what a scan of a list and the search of a tree both find.
//!
//! A tree built over some surfaces reports the same hit as a scan of those
//! surfaces, for every ray and range for which each surface answers within
//! shorter ranges as it does within the whole one, and has its hits held by
//! its box. Spheres and quads always do the first. Whatever the boxes hold,
//! a tree reports no hit that a scan would not find at least as near.
use vstd::prelude::*;
use std::sync::Arc;
use crate::aabb::Aabb;
use crate::bvh_node::{BvhNode, drawn_from};
use crate::fixed::Fixed;
use crate::hittable::{HitRecord, Hittable};
use crate::hittable_list::{HittableList, spec_later, spec_narrowed};
use crate::interval::Interval;
use crate::ray::Ray;
use crate::sort::{is_stable_order, occurs};

verus! {

/// The range `ray_t` with its upper end moved to `m`.
pub open spec fn cut(ray_t: &Interval, m: Fixed) -> Interval {
    Interval { min: ray_t.min, max: m }
}

/// Whether a hit at `t` is one that a test within `ray_t` cut at `m` owes:
/// it lies before `m`, or the range is not cut at all.
pub open spec fn reaches(t: Fixed, m: Fixed, ray_t: &Interval) -> bool {
    t@ < m@ || m == ray_t.max
}

/// Whether the surface answers, for this ray, within `ray_t` cut at `m`, as
/// it does within `ray_t`:
/// - a hit within the cut range is the hit within `ray_t`, and lies at or
///   before `m`;
/// - the hit within `ray_t` is found within the cut range too when it lies
///   before `m`, or when the range is not cut.
pub open spec fn narrows_at(h: Arc<Hittable>, r: &Ray, ray_t: &Interval, m: Fixed) -> bool {
    &&& (h.spec_hit(r, &cut(ray_t, m)) matches Some(g) ==> h.spec_hit(r, ray_t) == Some(g) && g.t@
        <= m@)
    &&& (h.spec_hit(r, ray_t) matches Some(g) ==> reaches(g.t, m, ray_t) ==> h.spec_hit(
        r,
        &cut(ray_t, m),
    ) is Some)
}

/// Whether the box of the surface holds its hit, for this ray, within
/// `ray_t` cut at `m`: when the surface is hit within the cut range, the ray
/// passes the box of the surface within that range.
pub open spec fn enclosed_at(h: Arc<Hittable>, r: &Ray, ray_t: &Interval, m: Fixed) -> bool {
    h.spec_hit(r, &cut(ray_t, m)) is Some ==> h.spec_bounding_box().spec_hit(r, cut(ray_t, m))
}

/// Whether the surface answers within every shorter range as it does within
/// `ray_t`, for this ray.
pub open spec fn narrows(h: Arc<Hittable>, r: &Ray, ray_t: &Interval) -> bool {
    forall|m: Fixed| m@ <= ray_t.max@ ==> #[trigger] narrows_at(h, r, ray_t, m)
}

/// Whether the box of the surface holds its hits, for this ray, within
/// `ray_t` and every shorter range.
pub open spec fn enclosed(h: Arc<Hittable>, r: &Ray, ray_t: &Interval) -> bool {
    forall|m: Fixed| m@ <= ray_t.max@ ==> #[trigger] enclosed_at(h, r, ray_t, m)
}

/// Whether every surface of the sequence answers within every shorter range
/// as it does within `ray_t`, for this ray.
pub open spec fn all_narrow(objects: Seq<Arc<Hittable>>, r: &Ray, ray_t: &Interval) -> bool {
    forall|i: int| 0 <= i < objects.len() ==> narrows(#[trigger] objects[i], r, ray_t)
}

/// Whether the box of every surface of the sequence holds its hits, for
/// this ray, within `ray_t` and every shorter range.
pub open spec fn all_enclosed(objects: Seq<Arc<Hittable>>, r: &Ray, ray_t: &Interval) -> bool {
    forall|i: int| 0 <= i < objects.len() ==> enclosed(#[trigger] objects[i], r, ray_t)
}

/// Whether `res` is a nearest hit of the ray on the surfaces within `ray_t`:
/// none when no surface is hit, else the hit on one of them, with no hit on
/// any of them before it.
pub open spec fn is_nearest(
    objects: Seq<Arc<Hittable>>,
    r: &Ray,
    ray_t: &Interval,
    res: Option<HitRecord>,
) -> bool {
    match res {
        None => forall|i: int|
            0 <= i < objects.len() ==> (#[trigger] objects[i]).spec_hit(r, ray_t) is None,
        Some(h) => {
            &&& exists|i: int|
                0 <= i < objects.len() && (#[trigger] objects[i]).spec_hit(r, ray_t) == Some(h)
            &&& forall|j: int|
                0 <= j < objects.len() ==> ((#[trigger] objects[j]).spec_hit(r, ray_t) matches Some(
                    g,
                ) ==> h.t@ <= g.t@)
        },
    }
}

/// Whether two surfaces that are hit at the same ray parameter always give
/// the same record.
pub open spec fn ties_agree(objects: Seq<Arc<Hittable>>, r: &Ray, ray_t: &Interval) -> bool {
    forall|i: int, j: int|
        0 <= i < objects.len() && 0 <= j < objects.len() ==> ((#[trigger] objects[i]).spec_hit(
            r,
            ray_t,
        ) matches Some(g) ==> ((#[trigger] objects[j]).spec_hit(r, ray_t) matches Some(h) ==> (g.t@
            == h.t@ ==> g == h)))
}

/// What a search within `ray_t` cut at `m` owes: a find is a nearest hit
/// within `ray_t` and lies at or before `m`; when nothing is found, no
/// surface has a hit that the cut range reaches.
pub open spec fn meets_cut(
    res: Option<HitRecord>,
    objects: Seq<Arc<Hittable>>,
    r: &Ray,
    ray_t: &Interval,
    m: Fixed,
) -> bool {
    match res {
        Some(h) => h.t@ <= m@ && is_nearest(objects, r, ray_t, Some(h)),
        None => forall|j: int|
            0 <= j < objects.len() ==> ((#[trigger] objects[j]).spec_hit(r, ray_t) matches Some(
                g,
            ) ==> !reaches(g.t, m, ray_t)),
    }
}

/// What a search owes does not depend on the order of the surfaces, nor on
/// how often each occurs.
pub proof fn lemma_meets_cut_transfer(
    res: Option<HitRecord>,
    a: Seq<Arc<Hittable>>,
    b: Seq<Arc<Hittable>>,
    r: &Ray,
    ray_t: &Interval,
    m: Fixed,
)
    requires
        drawn_from(a, b),
        drawn_from(b, a),
        meets_cut(res, a, r, ray_t, m),
    ensures
        meets_cut(res, b, r, ray_t, m),
{
    assert forall|j: int| 0 <= j < b.len() implies a.contains(#[trigger] b[j]) by {}
    match res {
        Some(h) => {
            let i = choose|i: int| 0 <= i < a.len() && (#[trigger] a[i]).spec_hit(r, ray_t) == Some(h);
            assert(b.contains(a[i]));
            let k = choose|k: int| 0 <= k < b.len() && b[k] == a[i];
            assert(b[k].spec_hit(r, ray_t) == Some(h));
            assert forall|j: int| 0 <= j < b.len() implies ((#[trigger] b[j]).spec_hit(
                r,
                ray_t,
            ) matches Some(g) ==> h.t@ <= g.t@) by {
                assert(a.contains(b[j]));
                let k2 = choose|k2: int| 0 <= k2 < a.len() && a[k2] == b[j];
                assert(a[k2].spec_hit(r, ray_t) == b[j].spec_hit(r, ray_t));
            }
        },
        None => {
            assert forall|j: int| 0 <= j < b.len() implies ((#[trigger] b[j]).spec_hit(
                r,
                ray_t,
            ) matches Some(g) ==> !reaches(g.t, m, ray_t)) by {
                assert(a.contains(b[j]));
                let k2 = choose|k2: int| 0 <= k2 < a.len() && a[k2] == b[j];
                assert(a[k2].spec_hit(r, ray_t) == b[j].spec_hit(r, ray_t));
            }
        },
    }
}

/// The upper end of the range that the search goes on with after `found`.
pub open spec fn next_cut(found: Option<HitRecord>, m: Fixed) -> Fixed {
    match found {
        Some(h) => h.t,
        None => m,
    }
}

/// Searching one group of surfaces and then another, within the range cut
/// short at the find in the first, gives what a search of both owes.
pub proof fn lemma_meets_cut_combine(
    first: Option<HitRecord>,
    second: Option<HitRecord>,
    a: Seq<Arc<Hittable>>,
    b: Seq<Arc<Hittable>>,
    r: &Ray,
    ray_t: &Interval,
    m: Fixed,
)
    requires
        meets_cut(first, a, r, ray_t, m),
        meets_cut(second, b, r, ray_t, next_cut(first, m)),
    ensures
        meets_cut(spec_later(first, second), a + b, r, ray_t, m),
{
    let s = a + b;
    assert forall|j: int| 0 <= j < s.len() implies (j < a.len() && s[j] == a[j]) || (j >= a.len()
        && s[j] == b[j - a.len()]) by {}
    match second {
        Some(h) => {
            let i = choose|i: int| 0 <= i < b.len() && (#[trigger] b[i]).spec_hit(r, ray_t) == Some(h);
            assert(s[i + a.len()] == b[i]);
            assert(s[i + a.len()].spec_hit(r, ray_t) == Some(h));
            assert forall|j: int| 0 <= j < s.len() implies ((#[trigger] s[j]).spec_hit(
                r,
                ray_t,
            ) matches Some(g) ==> h.t@ <= g.t@) by {
                if j < a.len() {
                    assert(s[j] == a[j]);
                } else {
                    assert(s[j] == b[j - a.len()]);
                }
            }
        },
        None => {
            match first {
                Some(h) => {
                    let i = choose|i: int|
                        0 <= i < a.len() && (#[trigger] a[i]).spec_hit(r, ray_t) == Some(h);
                    assert(s[i] == a[i]);
                    assert(s[i].spec_hit(r, ray_t) == Some(h));
                    assert forall|j: int| 0 <= j < s.len() implies ((#[trigger] s[j]).spec_hit(
                        r,
                        ray_t,
                    ) matches Some(g) ==> h.t@ <= g.t@) by {
                        if j < a.len() {
                            assert(s[j] == a[j]);
                        } else {
                            assert(s[j] == b[j - a.len()]);
                        }
                    }
                },
                None => {
                    assert forall|j: int| 0 <= j < s.len() implies ((#[trigger] s[j]).spec_hit(
                        r,
                        ray_t,
                    ) matches Some(g) ==> !reaches(g.t, m, ray_t)) by {
                        if j < a.len() {
                            assert(s[j] == a[j]);
                        } else {
                            assert(s[j] == b[j - a.len()]);
                        }
                    }
                },
            }
        },
    }
}

/// A surface that narrows, tested within a cut range, gives what a search
/// of it alone owes.
pub proof fn lemma_leaf_meets_cut(h: Arc<Hittable>, r: &Ray, ray_t: &Interval, m: Fixed)
    requires
        narrows(h, r, ray_t),
        m@ <= ray_t.max@,
    ensures
        meets_cut(h.spec_hit(r, &cut(ray_t, m)), seq![h], r, ray_t, m),
{
    assert(narrows_at(h, r, ray_t, m));
    let s = seq![h];
    assert(s[0] == h);
    match h.spec_hit(r, &cut(ray_t, m)) {
        Some(g) => {
            assert(s[0].spec_hit(r, ray_t) == Some(g));
        },
        None => {},
    }
}

/// The box of one of two boxes lies within the box of both.
pub proof fn lemma_union_within(a: Aabb, b: Aabb)
    ensures
        a.within(Aabb::spec_new_aabb(&a, &b)),
        b.within(Aabb::spec_new_aabb(&a, &b)),
{
}

/// Lying within carries over.
pub proof fn lemma_within_transitive(a: Aabb, b: Aabb, c: Aabb)
    requires
        a.within(b),
        b.within(c),
    ensures
        a.within(c),
{
}

/// The box of a tree holds the box of every surface it was built over.
pub proof fn lemma_built_box_holds(node: &BvhNode, objects: Seq<Arc<Hittable>>)
    requires
        node.is_built_from(objects),
    ensures
        forall|i: int|
            0 <= i < objects.len() ==> (#[trigger] objects[i]).spec_bounding_box().within(
                node.bbox,
            ),
    decreases node,
{
    if objects.len() == 1 {
    } else if objects.len() == 2 {
        lemma_union_within(objects[0].spec_bounding_box(), objects[1].spec_bounding_box());
    } else {
        let axis = BvhNode::spec_split_axis(objects);
        let order = choose|order: Seq<usize>| #[trigger]
            is_stable_order(BvhNode::spec_keys(objects, axis), order) && node.is_split_of(
                BvhNode::spec_rearranged(objects, order),
            );
        let sorted = BvhNode::spec_rearranged(objects, order);
        let mid = (sorted.len() / 2) as int;
        let l = match *node.left {
            Hittable::Bvh(l) => l,
            _ => arbitrary(),
        };
        let rr = match *node.right {
            Hittable::Bvh(rr) => rr,
            _ => arbitrary(),
        };
        lemma_built_box_holds(&l, sorted.subrange(0, mid));
        lemma_built_box_holds(&rr, sorted.subrange(mid, sorted.len() as int));
        lemma_union_within(l.bbox, rr.bbox);
        assert forall|i: int| 0 <= i < objects.len() implies (#[trigger] objects[i])
            .spec_bounding_box().within(node.bbox) by {
            assert(occurs(order, i));
            let p = choose|p: int| 0 <= p < order.len() && #[trigger] order[p] == i;
            assert(sorted[p] == objects[i]);
            if p < mid {
                assert(sorted.subrange(0, mid)[p] == sorted[p]);
                lemma_within_transitive(objects[i].spec_bounding_box(), l.bbox, node.bbox);
            } else {
                assert(sorted.subrange(mid, sorted.len() as int)[p - mid] == sorted[p]);
                lemma_within_transitive(objects[i].spec_bounding_box(), rr.bbox, node.bbox);
            }
        }
    }
}

/// When the ray misses a box within a cut range, no surface in the box
/// that narrows and whose own box holds its hits has a hit that the cut
/// range reaches.
pub proof fn lemma_miss_meets_cut(
    bbox: Aabb,
    objects: Seq<Arc<Hittable>>,
    r: &Ray,
    ray_t: &Interval,
    m: Fixed,
)
    requires
        all_narrow(objects, r, ray_t),
        all_enclosed(objects, r, ray_t),
        m@ <= ray_t.max@,
        forall|i: int|
            0 <= i < objects.len() ==> (#[trigger] objects[i]).spec_bounding_box().within(bbox),
        !bbox.spec_hit(r, cut(ray_t, m)),
    ensures
        meets_cut(None, objects, r, ray_t, m),
{
    assert forall|j: int| 0 <= j < objects.len() implies ((#[trigger] objects[j]).spec_hit(
        r,
        ray_t,
    ) matches Some(g) ==> !reaches(g.t, m, ray_t)) by {
        assert(narrows(objects[j], r, ray_t));
        assert(narrows_at(objects[j], r, ray_t, m));
        assert(enclosed(objects[j], r, ray_t));
        assert(enclosed_at(objects[j], r, ray_t, m));
        match objects[j].spec_hit(r, ray_t) {
            Some(g) => {
                if reaches(g.t, m, ray_t) {
                    let c = cut(ray_t, m);
                    assert(objects[j].spec_hit(r, &c) is Some);
                    assert(objects[j].spec_bounding_box().spec_hit(r, c));
                    objects[j].spec_bounding_box().lemma_hit_monotone(bbox, r, c, c);
                }
            },
            None => {},
        }
    }
}

/// A tree searched within a cut range gives what a search of the surfaces
/// it was built over owes.
pub proof fn lemma_tree_meets_cut(
    node: &BvhNode,
    objects: Seq<Arc<Hittable>>,
    r: &Ray,
    ray_t: &Interval,
    m: Fixed,
)
    requires
        node.is_built_from(objects),
        all_narrow(objects, r, ray_t),
        all_enclosed(objects, r, ray_t),
        m@ <= ray_t.max@,
    ensures
        meets_cut(node.spec_hit(r, &cut(ray_t, m)), objects, r, ray_t, m),
    decreases node,
{
    let c = cut(ray_t, m);
    lemma_built_box_holds(node, objects);
    if !node.bbox.spec_hit(r, c) {
        lemma_miss_meets_cut(node.bbox, objects, r, ray_t, m);
    } else {
        let on_left = node.left.spec_hit(r, &c);
        let m2 = next_cut(on_left, m);
        assert(spec_narrowed(&c, on_left) == cut(ray_t, m2));
        let on_right = node.right.spec_hit(r, &cut(ray_t, m2));
        assert(node.spec_hit(r, &c) == spec_later(on_left, on_right));
        if objects.len() <= 2 {
            let a = seq![node.left];
            let b = seq![node.right];
            assert(objects.contains(node.left) && objects.contains(node.right)) by {
                if objects.len() == 1 {
                    assert(objects[0] == node.left);
                } else {
                    assert(objects[0] == node.left || objects[1] == node.left);
                    assert(objects[0] == node.right || objects[1] == node.right);
                }
            }
            let kl = choose|k: int| 0 <= k < objects.len() && objects[k] == node.left;
            let kr = choose|k: int| 0 <= k < objects.len() && objects[k] == node.right;
            assert(narrows(objects[kl], r, ray_t));
            assert(narrows(objects[kr], r, ray_t));
            lemma_leaf_meets_cut(node.left, r, ray_t, m);
            assert(m2@ <= ray_t.max@) by {
                assert(a[0] == node.left);
            }
            lemma_leaf_meets_cut(node.right, r, ray_t, m2);
            lemma_meets_cut_combine(on_left, on_right, a, b, r, ray_t, m);
            let s = a + b;
            assert(s[0] == node.left && s[1] == node.right);
            assert forall|i: int| 0 <= i < s.len() implies objects.contains(#[trigger] s[i]) by {}
            assert forall|i: int| 0 <= i < objects.len() implies s.contains(
                #[trigger] objects[i],
            ) by {
                if objects.len() == 1 {
                    assert(s[0] == objects[0]);
                } else {
                    assert(s[0] == objects[i] || s[1] == objects[i]);
                }
            }
            lemma_meets_cut_transfer(spec_later(on_left, on_right), s, objects, r, ray_t, m);
        } else {
            let axis = BvhNode::spec_split_axis(objects);
            let order = choose|order: Seq<usize>| #[trigger]
                is_stable_order(BvhNode::spec_keys(objects, axis), order) && node.is_split_of(
                    BvhNode::spec_rearranged(objects, order),
                );
            let sorted = BvhNode::spec_rearranged(objects, order);
            let mid = (sorted.len() / 2) as int;
            let a = sorted.subrange(0, mid);
            let b = sorted.subrange(mid, sorted.len() as int);
            let l = match *node.left {
                Hittable::Bvh(l) => l,
                _ => arbitrary(),
            };
            let rr = match *node.right {
                Hittable::Bvh(rr) => rr,
                _ => arbitrary(),
            };
            assert forall|i: int| 0 <= i < sorted.len() implies narrows(
                #[trigger] sorted[i],
                r,
                ray_t,
            ) && enclosed(sorted[i], r, ray_t) by {
                assert(sorted[i] == objects[order[i] as int]);
            }
            assert(all_narrow(a, r, ray_t) && all_enclosed(a, r, ray_t)) by {
                assert forall|i: int| 0 <= i < a.len() implies narrows(#[trigger] a[i], r, ray_t)
                    && enclosed(a[i], r, ray_t) by {
                    assert(a[i] == sorted[i]);
                }
            }
            assert(all_narrow(b, r, ray_t) && all_enclosed(b, r, ray_t)) by {
                assert forall|i: int| 0 <= i < b.len() implies narrows(#[trigger] b[i], r, ray_t)
                    && enclosed(b[i], r, ray_t) by {
                    assert(b[i] == sorted[i + mid]);
                }
            }
            lemma_tree_meets_cut(&l, a, r, ray_t, m);
            assert(on_left == l.spec_hit(r, &c));
            lemma_tree_meets_cut(&rr, b, r, ray_t, m2);
            assert(on_right == rr.spec_hit(r, &cut(ray_t, m2)));
            lemma_meets_cut_combine(on_left, on_right, a, b, r, ray_t, m);
            assert(a + b =~= sorted);
            assert(drawn_from(sorted, objects)) by {
                assert forall|i: int| 0 <= i < sorted.len() implies objects.contains(
                    #[trigger] sorted[i],
                ) by {
                    assert(objects[order[i] as int] == sorted[i]);
                }
            }
            assert(drawn_from(objects, sorted)) by {
                assert forall|i: int| 0 <= i < objects.len() implies sorted.contains(
                    #[trigger] objects[i],
                ) by {
                    assert(occurs(order, i));
                    let p = choose|p: int| 0 <= p < order.len() && #[trigger] order[p] == i;
                    assert(sorted[p] == objects[i]);
                }
            }
            lemma_meets_cut_transfer(spec_later(on_left, on_right), sorted, objects, r, ray_t, m);
        }
    }
}

/// A scan of surfaces that narrow finds a nearest hit among those scanned.
pub proof fn lemma_scan_finds_nearest(
    objects: Seq<Arc<Hittable>>,
    r: &Ray,
    ray_t: &Interval,
    n: nat,
)
    requires
        all_narrow(objects, r, ray_t),
        n <= objects.len(),
    ensures
        is_nearest(
            objects.subrange(0, n as int),
            r,
            ray_t,
            HittableList::scan(objects, r, ray_t, n),
        ),
        HittableList::scan(objects, r, ray_t, n) matches Some(h) ==> h.t@ <= ray_t.max@,
    decreases n,
{
    let s = objects.subrange(0, n as int);
    if n > 0 {
        lemma_scan_finds_nearest(objects, r, ray_t, (n - 1) as nat);
        let before = objects.subrange(0, n - 1);
        let found = HittableList::scan(objects, r, ray_t, (n - 1) as nat);
        let m = next_cut(found, ray_t.max);
        assert(spec_narrowed(ray_t, found) == cut(ray_t, m));
        let last = objects[n - 1];
        let next = last.spec_hit(r, &cut(ray_t, m));
        assert(narrows(last, r, ray_t));
        assert(narrows_at(last, r, ray_t, m));
        assert(narrows_at(last, r, ray_t, ray_t.max));
        assert(cut(ray_t, ray_t.max) == *ray_t);
        assert(s[n - 1] == last);
        assert forall|j: int| 0 <= j < n - 1 implies s[j] == before[j] by {}
        let res = spec_later(found, next);
        assert(res == HittableList::scan(objects, r, ray_t, n));
        match res {
            Some(h) => {
                if next is Some {
                    assert(s[n - 1].spec_hit(r, ray_t) == Some(h));
                    assert forall|j: int| 0 <= j < s.len() implies ((#[trigger] s[j]).spec_hit(
                        r,
                        ray_t,
                    ) matches Some(g) ==> h.t@ <= g.t@) by {
                        if j < n - 1 {
                            assert(s[j] == before[j]);
                            assert(before[j].spec_hit(r, ray_t) == s[j].spec_hit(r, ray_t));
                        }
                    }
                } else {
                    let i = choose|i: int|
                        0 <= i < before.len() && (#[trigger] before[i]).spec_hit(r, ray_t) == Some(
                            h,
                        );
                    assert(s[i] == before[i]);
                    assert(s[i].spec_hit(r, ray_t) == Some(h));
                    assert forall|j: int| 0 <= j < s.len() implies ((#[trigger] s[j]).spec_hit(
                        r,
                        ray_t,
                    ) matches Some(g) ==> h.t@ <= g.t@) by {
                        if j < n - 1 {
                            assert(s[j] == before[j]);
                            assert(before[j].spec_hit(r, ray_t) == s[j].spec_hit(r, ray_t));
                        }
                    }
                }
            },
            None => {
                assert forall|j: int| 0 <= j < s.len() implies (#[trigger] s[j]).spec_hit(
                    r,
                    ray_t,
                ) is None by {
                    if j < n - 1 {
                        assert(s[j] == before[j]);
                        assert(before[j].spec_hit(r, ray_t) is None);
                    }
                }
            },
        }
    }
}

/// A tree and a scan find the same hit. For a tree built over `objects`, and
/// a ray and a range for which every one of the surfaces narrows and has its
/// hits held by its box: the tree and a scan of the surfaces in their given
/// order both find a nearest hit; one finds a hit exactly when the other
/// does, and at the same ray parameter; and the two records are the same
/// whenever no two surfaces that are hit at the same parameter give
/// different records.
pub proof fn theorem_tree_matches_scan(
    node: &BvhNode,
    objects: Seq<Arc<Hittable>>,
    r: &Ray,
    ray_t: &Interval,
)
    requires
        node.is_built_from(objects),
        all_narrow(objects, r, ray_t),
        all_enclosed(objects, r, ray_t),
    ensures
        is_nearest(objects, r, ray_t, node.spec_hit(r, ray_t)),
        is_nearest(objects, r, ray_t, HittableList::scan(objects, r, ray_t, objects.len())),
        node.spec_hit(r, ray_t) is Some <==> HittableList::scan(
            objects,
            r,
            ray_t,
            objects.len(),
        ) is Some,
        node.spec_hit(r, ray_t) matches Some(a) ==> a.t@ == HittableList::scan(
            objects,
            r,
            ray_t,
            objects.len(),
        ).unwrap().t@,
        ties_agree(objects, r, ray_t) ==> node.spec_hit(r, ray_t) == HittableList::scan(
            objects,
            r,
            ray_t,
            objects.len(),
        ),
{
    let a = node.spec_hit(r, ray_t);
    let b = HittableList::scan(objects, r, ray_t, objects.len());
    lemma_tree_meets_cut(node, objects, r, ray_t, ray_t.max);
    assert(cut(ray_t, ray_t.max) == *ray_t);
    lemma_scan_finds_nearest(objects, r, ray_t, objects.len());
    assert(objects.subrange(0, objects.len() as int) =~= objects);
    match a {
        Some(h) => {
            let i = choose|i: int|
                0 <= i < objects.len() && (#[trigger] objects[i]).spec_hit(r, ray_t) == Some(h);
            match b {
                Some(g) => {
                    let j = choose|j: int|
                        0 <= j < objects.len() && (#[trigger] objects[j]).spec_hit(r, ray_t)
                            == Some(g);
                    assert(h.t@ <= g.t@);
                    assert(g.t@ <= h.t@);
                },
                None => {
                    assert(objects[i].spec_hit(r, ray_t) is None);
                },
            }
        },
        None => {
            match b {
                Some(g) => {
                    let j = choose|j: int|
                        0 <= j < objects.len() && (#[trigger] objects[j]).spec_hit(r, ray_t)
                            == Some(g);
                    assert(!reaches(g.t, ray_t.max, ray_t));
                },
                None => {},
            }
        },
    }
}

/// A sphere answers within every shorter range as it does within the whole
/// range: it gives the smaller of its two roots that the range surrounds.
pub proof fn lemma_sphere_narrows(h: Arc<Hittable>, r: &Ray, ray_t: &Interval)
    requires
        *h is Sphere,
    ensures
        narrows(h, r, ray_t),
{
    let s = match *h {
        Hittable::Sphere(s) => s,
        _ => arbitrary(),
    };
    crate::sphere::lemma_sphere_roots_ordered(&s, r);
    assert forall|m: Fixed| m@ <= ray_t.max@ implies #[trigger] narrows_at(h, r, ray_t, m) by {
        let c = cut(ray_t, m);
        assert(h.spec_hit(r, &c) == s.spec_hit(r, &c));
        assert(h.spec_hit(r, ray_t) == s.spec_hit(r, ray_t));
        if m == ray_t.max {
            assert(c == *ray_t);
        }
        match s.spec_roots(r) {
            Some(roots) => {
                crate::sphere::lemma_sphere_record_t(&s, r, roots.0);
                crate::sphere::lemma_sphere_record_t(&s, r, roots.1);
            },
            None => {},
        }
    }
}

/// A quad answers within every shorter range as it does within the whole
/// range: it gives the one point where the ray meets its plane.
pub proof fn lemma_quad_narrows(h: Arc<Hittable>, r: &Ray, ray_t: &Interval)
    requires
        *h is Quad,
    ensures
        narrows(h, r, ray_t),
{
    let q = match *h {
        Hittable::Quad(q) => q,
        _ => arbitrary(),
    };
    assert forall|m: Fixed| m@ <= ray_t.max@ implies #[trigger] narrows_at(h, r, ray_t, m) by {
        let c = cut(ray_t, m);
        assert(h.spec_hit(r, &c) == q.spec_hit(r, &c));
        assert(h.spec_hit(r, ray_t) == q.spec_hit(r, ray_t));
        if m == ray_t.max {
            assert(c == *ray_t);
        }
        match q.spec_plane_t(r) {
            Some(t) => {
                crate::quad::lemma_quad_record_t(&q, r, t);
            },
            None => {},
        }
    }
}

/// Whether every surface of the sequence is a sphere or a quad.
pub open spec fn all_spheres_and_quads(objects: Seq<Arc<Hittable>>) -> bool {
    forall|i: int| 0 <= i < objects.len() ==> *(#[trigger] objects[i]) is Sphere || *objects[i] is Quad
}

/// Spheres and quads narrow.
pub proof fn lemma_spheres_and_quads_narrow(
    objects: Seq<Arc<Hittable>>,
    r: &Ray,
    ray_t: &Interval,
)
    requires
        all_spheres_and_quads(objects),
    ensures
        all_narrow(objects, r, ray_t),
{
    assert forall|i: int| 0 <= i < objects.len() implies narrows(#[trigger] objects[i], r, ray_t) by {
        if *objects[i] is Sphere {
            lemma_sphere_narrows(objects[i], r, ray_t);
        } else {
            lemma_quad_narrows(objects[i], r, ray_t);
        }
    }
}

/// A tree over spheres and quads finds the hit that a scan of them finds,
/// for every ray and range for which the box of each of them holds its
/// hits: both find a nearest hit, one exactly when the other does and at the
/// same ray parameter, and the same record whenever no two of the surfaces
/// that are hit at the same parameter give different records.
pub proof fn theorem_tree_matches_scan_of_spheres_and_quads(
    node: &BvhNode,
    objects: Seq<Arc<Hittable>>,
    r: &Ray,
    ray_t: &Interval,
)
    requires
        node.is_built_from(objects),
        all_spheres_and_quads(objects),
        all_enclosed(objects, r, ray_t),
    ensures
        is_nearest(objects, r, ray_t, node.spec_hit(r, ray_t)),
        is_nearest(objects, r, ray_t, HittableList::scan(objects, r, ray_t, objects.len())),
        node.spec_hit(r, ray_t) is Some <==> HittableList::scan(
            objects,
            r,
            ray_t,
            objects.len(),
        ) is Some,
        node.spec_hit(r, ray_t) matches Some(a) ==> a.t@ == HittableList::scan(
            objects,
            r,
            ray_t,
            objects.len(),
        ).unwrap().t@,
        ties_agree(objects, r, ray_t) ==> node.spec_hit(r, ray_t) == HittableList::scan(
            objects,
            r,
            ray_t,
            objects.len(),
        ),
{
    lemma_spheres_and_quads_narrow(objects, r, ray_t);
    theorem_tree_matches_scan(node, objects, r, ray_t);
}

/// What a tree finds is the hit on one of the surfaces it was built over,
/// at or before the cut.
pub open spec fn found_among(
    res: Option<HitRecord>,
    objects: Seq<Arc<Hittable>>,
    r: &Ray,
    ray_t: &Interval,
    m: Fixed,
) -> bool {
    res matches Some(h) ==> h.t@ <= m@ && exists|i: int|
        0 <= i < objects.len() && (#[trigger] objects[i]).spec_hit(r, ray_t) == Some(h)
}

/// Whatever the boxes, a tree searched within a cut range finds nothing but
/// the hit on one of the surfaces it was built over.
pub proof fn lemma_tree_finds_among(
    node: &BvhNode,
    objects: Seq<Arc<Hittable>>,
    r: &Ray,
    ray_t: &Interval,
    m: Fixed,
)
    requires
        node.is_built_from(objects),
        all_narrow(objects, r, ray_t),
        m@ <= ray_t.max@,
    ensures
        found_among(node.spec_hit(r, &cut(ray_t, m)), objects, r, ray_t, m),
    decreases node,
{
    let c = cut(ray_t, m);
    if node.bbox.spec_hit(r, c) {
        let on_left = node.left.spec_hit(r, &c);
        let m2 = next_cut(on_left, m);
        assert(spec_narrowed(&c, on_left) == cut(ray_t, m2));
        let on_right = node.right.spec_hit(r, &cut(ray_t, m2));
        assert(node.spec_hit(r, &c) == spec_later(on_left, on_right));
        if objects.len() <= 2 {
            assert(objects.contains(node.left) && objects.contains(node.right)) by {
                if objects.len() == 1 {
                    assert(objects[0] == node.left);
                } else {
                    assert(objects[0] == node.left || objects[1] == node.left);
                    assert(objects[0] == node.right || objects[1] == node.right);
                }
            }
            let kl = choose|k: int| 0 <= k < objects.len() && objects[k] == node.left;
            let kr = choose|k: int| 0 <= k < objects.len() && objects[k] == node.right;
            assert(narrows(objects[kl], r, ray_t));
            assert(narrows(objects[kr], r, ray_t));
            assert(narrows_at(objects[kl], r, ray_t, m));
            assert(narrows_at(objects[kr], r, ray_t, m2));
        } else {
            let axis = BvhNode::spec_split_axis(objects);
            let order = choose|order: Seq<usize>| #[trigger]
                is_stable_order(BvhNode::spec_keys(objects, axis), order) && node.is_split_of(
                    BvhNode::spec_rearranged(objects, order),
                );
            let sorted = BvhNode::spec_rearranged(objects, order);
            let mid = (sorted.len() / 2) as int;
            let a = sorted.subrange(0, mid);
            let b = sorted.subrange(mid, sorted.len() as int);
            let l = match *node.left {
                Hittable::Bvh(l) => l,
                _ => arbitrary(),
            };
            let rr = match *node.right {
                Hittable::Bvh(rr) => rr,
                _ => arbitrary(),
            };
            assert(all_narrow(a, r, ray_t)) by {
                assert forall|i: int| 0 <= i < a.len() implies narrows(#[trigger] a[i], r, ray_t) by {
                    assert(a[i] == objects[order[i] as int]);
                }
            }
            assert(all_narrow(b, r, ray_t)) by {
                assert forall|i: int| 0 <= i < b.len() implies narrows(#[trigger] b[i], r, ray_t) by {
                    assert(b[i] == objects[order[i + mid] as int]);
                }
            }
            lemma_tree_finds_among(&l, a, r, ray_t, m);
            assert(on_left == l.spec_hit(r, &c));
            lemma_tree_finds_among(&rr, b, r, ray_t, m2);
            assert(on_right == rr.spec_hit(r, &cut(ray_t, m2)));
            match on_right {
                Some(h) => {
                    let i = choose|i: int|
                        0 <= i < b.len() && (#[trigger] b[i]).spec_hit(r, ray_t) == Some(h);
                    assert(b[i] == objects[order[i + mid] as int]);
                },
                None => {
                    match on_left {
                        Some(h) => {
                            let i = choose|i: int|
                                0 <= i < a.len() && (#[trigger] a[i]).spec_hit(r, ray_t) == Some(h);
                            assert(a[i] == objects[order[i] as int]);
                        },
                        None => {},
                    }
                },
            }
        }
    }
}

/// A tree invents nothing. For a tree built over surfaces that narrow,
/// whatever their boxes hold: a hit that the tree finds is the hit on one of
/// the surfaces, and a scan of the surfaces finds a hit too, at that ray
/// parameter or before it.
pub proof fn theorem_tree_finds_no_more_than_scan(
    node: &BvhNode,
    objects: Seq<Arc<Hittable>>,
    r: &Ray,
    ray_t: &Interval,
)
    requires
        node.is_built_from(objects),
        all_narrow(objects, r, ray_t),
    ensures
        node.spec_hit(r, ray_t) matches Some(h) ==> {
            &&& exists|i: int|
                0 <= i < objects.len() && (#[trigger] objects[i]).spec_hit(r, ray_t) == Some(h)
            &&& HittableList::scan(objects, r, ray_t, objects.len()) matches Some(g) && g.t@
                <= h.t@
        },
{
    lemma_tree_finds_among(node, objects, r, ray_t, ray_t.max);
    assert(cut(ray_t, ray_t.max) == *ray_t);
    lemma_scan_finds_nearest(objects, r, ray_t, objects.len());
    assert(objects.subrange(0, objects.len() as int) =~= objects);
    match node.spec_hit(r, ray_t) {
        Some(h) => {
            let i = choose|i: int|
                0 <= i < objects.len() && (#[trigger] objects[i]).spec_hit(r, ray_t) == Some(h);
            assert(objects[i].spec_hit(r, ray_t) is Some);
        },
        None => {},
    }
}

} // verus!
