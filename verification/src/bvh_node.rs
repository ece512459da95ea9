//! Bounding volume hierarchies: binary trees of boxes over surfaces.
use vstd::prelude::*;
use std::sync::Arc;
use crate::aabb::Aabb;
use crate::hittable::{HitRecord, Hittable, share};
use crate::hittable_list::{HittableList, narrowed, spec_later, spec_narrowed};
use crate::sort::{is_stable_order, stable_order};
use crate::interval::Interval;
use crate::ray::Ray;

verus! {

/// A node of the tree: two surfaces, each a leaf or a node, and a box that
/// holds the boxes of both.
#[derive(Clone)]
pub struct BvhNode {
    pub left: Arc<Hittable>,
    pub right: Arc<Hittable>,
    pub bbox: Aabb,
}

/// Whether every entry of `a` is an entry of `b`.
pub open spec fn drawn_from(a: Seq<Arc<Hittable>>, b: Seq<Arc<Hittable>>) -> bool {
    forall|i: int| 0 <= i < a.len() ==> b.contains(#[trigger] a[i])
}

impl BvhNode {
    /// The number by which a surface is ordered along an axis: the raw count
    /// of the least coordinate of its box on that axis.
    #[verifier::opaque]
    pub open spec fn spec_axis_key(h: &Hittable, axis: usize) -> i64 {
        h.spec_bounding_box().spec_axis_interval(axis).min.to_raw()
    }

    /// The number by which a surface is ordered along an axis.
    pub fn axis_key(h: &Hittable, axis: usize) -> (k: i64)
        ensures
            k == BvhNode::spec_axis_key(h, axis),
    {
        reveal(BvhNode::spec_axis_key);
        h.bounding_box().axis_interval(axis).min.to_raw()
    }

    /// Whether `a` comes before `b` along the axis: whether its box starts
    /// at a smaller coordinate.
    pub fn box_compare(a: &Arc<Hittable>, b: &Arc<Hittable>, axis_index: usize) -> (before: bool)
        ensures
            before == (BvhNode::spec_axis_key(a, axis_index) < BvhNode::spec_axis_key(
                b,
                axis_index,
            )),
    {
        BvhNode::axis_key(a, axis_index) < BvhNode::axis_key(b, axis_index)
    }

    /// The ordering numbers of the surfaces along an axis.
    pub open spec fn spec_keys(objects: Seq<Arc<Hittable>>, axis: usize) -> Seq<i64> {
        Seq::new(objects.len(), |i: int| BvhNode::spec_axis_key(&objects[i], axis))
    }

    /// The surfaces in the order that `order` lists their positions in.
    pub open spec fn spec_rearranged(objects: Seq<Arc<Hittable>>, order: Seq<usize>) -> Seq<
        Arc<Hittable>,
    > {
        Seq::new(order.len(), |i: int| objects[order[i] as int])
    }

    /// The axis along which the surfaces are split: the longest axis of the
    /// box that holds them all.
    #[verifier::opaque]
    pub open spec fn spec_split_axis(objects: Seq<Arc<Hittable>>) -> usize {
        HittableList::spec_bbox_of(objects, objects.len()).spec_longest_axis() as usize
    }

    /// Whether the tree is the one built over `objects`, which are one or
    /// more surfaces:
    /// - over one surface, a node with that surface on both sides and its
    ///   box;
    /// - over two, a node with the two surfaces, the one that comes first
    ///   along the split axis on the left, and the box of both;
    /// - over more, a node whose children are the trees built over the first
    ///   half and over the rest of the surfaces in stable order along the
    ///   split axis, the first half being the shorter when the count is odd,
    ///   with the box of the boxes of both children.
    pub open spec fn is_built_from(&self, objects: Seq<Arc<Hittable>>) -> bool
        decreases self,
    {
        if objects.len() == 0 {
            false
        } else if objects.len() == 1 {
            &&& self.left == objects[0]
            &&& self.right == objects[0]
            &&& self.bbox == objects[0].spec_bounding_box()
        } else if objects.len() == 2 {
            let axis = BvhNode::spec_split_axis(objects);
            let swap = BvhNode::spec_axis_key(&objects[1], axis) < BvhNode::spec_axis_key(
                &objects[0],
                axis,
            );
            &&& self.left == (if swap {
                objects[1]
            } else {
                objects[0]
            })
            &&& self.right == (if swap {
                objects[0]
            } else {
                objects[1]
            })
            &&& self.bbox == Aabb::spec_new_aabb(
                &objects[0].spec_bounding_box(),
                &objects[1].spec_bounding_box(),
            )
        } else {
            exists|order: Seq<usize>| #[trigger]
                is_stable_order(
                    BvhNode::spec_keys(objects, BvhNode::spec_split_axis(objects)),
                    order,
                ) && self.is_split_of(BvhNode::spec_rearranged(objects, order))
        }
    }

    /// Whether the children of the node are the trees built over the first
    /// half of `sorted` and over the rest, and its box the box of both.
    pub open spec fn is_split_of(&self, sorted: Seq<Arc<Hittable>>) -> bool
        decreases self, 0nat,
    {
        let mid = sorted.len() / 2;
        &&& *self.left matches Hittable::Bvh(l)
        &&& *self.right matches Hittable::Bvh(r)
        &&& l.is_built_from(sorted.subrange(0, mid as int))
        &&& r.is_built_from(sorted.subrange(mid as int, sorted.len() as int))
        &&& self.bbox == Aabb::spec_new_aabb(&l.bbox, &r.bbox)
    }

    /// The tree over the surfaces of a list, which must hold at least one.
    pub fn new_list(list: &HittableList) -> (node: Self)
        requires
            0 < list.objects@.len() <= i32::MAX,
        ensures
            node.is_built_from(list.objects@),
    {
        let mut objects: Vec<Arc<Hittable>> = Vec::with_capacity(list.objects.len());
        let mut i: usize = 0;
        while i < list.objects.len()
            invariant
                i <= list.objects@.len(),
                objects@ == list.objects@.subrange(0, i as int),
            decreases list.objects@.len() - i,
        {
            objects.push(share(&list.objects[i]));
            assert(objects@ =~= list.objects@.subrange(0, i + 1));
            i += 1;
        }
        assert(objects@ =~= list.objects@);
        assert(objects@.subrange(0, objects@.len() as int) =~= objects@);
        BvhNode::new(&mut objects, 0, list.objects.len() as i32)
    }

    /// The axis along which `objects[s..e]` are split.
    fn split_axis(objects: &Vec<Arc<Hittable>>, s: usize, e: usize) -> (axis: usize)
        requires
            s <= e <= objects@.len(),
        ensures
            axis == BvhNode::spec_split_axis(objects@.subrange(s as int, e as int)),
    {
        reveal(BvhNode::spec_split_axis);
        let ghost span_seq = objects@.subrange(s as int, e as int);
        let mut bbox = Aabb::empty();
        let mut i: usize = s;
        while i < e
            invariant
                s <= i <= e <= objects@.len(),
                span_seq == objects@.subrange(s as int, e as int),
                bbox == HittableList::spec_bbox_of(span_seq, (i - s) as nat),
            decreases e - i,
        {
            assert(span_seq[i - s] == objects@[i as int]);
            bbox = Aabb::new_aabb(&bbox, objects[i].bounding_box());
            i += 1;
        }
        bbox.longest_axis() as usize
    }

    /// The node over the one surface `objects[s]`.
    fn leaf_node(objects: &Vec<Arc<Hittable>>, s: usize) -> (node: Self)
        requires
            s < objects@.len(),
        ensures
            node.is_built_from(objects@.subrange(s as int, s + 1)),
    {
        assert(objects@.subrange(s as int, s + 1)[0] == objects@[s as int]);
        BvhNode {
            left: share(&objects[s]),
            right: share(&objects[s]),
            bbox: *objects[s].bounding_box(),
        }
    }

    /// The node over the two surfaces `objects[s]` and `objects[s + 1]`.
    fn pair_node(objects: &Vec<Arc<Hittable>>, s: usize) -> (node: Self)
        requires
            s + 1 < objects@.len(),
        ensures
            node.is_built_from(objects@.subrange(s as int, s + 2)),
    {
        let len: usize = objects.len();
        assert(s + 2 <= len);
        let axis: usize = BvhNode::split_axis(objects, s, s + 2);
        assert(objects@.subrange(s as int, s + 2)[0] == objects@[s as int]);
        assert(objects@.subrange(s as int, s + 2)[1] == objects@[s + 1]);
        let swap = BvhNode::box_compare(&objects[s + 1], &objects[s], axis);
        let bbox = Aabb::new_aabb(objects[s].bounding_box(), objects[s + 1].bounding_box());
        if swap {
            BvhNode { left: share(&objects[s + 1]), right: share(&objects[s]), bbox }
        } else {
            BvhNode { left: share(&objects[s]), right: share(&objects[s + 1]), bbox }
        }
    }

    /// Puts `objects[s..e]` in stable order along the axis and returns the
    /// order: the position in the span that each surface came from.
    fn arrange(objects: &mut Vec<Arc<Hittable>>, s: usize, e: usize, axis: usize) -> (order: Vec<
        usize,
    >)
        requires
            s <= e <= old(objects)@.len(),
        ensures
            is_stable_order(
                BvhNode::spec_keys(old(objects)@.subrange(s as int, e as int), axis),
                order@,
            ),
            final(objects)@.len() == old(objects)@.len(),
            final(objects)@.subrange(s as int, e as int) == BvhNode::spec_rearranged(
                old(objects)@.subrange(s as int, e as int),
                order@,
            ),
            forall|i: int|
                0 <= i < s || e <= i < old(objects)@.len() ==> final(objects)@[i] == old(
                    objects,
                )@[i],
    {
        let ghost orig = objects@;
        let ghost span_seq = orig.subrange(s as int, e as int);
        let object_span: usize = e - s;
        let mut keys: Vec<i64> = Vec::with_capacity(object_span);
        let mut j: usize = 0;
        while j < object_span
            invariant
                j <= object_span,
                object_span == e - s,
                e <= objects@.len(),
                objects@ == orig,
                span_seq == orig.subrange(s as int, e as int),
                keys@ == BvhNode::spec_keys(span_seq, axis).subrange(0, j as int),
            decreases object_span - j,
        {
            assert(span_seq[j as int] == objects@[s + j]);
            keys.push(BvhNode::axis_key(&objects[s + j], axis));
            assert(keys@ =~= BvhNode::spec_keys(span_seq, axis).subrange(0, j + 1));
            j += 1;
        }
        assert(keys@ =~= BvhNode::spec_keys(span_seq, axis));
        let order = stable_order(&keys);
        let ghost sorted_seq = BvhNode::spec_rearranged(span_seq, order@);
        let mut sorted: Vec<Arc<Hittable>> = Vec::with_capacity(object_span);
        let mut j: usize = 0;
        while j < object_span
            invariant
                j <= object_span,
                object_span == e - s,
                e <= objects@.len(),
                objects@ == orig,
                span_seq == orig.subrange(s as int, e as int),
                order@.len() == object_span,
                forall|p: int| 0 <= p < order@.len() ==> 0 <= #[trigger] order@[p] < object_span,
                sorted_seq == BvhNode::spec_rearranged(span_seq, order@),
                sorted@ == sorted_seq.subrange(0, j as int),
            decreases object_span - j,
        {
            let from: usize = order[j];
            assert(span_seq[from as int] == objects@[s + from]);
            sorted.push(share(&objects[s + from]));
            assert(sorted@ =~= sorted_seq.subrange(0, j + 1));
            j += 1;
        }
        assert(sorted@ =~= sorted_seq);
        let mut j: usize = 0;
        while j < object_span
            invariant
                j <= object_span,
                object_span == e - s,
                e <= objects@.len(),
                objects@.len() == orig.len(),
                sorted@ == sorted_seq,
                sorted_seq.len() == object_span,
                forall|i: int| 0 <= i < s || e <= i < orig.len() ==> objects@[i] == orig[i],
                forall|i: int| 0 <= i < j ==> objects@[s + i] == sorted_seq[i],
            decreases object_span - j,
        {
            objects.set(s + j, share(&sorted[j]));
            j += 1;
        }
        assert(objects@.subrange(s as int, e as int) =~= sorted_seq);
        order
    }

    /// Whether `after` is how the building of a tree leaves a span that held
    /// `before`: a span of one or two surfaces stays as it is; a longer one
    /// is put in stable order along its split axis, and then its first half
    /// and the rest are each left as the building of their trees leaves
    /// them.
    pub open spec fn is_left_as(before: Seq<Arc<Hittable>>, after: Seq<Arc<Hittable>>) -> bool
        decreases before.len(),
    {
        if before.len() <= 2 {
            after == before
        } else {
            exists|order: Seq<usize>| #[trigger]
                is_stable_order(BvhNode::spec_keys(before, BvhNode::spec_split_axis(before)), order)
                    && BvhNode::is_left_in_halves(BvhNode::spec_rearranged(before, order), after)
        }
    }

    /// Whether `after` holds the first half of `sorted` and the rest of it,
    /// each as the building of its tree leaves it.
    pub open spec fn is_left_in_halves(sorted: Seq<Arc<Hittable>>, after: Seq<Arc<Hittable>>)
        -> bool
        decreases sorted.len(), 0nat,
    {
        let mid = (sorted.len() / 2) as int;
        &&& sorted.len() >= 3
        &&& after.len() == sorted.len()
        &&& BvhNode::is_left_as(sorted.subrange(0, mid), after.subrange(0, mid))
        &&& BvhNode::is_left_as(
            sorted.subrange(mid, sorted.len() as int),
            after.subrange(mid, after.len() as int),
        )
    }

    /// The tree over `objects[start..end]`, a span of at least one surface.
    /// The surfaces of the span are rearranged in the vector as the tree is
    /// built, level by level, as [`BvhNode::is_left_as`] states: the span
    /// holds the same surfaces after as before, each as often. The vector
    /// keeps its length, and the rest of it stays as it was.
    pub fn new(objects: &mut Vec<Arc<Hittable>>, start: i32, end: i32) -> (node: Self)
        requires
            0 <= start < end <= old(objects)@.len(),
        ensures
            node.is_built_from(old(objects)@.subrange(start as int, end as int)),
            final(objects)@.len() == old(objects)@.len(),
            forall|i: int|
                0 <= i < start || end <= i < old(objects)@.len() ==> final(objects)@[i] == old(
                    objects,
                )@[i],
            final(objects)@.subrange(start as int, end as int).to_multiset() == old(
                objects,
            )@.subrange(start as int, end as int).to_multiset(),
            BvhNode::is_left_as(
                old(objects)@.subrange(start as int, end as int),
                final(objects)@.subrange(start as int, end as int),
            ),
        decreases end - start,
    {
        let s: usize = start as usize;
        let e: usize = end as usize;
        let ghost orig = objects@;
        let ghost span_seq = orig.subrange(s as int, e as int);
        let object_span: usize = e - s;
        if object_span == 1 {
            BvhNode::leaf_node(objects, s)
        } else if object_span == 2 {
            BvhNode::pair_node(objects, s)
        } else {
            let axis: usize = BvhNode::split_axis(objects, s, e);
            let order = BvhNode::arrange(objects, s, e, axis);
            let ghost sorted_seq = BvhNode::spec_rearranged(span_seq, order@);
            let ghost arranged = objects@;
            let half: usize = object_span / 2;
            let mid: usize = s + half;
            assert(arranged.subrange(s as int, mid as int) =~= sorted_seq.subrange(0, half as int));
            assert(arranged.subrange(mid as int, e as int) =~= sorted_seq.subrange(
                half as int,
                object_span as int,
            ));
            let left = BvhNode::new(objects, start, mid as i32);
            let ghost after_left = objects@;
            assert(after_left.subrange(mid as int, e as int) =~= arranged.subrange(
                mid as int,
                e as int,
            ));
            let right = BvhNode::new(objects, mid as i32, end);
            let bbox = Aabb::new_aabb(left.bounding_box(), right.bounding_box());
            proof {
                let whole = objects@.subrange(s as int, e as int);
                let first = whole.subrange(0, half as int);
                let second = whole.subrange(half as int, whole.len() as int);
                assert(first =~= after_left.subrange(s as int, mid as int));
                assert(second =~= objects@.subrange(mid as int, e as int));
                assert(whole =~= first + second);
                assert(sorted_seq =~= sorted_seq.subrange(0, half as int) + sorted_seq.subrange(
                    half as int,
                    object_span as int,
                ));
                vstd::seq_lib::lemma_multiset_commutative(first, second);
                vstd::seq_lib::lemma_multiset_commutative(
                    sorted_seq.subrange(0, half as int),
                    sorted_seq.subrange(half as int, object_span as int),
                );
                assert(sorted_seq =~= crate::sort::rearranged(span_seq, order@));
                crate::sort::lemma_rearranged_multiset(
                    span_seq,
                    BvhNode::spec_keys(span_seq, axis),
                    order@,
                );
                assert(BvhNode::is_left_in_halves(sorted_seq, whole));
            }
            let node = BvhNode {
                left: Arc::new(Hittable::Bvh(left)),
                right: Arc::new(Hittable::Bvh(right)),
                bbox,
            };
            assert(node.is_split_of(sorted_seq));
            node
        }
    }

    /// No surface of the tree draws random numbers when it is tested.
    pub open spec fn deterministic(&self) -> bool
        decreases self,
    {
        self.left.deterministic() && self.right.deterministic()
    }

    /// Every material in the tree is non-negative.
    pub open spec fn non_negative(&self) -> bool
        decreases self,
    {
        self.left.non_negative() && self.right.non_negative()
    }

    /// The nearest hit in the tree: none when the ray misses the box; else
    /// the left child is tested within `ray_t`, then the right child within
    /// `ray_t` cut short at the hit on the left, and the later find is kept.
    pub open spec fn spec_hit(&self, r: &Ray, ray_t: &Interval) -> Option<HitRecord>
        decreases self,
    {
        if !self.bbox.spec_hit(r, *ray_t) {
            None
        } else {
            let on_left = self.left.spec_hit(r, ray_t);
            spec_later(on_left, self.right.spec_hit(r, &spec_narrowed(ray_t, on_left)))
        }
    }

    /// Whether `res` can come out of [`BvhNode::hit`]: nothing when the ray
    /// misses the box, else the later of what can come out of the left child
    /// and what can come out of the right child within `ray_t` cut short at
    /// the hit on the left.
    pub open spec fn can_hit(&self, r: &Ray, ray_t: &Interval, res: Option<HitRecord>) -> bool
        decreases self,
    {
        if !self.bbox.spec_hit(r, *ray_t) {
            res is None
        } else {
            exists|on_left: Option<HitRecord>, on_right: Option<HitRecord>|
                self.left.can_hit(r, ray_t, on_left) && self.right.can_hit(
                    r,
                    &spec_narrowed(ray_t, on_left),
                    on_right,
                ) && res == #[trigger] spec_later(on_left, on_right)
        }
    }

    /// The nearest hit in the tree within `ray_t`.
    pub fn hit(&self, r: &Ray, ray_t: &Interval) -> (res: Option<HitRecord>)
        ensures
            self.can_hit(r, ray_t, res),
            self.deterministic() ==> res == self.spec_hit(r, ray_t),
            self.deterministic() ==> (res matches Some(h) ==> ray_t.contains(h.t)),
            res matches Some(h) ==> h.mat is Some,
            self.non_negative() ==> (res matches Some(h) ==> h.mat.unwrap().non_negative()),
        decreases self,
    {
        if !self.bbox.hit(r, *ray_t) {
            return None;
        }
        let on_left = self.left.hit(r, ray_t);
        let range = narrowed(ray_t, &on_left);
        let on_right = self.right.hit(r, &range);
        let ghost l = on_left;
        let ghost rr = on_right;
        let res = if on_right.is_some() {
            on_right
        } else {
            on_left
        };
        assert(self.left.can_hit(r, ray_t, l) && self.right.can_hit(r, &spec_narrowed(ray_t, l), rr)
            && res == spec_later(l, rr));
        res
    }

    pub fn bounding_box(&self) -> (b: &Aabb)
        ensures
            *b == self.bbox,
    {
        &self.bbox
    }
}

/// The tree over given surfaces is fixed by them: two trees built over
/// the same surfaces in the same order are the same tree.
pub proof fn lemma_built_tree_unique(a: &BvhNode, b: &BvhNode, objects: Seq<Arc<Hittable>>)
    requires
        a.is_built_from(objects),
        b.is_built_from(objects),
    ensures
        *a == *b,
    decreases a,
{
    if objects.len() >= 3 {
        let keys = BvhNode::spec_keys(objects, BvhNode::spec_split_axis(objects));
        let first = choose|order: Seq<usize>| #[trigger]
            is_stable_order(keys, order) && a.is_split_of(BvhNode::spec_rearranged(objects, order));
        let second = choose|order: Seq<usize>| #[trigger]
            is_stable_order(keys, order) && b.is_split_of(BvhNode::spec_rearranged(objects, order));
        crate::sort::lemma_stable_order_unique(keys, first, second);
        let sorted = BvhNode::spec_rearranged(objects, first);
        let mid = (sorted.len() / 2) as int;
        let al = match *a.left {
            Hittable::Bvh(l) => l,
            _ => arbitrary(),
        };
        let ar = match *a.right {
            Hittable::Bvh(r) => r,
            _ => arbitrary(),
        };
        let bl = match *b.left {
            Hittable::Bvh(l) => l,
            _ => arbitrary(),
        };
        let br = match *b.right {
            Hittable::Bvh(r) => r,
            _ => arbitrary(),
        };
        lemma_built_tree_unique(&al, &bl, sorted.subrange(0, mid));
        lemma_built_tree_unique(&ar, &br, sorted.subrange(mid, sorted.len() as int));
    }
}

/// How the building of a tree leaves a span is fixed by the span: it is
/// left in one order only.
pub proof fn lemma_left_as_unique(
    before: Seq<Arc<Hittable>>,
    first: Seq<Arc<Hittable>>,
    second: Seq<Arc<Hittable>>,
)
    requires
        BvhNode::is_left_as(before, first),
        BvhNode::is_left_as(before, second),
    ensures
        first == second,
    decreases before.len(),
{
    if before.len() >= 3 {
        let keys = BvhNode::spec_keys(before, BvhNode::spec_split_axis(before));
        let o1 = choose|order: Seq<usize>| #[trigger]
            is_stable_order(keys, order) && BvhNode::is_left_in_halves(
                BvhNode::spec_rearranged(before, order),
                first,
            );
        let o2 = choose|order: Seq<usize>| #[trigger]
            is_stable_order(keys, order) && BvhNode::is_left_in_halves(
                BvhNode::spec_rearranged(before, order),
                second,
            );
        crate::sort::lemma_stable_order_unique(keys, o1, o2);
        let sorted = BvhNode::spec_rearranged(before, o1);
        let mid = (sorted.len() / 2) as int;
        lemma_left_as_unique(sorted.subrange(0, mid), first.subrange(0, mid), second.subrange(0, mid));
        lemma_left_as_unique(
            sorted.subrange(mid, sorted.len() as int),
            first.subrange(mid, first.len() as int),
            second.subrange(mid, second.len() as int),
        );
        assert(first =~= first.subrange(0, mid) + first.subrange(mid, first.len() as int));
        assert(second =~= second.subrange(0, mid) + second.subrange(mid, second.len() as int));
    }
}

} // verus!
