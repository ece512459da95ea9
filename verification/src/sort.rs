//! Stable ordering by integer keys.
use vstd::prelude::*;

verus! {

/// Whether position `x` comes before position `y` when positions are ordered
/// by key, and by position among equal keys.
pub open spec fn comes_before(keys: Seq<i64>, x: int, y: int) -> bool {
    keys[x] < keys[y] || (keys[x] == keys[y] && x < y)
}

/// Whether position `k` occurs in `order`.
pub open spec fn occurs(order: Seq<usize>, k: int) -> bool {
    exists|p: int| 0 <= p < order.len() && #[trigger] order[p] == k
}

/// Whether `order` lists the positions of `keys` by ascending key, positions
/// of equal keys in ascending order: every position occurs, and each entry
/// comes before the ones after it.
pub open spec fn is_stable_order(keys: Seq<i64>, order: Seq<usize>) -> bool {
    &&& order.len() == keys.len()
    &&& forall|p: int| 0 <= p < order.len() ==> 0 <= #[trigger] order[p] < keys.len()
    &&& forall|a: int, b: int|
        0 <= a < b < order.len() ==> comes_before(keys, #[trigger] order[a] as int, #[trigger] order[b] as int)
    &&& forall|k: int| 0 <= k < keys.len() ==> #[trigger] occurs(order, k)
}

/// The positions of `keys` by ascending key; positions of equal keys keep
/// their order.
pub fn stable_order(keys: &Vec<i64>) -> (order: Vec<usize>)
    ensures
        is_stable_order(keys@, order@),
{
    let n: usize = keys.len();
    let mut order: Vec<usize> = Vec::with_capacity(n);
    let mut i: usize = 0;
    while i < n
        invariant
            i <= n,
            n == keys@.len(),
            order@.len() == i,
            forall|p: int| 0 <= p < order@.len() ==> 0 <= #[trigger] order@[p] < i,
            forall|a: int, b: int|
                0 <= a < b < order@.len() ==> comes_before(
                    keys@,
                    #[trigger] order@[a] as int,
                    #[trigger] order@[b] as int,
                ),
            forall|k: int| 0 <= k < i ==> #[trigger] occurs(order@, k),
        decreases n - i,
    {
        let key: i64 = keys[i];
        let mut pos: usize = order.len();
        while pos > 0 && keys[order[pos - 1]] > key
            invariant
                pos <= order@.len(),
                order@.len() == i,
                i < n,
                n == keys@.len(),
                key == keys@[i as int],
                forall|p: int| 0 <= p < order@.len() ==> 0 <= #[trigger] order@[p] < i,
                forall|b: int| pos <= b < order@.len() ==> keys@[#[trigger] order@[b] as int] > key,
            decreases pos,
        {
            pos -= 1;
        }
        let ghost before = order@;
        assert forall|a: int| 0 <= a < pos implies keys@[#[trigger] before[a] as int] <= key by {
            assert(comes_before(keys@, before[a] as int, before[pos - 1] as int) || a == pos - 1);
        }
        order.insert(pos, i);
        proof {
            let after = order@;
            assert(after == before.insert(pos as int, i));
            assert forall|a: int, b: int| 0 <= a < b < after.len() implies comes_before(
                keys@,
                #[trigger] after[a] as int,
                #[trigger] after[b] as int,
            ) by {
                if b < pos {
                    assert(after[a] == before[a] && after[b] == before[b]);
                } else if b == pos {
                    assert(after[a] == before[a]);
                } else if a < pos {
                    assert(after[a] == before[a] && after[b] == before[b - 1]);
                } else if a == pos {
                    assert(after[b] == before[b - 1]);
                } else {
                    assert(after[a] == before[a - 1] && after[b] == before[b - 1]);
                }
            }
            assert forall|p: int| 0 <= p < after.len() implies 0 <= #[trigger] after[p] < i + 1 by {
                if p < pos {
                    assert(after[p] == before[p]);
                } else if p > pos {
                    assert(after[p] == before[p - 1]);
                }
            }
            assert forall|k: int| 0 <= k < i + 1 implies #[trigger] occurs(after, k) by {
                if k == i {
                    assert(after[pos as int] == k);
                } else {
                    assert(occurs(before, k));
                    let p0 = choose|p: int| 0 <= p < before.len() && #[trigger] before[p] == k;
                    if p0 < pos {
                        assert(after[p0] == k);
                    } else {
                        assert(after[p0 + 1] == before[p0]);
                        assert(after[p0 + 1] == k);
                    }
                }
            }
        }
        i += 1;
    }
    order
}

/// The items in the order that `order` lists their positions in.
pub open spec fn rearranged<T>(items: Seq<T>, order: Seq<usize>) -> Seq<T> {
    Seq::new(order.len(), |i: int| items[order[i] as int])
}

/// A stable order without the greatest position is a stable order of the
/// keys without the last.
pub proof fn lemma_stable_order_without_last(keys: Seq<i64>, order: Seq<usize>, p: int)
    requires
        keys.len() > 0,
        is_stable_order(keys, order),
        0 <= p < order.len(),
        order[p] == keys.len() - 1,
    ensures
        is_stable_order(keys.drop_last(), order.remove(p)),
{
    let n = keys.len() as int;
    let shorter = order.remove(p);
    let fewer_keys = keys.drop_last();
    assert forall|q: int| 0 <= q < shorter.len() implies 0 <= #[trigger] shorter[q] < n - 1 by {
        let from = if q < p { q } else { q + 1 };
        assert(shorter[q] == order[from]);
        if from < p {
            assert(comes_before(keys, order[from] as int, order[p] as int));
        } else {
            assert(comes_before(keys, order[p] as int, order[from] as int));
        }
    }
    assert forall|a: int, b: int| 0 <= a < b < shorter.len() implies comes_before(
        fewer_keys,
        #[trigger] shorter[a] as int,
        #[trigger] shorter[b] as int,
    ) by {
        let fa = if a < p { a } else { a + 1 };
        let fb = if b < p { b } else { b + 1 };
        assert(shorter[a] == order[fa] && shorter[b] == order[fb]);
        assert(comes_before(keys, order[fa] as int, order[fb] as int));
    }
    assert forall|k: int| 0 <= k < fewer_keys.len() implies #[trigger] occurs(shorter, k) by {
        assert(occurs(order, k));
        let q = choose|q: int| 0 <= q < order.len() && #[trigger] order[q] == k;
        if q < p {
            assert(shorter[q] == k);
        } else {
            assert(shorter[q - 1] == order[q]);
            assert(shorter[q - 1] == k);
        }
    }
}

/// Keys have one stable order: two orders that both list the positions by
/// ascending key, positions of equal keys in ascending order, are the same.
pub proof fn lemma_stable_order_unique(keys: Seq<i64>, first: Seq<usize>, second: Seq<usize>)
    requires
        is_stable_order(keys, first),
        is_stable_order(keys, second),
    ensures
        first == second,
    decreases keys.len(),
{
    let n = keys.len() as int;
    if n == 0 {
        assert(first =~= second);
    } else {
        let last = n - 1;
        assert(occurs(first, last));
        assert(occurs(second, last));
        let p1 = choose|p: int| 0 <= p < first.len() && #[trigger] first[p] == last;
        let p2 = choose|p: int| 0 <= p < second.len() && #[trigger] second[p] == last;
        lemma_stable_order_without_last(keys, first, p1);
        lemma_stable_order_without_last(keys, second, p2);
        lemma_stable_order_unique(keys.drop_last(), first.remove(p1), second.remove(p2));
        let rest = first.remove(p1);
        if p1 < p2 {
            assert(rest[p1] == first[p1 + 1]);
            assert(second.remove(p2)[p1] == second[p1]);
            assert(comes_before(keys, first[p1] as int, first[p1 + 1] as int));
            assert(comes_before(keys, second[p1] as int, second[p2] as int));
        } else if p2 < p1 {
            assert(second.remove(p2)[p2] == second[p2 + 1]);
            assert(rest[p2] == first[p2]);
            assert(comes_before(keys, second[p2] as int, second[p2 + 1] as int));
            assert(comes_before(keys, first[p2] as int, first[p1] as int));
        }
        assert(first =~= rest.insert(p1, last as usize));
        assert(second =~= second.remove(p2).insert(p2, last as usize));
    }
}

/// Items put in a stable order are the same items, each as often as before.
pub proof fn lemma_rearranged_multiset<T>(items: Seq<T>, keys: Seq<i64>, order: Seq<usize>)
    requires
        keys.len() == items.len(),
        is_stable_order(keys, order),
    ensures
        rearranged(items, order).to_multiset() == items.to_multiset(),
    decreases items.len(),
{
    let n = items.len() as int;
    if n == 0 {
        assert(rearranged(items, order) =~= items);
    } else {
        let last = n - 1;
        assert(occurs(order, last));
        let p = choose|p: int| 0 <= p < order.len() && #[trigger] order[p] == last;
        let shorter = order.remove(p);
        let fewer = items.drop_last();
        let fewer_keys = keys.drop_last();
        lemma_stable_order_without_last(keys, order, p);
        lemma_rearranged_multiset(fewer, fewer_keys, shorter);
        let rest = rearranged(fewer, shorter);
        assert(rearranged(items, order) =~= rest.insert(p, items[last])) by {
            assert forall|i: int| 0 <= i < order.len() implies rearranged(items, order)[i]
                == rest.insert(p, items[last])[i] by {
                if i < p {
                    assert(shorter[i] == order[i]);
                } else if i > p {
                    assert(shorter[i - 1] == order[i]);
                }
            }
        }
        vstd::seq_lib::to_multiset_insert(rest, p, items[last]);
        assert(items =~= fewer.push(items[last]));
        vstd::seq_lib::to_multiset_build(fewer, items[last]);
    }
}

} // verus!
