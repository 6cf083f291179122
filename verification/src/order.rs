//! Sorting that keeps the order of what ranks the same.

use std::collections::VecDeque;
use vstd::prelude::*;

verus! {

/// Values that rank before and behind each other, by what they stand for.
pub trait Ranked: View + Sized {
    /// Whether `a` ranks before `b`.
    spec fn ranks_before(a: Self::V, b: Self::V) -> bool;

    /// Whether `self` ranks before `other`.
    fn goes_before(&self, other: &Self) -> (before: bool)
        ensures
            before == Self::ranks_before(self@, other@),
    ;

    /// No two values rank before each other.
    proof fn rank_is_asymmetric(a: Self::V, b: Self::V)
        ensures
            !(Self::ranks_before(a, b) && Self::ranks_before(b, a)),
    ;

    /// What does not rank before `b`, which does not rank before `a`, does not rank before `a`.
    proof fn rank_is_transitive(a: Self::V, b: Self::V, c: Self::V)
        requires
            !Self::ranks_before(b, a),
            !Self::ranks_before(c, b),
        ensures
            !Self::ranks_before(c, a),
    ;
}

/// What the items stand for.
pub open spec fn views<T: View>(items: Seq<T>) -> Seq<T::V> {
    items.map_values(|item: T| item@)
}

/// Whether neither of the two ranks before the other.
pub open spec fn same_rank<T: Ranked>(a: T::V, b: T::V) -> bool {
    !T::ranks_before(a, b) && !T::ranks_before(b, a)
}

/// The values that rank the same as `x`.
pub open spec fn peers_of<T: Ranked>(x: T::V) -> spec_fn(T::V) -> bool {
    |e: T::V| same_rank::<T>(e, x)
}

/// Whether no item ranks before an earlier one.
pub open spec fn in_order<T: Ranked>(items: Seq<T::V>) -> bool {
    forall|i: int, j: int|
        0 <= i < j < items.len() ==> !T::ranks_before(#[trigger] items[j], #[trigger] items[i])
}

/// Whether `a` and `b` hold the same items, those that rank the same in the same order.
pub open spec fn same_peers<T: Ranked>(a: Seq<T::V>, b: Seq<T::V>) -> bool {
    forall|x: T::V| a.filter(#[trigger] peers_of::<T>(x)) == b.filter(peers_of::<T>(x))
}

/// Whether `sorted` is `items`, sorted, with what ranks the same in the order of `items`.
pub open spec fn sorted_from<T: Ranked>(items: Seq<T::V>, sorted: Seq<T::V>) -> bool {
    in_order::<T>(sorted) && same_peers::<T>(items, sorted)
}

proof fn peers_include_self<T: Ranked>(x: T::V)
    ensures
        peers_of::<T>(x)(x),
{
    T::rank_is_asymmetric(x, x);
}

pub(crate) proof fn filtered_comes_from<T>(items: Seq<T>, keep: spec_fn(T) -> bool, x: T)
    requires
        items.filter(keep).contains(x),
    ensures
        items.contains(x),
    decreases items.len(),
{
    reveal(Seq::filter);
    if items.len() > 0 {
        if keep(items.last()) && items.last() == x {
            assert(items[items.len() - 1] == x);
        } else {
            let front = items.drop_last();
            if keep(items.last()) {
                let k = items.filter(keep).index_of(x);
                assert(front.filter(keep)[k] == x);
            }
            filtered_comes_from(front, keep, x);
            let k = front.index_of(x);
            assert(items[k] == x);
        }
    }
}

proof fn last_is_kept<T>(items: Seq<T>, keep: spec_fn(T) -> bool)
    requires
        items.len() > 0,
        keep(items.last()),
    ensures
        items.filter(keep) == items.drop_last().filter(keep).push(items.last()),
{
    reveal(Seq::filter);
}

/// There is only one way to sort: two sequences that are both sorted from the same items are
/// equal.
pub proof fn sorting_is_unique<T: Ranked>(items: Seq<T::V>, a: Seq<T::V>, b: Seq<T::V>)
    requires
        sorted_from::<T>(items, a),
        sorted_from::<T>(items, b),
    ensures
        a == b,
{
    assert(same_peers::<T>(a, b)) by {
        assert forall|x: T::V| a.filter(#[trigger] peers_of::<T>(x)) == b.filter(peers_of::<T>(x)) by {
            assert(items.filter(peers_of::<T>(x)) == a.filter(peers_of::<T>(x)));
        }
    }
    same_order_same_items::<T>(a, b);
}

/// Sorting neither adds an item nor loses one.
pub proof fn sorting_keeps_items<T: Ranked>(items: Seq<T::V>, sorted: Seq<T::V>, x: T::V)
    requires
        sorted_from::<T>(items, sorted),
    ensures
        items.contains(x) <==> sorted.contains(x),
{
    let keep = peers_of::<T>(x);
    peers_include_self::<T>(x);
    assert(items.filter(keep) == sorted.filter(keep));
    if items.contains(x) {
        kept_if_there(items, keep, x);
        filtered_comes_from(sorted, keep, x);
    }
    if sorted.contains(x) {
        kept_if_there(sorted, keep, x);
        filtered_comes_from(items, keep, x);
    }
}

proof fn kept_if_there<T>(items: Seq<T>, keep: spec_fn(T) -> bool, x: T)
    requires
        items.contains(x),
        keep(x),
    ensures
        items.filter(keep).contains(x),
    decreases items.len(),
{
    reveal(Seq::filter);
    let front = items.drop_last();
    if items.last() == x {
        assert(items.filter(keep).last() == x);
    } else {
        let i = items.index_of(x);
        assert(front[i] == x);
        kept_if_there(front, keep, x);
        let k = front.filter(keep).index_of(x);
        assert(items.filter(keep)[k] == x);
    }
}

proof fn ends_rank_no_later<T: Ranked>(a: Seq<T::V>, b: Seq<T::V>)
    requires
        in_order::<T>(b),
        same_peers::<T>(a, b),
        a.len() > 0,
    ensures
        b.len() > 0,
        !T::ranks_before(b.last(), a.last()),
{
    let x = a.last();
    peers_include_self::<T>(x);
    last_is_kept(a, peers_of::<T>(x));
    assert(a.filter(peers_of::<T>(x)).last() == x);
    assert(b.filter(peers_of::<T>(x)).contains(x));
    filtered_comes_from(b, peers_of::<T>(x), x);
    let k = b.index_of(x);
    assert(b[k] == x);
    if k == b.len() - 1 {
        T::rank_is_asymmetric(x, x);
    }
}

proof fn same_order_same_items<T: Ranked>(a: Seq<T::V>, b: Seq<T::V>)
    requires
        in_order::<T>(a),
        in_order::<T>(b),
        same_peers::<T>(a, b),
    ensures
        a == b,
    decreases a.len(),
{
    if a.len() == 0 {
        if b.len() > 0 {
            assert(same_peers::<T>(b, a));
            ends_rank_no_later::<T>(b, a);
        }
        assert(a == b);
    } else {
        assert(same_peers::<T>(b, a));
        ends_rank_no_later::<T>(a, b);
        ends_rank_no_later::<T>(b, a);
        let x = a.last();
        let y = b.last();
        peers_include_self::<T>(x);
        last_is_kept(a, peers_of::<T>(x));
        last_is_kept(b, peers_of::<T>(x));
        assert(a.filter(peers_of::<T>(x)) == b.filter(peers_of::<T>(x)));
        assert(a.filter(peers_of::<T>(x)).last() == x);
        assert(b.filter(peers_of::<T>(x)).last() == y);
        let a1 = a.drop_last();
        let b1 = b.drop_last();
        assert(same_peers::<T>(a1, b1)) by {
            assert forall|z: T::V| a1.filter(#[trigger] peers_of::<T>(z)) == b1.filter(peers_of::<T>(z)) by {
                reveal(Seq::filter);
                assert(a.filter(peers_of::<T>(z)) == b.filter(peers_of::<T>(z)));
                if peers_of::<T>(z)(x) {
                    last_is_kept(a, peers_of::<T>(z));
                    last_is_kept(b, peers_of::<T>(z));
                    assert(a.filter(peers_of::<T>(z)).drop_last() == a1.filter(peers_of::<T>(z)));
                    assert(b.filter(peers_of::<T>(z)).drop_last() == b1.filter(peers_of::<T>(z)));
                }
            }
        }
        same_order_same_items::<T>(a1, b1);
        assert(a == a1.push(x));
        assert(b == b1.push(y));
    }
}

proof fn none_kept<T>(items: Seq<T>, keep: spec_fn(T) -> bool)
    requires
        forall|i: int| 0 <= i < items.len() ==> !keep(#[trigger] items[i]),
    ensures
        items.filter(keep) == Seq::<T>::empty(),
    decreases items.len(),
{
    reveal(Seq::filter);
    if items.len() > 0 {
        let front = items.drop_last();
        assert forall|i: int| 0 <= i < front.len() implies !keep(#[trigger] front[i]) by {
            assert(front[i] == items[i]);
        }
        none_kept(front, keep);
        assert(items.last() == items[items.len() - 1]);
    }
}

proof fn one_kept_or_none<T>(item: T, keep: spec_fn(T) -> bool)
    ensures
        seq![item].filter(keep) == if keep(item) {
            seq![item]
        } else {
            Seq::<T>::empty()
        },
{
    reveal_with_fuel(Seq::filter, 2);
    assert(seq![item].drop_last() =~= Seq::<T>::empty());
    assert(Seq::<T>::empty().push(item) =~= seq![item]);
}

/// Taking the first of the right-hand items, where it ranks before all of the left-hand ones,
/// keeps what ranks the same in order.
proof fn taking_right_keeps_peers<T: Ranked>(out: Seq<T::V>, left: Seq<T::V>, right: Seq<T::V>)
    requires
        left.len() > 0,
        right.len() > 0,
        in_order::<T>(left),
        T::ranks_before(right[0], left[0]),
    ensures
        same_peers::<T>(out + left + right, out.push(right[0]) + left + right.skip(1)),
{
    let r = right[0];
    assert forall|x: T::V|
        (out + left + right).filter(#[trigger] peers_of::<T>(x)) == (out.push(r) + left + right.skip(
            1,
        )).filter(peers_of::<T>(x)) by {
        let keep = peers_of::<T>(x);
        Seq::filter_distributes_over_add(out + left, right, keep);
        Seq::filter_distributes_over_add(out, left, keep);
        Seq::filter_distributes_over_add(out.push(r) + left, right.skip(1), keep);
        Seq::filter_distributes_over_add(out.push(r), left, keep);
        assert(right == seq![r] + right.skip(1));
        Seq::filter_distributes_over_add(seq![r], right.skip(1), keep);
        assert(out.push(r) == out + seq![r]);
        Seq::filter_distributes_over_add(out, seq![r], keep);
        one_kept_or_none(r, keep);
        let o = out.filter(keep);
        let l = left.filter(keep);
        let t = right.skip(1).filter(keep);
        if keep(r) {
            assert forall|i: int| 0 <= i < left.len() implies !keep(#[trigger] left[i]) by {
                // `left[i]` ranks behind `r`, so it is no peer of `x`, which `r` is.
                if i > 0 {
                    assert(!T::ranks_before(left[i], left[0]));
                } else {
                    T::rank_is_asymmetric(left[0], left[0]);
                }
                if keep(left[i]) {
                    T::rank_is_transitive(left[0], left[i], x);
                    T::rank_is_transitive(left[0], x, r);
                }
            }
            none_kept(left, keep);
            assert(o + l + (seq![r] + t) =~= (o + seq![r]) + l + t);
        } else {
            assert(o + l + (Seq::<T::V>::empty() + t) =~= (o + Seq::<T::V>::empty()) + l + t);
        }
    }
}

fn merge<T: Ranked>(left: VecDeque<T>, right: VecDeque<T>) -> (merged: VecDeque<T>)
    requires
        in_order::<T>(views(left@)),
        in_order::<T>(views(right@)),
    ensures
        sorted_from::<T>(views(left@) + views(right@), views(merged@)),
{
    let ghost all = views(left@) + views(right@);
    let mut left: VecDeque<T> = left;
    let mut right: VecDeque<T> = right;
    let mut out: VecDeque<T> = VecDeque::new();
    assert(views(out@) + views(left@) + views(right@) =~= all);
    while left.len() > 0 && right.len() > 0
        invariant
            in_order::<T>(views(left@)),
            in_order::<T>(views(right@)),
            in_order::<T>(views(out@)),
            none_before::<T>(views(left@), views(out@)),
            none_before::<T>(views(right@), views(out@)),
            same_peers::<T>(all, views(out@) + views(left@) + views(right@)),
        decreases left@.len() + right@.len(),
    {
        let ghost l = views(left@);
        let ghost r = views(right@);
        let ghost o = views(out@);
        assert(l[0] == left@[0]@);
        assert(r[0] == right@[0]@);
        if right[0].goes_before(&left[0]) {
            proof {
                taking_right_keeps_peers::<T>(o, l, r);
                T::rank_is_asymmetric(r[0], l[0]);
                assert forall|j: int| 0 <= j < l.len() implies !T::ranks_before(
                    #[trigger] l[j],
                    r[0],
                ) by {
                    if j > 0 {
                        T::rank_is_transitive(r[0], l[0], l[j]);
                    }
                }
            }
            if let Some(item) = right.pop_front() {
                out.push_back(item);
            }
            proof {
                assert(views(right@) =~= r.skip(1));
                assert(views(left@) =~= l);
                assert(views(out@) =~= o.push(r[0]));
                assert forall|x: T::V|
                    all.filter(#[trigger] peers_of::<T>(x)) == (views(out@) + views(left@) + views(
                        right@,
                    )).filter(peers_of::<T>(x)) by {
                    assert(all.filter(peers_of::<T>(x)) == (o + l + r).filter(peers_of::<T>(x)));
                }
            }
        } else {
            proof {
                assert forall|j: int| 0 <= j < r.len() implies !T::ranks_before(
                    #[trigger] r[j],
                    l[0],
                ) by {
                    if j > 0 {
                        T::rank_is_transitive(l[0], r[0], r[j]);
                    }
                }
            }
            if let Some(item) = left.pop_front() {
                out.push_back(item);
            }
            assert(views(left@) =~= l.skip(1));
            assert(views(right@) =~= r);
            assert(views(out@) =~= o.push(l[0]));
            assert(views(out@) + views(left@) + views(right@) =~= o + l + r);
        }
    }
    let ghost l = views(left@);
    let ghost r = views(right@);
    let ghost o = views(out@);
    out.append(&mut left);
    out.append(&mut right);
    assert(views(out@) =~= o + l + r);
    out
}

/// Whether no item of `behind` ranks before an item of `ahead`.
spec fn none_before<T: Ranked>(behind: Seq<T::V>, ahead: Seq<T::V>) -> bool {
    forall|i: int, j: int|
        0 <= i < ahead.len() && 0 <= j < behind.len() ==> !T::ranks_before(
            #[trigger] behind[j],
            #[trigger] ahead[i],
        )
}

fn sort_deque<T: Ranked>(items: VecDeque<T>) -> (sorted: VecDeque<T>)
    ensures
        sorted_from::<T>(views(items@), views(sorted@)),
    decreases items@.len(),
{
    if items.len() <= 1 {
        return items;
    }
    let ghost all = views(items@);
    let mut left: VecDeque<T> = items;
    let middle: usize = left.len() / 2;
    let right: VecDeque<T> = left.split_off(middle);
    let ghost l = views(left@);
    let ghost r = views(right@);
    assert(all =~= l + r);
    let left: VecDeque<T> = sort_deque(left);
    let right: VecDeque<T> = sort_deque(right);
    let merged: VecDeque<T> = merge(left, right);
    assert forall|x: T::V|
        all.filter(#[trigger] peers_of::<T>(x)) == views(merged@).filter(peers_of::<T>(x)) by {
        let keep = peers_of::<T>(x);
        let sorted_l = views(left@);
        let sorted_r = views(right@);
        Seq::filter_distributes_over_add(l, r, keep);
        Seq::filter_distributes_over_add(sorted_l, sorted_r, keep);
        assert((sorted_l + sorted_r).filter(keep) == views(merged@).filter(keep));
        assert(l.filter(keep) == sorted_l.filter(keep));
        assert(r.filter(keep) == sorted_r.filter(keep));
    }
    merged
}

/// Sorts `items`. Items that rank the same stay in their order.
pub fn sort<T: Ranked>(items: Vec<T>) -> (sorted: Vec<T>)
    ensures
        sorted_from::<T>(views(items@), views(sorted@)),
{
    let ghost all = items@;
    let mut queue: VecDeque<T> = VecDeque::new();
    for item in it: items
        invariant
            it.seq() == all,
            queue@ == all.take(it.index()),
    {
        queue.push_back(item);
    }
    assert(queue@ =~= all);
    let mut queue: VecDeque<T> = sort_deque(queue);
    let ghost ordered = queue@;
    let mut sorted: Vec<T> = Vec::new();
    while queue.len() > 0
        invariant
            sorted@ + queue@ == ordered,
        decreases queue@.len(),
    {
        let ghost s = sorted@;
        let ghost q = queue@;
        if let Some(item) = queue.pop_front() {
            sorted.push(item);
        }
        assert(sorted@ + queue@ =~= s + q);
    }
    assert(sorted@ =~= ordered);
    sorted
}

/// What the items stand for is taken item by item.
pub proof fn views_are_those_of_the_items<T: View>(items: Seq<T>)
    ensures
        views(items).len() == items.len(),
        forall|i: int| 0 <= i < items.len() ==> #[trigger] views(items)[i] == items[i]@,
{
}

/// After sorting, nothing ranks before what stands before it, and what ranks the same stands in the
/// order that it had.
pub proof fn sorting_puts_in_order<T: Ranked>(items: Seq<T::V>, sorted: Seq<T::V>, x: T::V)
    requires
        sorted_from::<T>(items, sorted),
    ensures
        forall|i: int, j: int|
            0 <= i < j < sorted.len() ==> !T::ranks_before(
                #[trigger] sorted[j],
                #[trigger] sorted[i],
            ),
        items.filter(|e: T::V| !T::ranks_before(e, x) && !T::ranks_before(x, e)) == sorted.filter(
            |e: T::V| !T::ranks_before(e, x) && !T::ranks_before(x, e),
        ),
{
    let keep = |e: T::V| !T::ranks_before(e, x) && !T::ranks_before(x, e);
    assert(keep =~= peers_of::<T>(x));
    assert(items.filter(peers_of::<T>(x)) == sorted.filter(peers_of::<T>(x)));
}

proof fn filtering_keeps_how_often<T>(items: Seq<T>, keep: spec_fn(T) -> bool, x: T)
    requires
        keep(x),
    ensures
        items.filter(keep).to_multiset().count(x) == items.to_multiset().count(x),
    decreases items.len(),
{
    broadcast use vstd::seq_lib::group_to_multiset_ensures;

    reveal(Seq::filter);
    if items.len() > 0 {
        let front = items.drop_last();
        filtering_keeps_how_often(front, keep, x);
        assert(front.push(items.last()) =~= items);
        if keep(items.last()) {
            assert(items.filter(keep) =~= front.filter(keep).push(items.last()));
        }
    }
}

/// Sorting keeps how many items there are and how often each occurs.
pub proof fn sorting_keeps_how_often<T: Ranked>(items: Seq<T::V>, sorted: Seq<T::V>)
    requires
        sorted_from::<T>(items, sorted),
    ensures
        items.to_multiset() == sorted.to_multiset(),
        items.len() == sorted.len(),
{
    broadcast use vstd::seq_lib::group_to_multiset_ensures;

    assert forall|x: T::V| items.to_multiset().count(x) == sorted.to_multiset().count(x) by {
        let keep = peers_of::<T>(x);
        peers_include_self::<T>(x);
        assert(items.filter(keep) == sorted.filter(keep));
        filtering_keeps_how_often(items, keep, x);
        filtering_keeps_how_often(sorted, keep, x);
    }
    assert(items.to_multiset() =~= sorted.to_multiset());
    assert(items.to_multiset().len() == items.len());
    assert(sorted.to_multiset().len() == sorted.len());
}

} // verus!
