//! Ordering by time, and what filtering keeps.

use vstd::prelude::*;

use crate::protocol::Timestamp;

verus! {

/// `a` is a later time than `b`; any time is later than none.
pub open spec fn later(a: Option<Timestamp>, b: Option<Timestamp>) -> bool {
    match (a, b) {
        (Some(x), Some(y)) => x > y,
        (Some(_), None) => true,
        _ => false,
    }
}

/// In a list that leads with the newest, `i` comes before `j`: its time is
/// later, or the same and it stood first.
pub open spec fn leads(times: Seq<Option<Timestamp>>, i: int, j: int) -> bool {
    later(times[i], times[j]) || (times[i] == times[j] && i < j)
}

/// `order` lists every place once, the newest first.
pub open spec fn is_newest_first(times: Seq<Option<Timestamp>>, order: Seq<int>) -> bool {
    &&& order.len() == times.len()
    &&& forall|k: int| 0 <= k < order.len() ==> 0 <= (#[trigger] order[k]) < times.len()
    &&& forall|i: int| 0 <= i < times.len() ==> #[trigger] order.contains(i)
    &&& forall|a: int, b: int|
        0 <= a < b < order.len() ==> leads(times, #[trigger] order[a], #[trigger] order[b])
}

/// The items in the given order.
pub open spec fn arranged<A>(items: Seq<A>, order: Seq<int>) -> Seq<A> {
    Seq::new(order.len(), |k: int| items[order[k]])
}

/// `list` holds the items, the newest first.
pub open spec fn is_by_newest<A>(
    items: Seq<A>,
    time: spec_fn(A) -> Option<Timestamp>,
    list: Seq<A>,
) -> bool {
    exists|order: Seq<int>| #[trigger]
        is_newest_first(items.map_values(time), order) && list == arranged(items, order)
}

/// Places as integers.
pub open spec fn places(order: Seq<usize>) -> Seq<int> {
    order.map_values(|place: usize| place as int)
}

/// Whether `a` is a later time than `b`.
pub fn is_later(a: &Option<Timestamp>, b: &Option<Timestamp>) -> (yes: bool)
    ensures
        yes == later(*a, *b),
{
    match (a, b) {
        (Some(x), Some(y)) => *x > *y,
        (Some(_), None) => true,
        _ => false,
    }
}

/// The places of all times, the newest first.
pub fn newest_first(times: &Vec<Option<Timestamp>>) -> (order: Vec<usize>)
    ensures
        is_newest_first(times@, places(order@)),
{
    let mut order: Vec<usize> = Vec::new();
    let mut i: usize = 0;
    while i < times.len()
        invariant
            i <= times@.len(),
            order@.len() == i,
            forall|k: int| 0 <= k < order@.len() ==> (#[trigger] order@[k]) < i,
            forall|m: int| 0 <= m < i ==> #[trigger] places(order@).contains(m),
            forall|a: int, b: int|
                0 <= a < b < order@.len() ==> leads(
                    times@,
                    (#[trigger] order@[a]) as int,
                    (#[trigger] order@[b]) as int,
                ),
        decreases times@.len() - i,
    {
        let ghost before = order@;
        let mut pos: usize = order.len();
        while pos > 0 && is_later(&times[i], &times[order[pos - 1]])
            invariant
                pos <= order@.len(),
                i < times@.len(),
                order@ == before,
                forall|k: int| 0 <= k < order@.len() ==> (#[trigger] order@[k]) < i,
                forall|k: int|
                    pos <= k < order@.len() ==> later(
                        times@[i as int],
                        times@[(#[trigger] order@[k]) as int],
                    ),
            decreases pos,
        {
            pos -= 1;
        }
        order.insert(pos, i);
        proof {
            assert forall|m: int| 0 <= m < i + 1 implies #[trigger] places(order@).contains(m) by {
                if m == i {
                    assert(places(order@)[pos as int] == i);
                } else {
                    assert(places(before).contains(m));
                    let k = places(before).index_of(m);
                    assert(places(before)[k] == m);
                    if k < pos {
                        assert(places(order@)[k] == m);
                    } else {
                        assert(places(order@)[k + 1] == m);
                    }
                }
            }
            assert forall|a: int, b: int| 0 <= a < b < order@.len() implies leads(
                times@,
                (#[trigger] order@[a]) as int,
                (#[trigger] order@[b]) as int,
            ) by {
                let a2 = if a < pos {
                    a
                } else {
                    a - 1
                };
                let b2 = if b < pos {
                    b
                } else {
                    b - 1
                };
                if a == pos {
                    assert(order@[b] == before[b2]);
                } else if b == pos {
                    assert(order@[a] == before[a2]);
                    if a2 < pos - 1 {
                        assert(leads(times@, before[a2] as int, before[pos - 1] as int));
                    }
                } else {
                    assert(order@[a] == before[a2]);
                    assert(order@[b] == before[b2]);
                }
            }
            assert forall|k: int| 0 <= k < order@.len() implies (#[trigger] order@[k]) < i + 1 by {
                if k < pos {
                    assert(order@[k] == before[k]);
                } else if k > pos {
                    assert(order@[k] == before[k - 1]);
                }
            }
        }
        i += 1;
    }
    proof {
        let all = places(order@);
        assert forall|a: int, b: int| 0 <= a < b < all.len() implies leads(
            times@,
            #[trigger] all[a],
            #[trigger] all[b],
        ) by {
            assert(all[a] == order@[a] as int && all[b] == order@[b] as int);
        }
        assert forall|k: int| 0 <= k < all.len() implies 0 <= (#[trigger] all[k]) < times@.len() by {
            assert(all[k] == order@[k] as int);
        }
    }
    order
}

// ---------------------------------------------------------------------------
// Filtering
// ---------------------------------------------------------------------------

/// Where the items that pass the test stand.
pub open spec fn kept<A>(items: Seq<A>, test: spec_fn(A) -> bool) -> Seq<int>
    decreases items.len(),
{
    if items.len() == 0 {
        Seq::empty()
    } else {
        let rest = kept(items.drop_last(), test);
        if test(items.last()) {
            rest.push(items.len() - 1)
        } else {
            rest
        }
    }
}

/// Filtering keeps the items that pass, in their order.
pub proof fn lemma_filter_kept<A>(items: Seq<A>, test: spec_fn(A) -> bool)
    ensures
        items.filter(test).len() == kept(items, test).len(),
        forall|k: int|
            0 <= k < kept(items, test).len() ==> {
                &&& 0 <= (#[trigger] kept(items, test)[k]) < items.len()
                &&& items.filter(test)[k] == items[kept(items, test)[k]]
                &&& test(items[kept(items, test)[k]])
            },
        forall|a: int, b: int|
            0 <= a < b < kept(items, test).len() ==> (#[trigger] kept(items, test)[a]) < (
            #[trigger] kept(items, test)[b]),
        forall|i: int|
            0 <= i < items.len() && test(#[trigger] items[i]) ==> kept(items, test).contains(i),
    decreases items.len(),
{
    reveal(Seq::filter);
    if items.len() > 0 {
        let rest = items.drop_last();
        lemma_filter_kept(rest, test);
        let all = kept(items, test);
        let few = kept(rest, test);
        assert forall|k: int| 0 <= k < all.len() implies {
            &&& 0 <= (#[trigger] all[k]) < items.len()
            &&& items.filter(test)[k] == items[all[k]]
            &&& test(items[all[k]])
        } by {
            if k < few.len() {
                assert(all[k] == few[k]);
                assert(rest[few[k]] == items[few[k]]);
            }
        }
        assert forall|a: int, b: int| 0 <= a < b < all.len() implies (#[trigger] all[a]) < (
        #[trigger] all[b]) by {
            if b < few.len() {
                assert(few[a] < few[b]);
            } else {
                assert(all[a] == few[a]);
            }
        }
        assert forall|i: int| 0 <= i < items.len() && test(#[trigger] items[i]) implies all.contains(
            i,
        ) by {
            if i < rest.len() {
                assert(rest[i] == items[i]);
                let k = few.index_of(i);
                assert(all[k] == i);
            } else {
                assert(all[few.len() as int] == i);
            }
        }
    }
}

/// Filtering one item more.
pub proof fn lemma_filter_take<A>(items: Seq<A>, test: spec_fn(A) -> bool, n: int)
    requires
        0 <= n < items.len(),
    ensures
        items.take(n + 1).filter(test) == if test(items[n]) {
            items.take(n).filter(test).push(items[n])
        } else {
            items.take(n).filter(test)
        },
{
    reveal(Seq::filter);
    assert(items.take(n + 1).drop_last() =~= items.take(n));
}

} // verus!
