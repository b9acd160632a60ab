//! Stable ordering of a few items by a key of two numbers.

use vstd::prelude::*;

verus! {

/// What items are ordered by.
pub type Key = (usize, usize);

/// Whether an item with key `a` goes before every item with key `b`:
/// by the first number, then by the second; with `descending`, the larger first.
pub open spec fn key_before(a: Key, b: Key, descending: bool) -> bool {
    if descending {
        a.0 > b.0 || (a.0 == b.0 && a.1 > b.1)
    } else {
        a.0 < b.0 || (a.0 == b.0 && a.1 < b.1)
    }
}

/// Where item `x` goes into `order`: before the first item from `from` on
/// that it goes before, or at the end.
pub open spec fn insert_at(keys: Seq<Key>, order: Seq<usize>, x: int, descending: bool, from: int) -> int
    decreases order.len() - from,
{
    if from >= order.len() {
        order.len() as int
    } else if from >= 0 && key_before(keys[x], keys[order[from] as int], descending) {
        from
    } else {
        insert_at(keys, order, x, descending, from + 1)
    }
}

/// The first `n` items in the order of their keys; items with the same key
/// keep the order they have.
pub open spec fn stable_order(keys: Seq<Key>, n: nat, descending: bool) -> Seq<usize>
    decreases n,
{
    if n == 0 {
        Seq::empty()
    } else {
        let prev = stable_order(keys, (n - 1) as nat, descending);
        prev.insert(insert_at(keys, prev, n - 1, descending, 0), (n - 1) as usize)
    }
}

fn is_key_before(a: Key, b: Key, descending: bool) -> (r: bool)
    ensures
        r == key_before(a, b, descending),
{
    if descending {
        a.0 > b.0 || (a.0 == b.0 && a.1 > b.1)
    } else {
        a.0 < b.0 || (a.0 == b.0 && a.1 < b.1)
    }
}

/// The positions of `keys` in the order of the keys.
pub fn order_of(keys: &Vec<Key>, descending: bool) -> (order: Vec<usize>)
    ensures
        order@ == stable_order(keys@, keys@.len(), descending),
        order@.len() == keys@.len(),
        forall|i: int| 0 <= i < order@.len() ==> (#[trigger] order@[i]) < keys@.len(),
{
    let mut order: Vec<usize> = Vec::new();
    let mut x: usize = 0;
    while x < keys.len()
        invariant
            x <= keys.len(),
            order@ == stable_order(keys@, x as nat, descending),
            order@.len() == x,
            forall|i: int| 0 <= i < order@.len() ==> (#[trigger] order@[i]) < x,
        decreases keys.len() - x,
    {
        let mut at: usize = 0;
        while at < order.len() && !is_key_before(keys[x], keys[order[at]], descending)
            invariant
                x < keys.len(),
                at <= order.len(),
                order@.len() == x,
                forall|i: int| 0 <= i < order@.len() ==> (#[trigger] order@[i]) < x,
                insert_at(keys@, order@, x as int, descending, 0) == insert_at(
                    keys@,
                    order@,
                    x as int,
                    descending,
                    at as int,
                ),
            decreases order.len() - at,
        {
            at += 1;
        }
        let ghost prev = order@;
        order.insert(at, x);
        proof {
            assert forall|i: int| 0 <= i < order@.len() implies (#[trigger] order@[i]) < x + 1 by {
                if i < at {
                    assert(order@[i] == prev[i]);
                } else if i > at {
                    assert(order@[i] == prev[i - 1]);
                }
            }
        }
        x += 1;
    }
    order
}

} // verus!
