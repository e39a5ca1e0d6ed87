//! Putting things in order: by a number, the largest first, and by a text,
//! in the order of the characters. Things that are equal keep their order.

use vstd::prelude::*;
use crate::names::as_ints;
use crate::text::chars_of;

verus! {

/// Where something with the number `key` goes among those in `order`:
/// behind everything whose number is at least as large.
pub open spec fn slot_down(order: Seq<int>, keys: Seq<u32>, key: u32) -> int
    decreases order.len(),
{
    if order.len() > 0 && keys[order.last()] < key {
        slot_down(order.drop_last(), keys, key)
    } else {
        order.len() as int
    }
}

/// The positions of the first `upto` numbers, the largest number first;
/// equal numbers keep their order.
pub open spec fn largest_first(keys: Seq<u32>, upto: int) -> Seq<int>
    decreases upto,
{
    if upto <= 0 {
        Seq::<int>::empty()
    } else {
        let before = largest_first(keys, upto - 1);
        before.insert(slot_down(before, keys, keys[upto - 1]), upto - 1)
    }
}

proof fn lemma_slot_down_bounds(order: Seq<int>, keys: Seq<u32>, key: u32)
    ensures
        0 <= slot_down(order, keys, key) <= order.len(),
    decreases order.len(),
{
    if order.len() > 0 && keys[order.last()] < key {
        lemma_slot_down_bounds(order.drop_last(), keys, key);
    }
}

/// In a sorted order, everything from the slot on is smaller than the key
/// and everything before it is at least as large.
proof fn lemma_slot_down_splits(order: Seq<int>, keys: Seq<u32>, key: u32)
    requires
        forall|a: int, b: int| 0 <= a < b < order.len() ==> keys[order[a]] >= keys[order[b]],
    ensures
        forall|k: int| slot_down(order, keys, key) <= k < order.len() ==> keys[order[k]] < key,
        forall|k: int| 0 <= k < slot_down(order, keys, key) ==> keys[order[k]] >= key,
    decreases order.len(),
{
    if order.len() > 0 && keys[order.last()] < key {
        let rest = order.drop_last();
        lemma_slot_down_bounds(rest, keys, key);
        assert forall|a: int, b: int| 0 <= a < b < rest.len() implies keys[rest[a]]
            >= keys[rest[b]] by {
            assert(rest[a] == order[a] && rest[b] == order[b]);
        }
        lemma_slot_down_splits(rest, keys, key);
        assert(slot_down(order, keys, key) == slot_down(rest, keys, key));
        assert forall|k: int| slot_down(order, keys, key) <= k < order.len() implies keys[order[k]]
            < key by {
            if k < rest.len() {
                assert(rest[k] == order[k]);
                assert(keys[rest[k]] < key);
            } else {
                assert(order[k] == order.last());
            }
        }
        assert forall|k: int| 0 <= k < slot_down(order, keys, key) implies keys[order[k]]
            >= key by {
            assert(rest[k] == order[k]);
            assert(keys[rest[k]] >= key);
        }
    } else if order.len() > 0 {
        let last = order.len() - 1;
        assert(order[last] == order.last());
        assert forall|k: int| 0 <= k < order.len() implies keys[order[k]] >= key by {
            if k < last {
                assert(keys[order[k]] >= keys[order[last]]);
            }
        }
    }
}

/// The order holds every position once, and nothing stands before
/// something larger.
pub proof fn law_largest_first_sorts(keys: Seq<u32>, upto: int)
    requires
        0 <= upto <= keys.len(),
    ensures
        largest_first(keys, upto).len() == upto,
        forall|k: int| 0 <= k < upto ==> 0 <= #[trigger] largest_first(keys, upto)[k] < upto,
        forall|p: int| 0 <= p < upto ==> largest_first(keys, upto).contains(p),
        forall|a: int, b: int|
            0 <= a < b < upto ==> keys[largest_first(keys, upto)[a]] >= keys[largest_first(
                keys,
                upto,
            )[b]],
    decreases upto,
{
    if upto > 0 {
        law_largest_first_sorts(keys, upto - 1);
        let before = largest_first(keys, upto - 1);
        let key = keys[upto - 1];
        let at = slot_down(before, keys, key);
        lemma_slot_down_bounds(before, keys, key);
        lemma_slot_down_splits(before, keys, key);
        let after = largest_first(keys, upto);
        assert(after == before.insert(at, upto - 1));
        assert forall|p: int| 0 <= p < upto implies after.contains(p) by {
            if p == upto - 1 {
                assert(after[at] == p);
            } else {
                assert(before.contains(p));
                let k = choose|k: int| 0 <= k < before.len() && before[k] == p;
                if k < at {
                    assert(after[k] == p);
                } else {
                    assert(after[k + 1] == p);
                }
            }
        }
        assert forall|a: int, b: int| 0 <= a < b < upto implies keys[after[a]] >= keys[after[b]] by {
            let ia = if a < at {
                a
            } else {
                a - 1
            };
            let ib = if b < at {
                b
            } else {
                b - 1
            };
            if a == at {
                assert(after[b] == before[b - 1]);
            } else if b == at {
                assert(after[a] == before[a]);
            } else {
                assert(after[a] == before[ia]);
                assert(after[b] == before[ib]);
            }
        }
    }
}

/// The positions of `keys`, the largest number first.
pub fn order_largest_first(keys: &Vec<u32>) -> (order: Vec<usize>)
    ensures
        as_ints(order@) == largest_first(keys@, keys@.len() as int),
        order@.len() == keys@.len(),
        forall|k: int| 0 <= k < order@.len() ==> order@[k] < keys@.len(),
{
    let mut order: Vec<usize> = Vec::new();
    let mut i: usize = 0;
    while i < keys.len()
        invariant
            i <= keys.len(),
            order@.len() == i,
            as_ints(order@) == largest_first(keys@, i as int),
            forall|k: int| 0 <= k < order@.len() ==> order@[k] < i,
        decreases keys.len() - i,
    {
        let ghost before = as_ints(order@);
        let key = keys[i];
        let mut at: usize = order.len();
        assert(before.take(at as int) =~= before);
        while at > 0 && keys[order[at - 1]] < key
            invariant
                at <= order@.len(),
                i < keys.len(),
                key == keys@[i as int],
                before == as_ints(order@),
                forall|k: int| 0 <= k < order@.len() ==> order@[k] < i,
                slot_down(before, keys@, key) == slot_down(before.take(at as int), keys@, key),
            decreases at,
        {
            assert(before.take(at as int).drop_last() =~= before.take(at - 1));
            at -= 1;
        }
        order.insert(at, i);
        i += 1;
    }
    order
}

/// Whether `a` comes before `b` in the order of their characters.
pub open spec fn comes_before(a: Seq<char>, b: Seq<char>) -> bool
    decreases a.len(),
{
    if b.len() == 0 {
        false
    } else if a.len() == 0 {
        true
    } else if a[0] != b[0] {
        a[0] < b[0]
    } else {
        comes_before(a.drop_first(), b.drop_first())
    }
}

/// Where `a` does not come after `b`, nor `b` after `c`, `a` does not come
/// after `c`.
pub proof fn lemma_order_carries(a: Seq<char>, b: Seq<char>, c: Seq<char>)
    requires
        !comes_before(b, a),
        !comes_before(c, b),
    ensures
        !comes_before(c, a),
    decreases a.len(),
{
    if c.len() == 0 {
        assert(b.len() == 0);
        assert(a.len() == 0);
    } else if a.len() > 0 {
        assert(b.len() > 0);
        if a[0] == b[0] && b[0] == c[0] {
            lemma_order_carries(a.drop_first(), b.drop_first(), c.drop_first());
        }
    }
}

/// Whether `a` comes before `b` in the order of their characters.
pub fn str_lt(a: &str, b: &str) -> (before: bool)
    ensures
        before == comes_before(a@, b@),
{
    let x = chars_of(a);
    let y = chars_of(b);
    let mut i: usize = 0;
    assert(x@.skip(0) =~= x@);
    assert(y@.skip(0) =~= y@);
    loop
        invariant
            x@ == a@,
            y@ == b@,
            i <= x.len(),
            i <= y.len(),
            comes_before(a@, b@) == comes_before(x@.skip(i as int), y@.skip(i as int)),
        decreases x.len() - i,
    {
        if i == y.len() {
            return false;
        }
        if i == x.len() {
            return true;
        }
        if x[i] != y[i] {
            return x[i] < y[i];
        }
        assert(x@.skip(i as int).drop_first() =~= x@.skip(i + 1));
        assert(y@.skip(i as int).drop_first() =~= y@.skip(i + 1));
        i += 1;
    }
}

/// Where the text `key` goes among those in `order`: behind every text that
/// does not come after it.
pub open spec fn slot_up(order: Seq<int>, keys: Seq<Seq<char>>, key: Seq<char>) -> int
    decreases order.len(),
{
    if order.len() > 0 && comes_before(key, keys[order.last()]) {
        slot_up(order.drop_last(), keys, key)
    } else {
        order.len() as int
    }
}

/// The positions of the first `upto` texts in the order of the texts; equal
/// texts keep their order.
pub open spec fn in_text_order(keys: Seq<Seq<char>>, upto: int) -> Seq<int>
    decreases upto,
{
    if upto <= 0 {
        Seq::<int>::empty()
    } else {
        let before = in_text_order(keys, upto - 1);
        before.insert(slot_up(before, keys, keys[upto - 1]), upto - 1)
    }
}

proof fn lemma_slot_up_bounds(order: Seq<int>, keys: Seq<Seq<char>>, key: Seq<char>)
    ensures
        0 <= slot_up(order, keys, key) <= order.len(),
    decreases order.len(),
{
    if order.len() > 0 && comes_before(key, keys[order.last()]) {
        lemma_slot_up_bounds(order.drop_last(), keys, key);
    }
}

/// In a sorted order, the key comes before everything from its slot on and
/// after nothing before it.
proof fn lemma_slot_up_splits(order: Seq<int>, keys: Seq<Seq<char>>, key: Seq<char>)
    requires
        forall|a: int, b: int|
            0 <= a < b < order.len() ==> !comes_before(keys[order[b]], keys[order[a]]),
    ensures
        forall|k: int|
            slot_up(order, keys, key) <= k < order.len() ==> comes_before(key, keys[order[k]]),
        forall|k: int| 0 <= k < slot_up(order, keys, key) ==> !comes_before(key, keys[order[k]]),
    decreases order.len(),
{
    if order.len() > 0 && comes_before(key, keys[order.last()]) {
        let rest = order.drop_last();
        lemma_slot_up_bounds(rest, keys, key);
        assert forall|a: int, b: int| 0 <= a < b < rest.len() implies !comes_before(
            keys[rest[b]],
            keys[rest[a]],
        ) by {
            assert(rest[a] == order[a] && rest[b] == order[b]);
        }
        lemma_slot_up_splits(rest, keys, key);
        assert(slot_up(order, keys, key) == slot_up(rest, keys, key));
        assert forall|k: int| slot_up(order, keys, key) <= k < order.len() implies comes_before(
            key,
            keys[order[k]],
        ) by {
            if k < rest.len() {
                assert(rest[k] == order[k]);
                assert(comes_before(key, keys[rest[k]]));
            } else {
                assert(order[k] == order.last());
            }
        }
        assert forall|k: int| 0 <= k < slot_up(order, keys, key) implies !comes_before(
            key,
            keys[order[k]],
        ) by {
            assert(rest[k] == order[k]);
            assert(!comes_before(key, keys[rest[k]]));
        }
    } else if order.len() > 0 {
        let last = order.len() - 1;
        assert(order[last] == order.last());
        assert forall|k: int| 0 <= k < order.len() implies !comes_before(key, keys[order[k]]) by {
            if k < last {
                assert(!comes_before(keys[order[last]], keys[order[k]]));
                lemma_order_carries(keys[order[k]], keys[order[last]], key);
            }
        }
    }
}

/// The order holds every position once, and no text stands before one that
/// comes before it.
pub proof fn law_text_order_sorts(keys: Seq<Seq<char>>, upto: int)
    requires
        0 <= upto <= keys.len(),
    ensures
        in_text_order(keys, upto).len() == upto,
        forall|k: int| 0 <= k < upto ==> 0 <= #[trigger] in_text_order(keys, upto)[k] < upto,
        forall|p: int| 0 <= p < upto ==> in_text_order(keys, upto).contains(p),
        forall|a: int, b: int|
            0 <= a < b < upto ==> !comes_before(
                keys[in_text_order(keys, upto)[b]],
                keys[in_text_order(keys, upto)[a]],
            ),
    decreases upto,
{
    if upto > 0 {
        law_text_order_sorts(keys, upto - 1);
        let before = in_text_order(keys, upto - 1);
        let key = keys[upto - 1];
        let at = slot_up(before, keys, key);
        lemma_slot_up_bounds(before, keys, key);
        lemma_slot_up_splits(before, keys, key);
        let after = in_text_order(keys, upto);
        assert(after == before.insert(at, upto - 1));
        assert forall|p: int| 0 <= p < upto implies after.contains(p) by {
            if p == upto - 1 {
                assert(after[at] == p);
            } else {
                assert(before.contains(p));
                let k = choose|k: int| 0 <= k < before.len() && before[k] == p;
                if k < at {
                    assert(after[k] == p);
                } else {
                    assert(after[k + 1] == p);
                }
            }
        }
        assert forall|a: int, b: int| 0 <= a < b < upto implies !comes_before(
            keys[after[b]],
            keys[after[a]],
        ) by {
            let ia = if a < at {
                a
            } else {
                a - 1
            };
            let ib = if b < at {
                b
            } else {
                b - 1
            };
            if a == at {
                assert(after[b] == before[b - 1]);
                assert(comes_before(key, keys[before[b - 1]]));
                lemma_not_both(key, keys[before[b - 1]]);
            } else if b == at {
                assert(after[a] == before[a]);
            } else {
                assert(after[a] == before[ia]);
                assert(after[b] == before[ib]);
            }
        }
    }
}

/// Of two texts, at most one comes before the other.
pub proof fn lemma_not_both(a: Seq<char>, b: Seq<char>)
    requires
        comes_before(a, b),
    ensures
        !comes_before(b, a),
    decreases a.len(),
{
    if a.len() > 0 && b.len() > 0 && a[0] == b[0] {
        lemma_not_both(a.drop_first(), b.drop_first());
    }
}

/// The positions of `keys` in the order of the texts.
pub fn order_by_text(keys: &Vec<String>) -> (order: Vec<usize>)
    ensures
        as_ints(order@) == in_text_order(keys.deep_view(), keys@.len() as int),
        order@.len() == keys@.len(),
        forall|k: int| 0 <= k < order@.len() ==> order@[k] < keys@.len(),
{
    let ghost texts = keys.deep_view();
    let mut order: Vec<usize> = Vec::new();
    let mut i: usize = 0;
    while i < keys.len()
        invariant
            i <= keys.len(),
            texts == keys.deep_view(),
            order@.len() == i,
            as_ints(order@) == in_text_order(texts, i as int),
            forall|k: int| 0 <= k < order@.len() ==> order@[k] < i,
        decreases keys.len() - i,
    {
        let ghost before = as_ints(order@);
        let key = keys[i].as_str();
        let mut at: usize = order.len();
        assert(before.take(at as int) =~= before);
        while at > 0 && str_lt(key, keys[order[at - 1]].as_str())
            invariant
                at <= order@.len(),
                i < keys.len(),
                texts == keys.deep_view(),
                key@ == texts[i as int],
                before == as_ints(order@),
                forall|k: int| 0 <= k < order@.len() ==> order@[k] < i,
                slot_up(before, texts, key@) == slot_up(before.take(at as int), texts, key@),
            decreases at,
        {
            assert(before.take(at as int).drop_last() =~= before.take(at - 1));
            at -= 1;
        }
        order.insert(at, i);
        i += 1;
    }
    order
}

} // verus!
