//! The order index of a book: every resting order is indexed at the price of its level, every
//! indexed id rests, and no id rests on both sides. Placing and cancelling keep it so.
use vstd::prelude::*;

use crate::level::{
    completed_ids, has_id, id_position, ids_increasing, match_from, min_u64, trade_event,
    LevelView,
};
use crate::model::{Order, OrderCommand, Side};
use crate::book::{
    book_after_cancel, book_after_match, book_after_place, book_with_rest, resting_order,
    side_after_cancel, taker_match, BookView,
};
use crate::laws::{book_valid, lemma_level_pos_exists};
use crate::side::{
    add_to_levels, better, crosses, has_level, lemma_level_at_price, level_pos, levels_ordered,
    match_levels,
};

verus! {

/// Ids of the orders of a queue from index `i` on.
pub open spec fn queue_ids(s: Seq<Order>, i: int) -> Set<u64> {
    Set::new(|id: u64| exists|q: int| i <= q < s.len() && s[q].order_id == id)
}

proof fn lemma_queue_ids_split(s: Seq<Order>, i: int)
    requires
        0 <= i < s.len(),
    ensures
        queue_ids(s, i) =~= queue_ids(s, i + 1).insert(s[i].order_id),
{
    assert forall|id: u64| queue_ids(s, i).contains(id) implies queue_ids(s, i + 1).insert(
        s[i].order_id,
    ).contains(id) by {
        let q = choose|q: int| i <= q < s.len() && s[q].order_id == id;
        if q > i {
            assert(queue_ids(s, i + 1).contains(id));
        }
    }
    assert forall|id: u64| queue_ids(s, i + 1).insert(s[i].order_id).contains(id) implies queue_ids(
        s,
        i,
    ).contains(id) by {
        if id != s[i].order_id {
            let q = choose|q: int| i + 1 <= q < s.len() && s[q].order_id == id;
        }
    }
}

proof fn lemma_queue_ids_prepend(o: Order, t: Seq<Order>)
    ensures
        queue_ids(seq![o].add(t), 0) =~= queue_ids(t, 0).insert(o.order_id),
{
    let s = seq![o].add(t);
    assert(s[0] == o);
    lemma_queue_ids_split(s, 0);
    assert forall|id: u64| queue_ids(s, 1).contains(id) <==> queue_ids(t, 0).contains(id) by {
        if queue_ids(s, 1).contains(id) {
            let q = choose|q: int| 1 <= q < s.len() && s[q].order_id == id;
            assert(s[q] == t[q - 1]);
        }
        if queue_ids(t, 0).contains(id) {
            let q = choose|q: int| 0 <= q < t.len() && t[q].order_id == id;
            assert(s[q + 1] == t[q]);
        }
    }
}

proof fn lemma_queue_ids_subrange(s: Seq<Order>, i: int)
    requires
        0 <= i <= s.len(),
    ensures
        queue_ids(s.subrange(i, s.len() as int), 0) =~= queue_ids(s, i),
{
    let t = s.subrange(i, s.len() as int);
    assert forall|id: u64| queue_ids(t, 0).contains(id) <==> queue_ids(s, i).contains(id) by {
        if queue_ids(t, 0).contains(id) {
            let q = choose|q: int| 0 <= q < t.len() && t[q].order_id == id;
            assert(t[q] == s[q + i]);
        }
        if queue_ids(s, i).contains(id) {
            let q = choose|q: int| i <= q < s.len() && s[q].order_id == id;
            assert(t[q - i] == s[q]);
        }
    }
}

/// Matching one queue takes out of it exactly the makers that its trades used up, and only
/// makers of the queue are used up.
pub proof fn lemma_match_from_ids(s: Seq<Order>, i: int, price: u64, r: u64)
    requires
        0 <= i <= s.len(),
        ids_increasing(s),
    ensures
        ({
            let m = match_from(s, i, price, r);
            &&& queue_ids(m.0, 0) =~= queue_ids(s, i).difference(completed_ids(m.1))
            &&& completed_ids(m.1).subset_of(queue_ids(s, i))
        }),
    decreases s.len() - i,
{
    let m = match_from(s, i, price, r);
    if i == s.len() {
        assert(completed_ids(m.1) =~= Set::<u64>::empty());
        assert(queue_ids(s, i) =~= Set::<u64>::empty());
        assert(queue_ids(m.0, 0) =~= Set::<u64>::empty());
    } else if r == 0 {
        assert(completed_ids(m.1) =~= Set::<u64>::empty());
        lemma_queue_ids_subrange(s, i);
    } else {
        lemma_queue_ids_split(s, i);
        assert(!queue_ids(s, i + 1).contains(s[i].order_id)) by {
            if queue_ids(s, i + 1).contains(s[i].order_id) {
                let q = choose|q: int| i + 1 <= q < s.len() && s[q].order_id == s[i].order_id;
                assert(s[i].order_id < s[q].order_id);
            }
        }
        {
            let o = s[i];
            let t = min_u64(r, o.size);
            let left = (r - t) as u64;
            let o2 = Order { size: (o.size - t) as u64, ..o };
            let ev = trade_event(o, price, t, left);
            let rest = match_from(s, i + 1, price, left);
            lemma_match_from_ids(s, i + 1, price, left);
            assert(m.1 == seq![ev].add(rest.1));
            crate::side::lemma_completed_ids_append(seq![ev], rest.1);
            if o2.size == 0 {
                assert(completed_ids(seq![ev]) =~= set![o.order_id]) by {
                    assert(seq![ev][0] == ev);
                }
            } else {
                assert(completed_ids(seq![ev]) =~= Set::<u64>::empty());
                lemma_queue_ids_prepend(o2, rest.0);
            }
        }
    }
}

/// Whether order `id` rests on one of the levels from index `i` on, and that level's price is
/// `p`.
pub open spec fn rests_from(ls: Seq<LevelView>, i: int, id: u64, p: u64) -> bool {
    exists|k: int| i <= k < ls.len() && ls[k].price == p && #[trigger] has_id(ls[k].orders, id)
}

/// Ids of the orders on the levels from index `i` on.
pub open spec fn side_ids_from(ls: Seq<LevelView>, i: int) -> Set<u64> {
    Set::new(|id: u64| exists|k: int| i <= k < ls.len() && #[trigger] has_id(ls[k].orders, id))
}

/// No id is found on two levels of a side, and within a level ids increase.
pub open spec fn side_ids_unique(ls: Seq<LevelView>) -> bool {
    &&& forall|k: int| 0 <= k < ls.len() ==> ids_increasing((#[trigger] ls[k]).orders)
    &&& forall|a: int, b: int, id: u64|
        0 <= a < ls.len() && 0 <= b < ls.len() && #[trigger] has_id(ls[a].orders, id)
            && #[trigger] has_id(ls[b].orders, id) ==> a == b
}

proof fn lemma_rests_split(ls: Seq<LevelView>, i: int)
    requires
        0 <= i < ls.len(),
    ensures
        forall|id: u64, p: u64|
            #[trigger] rests_from(ls, i, id, p) <==> (ls[i].price == p && has_id(ls[i].orders, id))
                || rests_from(ls, i + 1, id, p),
        side_ids_from(ls, i) =~= side_ids_from(ls, i + 1).union(queue_ids(ls[i].orders, 0)),
{
    assert forall|id: u64, p: u64|
        #[trigger] rests_from(ls, i, id, p) implies (ls[i].price == p && has_id(ls[i].orders, id))
            || rests_from(ls, i + 1, id, p) by {
        let k = choose|k: int|
            i <= k < ls.len() && ls[k].price == p && #[trigger] has_id(ls[k].orders, id);
        if k > i {
            assert(rests_from(ls, i + 1, id, p));
        }
    }
    assert forall|id: u64, p: u64|
        (ls[i].price == p && has_id(ls[i].orders, id)) || rests_from(ls, i + 1, id, p) implies #[trigger] rests_from(
        ls,
        i,
        id,
        p,
    ) by {
        if ls[i].price == p && has_id(ls[i].orders, id) {
        } else {
            let k = choose|k: int|
                i + 1 <= k < ls.len() && ls[k].price == p && #[trigger] has_id(ls[k].orders, id);
        }
    }
    assert forall|id: u64| side_ids_from(ls, i).contains(id) <==> side_ids_from(ls, i + 1).union(
        queue_ids(ls[i].orders, 0),
    ).contains(id) by {
        if side_ids_from(ls, i).contains(id) {
            let k = choose|k: int| i <= k < ls.len() && #[trigger] has_id(ls[k].orders, id);
            if k > i {
                assert(side_ids_from(ls, i + 1).contains(id));
            } else {
                let q = choose|q: int| 0 <= q < ls[i].orders.len() && ls[i].orders[q].order_id == id;
                assert(queue_ids(ls[i].orders, 0).contains(id));
            }
        }
        if side_ids_from(ls, i + 1).contains(id) {
            let k = choose|k: int| i + 1 <= k < ls.len() && #[trigger] has_id(ls[k].orders, id);
        }
        if queue_ids(ls[i].orders, 0).contains(id) {
            let q = choose|q: int| 0 <= q < ls[i].orders.len() && ls[i].orders[q].order_id == id;
            assert(has_id(ls[i].orders, id));
        }
    }
}

proof fn lemma_rests_prepend(l: LevelView, t: Seq<LevelView>)
    ensures
        forall|id: u64, p: u64|
            #[trigger] rests_from(seq![l].add(t), 0, id, p) <==> (l.price == p && has_id(
                l.orders,
                id,
            )) || rests_from(t, 0, id, p),
{
    let s = seq![l].add(t);
    assert(s[0] == l);
    lemma_rests_split(s, 0);
    assert forall|id: u64, p: u64| rests_from(s, 1, id, p) <==> rests_from(t, 0, id, p) by {
        if rests_from(s, 1, id, p) {
            let k = choose|k: int|
                1 <= k < s.len() && s[k].price == p && #[trigger] has_id(s[k].orders, id);
            assert(s[k] == t[k - 1]);
        }
        if rests_from(t, 0, id, p) {
            let k = choose|k: int|
                0 <= k < t.len() && t[k].price == p && #[trigger] has_id(t[k].orders, id);
            assert(s[k + 1] == t[k]);
        }
    }
}

proof fn lemma_rests_subrange(ls: Seq<LevelView>, i: int)
    requires
        0 <= i <= ls.len(),
    ensures
        forall|id: u64, p: u64|
            #[trigger] rests_from(ls.subrange(i, ls.len() as int), 0, id, p) <==> rests_from(
                ls,
                i,
                id,
                p,
            ),
{
    let t = ls.subrange(i, ls.len() as int);
    assert forall|id: u64, p: u64| #[trigger] rests_from(t, 0, id, p) <==> rests_from(ls, i, id, p) by {
        if rests_from(t, 0, id, p) {
            let k = choose|k: int|
                0 <= k < t.len() && t[k].price == p && #[trigger] has_id(t[k].orders, id);
            assert(t[k] == ls[k + i]);
        }
        if rests_from(ls, i, id, p) {
            let k = choose|k: int|
                i <= k < ls.len() && ls[k].price == p && #[trigger] has_id(ls[k].orders, id);
            assert(t[k - i] == ls[k]);
        }
    }
}

proof fn lemma_has_id_queue(s: Seq<Order>)
    ensures
        forall|id: u64| #[trigger] has_id(s, id) <==> queue_ids(s, 0).contains(id),
{
    assert forall|id: u64| #[trigger] has_id(s, id) <==> queue_ids(s, 0).contains(id) by {
        if has_id(s, id) {
            let q = choose|q: int| 0 <= q < s.len() && s[q].order_id == id;
        }
        if queue_ids(s, 0).contains(id) {
            let q = choose|q: int| 0 <= q < s.len() && s[q].order_id == id;
        }
    }
}

/// Matching a side takes out of it exactly the makers that its trades used up: an order
/// rests after matching, at the same price, exactly when it rested before and was not used
/// up; and only orders of the side are used up.
pub proof fn lemma_match_levels_ids(
    ls: Seq<LevelView>,
    i: int,
    taker_side: Side,
    taker_price: u64,
    r: u64,
)
    requires
        0 <= i <= ls.len(),
        side_ids_unique(ls),
    ensures
        ({
            let m = match_levels(ls, i, taker_side, taker_price, r);
            &&& forall|id: u64, p: u64|
                #![trigger rests_from(m.0, 0, id, p)]
                #![trigger rests_from(ls, i, id, p)]
                rests_from(m.0, 0, id, p) <==> rests_from(ls, i, id, p) && !completed_ids(
                    m.1,
                ).contains(id)
            &&& completed_ids(m.1).subset_of(side_ids_from(ls, i))
        }),
    decreases ls.len() - i,
{
    let m = match_levels(ls, i, taker_side, taker_price, r);
    if i == ls.len() {
        assert(completed_ids(m.1) =~= Set::<u64>::empty());
        assert forall|id: u64, p: u64| !rests_from(m.0, 0, id, p) && !rests_from(ls, i, id, p) by {}
    } else if r == 0 || !crosses(taker_side, taker_price, ls[i].price) {
        assert(completed_ids(m.1) =~= Set::<u64>::empty());
        lemma_rests_subrange(ls, i);
    } else {
        let lv = ls[i];
        let mf = match_from(lv.orders, 0, lv.price, r);
        let rest = match_levels(ls, i + 1, taker_side, taker_price, mf.2);
        lemma_match_from_ids(lv.orders, 0, lv.price, r);
        lemma_match_levels_ids(ls, i + 1, taker_side, taker_price, mf.2);
        crate::side::lemma_completed_ids_append(mf.1, rest.1);
        assert(m.1 == mf.1.add(rest.1));
        lemma_rests_split(ls, i);
        lemma_has_id_queue(lv.orders);
        lemma_has_id_queue(mf.0);
        let nl = LevelView { price: lv.price, orders: mf.0 };
        if mf.0.len() == 0 {
            assert(m.0 == rest.0);
            assert(queue_ids(mf.0, 0) =~= Set::<u64>::empty());
        } else {
            assert(m.0 == seq![nl].add(rest.0));
            lemma_rests_prepend(nl, rest.0);
        }
        // the ids of level `i` and of the later levels are apart
        assert forall|id: u64|
            queue_ids(lv.orders, 0).contains(id) implies !side_ids_from(ls, i + 1).contains(id) by {
            if side_ids_from(ls, i + 1).contains(id) {
                let k = choose|k: int| i + 1 <= k < ls.len() && #[trigger] has_id(ls[k].orders, id);
                assert(has_id(ls[i].orders, id));
            }
        }
        assert forall|id: u64, p: u64| #[trigger] rests_from(ls, i + 1, id, p) implies side_ids_from(
            ls,
            i + 1,
        ).contains(id) by {
            let k = choose|k: int|
                i + 1 <= k < ls.len() && ls[k].price == p && #[trigger] has_id(ls[k].orders, id);
        }
        let cm = completed_ids(m.1);
        assert(cm =~= completed_ids(mf.1).union(completed_ids(rest.1)));
        assert forall|id: u64, p: u64|
            #[trigger] rests_from(m.0, 0, id, p) <==> rests_from(ls, i, id, p) && !cm.contains(id) by {
            if rests_from(m.0, 0, id, p) {
                if mf.0.len() > 0 && nl.price == p && has_id(nl.orders, id) {
                    assert(queue_ids(mf.0, 0).contains(id));
                } else {
                    assert(rests_from(rest.0, 0, id, p));
                    assert(side_ids_from(ls, i + 1).contains(id));
                }
            }
            if rests_from(ls, i, id, p) && !cm.contains(id) {
                if ls[i].price == p && has_id(ls[i].orders, id) {
                    assert(queue_ids(mf.0, 0).contains(id));
                    assert(mf.0.len() > 0);
                } else {
                    assert(rests_from(rest.0, 0, id, p));
                }
            }
        }
        assert(cm.subset_of(side_ids_from(ls, i)));
    }
}

/// Every order resting on the side is indexed at the price of its level.
pub open spec fn side_indexed(ls: Seq<LevelView>, orders: Map<u64, u64>) -> bool {
    forall|id: u64, p: u64|
        #[trigger] rests_from(ls, 0, id, p) ==> orders.contains_key(id) && orders[id] == p
}

/// No id rests on both sides.
pub open spec fn sides_apart(a: Seq<LevelView>, b: Seq<LevelView>) -> bool {
    forall|id: u64, p: u64, q: u64|
        !(#[trigger] rests_from(a, 0, id, p) && #[trigger] rests_from(b, 0, id, q))
}

/// Every indexed id rests, on one side or the other, at its indexed price.
pub open spec fn index_covered(orders: Map<u64, u64>, a: Seq<LevelView>, b: Seq<LevelView>) -> bool {
    forall|id: u64|
        #[trigger] orders.contains_key(id) ==> rests_from(a, 0, id, orders[id]) || rests_from(
            b,
            0,
            id,
            orders[id],
        )
}

/// The index agrees with the two sides: each resting order is indexed at its level's price,
/// each indexed id rests there, and no id rests on both sides.
pub open spec fn sides_indexed(a: Seq<LevelView>, b: Seq<LevelView>, orders: Map<u64, u64>) -> bool {
    &&& side_indexed(a, orders)
    &&& side_indexed(b, orders)
    &&& sides_apart(a, b)
    &&& index_covered(orders, a, b)
}

/// On ordered levels whose orders are indexed, no id is found twice.
pub proof fn lemma_indexed_ids_unique(side: Side, ls: Seq<LevelView>, orders: Map<u64, u64>)
    requires
        levels_ordered(side, ls),
        side_indexed(ls, orders),
    ensures
        side_ids_unique(ls),
{
    assert forall|a: int, b: int, id: u64|
        0 <= a < ls.len() && 0 <= b < ls.len() && #[trigger] has_id(ls[a].orders, id)
            && #[trigger] has_id(ls[b].orders, id) implies a == b by {
        assert(rests_from(ls, 0, id, ls[a].price));
        assert(rests_from(ls, 0, id, ls[b].price));
        if a < b {
            assert(better(side, ls[a].price, ls[b].price));
        } else if b < a {
            assert(better(side, ls[b].price, ls[a].price));
        }
    }
}

/// Matching against one side keeps the index in agreement, once the used-up makers leave it.
pub proof fn lemma_match_keeps_index(
    own: Seq<LevelView>,
    opp: Seq<LevelView>,
    orders: Map<u64, u64>,
    opp_side: Side,
    taker_side: Side,
    taker_price: u64,
    r: u64,
)
    requires
        levels_ordered(opp_side, opp),
        sides_indexed(own, opp, orders),
    ensures
        ({
            let m = match_levels(opp, 0, taker_side, taker_price, r);
            sides_indexed(own, m.0, orders.remove_keys(completed_ids(m.1)))
        }),
{
    let m = match_levels(opp, 0, taker_side, taker_price, r);
    let cm = completed_ids(m.1);
    let o2 = orders.remove_keys(cm);
    lemma_indexed_ids_unique(opp_side, opp, orders);
    lemma_match_levels_ids(opp, 0, taker_side, taker_price, r);
    assert forall|id: u64| side_ids_from(opp, 0).contains(id) implies !exists|p: u64|
        #[trigger] rests_from(own, 0, id, p) by {
        let k = choose|k: int| 0 <= k < opp.len() && #[trigger] has_id(opp[k].orders, id);
        assert(rests_from(opp, 0, id, opp[k].price));
    }
    assert forall|id: u64, p: u64| #[trigger] rests_from(own, 0, id, p) implies o2.contains_key(id)
        && o2[id] == p by {
        if cm.contains(id) {
            assert(side_ids_from(opp, 0).contains(id));
        }
    }
    assert forall|id: u64, p: u64| #[trigger] rests_from(m.0, 0, id, p) implies o2.contains_key(id)
        && o2[id] == p by {
        assert(rests_from(opp, 0, id, p));
    }
    assert forall|id: u64, p: u64, q: u64|
        !(#[trigger] rests_from(own, 0, id, p) && #[trigger] rests_from(m.0, 0, id, q)) by {
        if rests_from(m.0, 0, id, q) {
            assert(rests_from(opp, 0, id, q));
        }
    }
    assert forall|id: u64| #[trigger] o2.contains_key(id) implies rests_from(own, 0, id, o2[id])
        || rests_from(m.0, 0, id, o2[id]) by {
        assert(orders.contains_key(id));
        if !rests_from(own, 0, id, orders[id]) {
            assert(rests_from(opp, 0, id, orders[id]));
        }
    }
}

/// Appending an order at `price` adds exactly that order, at that price, to what rests.
pub proof fn lemma_add_rests(side: Side, ls: Seq<LevelView>, price: u64, o: Order)
    requires
        levels_ordered(side, ls),
    ensures
        forall|id: u64, p: u64|
            #[trigger] rests_from(add_to_levels(side, ls, price, o), 0, id, p) <==> rests_from(
                ls,
                0,
                id,
                p,
            ) || (id == o.order_id && p == price),
{
    lemma_level_pos_exists(side, ls, price);
    let p0 = level_pos(side, ls, price);
    let ls2 = add_to_levels(side, ls, price, o);
    if has_level(side, ls, price) {
        let qs = ls[p0].orders.push(o);
        assert(ls2 == ls.update(p0, LevelView { price, orders: qs }));
        assert forall|id: u64| has_id(qs, id) <==> has_id(ls[p0].orders, id) || id == o.order_id by {
            if has_id(qs, id) {
                let q = choose|q: int| 0 <= q < qs.len() && qs[q].order_id == id;
                if q < ls[p0].orders.len() {
                    assert(qs[q] == ls[p0].orders[q]);
                }
            }
            if has_id(ls[p0].orders, id) {
                let q = choose|q: int| 0 <= q < ls[p0].orders.len() && ls[p0].orders[q].order_id == id;
                assert(qs[q] == ls[p0].orders[q]);
            }
            if id == o.order_id {
                assert(qs[qs.len() - 1] == o);
            }
        }
        assert forall|id: u64, p: u64| #[trigger] rests_from(ls2, 0, id, p) <==> rests_from(ls, 0, id, p)
            || (id == o.order_id && p == price) by {
            if rests_from(ls2, 0, id, p) {
                let k = choose|k: int|
                    0 <= k < ls2.len() && ls2[k].price == p && #[trigger] has_id(ls2[k].orders, id);
                if k != p0 {
                    assert(ls2[k] == ls[k]);
                } else if has_id(ls[p0].orders, id) {
                    assert(rests_from(ls, 0, id, p));
                }
            }
            if rests_from(ls, 0, id, p) {
                let k = choose|k: int|
                    0 <= k < ls.len() && ls[k].price == p && #[trigger] has_id(ls[k].orders, id);
                if k != p0 {
                    assert(ls2[k] == ls[k]);
                } else {
                    assert(has_id(ls2[p0].orders, id));
                }
            }
            if id == o.order_id && p == price {
                assert(has_id(ls2[p0].orders, id));
            }
        }
    } else {
        let nl = LevelView { price, orders: seq![o] };
        assert(ls2 == ls.insert(p0, nl));
        assert forall|id: u64| has_id(nl.orders, id) <==> id == o.order_id by {
            assert(nl.orders[0] == o);
        }
        assert forall|id: u64, p: u64| #[trigger] rests_from(ls2, 0, id, p) <==> rests_from(ls, 0, id, p)
            || (id == o.order_id && p == price) by {
            if rests_from(ls2, 0, id, p) {
                let k = choose|k: int|
                    0 <= k < ls2.len() && ls2[k].price == p && #[trigger] has_id(ls2[k].orders, id);
                if k < p0 {
                    assert(ls2[k] == ls[k]);
                } else if k > p0 {
                    assert(ls2[k] == ls[k - 1]);
                }
            }
            if rests_from(ls, 0, id, p) {
                let k = choose|k: int|
                    0 <= k < ls.len() && ls[k].price == p && #[trigger] has_id(ls[k].orders, id);
                if k < p0 {
                    assert(ls2[k] == ls[k]);
                } else {
                    assert(ls2[k + 1] == ls[k]);
                }
            }
            if id == o.order_id && p == price {
                assert(ls2[p0] == nl);
                assert(has_id(ls2[p0].orders, id));
            }
        }
    }
}

/// Resting a fresh order on one side keeps the index in agreement, once the order's id is
/// indexed at its price.
pub proof fn lemma_rest_keeps_index(
    own: Seq<LevelView>,
    opp: Seq<LevelView>,
    orders: Map<u64, u64>,
    side: Side,
    price: u64,
    o: Order,
)
    requires
        levels_ordered(side, own),
        sides_indexed(own, opp, orders),
        !orders.contains_key(o.order_id),
    ensures
        sides_indexed(add_to_levels(side, own, price, o), opp, orders.insert(o.order_id, price)),
{
    let own2 = add_to_levels(side, own, price, o);
    let o2 = orders.insert(o.order_id, price);
    lemma_add_rests(side, own, price, o);
    assert forall|id: u64, p: u64| #[trigger] rests_from(own2, 0, id, p) implies o2.contains_key(id)
        && o2[id] == p by {
        if rests_from(own, 0, id, p) {
            assert(orders.contains_key(id));
        }
    }
    assert forall|id: u64, p: u64| #[trigger] rests_from(opp, 0, id, p) implies o2.contains_key(id)
        && o2[id] == p by {
        assert(orders.contains_key(id));
    }
    assert forall|id: u64, p: u64, q: u64|
        !(#[trigger] rests_from(own2, 0, id, p) && #[trigger] rests_from(opp, 0, id, q)) by {
        if rests_from(opp, 0, id, q) {
            assert(orders.contains_key(id));
            assert(rests_from(own2, 0, id, p) ==> rests_from(own, 0, id, p));
        }
    }
    assert forall|id: u64| #[trigger] o2.contains_key(id) implies rests_from(own2, 0, id, o2[id])
        || rests_from(opp, 0, id, o2[id]) by {
        if id != o.order_id {
            assert(orders.contains_key(id));
        }
    }
}

proof fn lemma_sides_indexed_swap(a: Seq<LevelView>, b: Seq<LevelView>, orders: Map<u64, u64>)
    requires
        sides_indexed(a, b, orders),
    ensures
        sides_indexed(b, a, orders),
{
    assert forall|id: u64, p: u64, q: u64|
        !(#[trigger] rests_from(b, 0, id, p) && #[trigger] rests_from(a, 0, id, q)) by {
        assert(!(rests_from(a, 0, id, q) && rests_from(b, 0, id, p)));
    }
}

/// Cancelling an order that rests at `price` takes exactly that order out of what rests.
pub proof fn lemma_cancel_rests(
    side: Side,
    ls: Seq<LevelView>,
    orders: Map<u64, u64>,
    price: u64,
    id: u64,
)
    requires
        levels_ordered(side, ls),
        side_indexed(ls, orders),
        rests_from(ls, 0, id, price),
    ensures
        has_level(side, ls, price),
        forall|x: u64, p: u64|
            #[trigger] rests_from(side_after_cancel(side, ls, price, id), 0, x, p) <==> rests_from(
                ls,
                0,
                x,
                p,
            ) && x != id,
{
    let k0 = choose|k: int| 0 <= k < ls.len() && ls[k].price == price && #[trigger] has_id(ls[k].orders, id);
    lemma_level_at_price(side, ls, k0);
    lemma_indexed_ids_unique(side, ls, orders);
    let qs = ls[k0].orders;
    let q0 = id_position(qs, id);
    let nq = qs.remove(q0);
    let ls2 = side_after_cancel(side, ls, price, id);
    assert forall|x: u64| has_id(nq, x) <==> has_id(qs, x) && x != id by {
        if has_id(nq, x) {
            let q = choose|q: int| 0 <= q < nq.len() && nq[q].order_id == x;
            if q < q0 {
                assert(nq[q] == qs[q]);
                assert(qs[q].order_id < qs[q0].order_id);
            } else {
                assert(nq[q] == qs[q + 1]);
                assert(qs[q0].order_id < qs[q + 1].order_id);
            }
        }
        if has_id(qs, x) && x != id {
            let q = choose|q: int| 0 <= q < qs.len() && qs[q].order_id == x;
            if q < q0 {
                assert(nq[q] == qs[q]);
            } else {
                assert(q != q0);
                assert(nq[q - 1] == qs[q]);
            }
        }
    }
    let nl = LevelView { price, orders: nq };
    assert forall|x: u64, p: u64| #[trigger] rests_from(ls2, 0, x, p) <==> rests_from(ls, 0, x, p)
        && x != id by {
        if nq.len() == 0 {
            assert(ls2 == ls.remove(k0));
            if rests_from(ls2, 0, x, p) {
                let k = choose|k: int|
                    0 <= k < ls2.len() && ls2[k].price == p && #[trigger] has_id(ls2[k].orders, x);
                let kk = if k < k0 { k } else { k + 1 };
                assert(ls2[k] == ls[kk]);
                assert(has_id(ls[kk].orders, x));
                if x == id {
                    assert(kk == k0);
                }
            }
            if rests_from(ls, 0, x, p) && x != id {
                let k = choose|k: int|
                    0 <= k < ls.len() && ls[k].price == p && #[trigger] has_id(ls[k].orders, x);
                if k == k0 {
                    assert(has_id(nq, x));
                } else if k < k0 {
                    assert(ls2[k] == ls[k]);
                } else {
                    assert(ls2[k - 1] == ls[k]);
                }
            }
        } else {
            assert(ls2 == ls.update(k0, nl));
            if rests_from(ls2, 0, x, p) {
                let k = choose|k: int|
                    0 <= k < ls2.len() && ls2[k].price == p && #[trigger] has_id(ls2[k].orders, x);
                if k != k0 {
                    assert(ls2[k] == ls[k]);
                    if x == id {
                        assert(has_id(ls[k].orders, id));
                    }
                } else {
                    assert(has_id(qs, x));
                }
            }
            if rests_from(ls, 0, x, p) && x != id {
                let k = choose|k: int|
                    0 <= k < ls.len() && ls[k].price == p && #[trigger] has_id(ls[k].orders, x);
                if k != k0 {
                    assert(ls2[k] == ls[k]);
                } else {
                    assert(has_id(ls2[k0].orders, x));
                }
            }
        }
    }
}

/// Cancelling an order that rests on one side keeps the index in agreement, once its id
/// leaves the index.
pub proof fn lemma_cancel_keeps_index(
    own: Seq<LevelView>,
    opp: Seq<LevelView>,
    orders: Map<u64, u64>,
    side: Side,
    id: u64,
)
    requires
        levels_ordered(side, own),
        sides_indexed(own, opp, orders),
        orders.contains_key(id),
        rests_from(own, 0, id, orders[id]),
    ensures
        has_level(side, own, orders[id]),
        sides_indexed(side_after_cancel(side, own, orders[id], id), opp, orders.remove(id)),
{
    let price = orders[id];
    let own2 = side_after_cancel(side, own, price, id);
    let o2 = orders.remove(id);
    lemma_cancel_rests(side, own, orders, price, id);
    assert forall|x: u64, p: u64| #[trigger] rests_from(own2, 0, x, p) implies o2.contains_key(x)
        && o2[x] == p by {
        assert(rests_from(own, 0, x, p));
    }
    assert forall|x: u64, p: u64| #[trigger] rests_from(opp, 0, x, p) implies o2.contains_key(x)
        && o2[x] == p by {
        if x == id {
            assert(!(rests_from(own, 0, id, price) && rests_from(opp, 0, id, p)));
        }
    }
    assert forall|x: u64, p: u64, q: u64|
        !(#[trigger] rests_from(own2, 0, x, p) && #[trigger] rests_from(opp, 0, x, q)) by {
        if rests_from(own2, 0, x, p) {
            assert(rests_from(own, 0, x, p));
        }
    }
    assert forall|x: u64| #[trigger] o2.contains_key(x) implies rests_from(own2, 0, x, o2[x])
        || rests_from(opp, 0, x, o2[x]) by {
        assert(orders.contains_key(x));
    }
}

/// The order index of a book agrees with its two sides.
pub open spec fn index_consistent(b: BookView) -> bool {
    sides_indexed(b.bids, b.asks, b.orders)
}

/// Placing an order with an id the book does not know keeps the order index in agreement
/// with the book: every resting order is indexed at its level's price, every indexed id
/// rests there, and no id rests on both sides.
pub proof fn law_place_keeps_index(b: BookView, c: OrderCommand)
    requires
        book_valid(b),
        index_consistent(b),
        !b.orders.contains_key(c.order_id),
    ensures
        index_consistent(book_after_place(b, c)),
{
    let m = taker_match(b, c);
    let o2 = b.orders.remove_keys(completed_ids(m.1));
    let b1 = book_after_match(b, c);
    match c.side {
        Side::Bid => {
            lemma_match_keeps_index(b.bids, b.asks, b.orders, Side::Ask, c.side, c.price, c.size);
            assert(b1.bids == b.bids && b1.asks == m.0 && b1.orders == o2);
            lemma_rest_keeps_index(b1.bids, b1.asks, o2, Side::Bid, c.price, resting_order(c, m.2));
        },
        Side::Ask => {
            lemma_sides_indexed_swap(b.bids, b.asks, b.orders);
            lemma_match_keeps_index(b.asks, b.bids, b.orders, Side::Bid, c.side, c.price, c.size);
            assert(b1.asks == b.asks && b1.bids == m.0 && b1.orders == o2);
            lemma_rest_keeps_index(b1.asks, b1.bids, o2, Side::Ask, c.price, resting_order(c, m.2));
            let b2 = book_with_rest(b1, c, m.2);
            lemma_sides_indexed_swap(b2.asks, b2.bids, b2.orders);
            lemma_sides_indexed_swap(b1.asks, b1.bids, b1.orders);
        },
    }
}

/// Cancelling keeps the order index in agreement with the book. A cancel looks for the
/// order on the bid side first, at its indexed price; so for a sell order this needs the bid
/// side to have no level at that price.
pub proof fn law_cancel_keeps_index(b: BookView, id: u64)
    requires
        book_valid(b),
        index_consistent(b),
        b.orders.contains_key(id) && rests_from(b.asks, 0, id, b.orders[id]) ==> !has_level(
            Side::Bid,
            b.bids,
            b.orders[id],
        ),
    ensures
        index_consistent(book_after_cancel(b, id)),
{
    if b.orders.contains_key(id) {
        let price = b.orders[id];
        if rests_from(b.bids, 0, id, price) {
            lemma_cancel_keeps_index(b.bids, b.asks, b.orders, Side::Bid, id);
        } else {
            assert(rests_from(b.asks, 0, id, price));
            lemma_sides_indexed_swap(b.bids, b.asks, b.orders);
            lemma_cancel_keeps_index(b.asks, b.bids, b.orders, Side::Ask, id);
            let b2 = book_after_cancel(b, id);
            lemma_sides_indexed_swap(b2.asks, b2.bids, b2.orders);
        }
    }
}

} // verus!
