//! Laws of the order book: what placing and cancelling orders guarantee.
use vstd::prelude::*;

use crate::book::{
    book_after_cancel, cmd_of_cancel,
    book_after_match, book_after_place, book_with_rest, cmd_after_cancel, fok_fillable, ids_below,
    opposite_levels, own_levels, price_after_place, side_after_cancel, size_after_place, status_after_place,
    taker_match, trades_of_place, with_levels, BookView, resting_order,
};
use crate::level::{
    completed_ids, ids_increasing,
    avail_from, has_id, id_position, lemma_avail_le_sum, lemma_match_from_props, match_from, min_u64,
    sum_trade_sizes, trade_event, LevelView,
};
use crate::model::{MatcherTradeEvent, Order, OrderCommand, Side, Status, TimeInForce};
use crate::side::{
    add_to_levels, better, crosses, fillable, has_level, is_level_pos, lemma_insert_keeps_order,
    lemma_level_at_price, lemma_level_pos_unique, level_pos, levels_ordered, match_levels,
};

verus! {

pub proof fn lemma_sum_trade_sizes_append(a: Seq<MatcherTradeEvent>, b: Seq<MatcherTradeEvent>)
    ensures
        sum_trade_sizes(a + b) == sum_trade_sizes(a) + sum_trade_sizes(b),
    decreases a.len(),
{
    if a.len() == 0 {
        assert(a + b =~= b);
    } else {
        lemma_sum_trade_sizes_append(a.drop_first(), b);
        assert((a + b).drop_first() =~= a.drop_first() + b);
    }
}

/// A queue matching without trades leaves the queue as it was.
pub proof fn lemma_match_from_no_trades(s: Seq<Order>, i: int, price: u64, r: u64)
    requires
        0 <= i <= s.len(),
        match_from(s, i, price, r).1.len() == 0,
    ensures
        match_from(s, i, price, r).0 == s.subrange(i, s.len() as int),
        match_from(s, i, price, r).2 == r,
    decreases s.len() - i,
{
    if i == s.len() {
        assert(s.subrange(i, s.len() as int) =~= Seq::<Order>::empty());
    } else if r == 0 {
    } else {
        let o = s[i];
        let t = min_u64(r, o.size);
        let left = (r - t) as u64;
        let ev = trade_event(o, price, t, left);
        assert(seq![ev].add(match_from(s, i + 1, price, left).1).len() > 0);
    }
}

/// Matching a side conserves size and trades only at crossing prices of the side's levels from `i` on.
pub proof fn lemma_match_levels_basic(
    ls: Seq<LevelView>,
    i: int,
    taker_side: Side,
    taker_price: u64,
    r: u64,
)
    requires
        0 <= i <= ls.len(),
    ensures
        ({
            let m = match_levels(ls, i, taker_side, taker_price, r);
            &&& r == m.2 + sum_trade_sizes(m.1)
            &&& forall|k: int|
                0 <= k < m.1.len() ==> crosses(taker_side, taker_price, (#[trigger] m.1[k]).price)
            &&& forall|k: int|
                0 <= k < m.1.len() ==> exists|j: int|
                    i <= j < ls.len() && (#[trigger] m.1[k]).price == ls[j].price
        }),
    decreases ls.len() - i,
{
    let m = match_levels(ls, i, taker_side, taker_price, r);
    if i == ls.len() {
    } else if r == 0 || !crosses(taker_side, taker_price, ls[i].price) {
    } else {
        let lv = ls[i];
        let mf = match_from(lv.orders, 0, lv.price, r);
        let rest = match_levels(ls, i + 1, taker_side, taker_price, mf.2);
        lemma_match_from_props(lv.orders, 0, lv.price, r);
        lemma_match_levels_basic(ls, i + 1, taker_side, taker_price, mf.2);
        lemma_sum_trade_sizes_append(mf.1, rest.1);
        assert forall|k: int| 0 <= k < m.1.len() implies crosses(taker_side, taker_price, (#[trigger] m.1[k]).price) && exists|j: int|
            i <= j < ls.len() && m.1[k].price == ls[j].price by {
            if k < mf.1.len() {
                assert(m.1[k] == mf.1[k]);
                assert(mf.1[k].price == ls[i].price);
            } else {
                assert(m.1[k] == rest.1[k - mf.1.len()]);
                let j = choose|j: int|
                    i + 1 <= j < ls.len() && (#[trigger] rest.1[k - mf.1.len()]).price == ls[j].price;
                assert(ls[j].price == m.1[k].price);
            }
        }
    }
}

/// Matching a side trades in the price priority of its levels.
pub proof fn lemma_match_levels_priority(
    side: Side,
    ls: Seq<LevelView>,
    i: int,
    taker_side: Side,
    taker_price: u64,
    r: u64,
)
    requires
        0 <= i <= ls.len(),
        levels_ordered(side, ls),
    ensures
        ({
            let m = match_levels(ls, i, taker_side, taker_price, r);
            forall|k: int, l: int|
                0 <= k < l < m.1.len() ==> m.1[k].price == m.1[l].price || better(
                    side,
                    m.1[k].price,
                    m.1[l].price,
                )
        }),
    decreases ls.len() - i,
{
    let m = match_levels(ls, i, taker_side, taker_price, r);
    if i == ls.len() {
    } else if r == 0 || !crosses(taker_side, taker_price, ls[i].price) {
    } else {
        let lv = ls[i];
        let mf = match_from(lv.orders, 0, lv.price, r);
        let rest = match_levels(ls, i + 1, taker_side, taker_price, mf.2);
        lemma_match_from_props(lv.orders, 0, lv.price, r);
        lemma_match_levels_priority(side, ls, i + 1, taker_side, taker_price, mf.2);
        lemma_match_levels_basic(ls, i + 1, taker_side, taker_price, mf.2);
        assert forall|k: int, l: int| 0 <= k < l < m.1.len() implies m.1[k].price == m.1[l].price
            || better(side, m.1[k].price, m.1[l].price) by {
            if l < mf.1.len() {
                assert(m.1[k] == mf.1[k]);
                assert(m.1[l] == mf.1[l]);
            } else if k < mf.1.len() {
                assert(m.1[k] == mf.1[k]);
                assert(m.1[l] == rest.1[l - mf.1.len()]);
                let j = choose|j: int|
                    i + 1 <= j < ls.len() && (#[trigger] rest.1[l - mf.1.len()]).price == ls[j].price;
                assert(better(side, ls[i].price, ls[j].price));
            } else {
                assert(m.1[k] == rest.1[k - mf.1.len()]);
                assert(m.1[l] == rest.1[l - mf.1.len()]);
            }
        }
    }
}

/// When the crossing levels hold enough volume, matching fills the taker.
pub proof fn lemma_match_levels_fillable(
    ls: Seq<LevelView>,
    i: int,
    taker_side: Side,
    taker_price: u64,
    r: u64,
)
    requires
        0 <= i <= ls.len(),
        fillable(ls, i, taker_side, taker_price, r as int),
    ensures
        match_levels(ls, i, taker_side, taker_price, r).2 == 0,
    decreases ls.len() - i,
{
    if r > 0 {
        let lv = ls[i];
        let mf = match_from(lv.orders, 0, lv.price, r);
        lemma_match_from_props(lv.orders, 0, lv.price, r);
        if avail_from(lv.orders, 0) < r {
            assert(mf.2 == r - avail_from(lv.orders, 0));
            lemma_match_levels_fillable(ls, i + 1, taker_side, taker_price, mf.2);
        } else {
            assert(mf.2 == 0);
            assert(match_levels(ls, i + 1, taker_side, taker_price, 0).2 == 0);
        }
    }
}

/// Matching a side without trades leaves the side as it was.
pub proof fn lemma_match_levels_no_trades(
    side: Side,
    ls: Seq<LevelView>,
    i: int,
    taker_side: Side,
    taker_price: u64,
    r: u64,
)
    requires
        0 <= i <= ls.len(),
        levels_ordered(side, ls),
        match_levels(ls, i, taker_side, taker_price, r).1.len() == 0,
    ensures
        match_levels(ls, i, taker_side, taker_price, r).0 == ls.subrange(i, ls.len() as int),
        match_levels(ls, i, taker_side, taker_price, r).2 == r,
    decreases ls.len() - i,
{
    if i == ls.len() {
        assert(ls.subrange(i, ls.len() as int) =~= Seq::<LevelView>::empty());
    } else if r == 0 || !crosses(taker_side, taker_price, ls[i].price) {
    } else {
        let lv = ls[i];
        let mf = match_from(lv.orders, 0, lv.price, r);
        let rest = match_levels(ls, i + 1, taker_side, taker_price, mf.2);
        assert(mf.1.len() == 0);
        lemma_match_from_no_trades(lv.orders, 0, lv.price, r);
        lemma_match_levels_no_trades(side, ls, i + 1, taker_side, taker_price, mf.2);
        assert(lv.orders.subrange(0, lv.orders.len() as int) =~= lv.orders);
        assert(lv.orders.len() > 0);
        assert(LevelView { price: ls[i].price, orders: mf.0 } == ls[i]);
        assert(seq![ls[i]].add(ls.subrange(i + 1, ls.len() as int)) =~= ls.subrange(i, ls.len() as int));
    }
}

/// A book is valid when both sides are in strict price priority with non-empty levels whose
/// order ids increase.
pub open spec fn book_valid(b: BookView) -> bool {
    levels_ordered(Side::Bid, b.bids) && levels_ordered(Side::Ask, b.asks)
}

/// Size is conserved: what an order trades plus what it has left is its size.
pub proof fn law_place_conserves_size(b: BookView, c: OrderCommand)
    requires
        book_valid(b),
    ensures
        sum_trade_sizes(trades_of_place(b, c)) + size_after_place(b, c) == c.size,
{
    lemma_match_levels_basic(opposite_levels(b, c.side), 0, c.side, c.price, c.size);
}

/// Limit protection: a buy never trades above its price and a sell never below it, and every
/// trade happens at the price of a resting level (the maker's price).
pub proof fn law_trades_within_limit(b: BookView, c: OrderCommand)
    requires
        book_valid(b),
    ensures
        forall|k: int|
            0 <= k < trades_of_place(b, c).len() ==> crosses(
                c.side,
                c.price,
                (#[trigger] trades_of_place(b, c)[k]).price,
            ),
        forall|k: int|
            0 <= k < trades_of_place(b, c).len() ==> exists|j: int|
                0 <= j < opposite_levels(b, c.side).len() && (#[trigger] trades_of_place(b, c)[k]).price
                    == opposite_levels(b, c.side)[j].price,
{
    lemma_match_levels_basic(opposite_levels(b, c.side), 0, c.side, c.price, c.size);
}

/// Price priority: a buy trades from the lowest ask price up, a sell from the highest bid
/// price down.
pub proof fn law_trades_in_price_priority(b: BookView, c: OrderCommand)
    requires
        book_valid(b),
    ensures
        forall|k: int, l: int|
            0 <= k < l < trades_of_place(b, c).len() ==> trades_of_place(b, c)[k].price
                == trades_of_place(b, c)[l].price || better(
                c.side.op_side_spec(),
                trades_of_place(b, c)[k].price,
                trades_of_place(b, c)[l].price,
            ),
{
    lemma_match_levels_priority(
        c.side.op_side_spec(),
        opposite_levels(b, c.side),
        0,
        c.side,
        c.price,
        c.size,
    );
}

/// Fill-or-kill is all or nothing: either the order fills completely, or it is cancelled
/// without a trade and the book stays as it was.
pub proof fn law_fok_all_or_nothing(b: BookView, c: OrderCommand)
    requires
        book_valid(b),
        c.time_in_force == TimeInForce::Fok,
    ensures
        (status_after_place(b, c) == Status::Filled && size_after_place(b, c) == 0) || (
        status_after_place(b, c) == Status::Cancelled && size_after_place(b, c) == c.size
            && trades_of_place(b, c).len() == 0 && book_after_place(b, c) == b),
{
    if fok_fillable(b, c) {
        lemma_match_levels_fillable(opposite_levels(b, c.side), 0, c.side, c.price, c.size);
    }
}

/// Good-till-cancelled orders never stay partly unhandled: the status tells what happened to
/// the size, and whatever is left rests on the book.
pub proof fn law_gtc_status(b: BookView, c: OrderCommand)
    requires
        book_valid(b),
        c.time_in_force == TimeInForce::Gtc,
    ensures
        status_after_place(b, c) == Status::Filled <==> size_after_place(b, c) == 0 && c.size > 0,
        status_after_place(b, c) == Status::Placed <==> size_after_place(b, c) == c.size,
        status_after_place(b, c) == Status::PartiallyFilled <==> 0 < size_after_place(b, c) < c.size,
{
    lemma_match_levels_basic(opposite_levels(b, c.side), 0, c.side, c.price, c.size);
    lemma_sum_nonneg(trades_of_place(b, c));
}

pub proof fn lemma_sum_nonneg(e: Seq<MatcherTradeEvent>)
    ensures
        sum_trade_sizes(e) >= 0,
    decreases e.len(),
{
    if e.len() > 0 {
        lemma_sum_nonneg(e.drop_first());
    }
}

/// Ordered levels have a position for every price.
pub proof fn lemma_level_pos_exists(side: Side, ls: Seq<LevelView>, price: u64)
    requires
        levels_ordered(side, ls),
    ensures
        is_level_pos(side, ls, price, level_pos(side, ls, price)),
    decreases ls.len(),
{
    let p = lemma_level_pos_witness(side, ls, price);
    lemma_level_pos_unique(side, ls, price, p);
}

proof fn lemma_level_pos_witness(side: Side, ls: Seq<LevelView>, price: u64) -> (p: int)
    requires
        levels_ordered(side, ls),
    ensures
        is_level_pos(side, ls, price, p),
    decreases ls.len(),
{
    if ls.len() == 0 {
        0
    } else {
        let d = ls.drop_last();
        assert(levels_ordered(side, d)) by {
            assert forall|a: int, b: int| 0 <= a < b < d.len() implies better(side, d[a].price, d[b].price) by {
                assert(d[a] == ls[a]);
                assert(d[b] == ls[b]);
            }
            assert forall|k: int| 0 <= k < d.len() implies (#[trigger] d[k]).orders.len() > 0 && ids_increasing(d[k].orders) by {
                assert(d[k] == ls[k]);
            }
        }
        let q = lemma_level_pos_witness(side, d, price);
        let last = ls.len() - 1;
        if q == d.len() && better(side, ls[last].price, price) {
            assert forall|k: int| 0 <= k < ls.len() implies better(side, #[trigger] ls[k].price, price) by {
                if k < last {
                    assert(d[k] == ls[k]);
                }
            }
            ls.len() as int
        } else if q == d.len() {
            assert forall|k: int| 0 <= k < last implies better(side, #[trigger] ls[k].price, price) by {
                assert(d[k] == ls[k]);
            }
            last
        } else {
            assert forall|k: int| 0 <= k < q implies better(side, #[trigger] ls[k].price, price) by {
                assert(d[k] == ls[k]);
            }
            assert forall|k: int| q <= k < ls.len() implies !better(side, #[trigger] ls[k].price, price) by {
                if k < last {
                    assert(d[k] == ls[k]);
                } else {
                    assert(d[q] == ls[q]);
                    assert(!better(side, ls[q].price, price));
                    assert(better(side, ls[q].price, ls[k].price));
                }
            }
            q
        }
    }
}

/// After appending an order of a fresh id at `price`, cancelling that id at `price` gives the
/// side back, and the order found is the appended one.
pub proof fn lemma_add_then_cancel(side: Side, ls: Seq<LevelView>, price: u64, o: Order)
    requires
        levels_ordered(side, ls),
        ids_below(ls, o.order_id),
    ensures
        ({
            let ls2 = add_to_levels(side, ls, price, o);
            let qs = ls2[level_pos(side, ls2, price)].orders;
            &&& has_level(side, ls2, price)
            &&& has_id(qs, o.order_id)
            &&& qs[id_position(qs, o.order_id)] == o
            &&& side_after_cancel(side, ls2, price, o.order_id) == ls
        }),
{
    lemma_level_pos_exists(side, ls, price);
    let p = level_pos(side, ls, price);
    let ls2 = add_to_levels(side, ls, price, o);
    if has_level(side, ls, price) {
        let old_q = ls[p].orders;
        let qs = old_q.push(o);
        assert(ls2 == ls.update(p, LevelView { price, orders: qs }));
        assert(levels_ordered(side, ls2)) by {
            assert forall|a: int, b: int| 0 <= a < b < ls2.len() implies better(side, ls2[a].price, ls2[b].price) by {
                assert(ls2[a].price == ls[a].price);
                assert(ls2[b].price == ls[b].price);
            }
            assert forall|k: int| 0 <= k < ls2.len() implies (#[trigger] ls2[k]).orders.len() > 0 && ids_increasing(ls2[k].orders) by {
                if k == p {
                    assert forall|a: int, b: int| 0 <= a < b < qs.len() implies qs[a].order_id < qs[b].order_id by {
                        assert(qs[a] == old_q[a]);
                        assert(ls[p].orders[a].order_id < o.order_id);
                        if b < qs.len() - 1 {
                            assert(qs[b] == old_q[b]);
                        }
                    }
                }
            }
        }
        lemma_level_at_price(side, ls2, p);
        let last = qs.len() - 1;
        assert(qs[last] == o);
        assert(has_id(qs, o.order_id));
        let k = id_position(qs, o.order_id);
        assert(k == last) by {
            if k < last {
                assert(qs[k] == old_q[k]);
                assert(ls[p].orders[k].order_id < o.order_id);
            }
        }
        assert(qs.remove(last) =~= old_q);
        assert(ls2.update(p, LevelView { price, orders: old_q }) =~= ls);
    } else {
        assert(ls2 == ls.insert(p, LevelView { price, orders: seq![o] }));
        lemma_insert_keeps_order(side, ls, p, price, o);
        lemma_level_at_price(side, ls2, p);
        let qs = seq![o];
        assert(qs[0] == o);
        assert(has_id(qs, o.order_id));
        let k = id_position(qs, o.order_id);
        assert(k == 0);
        assert(qs.remove(0).len() == 0);
        assert(ls2.remove(p) =~= ls);
    }
}

/// Cancelling an order that rested without trading restores the book: placing a
/// good-till-cancelled order of a fresh id that makes no trade, then cancelling it, leaves
/// the book as it was, and the cancel reports the order with the status `Cancelled`. For a
/// sell this needs no bid level at its price, since a cancel looks on the bid side first.
pub proof fn law_cancel_undoes_resting_place(b: BookView, c: OrderCommand, x: OrderCommand)
    requires
        book_valid(b),
        c.time_in_force == TimeInForce::Gtc,
        c.size > 0,
        trades_of_place(b, c).len() == 0,
        !b.orders.contains_key(c.order_id),
        ids_below(own_levels(b, c.side), c.order_id),
        c.side == Side::Ask ==> !has_level(Side::Bid, b.bids, c.price),
        x.order_id == c.order_id,
    ensures
        book_after_cancel(book_after_place(b, c), c.order_id) == b,
        cmd_of_cancel(book_after_place(b, c), x) == (OrderCommand {
            price: c.price,
            size: c.size,
            user_id: c.user_id,
            side: c.side,
            status: Status::Cancelled,
            original_size: c.size,
            ..x
        }),
{
    let opp = opposite_levels(b, c.side);
    lemma_match_levels_no_trades(c.side.op_side_spec(), opp, 0, c.side, c.price, c.size);
    assert(opp.subrange(0, opp.len() as int) =~= opp);
    let m = taker_match(b, c);
    assert(completed_ids(m.1) =~= Set::<u64>::empty());
    assert(b.orders.remove_keys(Set::<u64>::empty()) =~= b.orders);
    let bm = book_after_match(b, c);
    assert(bm == b) by {
        match c.side {
            Side::Bid => {
                assert(bm =~= b);
            },
            Side::Ask => {
                assert(bm =~= b);
            },
        }
    }
    let o = resting_order(c, c.size);
    let b1 = book_after_place(b, c);
    assert(b1 == book_with_rest(b, c, c.size));
    assert(b1.orders.remove(c.order_id) =~= b.orders);
    lemma_add_then_cancel(c.side, own_levels(b, c.side), c.price, o);
    match c.side {
        Side::Bid => {
            assert(book_after_cancel(b1, c.order_id) =~= b);
        },
        Side::Ask => {
            assert(b1.bids == b.bids);
            assert(book_after_cancel(b1, c.order_id) =~= b);
        },
    }
}


/// Matching one queue trades its makers in queue order: every trade's maker is an order of
/// the queue from `i` on, and the makers' ids increase along the trades.
pub proof fn lemma_match_from_fifo(s: Seq<Order>, i: int, price: u64, r: u64)
    requires
        0 <= i <= s.len(),
        ids_increasing(s),
    ensures
        ({
            let m = match_from(s, i, price, r);
            &&& forall|k: int|
                0 <= k < m.1.len() ==> exists|q: int|
                    i <= q < s.len() && (#[trigger] m.1[k]).matched_order_id == s[q].order_id
            &&& forall|a: int, b: int|
                0 <= a < b < m.1.len() ==> m.1[a].matched_order_id < m.1[b].matched_order_id
        }),
    decreases s.len() - i,
{
    let m = match_from(s, i, price, r);
    if i == s.len() || r == 0 {
    } else {
        let o = s[i];
        let t = min_u64(r, o.size);
        let left = (r - t) as u64;
        let rest = match_from(s, i + 1, price, left);
        lemma_match_from_fifo(s, i + 1, price, left);
        assert(m.1 == seq![trade_event(o, price, t, left)].add(rest.1));
        assert forall|k: int| 0 <= k < m.1.len() implies exists|q: int|
            i <= q < s.len() && (#[trigger] m.1[k]).matched_order_id == s[q].order_id by {
            if k == 0 {
                assert(m.1[0].matched_order_id == s[i].order_id);
            } else {
                assert(m.1[k] == rest.1[k - 1]);
                let q = choose|q: int|
                    i + 1 <= q < s.len() && (#[trigger] rest.1[k - 1]).matched_order_id
                        == s[q].order_id;
            }
        }
        assert forall|a: int, b: int| 0 <= a < b < m.1.len() implies m.1[a].matched_order_id
            < m.1[b].matched_order_id by {
            assert(m.1[b] == rest.1[b - 1]);
            let q = choose|q: int|
                i + 1 <= q < s.len() && (#[trigger] rest.1[b - 1]).matched_order_id
                    == s[q].order_id;
            if a == 0 {
                assert(m.1[0].matched_order_id == s[i].order_id);
                assert(s[i].order_id < s[q].order_id);
            } else {
                assert(m.1[a] == rest.1[a - 1]);
            }
        }
    }
}

/// Matching a side trades the orders of one price in the order they arrived: of two trades
/// at the same price, the earlier has the maker with the smaller order id.
pub proof fn lemma_match_levels_fifo(
    side: Side,
    ls: Seq<LevelView>,
    i: int,
    taker_side: Side,
    taker_price: u64,
    r: u64,
)
    requires
        0 <= i <= ls.len(),
        levels_ordered(side, ls),
    ensures
        ({
            let m = match_levels(ls, i, taker_side, taker_price, r);
            forall|a: int, b: int|
                0 <= a < b < m.1.len() && m.1[a].price == m.1[b].price ==> m.1[a].matched_order_id
                    < m.1[b].matched_order_id
        }),
    decreases ls.len() - i,
{
    let m = match_levels(ls, i, taker_side, taker_price, r);
    if i == ls.len() {
    } else if r == 0 || !crosses(taker_side, taker_price, ls[i].price) {
    } else {
        let lv = ls[i];
        let mf = match_from(lv.orders, 0, lv.price, r);
        let rest = match_levels(ls, i + 1, taker_side, taker_price, mf.2);
        lemma_match_from_props(lv.orders, 0, lv.price, r);
        lemma_match_from_fifo(lv.orders, 0, lv.price, r);
        lemma_match_levels_fifo(side, ls, i + 1, taker_side, taker_price, mf.2);
        lemma_match_levels_basic(ls, i + 1, taker_side, taker_price, mf.2);
        assert forall|a: int, b: int|
            0 <= a < b < m.1.len() && m.1[a].price == m.1[b].price implies m.1[a].matched_order_id
            < m.1[b].matched_order_id by {
            if b < mf.1.len() {
                assert(m.1[a] == mf.1[a]);
                assert(m.1[b] == mf.1[b]);
            } else if a < mf.1.len() {
                assert(m.1[a] == mf.1[a]);
                assert(m.1[b] == rest.1[b - mf.1.len()]);
                let j = choose|j: int|
                    i + 1 <= j < ls.len() && (#[trigger] rest.1[b - mf.1.len()]).price
                        == ls[j].price;
                assert(better(side, ls[i].price, ls[j].price));
            } else {
                assert(m.1[a] == rest.1[a - mf.1.len()]);
                assert(m.1[b] == rest.1[b - mf.1.len()]);
            }
        }
    }
}

/// Time priority: at one price, an order trades with the resting orders in the order they
/// arrived; of two of its trades at the same price, the earlier has the maker with the
/// smaller order id.
pub proof fn law_fifo_within_price(b: BookView, c: OrderCommand)
    requires
        book_valid(b),
    ensures
        forall|k: int, l: int|
            0 <= k < l < trades_of_place(b, c).len() && trades_of_place(b, c)[k].price
                == trades_of_place(b, c)[l].price ==> trades_of_place(b, c)[k].matched_order_id
                < trades_of_place(b, c)[l].matched_order_id,
{
    lemma_match_levels_fifo(
        c.side.op_side_spec(),
        opposite_levels(b, c.side),
        0,
        c.side,
        c.price,
        c.size,
    );
}


/// The completion flags of the trades that matching one queue makes: a maker is marked used
/// up exactly when nothing of it remains; only the last trade can mark the taker complete,
/// and it does exactly when the taker has nothing left. Without trades the taker keeps its
/// size.
pub proof fn lemma_match_from_flags(s: Seq<Order>, i: int, price: u64, r: u64)
    requires
        0 <= i <= s.len(),
    ensures
        ({
            let m = match_from(s, i, price, r);
            &&& forall|k: int|
                0 <= k < m.1.len() ==> (#[trigger] m.1[k]).matched_order_completed == (
                m.1[k].maker_remaining_size == 0)
            &&& forall|k: int|
                0 <= k < m.1.len() - 1 ==> !(#[trigger] m.1[k]).active_order_completed
            &&& m.1.len() > 0 ==> (m.1.last().active_order_completed <==> m.2 == 0)
            &&& m.1.len() == 0 ==> m.2 == r
        }),
    decreases s.len() - i,
{
    let m = match_from(s, i, price, r);
    if i == s.len() || r == 0 {
    } else {
        let o = s[i];
        let t = min_u64(r, o.size);
        let left = (r - t) as u64;
        let ev = trade_event(o, price, t, left);
        let rest = match_from(s, i + 1, price, left);
        lemma_match_from_flags(s, i + 1, price, left);
        assert(m.1 == seq![ev].add(rest.1));
        if left == 0 {
            crate::level::lemma_match_from_zero(s, i + 1, price);
        }
        assert forall|k: int| 0 <= k < m.1.len() implies (#[trigger] m.1[k]).matched_order_completed
            == (m.1[k].maker_remaining_size == 0) by {
            if k > 0 {
                assert(m.1[k] == rest.1[k - 1]);
            }
        }
        assert forall|k: int| 0 <= k < m.1.len() - 1 implies !(#[trigger] m.1[k]).active_order_completed by {
            if k > 0 {
                assert(m.1[k] == rest.1[k - 1]);
            }
        }
        if rest.1.len() > 0 {
            assert(m.1.last() == rest.1.last());
        }
    }
}

/// The completion flags of the trades that matching a side makes, as for one queue.
pub proof fn lemma_match_levels_flags(
    ls: Seq<LevelView>,
    i: int,
    taker_side: Side,
    taker_price: u64,
    r: u64,
)
    requires
        0 <= i <= ls.len(),
    ensures
        ({
            let m = match_levels(ls, i, taker_side, taker_price, r);
            &&& forall|k: int|
                0 <= k < m.1.len() ==> (#[trigger] m.1[k]).matched_order_completed == (
                m.1[k].maker_remaining_size == 0)
            &&& forall|k: int|
                0 <= k < m.1.len() - 1 ==> !(#[trigger] m.1[k]).active_order_completed
            &&& m.1.len() > 0 ==> (m.1.last().active_order_completed <==> m.2 == 0)
            &&& m.1.len() == 0 ==> m.2 == r
        }),
    decreases ls.len() - i,
{
    let m = match_levels(ls, i, taker_side, taker_price, r);
    if i == ls.len() || r == 0 || !crosses(taker_side, taker_price, ls[i].price) {
    } else {
        let lv = ls[i];
        let mf = match_from(lv.orders, 0, lv.price, r);
        let rest = match_levels(ls, i + 1, taker_side, taker_price, mf.2);
        lemma_match_from_flags(lv.orders, 0, lv.price, r);
        lemma_match_levels_flags(ls, i + 1, taker_side, taker_price, mf.2);
        assert(m.1 == mf.1 + rest.1);
        if mf.2 == 0 {
            if i + 1 < ls.len() {
                assert(rest.1.len() == 0);
            }
        }
        assert forall|k: int| 0 <= k < m.1.len() implies (#[trigger] m.1[k]).matched_order_completed
            == (m.1[k].maker_remaining_size == 0) by {
            if k < mf.1.len() {
                assert(m.1[k] == mf.1[k]);
            } else {
                assert(m.1[k] == rest.1[k - mf.1.len()]);
            }
        }
        assert forall|k: int| 0 <= k < m.1.len() - 1 implies !(#[trigger] m.1[k]).active_order_completed by {
            if k < mf.1.len() {
                assert(m.1[k] == mf.1[k]);
                if k == mf.1.len() - 1 {
                    assert(rest.1.len() > 0);
                    assert(mf.1.last() == mf.1[k]);
                }
            } else {
                assert(m.1[k] == rest.1[k - mf.1.len()]);
            }
        }
        if rest.1.len() > 0 {
            assert(m.1.last() == rest.1.last());
        } else if mf.1.len() > 0 {
            assert(m.1.last() == mf.1.last());
        }
    }
}

/// The completion flags of the trades of placing an order: a trade marks its maker used up
/// exactly when nothing of the maker remains, only the last trade can mark the order
/// complete, and the last one does exactly when the order has nothing left.
pub proof fn law_completion_flags(b: BookView, c: OrderCommand)
    requires
        book_valid(b),
    ensures
        forall|k: int|
            0 <= k < trades_of_place(b, c).len() ==> (#[trigger] trades_of_place(
                b,
                c,
            )[k]).matched_order_completed == (trades_of_place(b, c)[k].maker_remaining_size == 0),
        forall|k: int|
            0 <= k < trades_of_place(b, c).len() - 1 ==> !(#[trigger] trades_of_place(
                b,
                c,
            )[k]).active_order_completed,
        trades_of_place(b, c).len() > 0 ==> (trades_of_place(b, c).last().active_order_completed
            <==> size_after_place(b, c) == 0),
{
    lemma_match_levels_flags(opposite_levels(b, c.side), 0, c.side, c.price, c.size);
}


/// Placing and then cancelling an order leaves the book clean: a good-till-cancelled order
/// whose id is above every resting id on its side and whose price crosses no level of the
/// other side rests with the status `Placed`; cancelling it reports it `Cancelled` and gives
/// the book back as it was. Run through `place_order`, the order must also keep the total of
/// its level within a `u64` (`place_admissible`), a machine limit of the executable book.
pub proof fn law_place_and_cancel_leaves_book_clean(b: BookView, c: OrderCommand, x: OrderCommand)
    requires
        book_valid(b),
        c.time_in_force == TimeInForce::Gtc,
        c.size > 0,
        !b.orders.contains_key(c.order_id),
        ids_below(own_levels(b, c.side), c.order_id),
        forall|k: int|
            0 <= k < opposite_levels(b, c.side).len() ==> !crosses(
                c.side,
                c.price,
                (#[trigger] opposite_levels(b, c.side)[k]).price,
            ),
        x.order_id == c.order_id,
    ensures
        status_after_place(b, c) == Status::Placed,
        book_after_cancel(book_after_place(b, c), c.order_id) == b,
        cmd_of_cancel(book_after_place(b, c), x).status == Status::Cancelled,
{
    let opp = opposite_levels(b, c.side);
    if opp.len() > 0 {
        assert(!crosses(c.side, c.price, opp[0].price));
    }
    assert(trades_of_place(b, c).len() == 0);
    assert(taker_match(b, c).2 == c.size);
    if c.side == Side::Ask && has_level(Side::Bid, b.bids, c.price) {
        let p = level_pos(Side::Bid, b.bids, c.price);
        assert(!crosses(c.side, c.price, b.bids[p].price));
    }
    law_cancel_undoes_resting_place(b, c, x);
}


/// A market sell reports the best bid it hit: when a sell at price 0 that carries no earlier
/// trades trades at all, the price it reports after placing is the price of its first trade,
/// which is the price of the best bid level of the book it met, whatever later trades at
/// lower bids follow.
pub proof fn law_market_sell_reports_first_trade_price(b: BookView, c: OrderCommand)
    requires
        book_valid(b),
        c.side == Side::Ask,
        c.price == 0,
        c.events@.len() == 0,
        trades_of_place(b, c).len() > 0,
    ensures
        b.bids.len() > 0,
        trades_of_place(b, c)[0].price == b.bids[0].price,
        price_after_place(c, c.events@ + trades_of_place(b, c)) == trades_of_place(b, c)[0].price,
        price_after_place(c, c.events@ + trades_of_place(b, c)) == b.bids[0].price,
{
    let ls = b.bids;
    let t = trades_of_place(b, c);
    let m = match_levels(ls, 0, c.side, c.price, c.size);
    assert(opposite_levels(b, c.side) == ls);
    assert(t == m.1);
    assert(ls.len() > 0);
    assert(c.size > 0);
    assert(crosses(c.side, c.price, ls[0].price));
    let lv = ls[0];
    let mf = match_from(lv.orders, 0, lv.price, c.size);
    let rest = match_levels(ls, 1, c.side, c.price, mf.2);
    assert(m.1 == mf.1 + rest.1);
    assert(lv.orders.len() > 0);
    let o = lv.orders[0];
    let tt = min_u64(c.size, o.size);
    let left = (c.size - tt) as u64;
    assert(mf.1 == seq![trade_event(o, lv.price, tt, left)].add(
        match_from(lv.orders, 1, lv.price, left).1,
    ));
    assert(m.1[0] == mf.1[0]);
    assert(c.events@ + t =~= t);
}

} // verus!
