//! One side of the book: its price levels, best price first.
use std::collections::HashMap;
use vstd::prelude::*;

use crate::level::{
    avail_from, completed_ids, has_id, id_position, ids_increasing, lemma_ids_increasing_remove,

    lemma_match_from_props, match_from, sum_sizes, sum_trade_sizes, LevelView, PriceLevel,
};
use crate::model::{MatcherTradeEvent, Order, OrderCommand, Side};

verus! {

/// Whether price `a` has priority over price `b` on a side: lower first for asks, higher
/// first for bids.
pub open spec fn better(side: Side, a: u64, b: u64) -> bool {
    match side {
        Side::Ask => a < b,
        Side::Bid => a > b,
    }
}

/// Whether a taker on `taker_side` with limit `taker_price` may trade at `maker_price`.
pub open spec fn crosses(taker_side: Side, taker_price: u64, maker_price: u64) -> bool {
    match taker_side {
        Side::Bid => taker_price >= maker_price,
        Side::Ask => taker_price <= maker_price,
    }
}

/// Levels are in strict priority order of their prices and none is empty.
pub open spec fn levels_ordered(side: Side, ls: Seq<LevelView>) -> bool {
    &&& forall|a: int, b: int| 0 <= a < b < ls.len() ==> better(side, ls[a].price, ls[b].price)
    &&& forall|k: int| 0 <= k < ls.len() ==> (#[trigger] ls[k]).orders.len() > 0
    &&& forall|k: int| 0 <= k < ls.len() ==> ids_increasing((#[trigger] ls[k]).orders)
}

/// The position where a level with the price stands or would stand: all levels before it
/// have priority over the price, none from it on has.
pub open spec fn level_pos(side: Side, ls: Seq<LevelView>, price: u64) -> int {
    choose|p: int| #[trigger] is_level_pos(side, ls, price, p)
}

/// `p` splits the levels into those with priority over the price and the rest.
pub open spec fn is_level_pos(side: Side, ls: Seq<LevelView>, price: u64, p: int) -> bool {
    &&& 0 <= p <= ls.len()
    &&& forall|k: int| 0 <= k < p ==> better(side, #[trigger] ls[k].price, price)
    &&& forall|k: int| p <= k < ls.len() ==> !better(side, #[trigger] ls[k].price, price)
}

/// Whether the side has a level at the price.
pub open spec fn has_level(side: Side, ls: Seq<LevelView>, price: u64) -> bool {
    let p = level_pos(side, ls, price);
    0 <= p < ls.len() && ls[p].price == price
}

/// The side after appending an order at the back of the level at `price`, creating the
/// level at its place when there is none.
pub open spec fn add_to_levels(side: Side, ls: Seq<LevelView>, price: u64, o: Order) -> Seq<
    LevelView,
> {
    let p = level_pos(side, ls, price);
    if has_level(side, ls, price) {
        ls.update(p, LevelView { price, orders: ls[p].orders.push(o) })
    } else {
        ls.insert(p, LevelView { price, orders: seq![o] })
    }
}

/// Matching of a taker against the levels from index `i` on, in price priority, while the
/// taker has size left and the level price crosses its limit. Levels that matching empties
/// leave the side. The result is the levels from `i` on afterwards, the trades in order and
/// the size the taker has left.
pub open spec fn match_levels(
    ls: Seq<LevelView>,
    i: int,
    taker_side: Side,
    taker_price: u64,
    r: u64,
) -> (Seq<LevelView>, Seq<MatcherTradeEvent>, u64)
    decreases ls.len() - i,
{
    if i < 0 || i >= ls.len() {
        (Seq::empty(), Seq::empty(), r)
    } else if r == 0 || !crosses(taker_side, taker_price, ls[i].price) {
        (ls.subrange(i, ls.len() as int), Seq::empty(), r)
    } else {
        let m = match_from(ls[i].orders, 0, ls[i].price, r);
        let rest = match_levels(ls, i + 1, taker_side, taker_price, m.2);
        (
            if m.0.len() == 0 {
                rest.0
            } else {
                seq![LevelView { price: ls[i].price, orders: m.0 }].add(rest.0)
            },
            m.1.add(rest.1),
            rest.2,
        )
    }
}

/// Whether the crossing levels from index `i` on hold at least `r` units, with at least one
/// crossing level.
pub open spec fn fillable(
    ls: Seq<LevelView>,
    i: int,
    taker_side: Side,
    taker_price: u64,
    r: int,
) -> bool
    decreases ls.len() - i,
{
    if i < 0 || i >= ls.len() {
        false
    } else if !crosses(taker_side, taker_price, ls[i].price) {
        false
    } else if avail_from(ls[i].orders, 0) >= r {
        true
    } else {
        fillable(ls, i + 1, taker_side, taker_price, r - avail_from(ls[i].orders, 0))
    }
}

/// The price levels of one side of the book, best price first.
#[derive(Debug)]
pub struct SideLevels {
    side: Side,
    levels: Vec<PriceLevel>,
}

pub open spec fn view_levels(v: Seq<PriceLevel>) -> Seq<LevelView> {
    Seq::new(v.len(), |k: int| v[k]@)
}

impl View for SideLevels {
    type V = Seq<LevelView>;

    closed spec fn view(&self) -> Seq<LevelView> {
        view_levels(self.levels@)
    }
}

impl SideLevels {
    pub closed spec fn spec_side(&self) -> Side {
        self.side
    }

    /// Every level is well formed and the levels are in strict price priority, none empty.
    pub closed spec fn wf(&self) -> bool {
        &&& forall|k: int| 0 <= k < self.levels@.len() ==> (#[trigger] self.levels@[k]).wf()
        &&& levels_ordered(self.side, self@)
    }

    /// Total volume of the level at a position.
    pub closed spec fn volume_at(&self, k: int) -> u64 {
        self.levels@[k].spec_total_volume()
    }

    pub proof fn lemma_wf(&self)
        requires
            self.wf(),
        ensures
            levels_ordered(self.spec_side(), self@),
            forall|k: int|
                0 <= k < self@.len() ==> #[trigger] self.volume_at(k) == sum_sizes(self@[k].orders),
    {
        assert forall|k: int| 0 <= k < self@.len() implies #[trigger] self.volume_at(k) == sum_sizes(
            self@[k].orders,
        ) by {
            self.levels@[k].lemma_wf_volume();
        }
    }

    /// An empty side.
    pub fn new(side: Side) -> (r: SideLevels)
        ensures
            r.wf(),
            r.spec_side() == side,
            r@.len() == 0,
    {
        let r = SideLevels { side, levels: Vec::new() };
        assert(r@ =~= Seq::<LevelView>::empty());
        r
    }

    /// Which side this is.
    pub fn side(&self) -> (r: Side)
        ensures
            r == self.spec_side(),
    {
        self.side
    }

    /// Number of levels.
    pub fn level_count(&self) -> (r: usize)
        ensures
            r == self@.len(),
    {
        self.levels.len()
    }

    /// Price and total volume of the level at a position.
    pub fn level_at(&self, k: usize) -> (r: (u64, u64))
        requires
            k < self@.len(),
        ensures
            r.0 == self@[k as int].price,
            r.1 == self.volume_at(k as int),
    {
        (self.levels[k].price(), self.levels[k].get_total_volume())
    }

    /// The level at a position.
    pub fn level_ref(&self, k: usize) -> (r: &PriceLevel)
        requires
            k < self@.len(),
        ensures
            r@ == self@[k as int],
            self.wf() ==> r.wf(),
    {
        &self.levels[k]
    }

    /// Best price of the side, or `u64::MAX` for an empty ask side and 0 for an empty bid
    /// side.
    pub fn best_price(&self) -> (r: u64)
        ensures
            r == (if self@.len() > 0 {
                self@[0].price
            } else {
                match self.spec_side() {
                    Side::Ask => u64::MAX,
                    Side::Bid => 0,
                }
            }),
    {
        if self.levels.len() > 0 {
            self.levels[0].price()
        } else {
            match self.side {
                Side::Ask => u64::MAX,
                Side::Bid => 0,
            }
        }
    }

    /// Finds where a level with the price stands or would stand.
    fn find_pos(&self, price: u64) -> (p: usize)
        requires
            self.wf(),
        ensures
            p == level_pos(self.side, self@, price),
            p <= self@.len(),
            forall|k: int| 0 <= k < p ==> better(self.side, #[trigger] self@[k].price, price),
            forall|k: int| p <= k < self@.len() ==> !better(self.side, #[trigger] self@[k].price, price),
    {
        let n = self.levels.len();
        let mut lo: usize = 0;
        let mut hi: usize = n;
        while lo < hi
            invariant
                0 <= lo <= hi <= n,
                n == self@.len(),
                levels_ordered(self.side, self@),
                forall|k: int| 0 <= k < lo ==> better(self.side, #[trigger] self@[k].price, price),
                forall|k: int| hi <= k < n ==> !better(self.side, #[trigger] self@[k].price, price),
            decreases hi - lo,
        {
            let mid = lo + (hi - lo) / 2;
            let mp = self.levels[mid].price();
            let is_better = match self.side {
                Side::Ask => mp < price,
                Side::Bid => mp > price,
            };
            if is_better {
                proof {
                    assert forall|k: int| 0 <= k < mid + 1 implies better(self.side, #[trigger] self@[k].price, price) by {
                        if k < mid {
                            assert(better(self.side, self@[k].price, self@[mid as int].price));
                        }
                    }
                }
                lo = mid + 1;
            } else {
                proof {
                    assert forall|k: int| mid <= k < n implies !better(self.side, #[trigger] self@[k].price, price) by {
                        if k > mid {
                            assert(better(self.side, self@[mid as int].price, self@[k].price));
                        }
                    }
                }
                hi = mid;
            }
        }
        proof {
            lemma_level_pos_unique(self.side, self@, price, lo as int);
        }
        lo
    }

    /// Appends an order at the back of the level at `price`, creating the level when there is
    /// none.
    pub fn add_order(&mut self, price: u64, order: Order)
        requires
            old(self).wf(),
            forall|k: int|
                0 <= k < old(self)@.len() ==> forall|q: int|
                    0 <= q < (#[trigger] old(self)@[k]).orders.len() ==> old(self)@[k].orders[q].order_id
                        < order.order_id,
            has_level(old(self).spec_side(), old(self)@, price) ==> old(self).volume_at(
                level_pos(old(self).spec_side(), old(self)@, price),
            ) + order.size <= u64::MAX,
        ensures
            final(self).wf(),
            final(self).spec_side() == old(self).spec_side(),
            final(self)@ == add_to_levels(old(self).spec_side(), old(self)@, price, order),
            forall|k: int|
                0 <= k < final(self)@.len() ==> #[trigger] final(self).volume_at(k) == sum_sizes(
                    final(self)@[k].orders,
                ),
    {
        let p = self.find_pos(price);
        let ghost old_view = self@;
        proof {
            self.lemma_wf();
        }
        if p < self.levels.len() && self.levels[p].price() == price {
            assert(has_level(self.side, old_view, price));
            self.levels[p].add_order(order);
            proof {
                let nv = view_levels(self.levels@);
                assert(nv =~= old_view.update(p as int, LevelView { price, orders: old_view[p as int].orders.push(order) }));
                self.lemma_push_keeps_order(old_view, p as int, price, order);
            }
        } else {
            assert(!has_level(self.side, old_view, price));
            let mut lvl = PriceLevel::new(price);
            lvl.add_order(order);
            proof {
                assert(lvl@.orders =~= seq![order]);
            }
            self.levels.insert(p, lvl);
            proof {
                let nv = view_levels(self.levels@);
                assert(nv =~= old_view.insert(p as int, LevelView { price, orders: seq![order] }));
                lemma_insert_keeps_order(self.side, old_view, p as int, price, order);
            }
        }
        proof {
            self.lemma_wf();
        }
    }

    proof fn lemma_push_keeps_order(&self, old_view: Seq<LevelView>, p: int, price: u64, order: Order)
        requires
            levels_ordered(self.side, old_view),
            0 <= p < old_view.len(),
            old_view[p].price == price,
            forall|q: int|
                0 <= q < old_view[p].orders.len() ==> old_view[p].orders[q].order_id < order.order_id,
            self@ == old_view.update(p, LevelView { price, orders: old_view[p].orders.push(order) }),
        ensures
            levels_ordered(self.side, self@),
    {
        let nv = self@;
        assert forall|k: int| 0 <= k < nv.len() implies ids_increasing((#[trigger] nv[k]).orders) by {
            if k == p {
                let s2 = old_view[p].orders.push(order);
                assert forall|a: int, b: int| 0 <= a < b < s2.len() implies s2[a].order_id < s2[b].order_id by {
                    assert(s2[a] == old_view[p].orders[a]);
                    if b < s2.len() - 1 {
                        assert(s2[b] == old_view[p].orders[b]);
                    }
                }
            }
        }
        assert forall|k: int| 0 <= k < nv.len() implies (#[trigger] nv[k]).orders.len() > 0 by {}
    }

    /// Removes an order for a cancel command from the level at `price`, dropping the level
    /// when it becomes empty. Returns whether there was a level at `price`; when there was
    /// none, nothing changes.
    pub fn remove_order_at(&mut self, price: u64, order_id: u64, cmd: &mut OrderCommand) -> (found: bool)
        requires
            old(self).wf(),
        ensures
            final(self).wf(),
            final(self).spec_side() == old(self).spec_side(),
            found == has_level(old(self).spec_side(), old(self)@, price),
            !found ==> final(self)@ == old(self)@ && *final(cmd) == *old(cmd),
            found ==> {
                let p = level_pos(old(self).spec_side(), old(self)@, price);
                let qs = old(self)@[p].orders;
                &&& has_id(qs, order_id) ==> {
                    let o = qs[id_position(qs, order_id)];
                    let nq = qs.remove(id_position(qs, order_id));
                    &&& *final(cmd) == (OrderCommand {
                        price: o.price,
                        size: o.size,
                        user_id: o.user_id,
                        side: o.side,
                        status: crate::model::Status::Cancelled,
                        original_size: o.original_size,
                        ..*old(cmd)
                    })
                    &&& final(self)@ == (if nq.len() == 0 {
                        old(self)@.remove(p)
                    } else {
                        old(self)@.update(p, LevelView { price, orders: nq })
                    })
                }
                &&& !has_id(qs, order_id) ==> {
                    &&& *final(cmd) == (OrderCommand { status: crate::model::Status::Rejected, ..*old(cmd) })
                    &&& final(self)@ == old(self)@
                }
            },
            forall|k: int|
                0 <= k < final(self)@.len() ==> #[trigger] final(self).volume_at(k) == sum_sizes(
                    final(self)@[k].orders,
                ),
    {
        let p = self.find_pos(price);
        let ghost old_view = self@;
        proof {
            self.lemma_wf();
        }
        if p < self.levels.len() && self.levels[p].price() == price {
            self.levels[p].remove_order(order_id, cmd);
            proof {
                let qs = old_view[p as int].orders;
                let nv = view_levels(self.levels@);
                if has_id(qs, order_id) {
                    lemma_ids_increasing_remove(qs, id_position(qs, order_id));
                    assert(nv =~= old_view.update(p as int, LevelView { price, orders: qs.remove(id_position(qs, order_id)) }));
                } else {
                    assert(nv =~= old_view);
                }
            }
            if self.levels[p].is_empty() {
                self.levels.remove(p);
                proof {
                    let nv = view_levels(self.levels@);
                    assert(nv =~= old_view.remove(p as int));
                    lemma_remove_keeps_order(self.side, old_view, p as int);
                }
            } else {
                proof {
                    let nv = view_levels(self.levels@);
                    assert forall|a: int, b: int| 0 <= a < b < nv.len() implies better(self.side, nv[a].price, nv[b].price) by {
                        assert(nv[a].price == old_view[a].price);
                        assert(nv[b].price == old_view[b].price);
                    }
                }
            }
            proof {
                self.lemma_wf();
            }
            true
        } else {
            false
        }
    }

    /// Matches a taker against this side in price-time priority (see `match_levels`):
    /// trades go to `events`, used-up orders leave `orders_map`, emptied levels leave the
    /// side. Returns the size the taker has left.
    #[verifier::rlimit(30)]
    pub fn match_taker(
        &mut self,
        taker_side: Side,
        taker_price: u64,
        remaining: u64,
        events: &mut Vec<MatcherTradeEvent>,
        orders_map: &mut HashMap<u64, u64>,
    ) -> (left: u64)
        requires
            old(self).wf(),
        ensures
            final(self).wf(),
            final(self).spec_side() == old(self).spec_side(),
            ({
                let m = match_levels(old(self)@, 0, taker_side, taker_price, remaining);
                &&& final(self)@ == m.0
                &&& final(events)@ == old(events)@ + m.1
                &&& left == m.2
                &&& final(orders_map)@ == old(orders_map)@.remove_keys(completed_ids(m.1))
            }),
            forall|k: int|
                0 <= k < final(self)@.len() ==> #[trigger] final(self).volume_at(k) == sum_sizes(
                    final(self)@[k].orders,
                ),
    {
        let ghost old_view = self@;
        let ghost old_events = events@;
        let ghost old_map = orders_map@;
        let ghost mut new_events: Seq<MatcherTradeEvent> = Seq::empty();
        let ghost mut q: int = 0;
        let mut i: usize = 0;
        let mut r = remaining;
        proof {
            assert(self@.subrange(0, 0) =~= Seq::<LevelView>::empty());
            assert(Seq::<LevelView>::empty() + match_levels(old_view, 0, taker_side, taker_price, r).0
                =~= match_levels(old_view, 0, taker_side, taker_price, r).0);
            assert(Seq::<MatcherTradeEvent>::empty() + match_levels(old_view, 0, taker_side, taker_price, r).1
                =~= match_levels(old_view, 0, taker_side, taker_price, r).1);
        }
        loop
            invariant_except_break
                0 <= i <= self@.len(),
                0 <= q <= old_view.len(),
                self@.len() - i == old_view.len() - q,
                self@.subrange(i as int, self@.len() as int) == old_view.subrange(q, old_view.len() as int),
                forall|k: int| 0 <= k < self.levels@.len() ==> (#[trigger] self.levels@[k]).wf(),
                self.side == old(self).side,
                levels_ordered(self.side, old_view),
                levels_ordered(self.side, self@),
                i > 0 ==> q > 0,
                i > 0 && q < old_view.len() ==> better(self.side, self@[i - 1].price, old_view[q].price),
                ({
                    let all = match_levels(old_view, 0, taker_side, taker_price, remaining);
                    let rest = match_levels(old_view, q, taker_side, taker_price, r);
                    &&& all.0 == self@.subrange(0, i as int) + rest.0
                    &&& all.1 == new_events + rest.1
                    &&& all.2 == rest.2
                }),
                events@ == old_events + new_events,
                orders_map@ == old_map.remove_keys(completed_ids(new_events)),
            ensures
                forall|k: int| 0 <= k < self.levels@.len() ==> (#[trigger] self.levels@[k]).wf(),
                self.side == old(self).side,
                levels_ordered(self.side, self@),
                ({
                    let all = match_levels(old_view, 0, taker_side, taker_price, remaining);
                    &&& all.0 == self@
                    &&& all.1 == new_events
                    &&& all.2 == r
                }),
                events@ == old_events + new_events,
                orders_map@ == old_map.remove_keys(completed_ids(new_events)),
            decreases self@.len() - i,
        {
            if i >= self.levels.len() {
                proof {
                    assert(q == old_view.len());
                    assert(self@.subrange(0, i as int) =~= self@);
                    assert(self@ + Seq::<LevelView>::empty() =~= self@);
                    assert(new_events + Seq::<MatcherTradeEvent>::empty() =~= new_events);
                }
                break;
            }
            let lp = self.levels[i].price();
            let cross = match taker_side {
                Side::Bid => taker_price >= lp,
                Side::Ask => taker_price <= lp,
            };
            proof {
                assert(self@[i as int] == self@.subrange(i as int, self@.len() as int)[0]);
                assert(old_view[q] == old_view.subrange(q, old_view.len() as int)[0]);
            }
            if r == 0 || !cross {
                proof {
                    assert(self@ =~= self@.subrange(0, i as int) + old_view.subrange(q, old_view.len() as int));
                    assert(new_events + Seq::<MatcherTradeEvent>::empty() =~= new_events);
                }
                break;
            }
            let ghost lv = old_view[q];
            let ghost mres = match_from(lv.orders, 0, lv.price, r);
            let ghost before_events = events@;
            let ghost before_map = orders_map@;
            let ghost before_view = self@;
            let ghost r_before = r;
            r = self.levels[i].match_taker(r, events, orders_map);
            proof {
                lemma_match_from_props(lv.orders, 0, lv.price, r_before);
                self.levels@[i as int].lemma_wf_volume();
                assert(lv.orders.subrange(0, lv.orders.len() as int) =~= lv.orders);
                let prev = new_events;
                new_events = new_events + mres.1;
                assert(events@ =~= old_events + new_events);
                lemma_completed_ids_append(prev, mres.1);
                assert(old_map.remove_keys(completed_ids(prev)).remove_keys(completed_ids(mres.1))
                    =~= old_map.remove_keys(completed_ids(new_events)));
                let rest_next = match_levels(old_view, q + 1, taker_side, taker_price, r);
                assert(prev + (mres.1 + rest_next.1) =~= new_events + rest_next.1);
            }
            if self.levels[i].is_empty() {
                self.levels.remove(i);
                proof {
                    let nv = self@;
                    assert(nv =~= before_view.remove(i as int));
                    lemma_remove_keeps_order(self.side, before_view, i as int);
                    assert(nv.subrange(i as int, nv.len() as int) =~= before_view.subrange(i as int + 1, before_view.len() as int));
                    assert(before_view.subrange(i as int + 1, before_view.len() as int) =~= before_view.subrange(i as int, before_view.len() as int).subrange(1, before_view.len() - i));
                    assert(old_view.subrange(q + 1, old_view.len() as int) =~= old_view.subrange(q, old_view.len() as int).subrange(1, old_view.len() - q));
                    q = q + 1;
                    assert(nv.subrange(0, i as int) =~= before_view.subrange(0, i as int));
                    if i > 0 && q < old_view.len() {
                        assert(better(self.side, before_view[i - 1].price, old_view[q - 1].price));
                        assert(better(self.side, old_view[q - 1].price, old_view[q].price));
                    }
                }
            } else {
                proof {
                    let nv = self@;
                    let newlv = LevelView { price: lv.price, orders: mres.0 };
                    assert(nv =~= before_view.update(i as int, newlv));
                    assert(nv.subrange(0, i as int + 1) =~= before_view.subrange(0, i as int).push(newlv));
                    assert(before_view.subrange(0, i as int).push(newlv) + match_levels(old_view, q + 1, taker_side, taker_price, r).0
                        =~= before_view.subrange(0, i as int) + seq![newlv].add(match_levels(old_view, q + 1, taker_side, taker_price, r).0));
                    // the matched level keeps its place: ids stay increasing and it is non-empty
                    assert forall|a: int, b: int| 0 <= a < b < nv.len() implies better(self.side, nv[a].price, nv[b].price) by {
                        assert(nv[a].price == before_view[a].price);
                        assert(nv[b].price == before_view[b].price);
                    }
                    assert forall|k: int| 0 <= k < nv.len() implies ids_increasing((#[trigger] nv[k]).orders) by {
                        if k == i {
                            assert(ids_increasing(lv.orders));
                        }
                    }
                    assert forall|k: int| 0 <= k < nv.len() implies (#[trigger] nv[k]).orders.len() > 0 by {}
                    assert(nv.subrange(i as int + 1, nv.len() as int) =~= before_view.subrange(i as int + 1, before_view.len() as int));
                    assert(before_view.subrange(i as int + 1, before_view.len() as int) =~= before_view.subrange(i as int, before_view.len() as int).subrange(1, before_view.len() - i));
                    assert(old_view.subrange(q + 1, old_view.len() as int) =~= old_view.subrange(q, old_view.len() as int).subrange(1, old_view.len() - q));
                    q = q + 1;
                    if q < old_view.len() {
                        assert(better(self.side, old_view[q - 1].price, old_view[q].price));
                    }
                }
                i = i + 1;
            }
        }
        proof {
            self.lemma_wf();
        }
        r
    }

    /// Whether the crossing levels hold at least `size` units (see `fillable`).
    pub fn can_fill(&self, taker_side: Side, taker_price: u64, size: u64) -> (r: bool)
        requires
            self.wf(),
        ensures
            r == fillable(self@, 0, taker_side, taker_price, size as int),
    {
        let n = self.levels.len();
        let mut i: usize = 0;
        let mut remaining = size;
        while i < n
            invariant
                0 <= i <= n,
                n == self@.len(),
                forall|k: int| 0 <= k < self.levels@.len() ==> (#[trigger] self.levels@[k]).wf(),
                fillable(self@, 0, taker_side, taker_price, size as int) == fillable(
                    self@,
                    i as int,
                    taker_side,
                    taker_price,
                    remaining as int,
                ),
            decreases n - i,
        {
            let lp = self.levels[i].price();
            let cross = match taker_side {
                Side::Bid => lp <= taker_price,
                Side::Ask => lp >= taker_price,
            };
            if !cross {
                return false;
            }
            let available = self.levels[i].available_volume();
            if available >= remaining {
                return true;
            }
            remaining = remaining - available;
            i = i + 1;
        }
        false
    }
}

pub proof fn lemma_completed_ids_append(a: Seq<MatcherTradeEvent>, b: Seq<MatcherTradeEvent>)
    ensures
        completed_ids(a + b) =~= completed_ids(a).union(completed_ids(b)),
{
    let c = a + b;
    assert forall|id: u64| completed_ids(c).contains(id) implies completed_ids(a).union(completed_ids(b)).contains(id) by {
        let k = choose|k: int| 0 <= k < c.len() && c[k].matched_order_completed && c[k].matched_order_id == id;
        if k < a.len() {
            assert(c[k] == a[k]);
        } else {
            assert(c[k] == b[k - a.len()]);
        }
    }
    assert forall|id: u64| completed_ids(a).union(completed_ids(b)).contains(id) implies completed_ids(c).contains(id) by {
        if completed_ids(a).contains(id) {
            let k = choose|k: int| 0 <= k < a.len() && a[k].matched_order_completed && a[k].matched_order_id == id;
            assert(c[k] == a[k]);
        } else {
            let k = choose|k: int| 0 <= k < b.len() && b[k].matched_order_completed && b[k].matched_order_id == id;
            assert(c[a.len() + k] == b[k]);
        }
    }
}

pub proof fn lemma_level_pos_unique(side: Side, ls: Seq<LevelView>, price: u64, p: int)
    requires
        0 <= p <= ls.len(),
        forall|k: int| 0 <= k < p ==> better(side, #[trigger] ls[k].price, price),
        forall|k: int| p <= k < ls.len() ==> !better(side, #[trigger] ls[k].price, price),
    ensures
        level_pos(side, ls, price) == p,
{
    assert(is_level_pos(side, ls, price, p));
    let c = level_pos(side, ls, price);
    assert(is_level_pos(side, ls, price, c));
    if c < p {
        assert(better(side, ls[c].price, price));
    } else if c > p {
        assert(better(side, ls[p].price, price));
    }
}

/// In ordered levels, the level at position `i` is the level at its price.
pub proof fn lemma_level_at_price(side: Side, ls: Seq<LevelView>, i: int)
    requires
        levels_ordered(side, ls),
        0 <= i < ls.len(),
    ensures
        has_level(side, ls, ls[i].price),
        level_pos(side, ls, ls[i].price) == i,
{
    let price = ls[i].price;
    assert forall|k: int| 0 <= k < i implies better(side, #[trigger] ls[k].price, price) by {}
    assert forall|k: int| i <= k < ls.len() implies !better(side, #[trigger] ls[k].price, price) by {
        if k > i {
            assert(better(side, ls[i].price, ls[k].price));
        }
    }
    lemma_level_pos_unique(side, ls, price, i);
}

/// Without a level at the price, the side has no level there.
pub proof fn lemma_no_level_at_price(side: Side, ls: Seq<LevelView>, price: u64)
    requires
        forall|k: int| 0 <= k < ls.len() ==> (#[trigger] ls[k]).price != price,
    ensures
        !has_level(side, ls, price),
{
    let p = level_pos(side, ls, price);
    if 0 <= p < ls.len() {
        assert(ls[p].price != price);
    }
}

pub proof fn lemma_remove_keeps_order(side: Side, ls: Seq<LevelView>, p: int)
    requires
        levels_ordered(side, ls),
        0 <= p < ls.len(),
    ensures
        levels_ordered(side, ls.remove(p)),
{
    let nv = ls.remove(p);
    assert forall|a: int, b: int| 0 <= a < b < nv.len() implies better(side, nv[a].price, nv[b].price) by {
        let aa = if a < p { a } else { a + 1 };
        let bb = if b < p { b } else { b + 1 };
        assert(nv[a] == ls[aa]);
        assert(nv[b] == ls[bb]);
    }
    assert forall|k: int| 0 <= k < nv.len() implies (#[trigger] nv[k]).orders.len() > 0 && ids_increasing(nv[k].orders) by {
        let kk = if k < p { k } else { k + 1 };
        assert(nv[k] == ls[kk]);
    }
}

pub proof fn lemma_insert_keeps_order(side: Side, ls: Seq<LevelView>, p: int, price: u64, o: Order)
    requires
        levels_ordered(side, ls),
        0 <= p <= ls.len(),
        forall|k: int| 0 <= k < p ==> better(side, #[trigger] ls[k].price, price),
        forall|k: int| p <= k < ls.len() ==> !better(side, #[trigger] ls[k].price, price),
        p < ls.len() ==> ls[p].price != price,
    ensures
        levels_ordered(side, ls.insert(p, LevelView { price, orders: seq![o] })),
{
    let nl = LevelView { price, orders: seq![o] };
    let nv = ls.insert(p, nl);
    assert forall|a: int, b: int| 0 <= a < b < nv.len() implies better(side, nv[a].price, nv[b].price) by {
        if a < p && b < p {
            assert(nv[a] == ls[a]);
            assert(nv[b] == ls[b]);
        } else if a < p && b == p {
            assert(nv[a] == ls[a]);
        } else if a < p {
            assert(nv[a] == ls[a]);
            assert(nv[b] == ls[b - 1]);
        } else if a == p {
            assert(nv[b] == ls[b - 1]);
            assert(!better(side, ls[b - 1].price, price));
            if b - 1 > p {
                assert(better(side, ls[p].price, ls[b - 1].price));
                assert(!better(side, ls[p].price, price));
                assert(ls[p].price != price);
            } else {
                assert(ls[p].price != price);
            }
        } else {
            assert(nv[a] == ls[a - 1]);
            assert(nv[b] == ls[b - 1]);
        }
    }
    assert forall|k: int| 0 <= k < nv.len() implies (#[trigger] nv[k]).orders.len() > 0 && ids_increasing(nv[k].orders) by {
        if k < p {
            assert(nv[k] == ls[k]);
        } else if k > p {
            assert(nv[k] == ls[k - 1]);
        }
    }
}

} // verus!
