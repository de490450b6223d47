//! A price level: the FIFO queue of resting orders at one price.
use std::collections::HashMap;
use std::collections::VecDeque;
use vstd::prelude::*;

use crate::model::{MatcherTradeEvent, Order, OrderCommand, Status, UserBalance};

verus! {

broadcast use vstd::std_specs::hash::group_hash_axioms;

/// Sum of the sizes of a sequence of orders.
pub open spec fn sum_sizes(s: Seq<Order>) -> int
    decreases s.len(),
{
    if s.len() == 0 {
        0
    } else {
        s[0].size + sum_sizes(s.drop_first())
    }
}

/// Sum of the sizes of the orders of `s` from index `i` on: the volume a taker can trade
/// against.
pub open spec fn avail_from(s: Seq<Order>, i: int) -> int
    decreases s.len() - i,
{
    if i < 0 || i >= s.len() {
        0
    } else {
        s[i].size + avail_from(s, i + 1)
    }
}

/// Sum of the sizes of a sequence of trades.
pub open spec fn sum_trade_sizes(e: Seq<MatcherTradeEvent>) -> int
    decreases e.len(),
{
    if e.len() == 0 {
        0
    } else {
        e[0].size + sum_trade_sizes(e.drop_first())
    }
}

/// Order ids strictly increase along the queue.
pub open spec fn ids_increasing(s: Seq<Order>) -> bool {
    forall|a: int, b: int| 0 <= a < b < s.len() ==> s[a].order_id < s[b].order_id
}

/// Whether some order of the queue has the id.
pub open spec fn has_id(s: Seq<Order>, id: u64) -> bool {
    exists|k: int| 0 <= k < s.len() && s[k].order_id == id
}

/// The position of the order with the id.
pub open spec fn id_position(s: Seq<Order>, id: u64) -> int {
    choose|k: int| 0 <= k < s.len() && s[k].order_id == id
}

/// The trade of a taker against maker `o` at `price` for `t` units, leaving the taker `left`.
pub open spec fn trade_event(o: Order, price: u64, t: u64, left: u64) -> MatcherTradeEvent {
    MatcherTradeEvent {
        active_order_completed: left == 0,
        matched_order_id: o.order_id,
        maker_user_id: o.user_id,
        matched_order_completed: o.size - t == 0,
        price,
        size: t,
        maker_balance: [UserBalance::zero_spec(), UserBalance::zero_spec()],
        maker_remaining_size: (o.size - t) as u64,
        maker_original_size: o.original_size,
    }
}

pub open spec fn min_u64(a: u64, b: u64) -> u64 {
    if a <= b {
        a
    } else {
        b
    }
}

/// Matching of a taker with `r` units left against the queue `s` from index `i` on, at the
/// level price `price`, in time priority; the taker trades with every resting order, its own
/// user's included. An order that is used up leaves the queue. The result is the queue from `i` on
/// afterwards, the trades in order, and the size the taker has left.
pub open spec fn match_from(s: Seq<Order>, i: int, price: u64, r: u64) -> (
    Seq<Order>,
    Seq<MatcherTradeEvent>,
    u64,
)
    decreases s.len() - i,
{
    if i < 0 || i >= s.len() {
        (Seq::empty(), Seq::empty(), r)
    } else if r == 0 {
        (s.subrange(i, s.len() as int), Seq::empty(), r)
    } else {
        let o = s[i];
        let t = min_u64(r, o.size);
        let left = (r - t) as u64;
        let o2 = Order { size: (o.size - t) as u64, ..o };
        let ev = trade_event(o, price, t, left);
        let rest = match_from(s, i + 1, price, left);
        (
            if o2.size == 0 {
                rest.0
            } else {
                seq![o2].add(rest.0)
            },
            seq![ev].add(rest.1),
            rest.2,
        )
    }
}

/// Ids of the maker orders that trades used up.
pub open spec fn completed_ids(e: Seq<MatcherTradeEvent>) -> Set<u64> {
    Set::new(
        |id: u64|
            exists|k: int|
                0 <= k < e.len() && e[k].matched_order_completed && e[k].matched_order_id == id,
    )
}

/// What a level is: its price and its queue.
pub struct LevelView {
    pub price: u64,
    pub orders: Seq<Order>,
}

/// The orders resting at one price, in arrival order, with their total size.
#[derive(Debug, Clone)]
pub struct PriceLevel {
    price: u64,
    total_volume: u64,
    orders: VecDeque<Order>,
}

impl View for PriceLevel {
    type V = LevelView;

    closed spec fn view(&self) -> LevelView {
        LevelView { price: self.price, orders: self.orders@ }
    }
}

impl PriceLevel {
    /// The stored total equals the sum of the sizes, and ids increase along the queue.
    pub closed spec fn wf(&self) -> bool {
        &&& self.total_volume == sum_sizes(self.orders@)
        &&& ids_increasing(self.orders@)
    }

    pub closed spec fn spec_total_volume(&self) -> u64 {
        self.total_volume
    }

    pub proof fn lemma_wf_volume(&self)
        requires
            self.wf(),
        ensures
            self.spec_total_volume() == sum_sizes(self@.orders),
            ids_increasing(self@.orders),
    {
    }

    /// An empty level at the price.
    pub fn new(price: u64) -> (r: PriceLevel)
        ensures
            r.wf(),
            r@.price == price,
            r@.orders.len() == 0,
            r.spec_total_volume() == 0,
    {
        PriceLevel { price, total_volume: 0, orders: VecDeque::new() }
    }

    /// Price of the level.
    pub fn price(&self) -> (r: u64)
        ensures
            r == self@.price,
    {
        self.price
    }

    /// Appends an order at the back of the queue.
    pub fn add_order(&mut self, order: Order)
        requires
            old(self).wf(),
            old(self).spec_total_volume() + order.size <= u64::MAX,
            forall|k: int|
                0 <= k < old(self)@.orders.len() ==> old(self)@.orders[k].order_id
                    < order.order_id,
        ensures
            final(self).wf(),
            final(self)@.price == old(self)@.price,
            final(self)@.orders == old(self)@.orders.push(order),
            final(self).spec_total_volume() == old(self).spec_total_volume() + order.size,
    {
        proof {
            lemma_sum_sizes_push(self.orders@, order);
            let s2 = self.orders@.push(order);
            assert forall|a: int, b: int| 0 <= a < b < s2.len() implies s2[a].order_id < s2[b].order_id by {
                assert(s2[a] == self.orders@[a]);
                assert(old(self)@.orders[a] == self.orders@[a]);
                if b == s2.len() - 1 {
                    assert(s2[b] == order);
                    assert(old(self)@.orders[a].order_id < order.order_id);
                } else {
                    assert(s2[b] == self.orders@[b]);
                    assert(self.orders@[a].order_id < self.orders@[b].order_id);
                }
            }
        }
        self.total_volume = self.total_volume + order.size;
        self.orders.push_back(order);
    }

    /// Removes the order with the id for a cancel command: on success the command takes the
    /// removed order's price, size, user, side and original size and the status `Cancelled`;
    /// when no order has the id, the command's status becomes `Rejected`.
    pub fn remove_order(&mut self, order_id: u64, cmd: &mut OrderCommand)
        requires
            old(self).wf(),
        ensures
            final(self).wf(),
            final(self)@.price == old(self)@.price,
            has_id(old(self)@.orders, order_id) ==> {
                let k = id_position(old(self)@.orders, order_id);
                let o = old(self)@.orders[k];
                &&& final(self)@.orders == old(self)@.orders.remove(k)
                &&& final(self).spec_total_volume() == old(self).spec_total_volume() - o.size
                &&& *final(cmd) == (OrderCommand {
                    price: o.price,
                    size: o.size,
                    user_id: o.user_id,
                    side: o.side,
                    status: Status::Cancelled,
                    original_size: o.original_size,
                    ..*old(cmd)
                })
            },
            !has_id(old(self)@.orders, order_id) ==> {
                &&& final(self)@ == old(self)@
                &&& final(self).spec_total_volume() == old(self).spec_total_volume()
                &&& *final(cmd) == (OrderCommand { status: Status::Rejected, ..*old(cmd) })
            },
    {
        let n = self.orders.len();
        let mut lo: usize = 0;
        let mut hi: usize = n;
        while lo < hi
            invariant
                0 <= lo <= hi <= n,
                n == self.orders@.len(),
                ids_increasing(self.orders@),
                forall|k: int| 0 <= k < lo ==> self.orders@[k].order_id < order_id,
                forall|k: int| hi <= k < n ==> self.orders@[k].order_id >= order_id,
            decreases hi - lo,
        {
            let mid = lo + (hi - lo) / 2;
            if self.orders[mid].order_id < order_id {
                lo = mid + 1;
            } else {
                hi = mid;
            }
        }
        if lo < n && self.orders[lo].order_id == order_id {
            proof {
                assert(has_id(self.orders@, order_id));
                let k = id_position(self.orders@, order_id);
                assert(k == lo as int) by {
                    if k < lo {
                        assert(self.orders@[k].order_id < order_id);
                    } else if k > lo {
                        assert(self.orders@[lo as int].order_id < self.orders@[k].order_id);
                    }
                }
                lemma_sum_sizes_remove(self.orders@, lo as int);
                lemma_sum_sizes_nonneg(self.orders@.remove(lo as int));
                lemma_ids_increasing_remove(self.orders@, lo as int);
            }
            let removed = self.orders.remove(lo);
            match removed {
                Some(o) => {
                    self.total_volume = self.total_volume - o.size;
                    cmd.price = o.price;
                    cmd.size = o.size;
                    cmd.user_id = o.user_id;
                    cmd.side = o.side;
                    cmd.status = Status::Cancelled;
                    cmd.original_size = o.original_size;
                },
                None => {},
            }
        } else {
            proof {
                assert(!has_id(self.orders@, order_id)) by {
                    if has_id(self.orders@, order_id) {
                        let k = id_position(self.orders@, order_id);
                        if k < lo {
                        } else if k >= hi {
                            if lo < n {
                                assert(self.orders@[lo as int].order_id >= order_id);
                                assert(self.orders@[lo as int].order_id <= self.orders@[k].order_id);
                            }
                        }
                    }
                }
            }
            cmd.status = Status::Rejected;
        }
    }

    /// Total size resting at this level.
    pub fn get_total_volume(&self) -> (r: u64)
        ensures
            r == self.spec_total_volume(),
    {
        self.total_volume
    }

    /// Number of orders resting at this level.
    pub fn get_order_count(&self) -> (r: u64)
        ensures
            r == self@.orders.len(),
    {
        self.orders.len() as u64
    }

    /// Whether the queue is empty.
    pub fn is_empty(&self) -> (r: bool)
        ensures
            r == (self@.orders.len() == 0),
    {
        self.orders.len() == 0
    }

    /// The order at a position of the queue.
    pub fn order_at(&self, k: usize) -> (r: Order)
        requires
            k < self@.orders.len(),
        ensures
            r == self@.orders[k as int],
    {
        self.orders[k]
    }

    /// Volume that a taker can trade against here: the sizes of all its orders.
    pub fn available_volume(&self) -> (r: u64)
        requires
            self.wf(),
        ensures
            r == avail_from(self@.orders, 0),
    {
        let n = self.orders.len();
        let mut acc: u64 = 0;
        let mut j: usize = n;
        proof {
            lemma_avail_le_sum(self.orders@, 0);
            assert(self.orders@.subrange(0, n as int) =~= self.orders@);
        }
        while j > 0
            invariant
                0 <= j <= n,
                n == self.orders@.len(),
                acc == avail_from(self.orders@, j as int),
                avail_from(self.orders@, 0) <= self.total_volume,
            decreases j,
        {
            proof {
                lemma_avail_mono(self.orders@, 0, (j - 1) as int);
            }
            let o = self.orders[j - 1];
            acc = acc + o.size;
            j = j - 1;
        }
        acc
    }

    /// Matches a taker with `remaining` units against this level in time
    /// priority: each trade goes to `events`, and used-up orders leave the queue and
    /// `orders_map`. Returns the size the taker has left.
    pub fn match_taker(
        &mut self,
        remaining: u64,
        events: &mut Vec<MatcherTradeEvent>,
        orders_map: &mut HashMap<u64, u64>,
    ) -> (left: u64)
        requires
            old(self).wf(),
        ensures
            final(self).wf(),
            ({
                let m = match_from(old(self)@.orders, 0, old(self)@.price, remaining);
                &&& final(self)@.price == old(self)@.price
                &&& final(self)@.orders == m.0
                &&& final(events)@ == old(events)@ + m.1
                &&& left == m.2
                &&& final(orders_map)@ == old(orders_map)@.remove_keys(completed_ids(m.1))
            }),
    {
        let ghost old_orders = self.orders@;
        let ghost old_events = events@;
        let ghost old_map = orders_map@;
        let ghost price = self.price;
        let n = self.orders.len();
        let mut survivors: VecDeque<Order> = VecDeque::new();
        let mut r = remaining;
        let mut vol = self.total_volume;
        let mut j: usize = 0;
        let ghost mut new_events: Seq<MatcherTradeEvent> = Seq::empty();
        proof {
            lemma_match_from_props(old_orders, 0, price, remaining);
            assert(old_orders.subrange(0, old_orders.len() as int) =~= old_orders);
        }
        while j < n
            invariant
                0 <= j <= n,
                n == old_orders.len(),
                self.orders@ == old_orders,
                self.price == price,
                ids_increasing(old_orders),
                ({
                    let rest = match_from(old_orders, j as int, price, r);
                    let all = match_from(old_orders, 0, price, remaining);
                    &&& all.0 == survivors@ + rest.0
                    &&& all.1 == new_events + rest.1
                    &&& all.2 == rest.2
                }),
                events@ == old_events + new_events,
                orders_map@ == old_map.remove_keys(completed_ids(new_events)),
                vol as int == sum_sizes(survivors@) + sum_sizes(old_orders.subrange(j as int, n as int)),
            decreases n - j,
        {
            let o = self.orders[j];
            proof {
                lemma_sum_sizes_split_first(old_orders, j as int);
                lemma_sum_sizes_nonneg(survivors@);
                lemma_sum_sizes_nonneg(old_orders.subrange(j as int + 1, n as int));
            }
            if r == 0 {
                proof {
                    if r == 0 {
                        lemma_match_from_zero(old_orders, j as int, price);
                        lemma_match_from_zero(old_orders, j as int + 1, price);
                        assert(old_orders.subrange(j as int, n as int) =~= seq![o].add(
                            old_orders.subrange(j as int + 1, n as int),
                        ));
                    }
                    lemma_sum_sizes_push(survivors@, o);
                    assert(survivors@.push(o) + match_from(old_orders, j + 1, price, r).0
                        =~= survivors@ + seq![o].add(match_from(old_orders, j + 1, price, r).0));
                }
                survivors.push_back(o);
            } else {
                let t = if r <= o.size { r } else { o.size };
                r = r - t;
                let mut o2 = o;
                o2.size = o.size - t;
                let ev = MatcherTradeEvent {
                    active_order_completed: r == 0,
                    matched_order_id: o.order_id,
                    maker_user_id: o.user_id,
                    matched_order_completed: o2.size == 0,
                    price: self.price,
                    size: t,
                    maker_balance: [UserBalance::zero(), UserBalance::zero()],
                    maker_remaining_size: o2.size,
                    maker_original_size: o.original_size,
                };
                proof {
                    assert(ev == trade_event(o, price, t, r));
                    assert(o2 == Order { size: (o.size - t) as u64, ..o });
                }
                events.push(ev);
                let ghost prev_events = new_events;
                proof {
                    new_events = new_events.push(ev);
                    assert(new_events.push(ev) =~= new_events.push(ev));
                }
                if o2.size == 0 {
                    orders_map.remove(&o.order_id);
                    proof {
                        assert(completed_ids(new_events) =~= completed_ids(prev_events).insert(o.order_id)) by {
                            assert forall|id: u64| completed_ids(new_events).contains(id) implies completed_ids(prev_events).insert(o.order_id).contains(id) by {
                                let k = choose|k: int| 0 <= k < new_events.len() && new_events[k].matched_order_completed && new_events[k].matched_order_id == id;
                                if k < prev_events.len() {
                                    assert(prev_events[k] == new_events[k]);
                                }
                            }
                            assert forall|id: u64| completed_ids(prev_events).insert(o.order_id).contains(id) implies completed_ids(new_events).contains(id) by {
                                if id == o.order_id {
                                    assert(new_events[prev_events.len() as int] == ev);
                                } else {
                                    let k = choose|k: int| 0 <= k < prev_events.len() && prev_events[k].matched_order_completed && prev_events[k].matched_order_id == id;
                                    assert(new_events[k] == prev_events[k]);
                                }
                            }
                        }
                        assert(old_map.remove_keys(completed_ids(prev_events)).remove(o.order_id)
                            =~= old_map.remove_keys(completed_ids(new_events)));
                    }
                } else {
                    proof {
                        assert(completed_ids(new_events) =~= completed_ids(prev_events)) by {
                            assert forall|id: u64| completed_ids(new_events).contains(id) implies completed_ids(prev_events).contains(id) by {
                                let k = choose|k: int| 0 <= k < new_events.len() && new_events[k].matched_order_completed && new_events[k].matched_order_id == id;
                                if k < prev_events.len() {
                                    assert(prev_events[k] == new_events[k]);
                                } else {
                                    assert(new_events[k] == ev);
                                }
                            }
                            assert forall|id: u64| completed_ids(prev_events).contains(id) implies completed_ids(new_events).contains(id) by {
                                let k = choose|k: int| 0 <= k < prev_events.len() && prev_events[k].matched_order_completed && prev_events[k].matched_order_id == id;
                                assert(new_events[k] == prev_events[k]);
                            }
                        }
                    }
                    proof {
                        lemma_sum_sizes_push(survivors@, o2);
                        assert(survivors@.push(o2) + match_from(old_orders, j + 1, price, r).0
                            =~= survivors@ + seq![o2].add(match_from(old_orders, j + 1, price, r).0));
                    }
                    survivors.push_back(o2);
                }
                proof {
                    assert(prev_events.push(ev) + match_from(old_orders, j + 1, price, r).1
                        =~= prev_events + seq![ev].add(match_from(old_orders, j + 1, price, r).1));
                }
                vol = vol - t;
            }
            j = j + 1;
        }
        proof {
            assert(old_orders.subrange(n as int, n as int) =~= Seq::<Order>::empty());
            assert(survivors@ + Seq::<Order>::empty() =~= survivors@);
            assert(new_events + Seq::<MatcherTradeEvent>::empty() =~= new_events);
            lemma_match_from_props(old_orders, 0, price, remaining);
        }
        self.orders = survivors;
        self.total_volume = vol;
        r
    }
}

// ---------------------------------------------------------------------------------------
// Lemmas about sums and queue matching.

pub proof fn lemma_sum_sizes_append(a: Seq<Order>, b: Seq<Order>)
    ensures
        sum_sizes(a + b) == sum_sizes(a) + sum_sizes(b),
    decreases a.len(),
{
    if a.len() == 0 {
        assert(a + b =~= b);
    } else {
        lemma_sum_sizes_append(a.drop_first(), b);
        assert((a + b).drop_first() =~= a.drop_first() + b);
    }
}

pub proof fn lemma_sum_sizes_push(a: Seq<Order>, o: Order)
    ensures
        sum_sizes(a.push(o)) == sum_sizes(a) + o.size,
{
    lemma_sum_sizes_append(a, seq![o]);
    assert(a + seq![o] =~= a.push(o));
    assert(seq![o].drop_first() =~= Seq::<Order>::empty());
    assert(sum_sizes(seq![o].drop_first()) == 0);
    assert(sum_sizes(seq![o]) == o.size);
}

pub proof fn lemma_sum_sizes_single(o: Order)
    ensures
        sum_sizes(seq![o]) == o.size,
{
    assert(seq![o].drop_first() =~= Seq::<Order>::empty());
    assert(sum_sizes(seq![o].drop_first()) == 0);
}

pub proof fn lemma_sum_sizes_nonneg(a: Seq<Order>)
    ensures
        sum_sizes(a) >= 0,
    decreases a.len(),
{
    if a.len() > 0 {
        lemma_sum_sizes_nonneg(a.drop_first());
    }
}

pub proof fn lemma_sum_sizes_split_first(s: Seq<Order>, j: int)
    requires
        0 <= j < s.len(),
    ensures
        sum_sizes(s.subrange(j, s.len() as int)) == s[j].size + sum_sizes(
            s.subrange(j + 1, s.len() as int),
        ),
{
    assert(s.subrange(j, s.len() as int).drop_first() =~= s.subrange(j + 1, s.len() as int));
}

pub proof fn lemma_sum_sizes_remove(s: Seq<Order>, k: int)
    requires
        0 <= k < s.len(),
    ensures
        sum_sizes(s.remove(k)) == sum_sizes(s) - s[k].size,
{
    let a = s.subrange(0, k);
    let b = s.subrange(k + 1, s.len() as int);
    assert(s =~= a + seq![s[k]] + b);
    assert(s.remove(k) =~= a + b);
    lemma_sum_sizes_append(a, b);
    lemma_sum_sizes_append(a + seq![s[k]], b);
    lemma_sum_sizes_push(a, s[k]);
    assert(a + seq![s[k]] =~= a.push(s[k]));
}

pub proof fn lemma_ids_increasing_remove(s: Seq<Order>, k: int)
    requires
        0 <= k < s.len(),
        ids_increasing(s),
    ensures
        ids_increasing(s.remove(k)),
{
    let r = s.remove(k);
    assert forall|a: int, b: int| 0 <= a < b < r.len() implies r[a].order_id < r[b].order_id by {
        let aa = if a < k { a } else { a + 1 };
        let bb = if b < k { b } else { b + 1 };
        assert(r[a] == s[aa]);
        assert(r[b] == s[bb]);
    }
}

pub proof fn lemma_avail_le_sum(s: Seq<Order>, i: int)
    requires
        0 <= i <= s.len(),
    ensures
        0 <= avail_from(s, i) <= sum_sizes(s.subrange(i, s.len() as int)),
    decreases s.len() - i,
{
    if i < s.len() {
        lemma_avail_le_sum(s, i + 1);
        lemma_sum_sizes_split_first(s, i);
    } else {
        assert(s.subrange(i, s.len() as int) =~= Seq::<Order>::empty());
    }
}

pub proof fn lemma_avail_mono(s: Seq<Order>, i: int, j: int)
    requires
        0 <= i <= j <= s.len(),
    ensures
        avail_from(s, j) <= avail_from(s, i),
    decreases j - i,
{
    if i < j {
        lemma_avail_mono(s, i + 1, j);
    }
}

pub proof fn lemma_match_from_zero(s: Seq<Order>, i: int, price: u64)
    requires
        0 <= i <= s.len(),
    ensures
        match_from(s, i, price, 0) == (
            s.subrange(i, s.len() as int),
            Seq::<MatcherTradeEvent>::empty(),
            0u64,
        ),
{
    if i == s.len() {
        assert(s.subrange(i, s.len() as int) =~= Seq::<Order>::empty());
    }
}

pub proof fn lemma_sum_trade_sizes_prepend(e: MatcherTradeEvent, rest: Seq<MatcherTradeEvent>)
    ensures
        sum_trade_sizes(seq![e].add(rest)) == e.size + sum_trade_sizes(rest),
{
    assert(seq![e].add(rest).drop_first() =~= rest);
}

/// What matching a queue does: it conserves size, trades at the level price, keeps the ids
/// increasing, and leaves the taker exactly the part of its size that the queue could not
/// cover, in which case the queue is used up.
pub proof fn lemma_match_from_props(s: Seq<Order>, i: int, price: u64, r: u64)
    requires
        0 <= i <= s.len(),
    ensures
        ({
            let m = match_from(s, i, price, r);
            &&& sum_sizes(m.0) + sum_trade_sizes(m.1) == sum_sizes(s.subrange(i, s.len() as int))
            &&& r == m.2 + sum_trade_sizes(m.1)
            &&& m.2 == (if avail_from(s, i) >= r {
                0
            } else {
                r - avail_from(s, i)
            })
            &&& forall|k: int| 0 <= k < m.1.len() ==> (#[trigger] m.1[k]).price == price
            &&& m.2 > 0 ==> m.0.len() == 0
            &&& ids_increasing(s.subrange(i, s.len() as int)) ==> ids_increasing(m.0)
            &&& forall|k: int|
                0 <= k < m.0.len() ==> exists|q: int|
                    i <= q < s.len() && (#[trigger] m.0[k]).order_id == s[q].order_id
        }),
    decreases s.len() - i,
{
    let m = match_from(s, i, price, r);
    if i == s.len() {
        assert(s.subrange(i, s.len() as int) =~= Seq::<Order>::empty());
    } else if r == 0 {
        lemma_avail_le_sum(s, i);
        assert(sum_trade_sizes(m.1) == 0);
        assert forall|k: int| 0 <= k < m.0.len() implies exists|q: int|
            i <= q < s.len() && (#[trigger] m.0[k]).order_id == s[q].order_id by {
            assert(m.0[k] == s[i + k]);
        }
    } else {
        lemma_sum_sizes_split_first(s, i);
        let tail = s.subrange(i + 1, s.len() as int);
        assert(ids_increasing(s.subrange(i, s.len() as int)) ==> ids_increasing(tail)) by {
            if ids_increasing(s.subrange(i, s.len() as int)) {
                assert forall|a: int, b: int| 0 <= a < b < tail.len() implies tail[a].order_id
                    < tail[b].order_id by {
                    assert(tail[a] == s.subrange(i, s.len() as int)[a + 1]);
                    assert(tail[b] == s.subrange(i, s.len() as int)[b + 1]);
                }
            }
        }
        {
            let o = s[i];
            let t = min_u64(r, o.size);
            let left = (r - t) as u64;
            let o2 = Order { size: (o.size - t) as u64, ..o };
            let ev = trade_event(o, price, t, left);
            let rest = match_from(s, i + 1, price, left);
            lemma_match_from_props(s, i + 1, price, left);
            lemma_sum_trade_sizes_prepend(ev, rest.1);
            lemma_sum_sizes_append(seq![o2], rest.0);
            lemma_sum_sizes_single(o2);
            assert(seq![o2].drop_first() =~= Seq::<Order>::empty());
            if left == 0 {
                lemma_match_from_zero(s, i + 1, price);
            }
            assert forall|k: int| 0 <= k < m.1.len() implies (#[trigger] m.1[k]).price == price by {
                if k > 0 {
                    assert(m.1[k] == rest.1[k - 1]);
                }
            }
            if o2.size == 0 {
                assert forall|k: int| 0 <= k < m.0.len() implies exists|q: int|
                    i <= q < s.len() && (#[trigger] m.0[k]).order_id == s[q].order_id by {
                    let q = choose|q: int| i + 1 <= q < s.len() && (#[trigger] rest.0[k]).order_id == s[q].order_id;
                }
            } else {
                assert forall|k: int| 0 <= k < m.0.len() implies exists|q: int|
                    i <= q < s.len() && (#[trigger] m.0[k]).order_id == s[q].order_id by {
                    if k == 0 {
                        assert(m.0[0] == o2);
                    } else {
                        assert(m.0[k] == rest.0[k - 1]);
                        let q = choose|q: int| i + 1 <= q < s.len() && rest.0[k - 1].order_id == s[q].order_id;
                    }
                }
                if ids_increasing(s.subrange(i, s.len() as int)) {
                    assert forall|a: int, b: int| 0 <= a < b < m.0.len() implies m.0[a].order_id
                        < m.0[b].order_id by {
                        if a == 0 {
                            assert(m.0[b] == rest.0[b - 1]);
                            let q = choose|q: int| i + 1 <= q < s.len() && (#[trigger] rest.0[b - 1]).order_id == s[q].order_id;
                            assert(s.subrange(i, s.len() as int)[0] == s[i]);
                            assert(s.subrange(i, s.len() as int)[q - i] == s[q]);
                        } else {
                            assert(m.0[a] == rest.0[a - 1]);
                            assert(m.0[b] == rest.0[b - 1]);
                        }
                    }
                }
                if m.2 > 0 {
                    assert(false);
                }
            }
            if m.2 > 0 && o2.size == 0 {
                assert(m.0 == rest.0);
            }
        }
    }
}

} // verus!
