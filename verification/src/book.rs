//! The limit order book of one market: matching of incoming orders in price-time priority,
//! resting of the unfilled part of good-till-cancelled orders, and cancellation.
use std::collections::HashMap;
use vstd::prelude::*;

use crate::level::{has_id, id_position, sum_sizes, LevelView, PriceLevel};
use crate::model::{
    L2MarketData, MatcherTradeEvent, Order, OrderCommand, PriceCache, Side, Status, TimeInForce,
    L2SIZE,
};
use crate::side::{add_to_levels, fillable, has_level, level_pos, levels_ordered, match_levels, SideLevels};

verus! {

broadcast use vstd::std_specs::hash::group_hash_axioms;

/// What a book is: its two sides, best price first, and the index from order id to price.
pub struct BookView {
    pub bids: Seq<LevelView>,
    pub asks: Seq<LevelView>,
    pub orders: Map<u64, u64>,
    pub market_id: u32,
}

/// The levels an order of `side` trades against.
pub open spec fn opposite_levels(b: BookView, side: Side) -> Seq<LevelView> {
    match side {
        Side::Bid => b.asks,
        Side::Ask => b.bids,
    }
}

/// The levels an order of `side` rests on.
pub open spec fn own_levels(b: BookView, side: Side) -> Seq<LevelView> {
    match side {
        Side::Bid => b.bids,
        Side::Ask => b.asks,
    }
}

/// The book with the levels of one side replaced.
pub open spec fn with_levels(b: BookView, side: Side, ls: Seq<LevelView>) -> BookView {
    match side {
        Side::Bid => BookView { bids: ls, ..b },
        Side::Ask => BookView { asks: ls, ..b },
    }
}

/// The result of matching the command as a taker against the opposite side.
pub open spec fn taker_match(b: BookView, c: OrderCommand) -> (
    Seq<LevelView>,
    Seq<MatcherTradeEvent>,
    u64,
) {
    match_levels(opposite_levels(b, c.side), 0, c.side, c.price, c.size)
}

/// The book after the command traded as a taker: the opposite side as matching left it and
/// the used-up makers gone from the id index.
pub open spec fn book_after_match(b: BookView, c: OrderCommand) -> BookView {
    let m = taker_match(b, c);
    let b1 = with_levels(b, c.side.op_side_spec(), m.0);
    BookView { orders: b.orders.remove_keys(crate::level::completed_ids(m.1)), ..b1 }
}

/// The order that rests on the book for the unfilled part `remaining` of the command.
pub open spec fn resting_order(c: OrderCommand, remaining: u64) -> Order {
    Order {
        order_id: c.order_id,
        user_id: c.user_id,
        price: c.price,
        size: remaining,
        original_size: c.size,
        side: c.side,
        time_in_force: c.time_in_force,
        status: c.status,
        timestamp: c.timestamp,
    }
}

/// The book after the unfilled part of the command rests on its own side.
pub open spec fn book_with_rest(b: BookView, c: OrderCommand, remaining: u64) -> BookView {
    let own = add_to_levels(c.side, own_levels(b, c.side), c.price, resting_order(c, remaining));
    BookView { orders: b.orders.insert(c.order_id, c.price), ..with_levels(b, c.side, own) }
}

/// Whether a fill-or-kill command can be filled completely from the volume within its limit.
pub open spec fn fok_fillable(b: BookView, c: OrderCommand) -> bool {
    fillable(opposite_levels(b, c.side), 0, c.side, c.price, c.size as int)
}

/// The book after placing the command (for a command that is not already rejected).
pub open spec fn book_after_place(b: BookView, c: OrderCommand) -> BookView {
    let m = taker_match(b, c);
    match c.time_in_force {
        TimeInForce::Gtc => if m.2 > 0 || c.size == 0 {
            book_with_rest(book_after_match(b, c), c, m.2)
        } else {
            book_after_match(b, c)
        },
        TimeInForce::Ioc => book_after_match(b, c),
        TimeInForce::Fok => if fok_fillable(b, c) {
            book_after_match(b, c)
        } else {
            b
        },
    }
}

/// The trades that placing the command produces.
pub open spec fn trades_of_place(b: BookView, c: OrderCommand) -> Seq<MatcherTradeEvent> {
    if c.time_in_force == TimeInForce::Fok && !fok_fillable(b, c) {
        Seq::empty()
    } else {
        taker_match(b, c).1
    }
}

/// The size the command has left after placing: what is resting (GTC) or was cancelled.
pub open spec fn size_after_place(b: BookView, c: OrderCommand) -> u64 {
    if c.time_in_force == TimeInForce::Fok && !fok_fillable(b, c) {
        c.size
    } else {
        taker_match(b, c).2
    }
}

/// The status of the command after placing.
pub open spec fn status_after_place(b: BookView, c: OrderCommand) -> Status {
    let rem = taker_match(b, c).2;
    match c.time_in_force {
        TimeInForce::Gtc => if rem == c.size {
            Status::Placed
        } else if rem > 0 {
            Status::PartiallyFilled
        } else {
            Status::Filled
        },
        TimeInForce::Fok => if !fok_fillable(b, c) {
            Status::Cancelled
        } else if rem == 0 {
            Status::Filled
        } else {
            Status::Cancelled
        },
        TimeInForce::Ioc => if rem == 0 {
            Status::Filled
        } else if rem < c.size {
            Status::PartiallyFilled
        } else {
            Status::Cancelled
        },
    }
}

/// The price the command reports after placing: a market sell (price 0) takes the price of its
/// first trade.
pub open spec fn price_after_place(c: OrderCommand, all_events: Seq<MatcherTradeEvent>) -> u64 {
    if c.price == 0 && c.side == Side::Ask && all_events.len() > 0 {
        all_events[0].price
    } else {
        c.price
    }
}

/// Every order resting on a side has an id below `id`.
pub open spec fn ids_below(ls: Seq<LevelView>, id: u64) -> bool {
    forall|k: int|
        0 <= k < ls.len() ==> forall|q: int|
            0 <= q < (#[trigger] ls[k]).orders.len() ==> ls[k].orders[q].order_id < id
}

/// The total size of the levels at `price` on a side, 0 without such a level.
pub open spec fn volume_at_price(side: Side, ls: Seq<LevelView>, price: u64) -> int {
    if has_level(side, ls, price) {
        sum_sizes(ls[level_pos(side, ls, price)].orders)
    } else {
        0
    }
}

/// What placing needs of the book: a resting order gets an id above all ids on its side (ids
/// grow with time), and a level's total size fits in a `u64`.
pub open spec fn place_admissible(b: BookView, c: OrderCommand) -> bool {
    let rem = taker_match(b, c).2;
    c.time_in_force == TimeInForce::Gtc && (rem > 0 || c.size == 0) ==> {
        &&& ids_below(own_levels(b, c.side), c.order_id)
        &&& volume_at_price(c.side, own_levels(b, c.side), c.price) + rem <= u64::MAX
    }
}

/// The side after removing order `id` from its level at `price` for a cancel: the level
/// goes when it becomes empty; without the order nothing changes.
pub open spec fn side_after_cancel(side: Side, ls: Seq<LevelView>, price: u64, id: u64) -> Seq<
    LevelView,
> {
    let p = level_pos(side, ls, price);
    let qs = ls[p].orders;
    if has_level(side, ls, price) && has_id(qs, id) {
        let nq = qs.remove(id_position(qs, id));
        if nq.len() == 0 {
            ls.remove(p)
        } else {
            ls.update(p, LevelView { price, orders: nq })
        }
    } else {
        ls
    }
}

/// The command after a cancel found the level at `price` on a side: it carries the removed
/// order and the status `Cancelled`, or the status `Rejected` when the order is not there.
pub open spec fn cmd_after_cancel(side: Side, ls: Seq<LevelView>, price: u64, c: OrderCommand) -> OrderCommand {
    let qs = ls[level_pos(side, ls, price)].orders;
    if has_id(qs, c.order_id) {
        let o = qs[id_position(qs, c.order_id)];
        OrderCommand {
            price: o.price,
            size: o.size,
            user_id: o.user_id,
            side: o.side,
            status: Status::Cancelled,
            original_size: o.original_size,
            ..c
        }
    } else {
        OrderCommand { status: Status::Rejected, ..c }
    }
}

/// The book after cancelling order `id`: the id leaves the index; the order leaves the level
/// at its indexed price on the bid side when the bid side has a level there, else on the ask
/// side.
pub open spec fn book_after_cancel(b: BookView, id: u64) -> BookView {
    if !b.orders.contains_key(id) {
        b
    } else {
        let price = b.orders[id];
        let b1 = BookView { orders: b.orders.remove(id), ..b };
        if has_level(Side::Bid, b.bids, price) {
            BookView { bids: side_after_cancel(Side::Bid, b.bids, price, id), ..b1 }
        } else if has_level(Side::Ask, b.asks, price) {
            BookView { asks: side_after_cancel(Side::Ask, b.asks, price, id), ..b1 }
        } else {
            b1
        }
    }
}

/// The command after cancelling: the removed order's details with `Cancelled`, or `Rejected`
/// (the book snapshot aside).
pub open spec fn cmd_of_cancel(b: BookView, c: OrderCommand) -> OrderCommand {
    if !b.orders.contains_key(c.order_id) {
        OrderCommand { status: Status::Rejected, ..c }
    } else {
        let price = b.orders[c.order_id];
        if has_level(Side::Bid, b.bids, price) {
            cmd_after_cancel(Side::Bid, b.bids, price, c)
        } else if has_level(Side::Ask, b.asks, price) {
            cmd_after_cancel(Side::Ask, b.asks, price, c)
        } else {
            OrderCommand { status: Status::Rejected, ..c }
        }
    }
}

/// Prices of the first `n` levels.
pub open spec fn level_prices(ls: Seq<LevelView>, n: int) -> Seq<u64> {
    Seq::new(n as nat, |k: int| ls[k].price)
}

/// Total sizes of the first `n` levels.
pub open spec fn level_volumes(ls: Seq<LevelView>, n: int) -> Seq<u64> {
    Seq::new(n as nat, |k: int| sum_sizes(ls[k].orders) as u64)
}

pub open spec fn depth(ls: Seq<LevelView>) -> int {
    if ls.len() < L2SIZE {
        ls.len() as int
    } else {
        L2SIZE as int
    }
}

/// The snapshot shows the best `L2SIZE` levels of each side (fewer when a side has fewer).
pub open spec fn snapshot_of(d: L2MarketData, bids: Seq<LevelView>, asks: Seq<LevelView>) -> bool {
    &&& d.bid_prices@ == level_prices(bids, depth(bids))
    &&& d.bid_volumes@ == level_volumes(bids, depth(bids))
    &&& d.ask_prices@ == level_prices(asks, depth(asks))
    &&& d.ask_volumes@ == level_volumes(asks, depth(asks))
}

/// The best bid (0 when there is none) and best ask (`u64::MAX` when there is none).
pub open spec fn best_prices(b: BookView) -> (u64, u64) {
    (
        if b.bids.len() > 0 {
            b.bids[0].price
        } else {
            0
        },
        if b.asks.len() > 0 {
            b.asks[0].price
        } else {
            u64::MAX
        },
    )
}

impl Side {
    pub open spec fn op_side_spec(self) -> Side {
        match self {
            Side::Bid => Side::Ask,
            Side::Ask => Side::Bid,
        }
    }
}

/// The ask side of a book, lowest price first. Its levels are held in a vector kept in strict
/// price order, which the proofs read as a sequence; the name is that of the ask side the
/// engine builds books from.
#[derive(Debug)]
pub struct BTreeAskSide {
    levels: SideLevels,
}

impl BTreeAskSide {
    /// An empty ask side.
    pub fn new() -> (r: BTreeAskSide)
        ensures
            r.wf(),
            r.levels()@.len() == 0,
    {
        BTreeAskSide { levels: SideLevels::new(Side::Ask) }
    }

    pub closed spec fn levels(&self) -> SideLevels {
        self.levels
    }

    pub closed spec fn wf(&self) -> bool {
        self.levels.wf() && self.levels.spec_side() == Side::Ask
    }
}

/// The bid side of a book, highest price first. Its levels are held in a vector kept in strict
/// price order, which the proofs read as a sequence; the name is that of the bid side the
/// engine builds books from.
#[derive(Debug)]
pub struct BTreeBidSide {
    levels: SideLevels,
}

impl BTreeBidSide {
    /// An empty bid side.
    pub fn new() -> (r: BTreeBidSide)
        ensures
            r.wf(),
            r.levels()@.len() == 0,
    {
        BTreeBidSide { levels: SideLevels::new(Side::Bid) }
    }

    pub closed spec fn levels(&self) -> SideLevels {
        self.levels
    }

    pub closed spec fn wf(&self) -> bool {
        self.levels.wf() && self.levels.spec_side() == Side::Bid
    }
}

/// Nanoseconds since the Unix epoch, read from `std::time::SystemTime::now`, or 0 when the
/// clock stands before the epoch. Nothing is claimed of the value: it is the machine's clock.
#[verifier::external_body]
fn unix_time_nanos() -> u64 {
    match std::time::SystemTime::now().duration_since(std::time::UNIX_EPOCH) {
        Ok(d) => d.as_nanos() as u64,
        Err(_) => 0,
    }
}

/// The order book of one market.
#[derive(Debug)]
pub struct OrderBook {
    /// Bid levels, highest price first.
    bids: SideLevels,
    /// Ask levels, lowest price first.
    asks: SideLevels,
    /// Price of each resting order, for cancellation.
    orders: HashMap<u64, u64>,
    market_id: u32,
}

impl View for OrderBook {
    type V = BookView;

    closed spec fn view(&self) -> BookView {
        BookView {
            bids: self.bids@,
            asks: self.asks@,
            orders: self.orders@,
            market_id: self.market_id,
        }
    }
}

impl OrderBook {
    /// Both sides are well formed: levels in strict price priority, none empty, each with its
    /// total equal to the sum of its order sizes and its order ids increasing.
    pub closed spec fn wf(&self) -> bool {
        &&& self.bids.wf()
        &&& self.asks.wf()
        &&& self.bids.spec_side() == Side::Bid
        &&& self.asks.spec_side() == Side::Ask
    }

    pub proof fn lemma_wf(&self)
        requires
            self.wf(),
        ensures
            levels_ordered(Side::Bid, self@.bids),
            levels_ordered(Side::Ask, self@.asks),
    {
        self.bids.lemma_wf();
        self.asks.lemma_wf();
    }

    /// A new empty book for a market.
    pub fn new(bids: BTreeBidSide, asks: BTreeAskSide, market_id: u32) -> (r: OrderBook)
        requires
            bids.wf(),
            asks.wf(),
        ensures
            r.wf(),
            r@.bids == bids.levels()@,
            r@.asks == asks.levels()@,
            r@.orders == Map::<u64, u64>::empty(),
            r@.market_id == market_id,
    {
        OrderBook { bids: bids.levels, asks: asks.levels, orders: HashMap::new(), market_id }
    }

    /// Market of this book.
    pub fn market_id(&self) -> (r: u32)
        ensures
            r == self@.market_id,
    {
        self.market_id
    }

    /// Matches the command as a taker against the opposite side; trades are appended to the
    /// command. Returns the size the taker has left.
    fn match_order(&mut self, cmd: &mut OrderCommand) -> (left: u64)
        requires
            old(self).wf(),
        ensures
            final(self).wf(),
            final(self)@ == book_after_match(old(self)@, *old(cmd)),
            left == taker_match(old(self)@, *old(cmd)).2,
            final(cmd).events@ == old(cmd).events@ + taker_match(old(self)@, *old(cmd)).1,
            *final(cmd) == (OrderCommand { events: final(cmd).events, ..*old(cmd) }),
    {
        let side = cmd.side;
        let price = cmd.price;
        let size = cmd.size;
        let ghost old_cmd = *cmd;
        let left = match side {
            Side::Bid => self.asks.match_taker(side, price, size, &mut cmd.events, &mut self.orders),
            Side::Ask => self.bids.match_taker(side, price, size, &mut cmd.events, &mut self.orders),
        };
        proof {
            assert(self@ =~= book_after_match(old(self)@, old_cmd));
        }
        left
    }

    /// Rests the unfilled part of the command on its own side.
    fn add_to_book(&mut self, cmd: &OrderCommand, remaining_size: u64)
        requires
            old(self).wf(),
            ids_below(own_levels(old(self)@, cmd.side), cmd.order_id),
            volume_at_price(cmd.side, own_levels(old(self)@, cmd.side), cmd.price) + remaining_size
                <= u64::MAX,
        ensures
            final(self).wf(),
            final(self)@ == book_with_rest(old(self)@, *cmd, remaining_size),
    {
        let order = Order {
            order_id: cmd.order_id,
            user_id: cmd.user_id,
            price: cmd.price,
            size: remaining_size,
            original_size: cmd.size,
            side: cmd.side,
            time_in_force: cmd.time_in_force,
            status: cmd.status,
            timestamp: cmd.timestamp,
        };
        proof {
            self.bids.lemma_wf();
            self.asks.lemma_wf();
        }
        match cmd.side {
            Side::Bid => self.bids.add_order(cmd.price, order),
            Side::Ask => self.asks.add_order(cmd.price, order),
        }
        self.orders.insert(cmd.order_id, cmd.price);
        proof {
            assert(self@ =~= book_with_rest(old(self)@, *cmd, remaining_size));
        }
    }

    /// Whether a fill-or-kill command can be filled completely from the volume within its limit.
    fn can_fill_completely(&self, cmd: &OrderCommand) -> (r: bool)
        requires
            self.wf(),
        ensures
            r == fok_fillable(self@, *cmd),
    {
        match cmd.side {
            Side::Bid => self.asks.can_fill(cmd.side, cmd.price, cmd.size),
            Side::Ask => self.bids.can_fill(cmd.side, cmd.price, cmd.size),
        }
    }

    /// Whether the command is a market order: a sell at price 0 or a buy at `u64::MAX`.
    pub fn is_market_order(cmd: &OrderCommand) -> (r: bool)
        ensures
            r == ((cmd.price == 0 && cmd.side == Side::Ask) || (cmd.price == u64::MAX && cmd.side
                == Side::Bid)),
    {
        (cmd.price == 0 && cmd.side == Side::Ask) || (cmd.price == u64::MAX && cmd.side == Side::Bid)
    }

    /// Places an order: it trades against the opposite side in price-time priority, with any
    /// resting order, its own user's included. A good-till-cancelled order rests with what is
    /// left; an immediate-or-cancel order drops what is left; a fill-or-kill order trades only
    /// when the volume within its limit covers it completely. The command gets its trades,
    /// the size it has left, its status, a book snapshot, and the price cache the new best
    /// prices. A command that is already rejected is left alone.
    pub fn place_order(&mut self, cmd: &mut OrderCommand, price_cache: &mut PriceCache)
        requires
            old(self).wf(),
            old(cmd).status != Status::Rejected ==> place_admissible(old(self)@, *old(cmd)),
        ensures
            final(self).wf(),
            old(cmd).status == Status::Rejected ==> {
                &&& final(self)@ == old(self)@
                &&& *final(cmd) == *old(cmd)
                &&& final(price_cache)@ == old(price_cache)@
            },
            old(cmd).status != Status::Rejected ==> {
                let b = old(self)@;
                let c = *old(cmd);
                let evs = c.events@ + trades_of_place(b, c);
                &&& final(self)@ == book_after_place(b, c)
                &&& final(cmd).events@ == evs
                &&& final(cmd).status == status_after_place(b, c)
                &&& final(cmd).size == size_after_place(b, c)
                &&& final(cmd).price == price_after_place(c, evs)
                &&& final(cmd).l2_data.is_some()
                &&& snapshot_of(final(cmd).l2_data.unwrap(), final(self)@.bids, final(self)@.asks)
                &&& *final(cmd) == (OrderCommand {
                    events: final(cmd).events,
                    status: final(cmd).status,
                    size: final(cmd).size,
                    price: final(cmd).price,
                    l2_data: final(cmd).l2_data,
                    ..c
                })
                &&& final(price_cache)@ == old(price_cache)@.insert(
                    b.market_id,
                    best_prices(final(self)@),
                )
            },
    {
        if cmd.status == Status::Rejected {
            return ;
        }
        let ghost b = self@;
        let ghost c = *cmd;
        match cmd.time_in_force {
            TimeInForce::Gtc => {
                let remaining = self.match_order(cmd);
                proof {
                    assert(own_levels(self@, c.side) == own_levels(b, c.side));
                    assert(resting_order(*cmd, remaining) == resting_order(c, remaining));
                }
                if remaining == cmd.size {
                    self.add_to_book(cmd, remaining);
                    cmd.status = Status::Placed;
                } else if remaining > 0 {
                    self.add_to_book(cmd, remaining);
                    cmd.status = Status::PartiallyFilled;
                } else {
                    cmd.status = Status::Filled;
                }
                cmd.size = remaining;
                proof {
                    assert(self@ == book_after_place(b, c));
                    assert(cmd.events@ == c.events@ + trades_of_place(b, c));
                    assert(cmd.status == status_after_place(b, c));
                    assert(cmd.size == size_after_place(b, c));
                }
            },
            TimeInForce::Fok => {
                if !self.can_fill_completely(cmd) {
                    cmd.status = Status::Cancelled;
                    proof {
                        assert(c.events@ + Seq::<MatcherTradeEvent>::empty() =~= c.events@);
                    }
                } else {
                    let remaining = self.match_order(cmd);
                    cmd.status = if remaining == 0 {
                        Status::Filled
                    } else {
                        Status::Cancelled
                    };
                    cmd.size = remaining;
                }
            },
            TimeInForce::Ioc => {
                let remaining = self.match_order(cmd);
                if remaining == 0 {
                    cmd.status = Status::Filled;
                } else if remaining < cmd.size {
                    cmd.status = Status::PartiallyFilled;
                } else {
                    cmd.status = Status::Cancelled;
                }
                cmd.size = remaining;
            },
        }
        if cmd.price == 0 && cmd.side == Side::Ask {
            match cmd.first_event() {
                Some(ev) => {
                    cmd.price = ev.price;
                },
                None => {},
            }
        }
        self.record_snapshot(cmd);
        self.update_price_cache(price_cache);
    }

    /// Cancels a resting order. The order's price comes from the id index; the level at that
    /// price is looked up on the bid side first, then on the ask side. When the order is found
    /// there, it leaves the book and the command carries it with the status `Cancelled` and a
    /// book snapshot; otherwise the command is rejected. The id leaves the index in any case,
    /// and the price cache gets the best prices. A command that is already rejected is left
    /// alone.
    pub fn cancel_order(&mut self, cmd: &mut OrderCommand, price_cache: &mut PriceCache)
        requires
            old(self).wf(),
        ensures
            final(self).wf(),
            old(cmd).status == Status::Rejected ==> {
                &&& final(self)@ == old(self)@
                &&& *final(cmd) == *old(cmd)
                &&& final(price_cache)@ == old(price_cache)@
            },
            old(cmd).status != Status::Rejected ==> {
                let b = old(self)@;
                let c = *old(cmd);
                let id = c.order_id;
                &&& final(self)@ == book_after_cancel(b, id)
                &&& *final(cmd) == (OrderCommand { l2_data: final(cmd).l2_data, ..cmd_of_cancel(b, c) })
                &&& final(price_cache)@ == old(price_cache)@.insert(b.market_id, best_prices(final(self)@))
                &&& !b.orders.contains_key(id) ==> {
                    &&& final(self)@ == b
                    &&& *final(cmd) == (OrderCommand { status: Status::Rejected, ..c })
                }
                &&& b.orders.contains_key(id) ==> {
                    let price = b.orders[id];
                    &&& final(self)@.orders == b.orders.remove(id)
                    &&& final(self)@.market_id == b.market_id
                    &&& if has_level(Side::Bid, b.bids, price) {
                        &&& final(self)@.bids == side_after_cancel(Side::Bid, b.bids, price, id)
                        &&& final(self)@.asks == b.asks
                        &&& final(cmd).l2_data.is_some()
                        &&& snapshot_of(final(cmd).l2_data.unwrap(), final(self)@.bids, final(self)@.asks)
                        &&& *final(cmd) == (OrderCommand {
                            l2_data: final(cmd).l2_data,
                            ..cmd_after_cancel(Side::Bid, b.bids, price, c)
                        })
                    } else if has_level(Side::Ask, b.asks, price) {
                        &&& final(self)@.asks == side_after_cancel(Side::Ask, b.asks, price, id)
                        &&& final(self)@.bids == b.bids
                        &&& final(cmd).l2_data.is_some()
                        &&& snapshot_of(final(cmd).l2_data.unwrap(), final(self)@.bids, final(self)@.asks)
                        &&& *final(cmd) == (OrderCommand {
                            l2_data: final(cmd).l2_data,
                            ..cmd_after_cancel(Side::Ask, b.asks, price, c)
                        })
                    } else {
                        &&& final(self)@.bids == b.bids
                        &&& final(self)@.asks == b.asks
                        &&& *final(cmd) == (OrderCommand { status: Status::Rejected, ..c })
                    }
                }
            },
    {
        if cmd.status == Status::Rejected {
            return ;
        }
        let ghost b = self@;
        let ghost c = *cmd;
        let id = cmd.order_id;
        match self.orders.remove(&id) {
            Some(price) => {
                proof {
                    assert(b.orders.contains_key(id) && b.orders[id] == price);
                }
                if self.bids.remove_order_at(price, id, cmd) {
                    proof {
                        assert(self@.bids == side_after_cancel(Side::Bid, b.bids, price, id));
                        assert(*cmd == cmd_after_cancel(Side::Bid, b.bids, price, c));
                    }
                    self.record_snapshot(cmd);
                } else if self.asks.remove_order_at(price, id, cmd) {
                    proof {
                        assert(self@.asks == side_after_cancel(Side::Ask, b.asks, price, id));
                        assert(*cmd == cmd_after_cancel(Side::Ask, b.asks, price, c));
                    }
                    self.record_snapshot(cmd);
                } else {
                    cmd.status = Status::Rejected;
                }
            },
            None => {
                cmd.status = Status::Rejected;
                proof {
                    assert(b.orders.remove(id) =~= b.orders);
                    assert(self@ =~= b);
                }
            },
        }
        self.update_price_cache(price_cache);
    }

    /// Publishes the best prices of the book to the cache.
    fn update_price_cache(&self, price_cache: &mut PriceCache)
        requires
            self.wf(),
        ensures
            final(price_cache)@ == old(price_cache)@.insert(self@.market_id, best_prices(self@)),
    {
        let best_bid = self.bids.best_price();
        let best_ask = self.asks.best_price();
        price_cache.update_prices(self.market_id, best_bid, best_ask);
    }

    /// The price at which an order rests, if it rests in the book.
    pub fn order_price(&self, order_id: u64) -> (r: Option<u64>)
        ensures
            r == (if self@.orders.contains_key(order_id) {
                Some(self@.orders[order_id])
            } else {
                None::<u64>
            }),
    {
        match self.orders.get(&order_id) {
            Some(p) => Some(*p),
            None => None,
        }
    }

    /// Number of orders resting in the book.
    pub fn resting_order_count(&self) -> (r: usize)
        ensures
            r == self@.orders.dom().len(),
    {
        self.orders.len()
    }

    /// Number of bid levels.
    pub fn bid_level_count(&self) -> (r: usize)
        ensures
            r == self@.bids.len(),
    {
        self.bids.level_count()
    }

    /// Number of ask levels.
    pub fn ask_level_count(&self) -> (r: usize)
        ensures
            r == self@.asks.len(),
    {
        self.asks.level_count()
    }

    /// The bid levels, highest price first.
    pub fn get_bids(&self) -> (r: Vec<&PriceLevel>)
        requires
            self.wf(),
        ensures
            r@.len() == self@.bids.len(),
            forall|k: int| 0 <= k < r@.len() ==> (#[trigger] r@[k])@ == self@.bids[k],
            forall|k: int|
                0 <= k < r@.len() ==> (#[trigger] r@[k]).wf() && r@[k].spec_total_volume()
                    == sum_sizes(self@.bids[k].orders),
    {
        let mut out: Vec<&PriceLevel> = Vec::new();
        let n = self.bids.level_count();
        let mut i: usize = 0;
        while i < n
            invariant
                0 <= i <= n,
                n == self@.bids.len(),
                out@.len() == i,
                forall|k: int| 0 <= k < i ==> (#[trigger] out@[k])@ == self@.bids[k],
                forall|k: int|
                    0 <= k < i ==> (#[trigger] out@[k]).wf() && out@[k].spec_total_volume()
                        == sum_sizes(self@.bids[k].orders),
                self.wf(),
            decreases n - i,
        {
            let l = self.bids.level_ref(i);
            proof {
                self.lemma_wf();
                l.lemma_wf_volume();
            }
            out.push(l);
            i = i + 1;
        }
        out
    }

    /// The ask levels, lowest price first.
    pub fn get_asks(&self) -> (r: Vec<&PriceLevel>)
        requires
            self.wf(),
        ensures
            r@.len() == self@.asks.len(),
            forall|k: int| 0 <= k < r@.len() ==> (#[trigger] r@[k])@ == self@.asks[k],
            forall|k: int|
                0 <= k < r@.len() ==> (#[trigger] r@[k]).wf() && r@[k].spec_total_volume()
                    == sum_sizes(self@.asks[k].orders),
    {
        let mut out: Vec<&PriceLevel> = Vec::new();
        let n = self.asks.level_count();
        let mut i: usize = 0;
        while i < n
            invariant
                0 <= i <= n,
                n == self@.asks.len(),
                out@.len() == i,
                forall|k: int| 0 <= k < i ==> (#[trigger] out@[k])@ == self@.asks[k],
                forall|k: int|
                    0 <= k < i ==> (#[trigger] out@[k]).wf() && out@[k].spec_total_volume()
                        == sum_sizes(self@.asks[k].orders),
                self.wf(),
            decreases n - i,
        {
            let l = self.asks.level_ref(i);
            proof {
                self.lemma_wf();
                l.lemma_wf_volume();
            }
            out.push(l);
            i = i + 1;
        }
        out
    }

    /// Total size resting at a price on a side, 0 when there is no level at that price.
    pub fn volume_at(&self, side: Side, price: u64) -> (r: u64)
        requires
            self.wf(),
        ensures
            r == volume_at_price(side, own_levels(self@, side), price),
    {
        let levels = match side {
            Side::Bid => &self.bids,
            Side::Ask => &self.asks,
        };
        proof {
            levels.lemma_wf();
            assert(own_levels(self@, side) == levels@);
        }
        let n = levels.level_count();
        let mut i: usize = 0;
        while i < n
            invariant
                0 <= i <= n,
                n == levels@.len(),
                levels.wf(),
                levels.spec_side() == side,
                own_levels(self@, side) == levels@,
                forall|k: int| 0 <= k < i ==> (#[trigger] levels@[k]).price != price,
            decreases n - i,
        {
            let (p, v) = levels.level_at(i);
            if p == price {
                proof {
                    levels.lemma_wf();
                    crate::side::lemma_level_at_price(side, levels@, i as int);
                }
                return v;
            }
            i = i + 1;
        }
        proof {
            levels.lemma_wf();
            crate::side::lemma_no_level_at_price(side, levels@, price);
        }
        0
    }

    /// Records a snapshot of the best `L2SIZE` levels of each side in the command, stamped
    /// with the current time.
    pub fn record_snapshot(&self, cmd: &mut OrderCommand)
        requires
            self.wf(),
        ensures
            final(cmd).l2_data.is_some(),
            snapshot_of(final(cmd).l2_data.unwrap(), self@.bids, self@.asks),
            *final(cmd) == (OrderCommand { l2_data: final(cmd).l2_data, ..*old(cmd) }),
    {
        let mut l2_data = L2MarketData::new();
        proof {
            self.bids.lemma_wf();
            self.asks.lemma_wf();
        }
        let nb = self.bids.level_count();
        let mut i: usize = 0;
        while i < nb && i < L2SIZE
            invariant
                0 <= i <= nb,
                i <= L2SIZE,
                nb == self@.bids.len(),
                l2_data.bid_prices@ == level_prices(self@.bids, i as int),
                l2_data.bid_volumes@ == level_volumes(self@.bids, i as int),
                l2_data.ask_prices@.len() == 0,
                l2_data.ask_volumes@.len() == 0,
                forall|k: int| 0 <= k < self@.bids.len() ==> #[trigger] self.bids.volume_at(k) == sum_sizes(self@.bids[k].orders),
            decreases nb - i,
        {
            let (p, v) = self.bids.level_at(i);
            l2_data.bid_prices.push(p);
            l2_data.bid_volumes.push(v);
            proof {
                assert(l2_data.bid_prices@ =~= level_prices(self@.bids, i + 1));
                assert(l2_data.bid_volumes@ =~= level_volumes(self@.bids, i + 1));
            }
            i = i + 1;
        }
        let na = self.asks.level_count();
        let mut j: usize = 0;
        while j < na && j < L2SIZE
            invariant
                0 <= j <= na,
                j <= L2SIZE,
                na == self@.asks.len(),
                l2_data.bid_prices@ == level_prices(self@.bids, depth(self@.bids)),
                l2_data.bid_volumes@ == level_volumes(self@.bids, depth(self@.bids)),
                l2_data.ask_prices@ == level_prices(self@.asks, j as int),
                l2_data.ask_volumes@ == level_volumes(self@.asks, j as int),
                forall|k: int| 0 <= k < self@.asks.len() ==> #[trigger] self.asks.volume_at(k) == sum_sizes(self@.asks[k].orders),
            decreases na - j,
        {
            let (p, v) = self.asks.level_at(j);
            l2_data.ask_prices.push(p);
            l2_data.ask_volumes.push(v);
            proof {
                assert(l2_data.ask_prices@ =~= level_prices(self@.asks, j + 1));
                assert(l2_data.ask_volumes@ =~= level_volumes(self@.asks, j + 1));
            }
            j = j + 1;
        }
        l2_data.timestamp = unix_time_nanos();
        cmd.l2_data = Some(l2_data);
    }
}

} // verus!
