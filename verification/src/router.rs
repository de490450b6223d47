//! Matching engine router: the order books of one shard and the routing of commands to them.
use vstd::prelude::*;

use crate::book::{
    best_prices, book_after_cancel, book_after_place, cmd_of_cancel, place_admissible,
    price_after_place, size_after_place, snapshot_of, status_after_place, trades_of_place,
    BTreeAskSide, BTreeBidSide, OrderBook,
};
use crate::model::{OrderCommand, OrderCommandType, PriceCache, Side, Status};
use crate::side::has_level;
use crate::risk::is_power_of_two;
use crate::tables::MarketBooks;

verus! {

/// Every book of the table is well formed and belongs to the market it is filed under.
pub open spec fn books_wf(m: Map<u32, Box<OrderBook>>) -> bool {
    forall|k: u32| #[trigger] m.contains_key(k) ==> m[k].wf() && m[k]@.market_id == k
}

/// Whether a router with mask `mask` and id `shard` handles the market: every market when
/// the mask is 0, else the markets whose id bits under the mask are the shard id.
pub open spec fn handles_market(mask: u64, shard: u32, market_id: u64) -> bool {
    mask == 0 || (market_id & mask) == shard as u64
}

/// The effect of processing the command `c` on a router with books `books`, shard `shard` and
/// mask `mask`: commands of markets it does not handle pass untouched; a command for a
/// handled market without a book is rejected; otherwise a place command is placed and a
/// cancel command cancelled in the book of its market, and the best prices are published.
pub open spec fn order_processed(
    books: Map<u32, Box<OrderBook>>,
    shard: u32,
    mask: u64,
    c: OrderCommand,
    prices: Map<u32, (u64, u64)>,
    new_books: Map<u32, Box<OrderBook>>,
    new_cmd: OrderCommand,
    new_prices: Map<u32, (u64, u64)>,
) -> bool {
    let m = c.market_id;
    if !handles_market(mask, shard, m as u64) {
        &&& new_books == books
        &&& new_cmd == c
        &&& new_prices == prices
    } else if !books.contains_key(m) {
        &&& new_books == books
        &&& new_cmd == (OrderCommand { status: Status::Rejected, ..c })
        &&& new_prices == prices
    } else {
        let b = books[m]@;
        let nb = new_books[m]@;
        &&& new_books == books.insert(m, new_books[m])
        &&& (c.command == OrderCommandType::PlaceOrder && c.status != Status::Rejected) ==> {
            let evs = c.events@ + trades_of_place(b, c);
            &&& nb == book_after_place(b, c)
            &&& new_cmd.events@ == evs
            &&& new_cmd.status == status_after_place(b, c)
            &&& new_cmd.size == size_after_place(b, c)
            &&& new_cmd.price == price_after_place(c, evs)
            &&& new_cmd.l2_data.is_some()
            &&& snapshot_of(new_cmd.l2_data.unwrap(), nb.bids, nb.asks)
            &&& new_cmd == (OrderCommand {
                events: new_cmd.events,
                status: new_cmd.status,
                size: new_cmd.size,
                price: new_cmd.price,
                l2_data: new_cmd.l2_data,
                ..c
            })
            &&& new_prices == prices.insert(m, best_prices(nb))
        }
        &&& (c.command == OrderCommandType::CancelOrder && c.status != Status::Rejected) ==> {
            &&& nb == book_after_cancel(b, c.order_id)
            &&& new_cmd == (OrderCommand { l2_data: new_cmd.l2_data, ..cmd_of_cancel(b, c) })
            &&& if b.orders.contains_key(c.order_id) && (has_level(
                Side::Bid,
                b.bids,
                b.orders[c.order_id],
            ) || has_level(Side::Ask, b.asks, b.orders[c.order_id])) {
                new_cmd.l2_data.is_some() && snapshot_of(new_cmd.l2_data.unwrap(), nb.bids, nb.asks)
            } else {
                new_cmd.l2_data == c.l2_data
            }
            &&& new_prices == prices.insert(m, best_prices(nb))
        }
        &&& (c.status == Status::Rejected || (c.command != OrderCommandType::PlaceOrder
            && c.command != OrderCommandType::CancelOrder)) ==> {
            &&& nb == b
            &&& new_cmd == c
            &&& new_prices == prices
        }
    }
}

/// Owns the order books of one shard and routes commands to them.
pub struct MatchingEngineRouter {
    pub order_books: MarketBooks,
    pub shard_id: u32,
    pub shard_mask: u64,
}

impl MatchingEngineRouter {
    /// The books are well formed, each under its market.
    pub open spec fn wf(&self) -> bool {
        books_wf(self.order_books@)
    }

    /// A router for shard `shard_id` of `num_shards`, which must be a power of two.
    pub fn new(shard_id: u32, num_shards: u64) -> (r: MatchingEngineRouter)
        requires
            is_power_of_two(num_shards),
        ensures
            r.wf(),
            r.order_books@ == Map::<u32, Box<OrderBook>>::empty(),
            r.shard_id == shard_id,
            r.shard_mask == num_shards - 1,
    {
        MatchingEngineRouter { order_books: MarketBooks::new(), shard_id, shard_mask: num_shards - 1 }
    }

    /// Adds a market with a new empty order book, replacing any book it had.
    pub fn add_market(&mut self, market_id: u32)
        requires
            old(self).wf(),
        ensures
            final(self).wf(),
            final(self).shard_id == old(self).shard_id,
            final(self).shard_mask == old(self).shard_mask,
            final(self).order_books@.dom() == old(self).order_books@.dom().insert(market_id),
            forall|k: u32| #[trigger] old(self).order_books@.contains_key(k) && k != market_id
                ==> final(self).order_books@[k] == old(self).order_books@[k],
            final(self).order_books@[market_id]@.bids.len() == 0,
            final(self).order_books@[market_id]@.asks.len() == 0,
            final(self).order_books@[market_id]@.orders == Map::<u64, u64>::empty(),
    {
        let book = OrderBook::new(BTreeBidSide::new(), BTreeAskSide::new(), market_id);
        self.order_books.insert(market_id, Box::new(book));
    }

    /// Whether this router handles the market.
    pub fn market_for_this_handler(&self, market_id: u64) -> (r: bool)
        ensures
            r == handles_market(self.shard_mask, self.shard_id, market_id),
    {
        (self.shard_mask == 0) || ((market_id & self.shard_mask) == self.shard_id as u64)
    }

    /// Routes a command to the book of its market when this router handles the market: a
    /// place command is placed and a cancel command cancelled there; other commands pass. A
    /// command for a handled market without a book is rejected.
    pub fn process_order(&mut self, cmd: &mut OrderCommand, price_cache: &mut PriceCache)
        requires
            old(self).wf(),
            old(self).order_books@.contains_key(old(cmd).market_id) && old(cmd).command
                == OrderCommandType::PlaceOrder && old(cmd).status != Status::Rejected
                ==> place_admissible(old(self).order_books@[old(cmd).market_id]@, *old(cmd)),
        ensures
            final(self).wf(),
            final(self).shard_id == old(self).shard_id,
            final(self).shard_mask == old(self).shard_mask,
            order_processed(
                old(self).order_books@,
                old(self).shard_id,
                old(self).shard_mask,
                *old(cmd),
                old(price_cache)@,
                final(self).order_books@,
                *final(cmd),
                final(price_cache)@,
            ),
    {
        if !self.market_for_this_handler(cmd.market_id as u64) {
            return ;
        }
        let m = cmd.market_id;
        match self.order_books.remove(m) {
            Some(mut book) => {
                match cmd.command {
                    OrderCommandType::PlaceOrder => book.place_order(cmd, price_cache),
                    OrderCommandType::CancelOrder => book.cancel_order(cmd, price_cache),
                    _ => {},
                }
                self.order_books.insert(m, book);
                proof {
                    assert(self.order_books@ =~= old(self).order_books@.insert(m, self.order_books@[m]));
                }
            },
            None => {
                cmd.status = Status::Rejected;
                proof {
                    assert(self.order_books@ =~= old(self).order_books@);
                }
            },
        }
    }

    /// What a matching shard does with a command off the ring: commands of markets it does
    /// not handle, deposits, withdrawals and rejected commands pass untouched; any other is
    /// processed as by `process_order`.
    pub fn handle_command(&mut self, cmd: &mut OrderCommand, price_cache: &mut PriceCache)
        requires
            old(self).wf(),
            old(self).order_books@.contains_key(old(cmd).market_id) && old(cmd).command
                == OrderCommandType::PlaceOrder && old(cmd).status != Status::Rejected
                ==> place_admissible(old(self).order_books@[old(cmd).market_id]@, *old(cmd)),
        ensures
            final(self).wf(),
            final(self).shard_id == old(self).shard_id,
            final(self).shard_mask == old(self).shard_mask,
            (!handles_market(old(self).shard_mask, old(self).shard_id, old(cmd).market_id as u64)
                || old(cmd).command == OrderCommandType::DepositFunds || old(cmd).command
                == OrderCommandType::WithdrawFunds || old(cmd).status == Status::Rejected) ==> {
                &&& final(self).order_books@ == old(self).order_books@
                &&& *final(cmd) == *old(cmd)
                &&& final(price_cache)@ == old(price_cache)@
            },
            !(!handles_market(old(self).shard_mask, old(self).shard_id, old(cmd).market_id as u64)
                || old(cmd).command == OrderCommandType::DepositFunds || old(cmd).command
                == OrderCommandType::WithdrawFunds || old(cmd).status == Status::Rejected)
                ==> order_processed(
                old(self).order_books@,
                old(self).shard_id,
                old(self).shard_mask,
                *old(cmd),
                old(price_cache)@,
                final(self).order_books@,
                *final(cmd),
                final(price_cache)@,
            ),
    {
        if !self.market_for_this_handler(cmd.market_id as u64) {
            return ;
        }
        match cmd.command {
            OrderCommandType::DepositFunds | OrderCommandType::WithdrawFunds => {
                return ;
            },
            _ => {},
        }
        if cmd.status == Status::Rejected {
            return ;
        }
        self.process_order(cmd, price_cache);
    }

    /// The order book of a market, if any.
    pub fn get_orderbook(&self, market_id: u32) -> (r: Option<&OrderBook>)
        ensures
            r == (if self.order_books@.contains_key(market_id) {
                Some(&*self.order_books@[market_id])
            } else {
                None::<&OrderBook>
            }),
    {
        match self.order_books.get(market_id) {
            Some(b) => Some(&**b),
            None => None,
        }
    }
}

impl Default for MatchingEngineRouter {
    /// A single-shard router without markets.
    fn default() -> (r: MatchingEngineRouter)
        ensures
            r.wf(),
            r.order_books@ == Map::<u32, Box<OrderBook>>::empty(),
            r.shard_id == 0,
            r.shard_mask == 0,
    {
        proof {
            assert((1u64 & 0u64) == 0) by (bit_vector);
        }
        Self::new(0, 1)
    }
}

} // verus!
