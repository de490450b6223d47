//! Core exchange model: sides, statuses, orders, commands and trade events.
use std::collections::HashMap;
use vstd::prelude::*;

verus! {

/// Number of price levels of each side that an L2 snapshot carries.
pub const L2SIZE: usize = 10;

/// Highest gateway identifier that the core accepts.
pub const MAX_GATEWAYS: usize = 16;

/// Size in bytes of one encoded order command.
pub const ORDERCOMMANDSIZE: usize = 64;

/// Side of an order.
#[derive(Clone, Copy, Debug, PartialEq, Eq, Structural)]
pub enum Side {
    Bid,
    Ask,
}

impl Side {
    /// The opposite side.
    pub fn op_side(self) -> (r: Side)
        ensures
            r == (match self {
                Side::Bid => Side::Ask,
                Side::Ask => Side::Bid,
            }),
    {
        match self {
            Side::Bid => Side::Ask,
            Side::Ask => Side::Bid,
        }
    }
}

/// Processing status of a command.
#[derive(Clone, Copy, Debug, PartialEq, Eq, Structural)]
pub enum Status {
    Rejected,
    Placed,
    Cancelled,
    PartiallyFilled,
    Filled,
    Processing,
    Processed,
}

/// Time in force of an order.
#[derive(Clone, Copy, Debug, PartialEq, Eq, Structural)]
pub enum TimeInForce {
    Gtc,
    Ioc,
    Fok,
}

/// Kind of a command that enters the core.
#[derive(Clone, Copy, Debug, PartialEq, Eq, Structural)]
pub enum OrderCommandType {
    PlaceOrder,
    CancelOrder,
    DepositFunds,
    WithdrawFunds,
}

/// Kind of market a specification describes.
#[derive(Clone, Copy, Debug, PartialEq, Eq, Structural)]
pub enum MarketType {
    Spot,
    FuturesContract,
}

/// Available and locked amount of one asset of one user.
#[derive(Clone, Copy, Debug, PartialEq, Eq, Structural)]
pub struct UserBalance {
    pub available: u64,
    pub locked: u64,
}

impl UserBalance {
    /// A balance with the given available and locked amounts.
    pub fn new(available: u64, locked: u64) -> (r: UserBalance)
        ensures
            r.available == available,
            r.locked == locked,
    {
        UserBalance { available, locked }
    }

    /// The zero balance.
    pub fn zero() -> (r: UserBalance)
        ensures
            r.available == 0,
            r.locked == 0,
    {
        UserBalance { available: 0, locked: 0 }
    }

    /// Amount free to use.
    pub fn available(&self) -> (r: u64)
        ensures
            r == self.available,
    {
        self.available
    }

    /// Amount held for open orders.
    pub fn locked(&self) -> (r: u64)
        ensures
            r == self.locked,
    {
        self.locked
    }

    /// Available plus locked amount.
    pub fn total(&self) -> (r: u64)
        requires
            self.available + self.locked <= u64::MAX,
        ensures
            r == self.available + self.locked,
    {
        self.available + self.locked
    }
}

/// A resting order of the book.
#[derive(Clone, Copy, Debug, PartialEq, Eq, Structural)]
pub struct Order {
    pub order_id: u64,
    pub user_id: u64,
    pub price: u64,
    pub size: u64,
    pub original_size: u64,
    pub side: Side,
    pub time_in_force: TimeInForce,
    pub status: Status,
    pub timestamp: u64,
}

/// A trade between the incoming (taker) order and one resting (maker) order.
#[derive(Clone, Copy, Debug)]
pub struct MatcherTradeEvent {
    /// Whether the taker order has no size left after this trade.
    pub active_order_completed: bool,
    pub matched_order_id: u64,
    pub maker_user_id: u64,
    /// Whether the maker order has no size left after this trade.
    pub matched_order_completed: bool,
    pub price: u64,
    pub size: u64,
    /// Balances of the maker (base, quote) after settlement.
    pub maker_balance: [UserBalance; 2],
    pub maker_remaining_size: u64,
    pub maker_original_size: u64,
}

/// Level-2 market data: the best price levels of both sides.
#[derive(Clone, Debug)]
pub struct L2MarketData {
    pub bid_prices: Vec<u64>,
    pub bid_volumes: Vec<u64>,
    pub ask_prices: Vec<u64>,
    pub ask_volumes: Vec<u64>,
    pub timestamp: u64,
}

impl L2MarketData {
    /// Empty market data.
    pub fn new() -> (r: L2MarketData)
        ensures
            r.bid_prices@.len() == 0,
            r.bid_volumes@.len() == 0,
            r.ask_prices@.len() == 0,
            r.ask_volumes@.len() == 0,
            r.timestamp == 0,
    {
        L2MarketData {
            bid_prices: Vec::new(),
            bid_volumes: Vec::new(),
            ask_prices: Vec::new(),
            ask_volumes: Vec::new(),
            timestamp: 0,
        }
    }

    /// Number of bid levels carried.
    pub fn bid_depth(&self) -> (r: usize)
        ensures
            r == self.bid_prices@.len(),
    {
        self.bid_prices.len()
    }

    /// Number of ask levels carried.
    pub fn ask_depth(&self) -> (r: usize)
        ensures
            r == self.ask_prices@.len(),
    {
        self.ask_prices.len()
    }
}

/// A command flowing through the core pipeline, and what the pipeline made of it.
#[derive(Clone, Debug)]
pub struct OrderCommand {
    pub command: OrderCommandType,
    pub order_id: u64,
    pub timestamp: u64,
    pub user_id: u64,
    pub market_id: u32,
    pub price: u64,
    pub size: u64,
    pub side: Side,
    pub time_in_force: TimeInForce,
    pub status: Status,
    /// Size of the order when it entered the book (set when an order leaves the book).
    pub original_size: u64,
    /// Trades produced for this command, in the order they happened.
    pub events: Vec<MatcherTradeEvent>,
    /// Book snapshot taken after processing.
    pub l2_data: Option<L2MarketData>,
    /// Balances of the command's user (base, quote) after settlement.
    pub balance: [UserBalance; 2],
    /// Gateway the command came from.
    pub route_gateway_id: u8,
}

impl OrderCommand {
    /// A place-order command as it enters the pipeline.
    pub fn place_order(
        time_in_force: TimeInForce,
        user_id: u64,
        price: u64,
        size: u64,
        side: Side,
        market_id: u32,
        order_id: u64,
    ) -> (r: OrderCommand)
        ensures
            r.command == OrderCommandType::PlaceOrder,
            r.time_in_force == time_in_force,
            r.user_id == user_id,
            r.price == price,
            r.size == size,
            r.side == side,
            r.market_id == market_id,
            r.order_id == order_id,
            r.timestamp == 0,
            r.status == Status::Processing,
            r.original_size == size,
            r.events@.len() == 0,
            r.l2_data.is_none(),
            r.balance[0] == UserBalance::zero_spec(),
            r.balance[1] == UserBalance::zero_spec(),
            r.route_gateway_id == 0,
    {
        OrderCommand {
            command: OrderCommandType::PlaceOrder,
            order_id,
            timestamp: 0,
            user_id,
            market_id,
            price,
            size,
            side,
            time_in_force,
            status: Status::Processing,
            original_size: size,
            events: Vec::new(),
            l2_data: None,
            balance: [UserBalance::zero(), UserBalance::zero()],
            route_gateway_id: 0,
        }
    }

    /// A cancel command for the given order.
    pub fn cancel_order(user_id: u64, order_id: u64, market_id: u32) -> (r: OrderCommand)
        ensures
            r.command == OrderCommandType::CancelOrder,
            r.user_id == user_id,
            r.order_id == order_id,
            r.market_id == market_id,
            r.price == 0,
            r.size == 0,
            r.side == Side::Bid,
            r.time_in_force == TimeInForce::Gtc,
            r.timestamp == 0,
            r.status == Status::Processing,
            r.original_size == 0,
            r.events@.len() == 0,
            r.l2_data.is_none(),
            r.balance[0] == UserBalance::zero_spec(),
            r.balance[1] == UserBalance::zero_spec(),
            r.route_gateway_id == 0,
    {
        OrderCommand {
            command: OrderCommandType::CancelOrder,
            order_id,
            timestamp: 0,
            user_id,
            market_id,
            price: 0,
            size: 0,
            side: Side::Bid,
            time_in_force: TimeInForce::Gtc,
            status: Status::Processing,
            original_size: 0,
            events: Vec::new(),
            l2_data: None,
            balance: [UserBalance::zero(), UserBalance::zero()],
            route_gateway_id: 0,
        }
    }

    /// A deposit of `amount` units of asset `asset_id` for `user_id`.
    pub fn deposit_funds(user_id: u64, amount: u64, asset_id: u16) -> (r: OrderCommand)
        ensures
            r.command == OrderCommandType::DepositFunds,
            r.user_id == user_id,
            r.size == amount,
            r.market_id == asset_id as u32,
            r.order_id == 0,
            r.price == 0,
            r.side == Side::Bid,
            r.time_in_force == TimeInForce::Gtc,
            r.status == Status::Processing,
            r.events@.len() == 0,
            r.l2_data.is_none(),
    {
        OrderCommand {
            command: OrderCommandType::DepositFunds,
            order_id: 0,
            timestamp: 0,
            user_id,
            market_id: asset_id as u32,
            price: 0,
            size: amount,
            side: Side::Bid,
            time_in_force: TimeInForce::Gtc,
            status: Status::Processing,
            original_size: 0,
            events: Vec::new(),
            l2_data: None,
            balance: [UserBalance::zero(), UserBalance::zero()],
            route_gateway_id: 0,
        }
    }

    /// The first trade of this command, if any.
    pub fn first_event(&self) -> (r: Option<MatcherTradeEvent>)
        ensures
            r == (if self.events@.len() > 0 {
                Some(self.events@[0])
            } else {
                None::<MatcherTradeEvent>
            }),
    {
        if self.events.len() > 0 {
            Some(self.events[0])
        } else {
            None
        }
    }
}

impl UserBalance {
    /// The zero balance, as a value.
    pub open spec fn zero_spec() -> UserBalance {
        UserBalance { available: 0, locked: 0 }
    }
}

/// Base asset of a market: the lower 16 bits of its id.
pub fn base_asset(market_id: u32) -> (r: u16)
    ensures
        r == market_id % 65536,
{
    (market_id % 65536) as u16
}

/// Quote asset of a market: the upper 16 bits of its id.
pub fn quote_asset(market_id: u32) -> (r: u16)
    ensures
        r == market_id / 65536,
{
    (market_id / 65536) as u16
}

/// The market id of a pair: quote asset in the upper 16 bits, base asset in the lower.
pub fn market_id_of(base: u16, quote: u16) -> (r: u32)
    ensures
        r == quote * 65536 + base,
{
    (quote as u32) * 65536 + (base as u32)
}

/// Trading parameters of one market.
#[derive(Clone, Copy, Debug, PartialEq, Eq, Structural)]
pub struct CoreMarketSpecification {
    pub market_id: u32,
    pub market_type: MarketType,
    pub base_asset: u16,
    pub quote_asset: u16,
    pub base_scale_k: u64,
    pub quote_scale_k: u64,
    pub base_native_scale: u128,
    pub quote_native_scale: u128,
    pub taker_fee: u64,
    pub maker_fee: u64,
    pub slippage: u64,
}

impl CoreMarketSpecification {
    /// A specification with every number zero, for a spot market.
    pub fn zeroed() -> (r: CoreMarketSpecification)
        ensures
            r.market_id == 0,
            r.market_type == MarketType::Spot,
            r.base_asset == 0,
            r.quote_asset == 0,
            r.base_scale_k == 0,
            r.quote_scale_k == 0,
            r.base_native_scale == 0,
            r.quote_native_scale == 0,
            r.taker_fee == 0,
            r.maker_fee == 0,
            r.slippage == 0,
    {
        CoreMarketSpecification {
            market_id: 0,
            market_type: MarketType::Spot,
            base_asset: 0,
            quote_asset: 0,
            base_scale_k: 0,
            quote_scale_k: 0,
            base_native_scale: 0,
            quote_native_scale: 0,
            taker_fee: 0,
            maker_fee: 0,
            slippage: 0,
        }
    }
}

impl Default for CoreMarketSpecification {
    /// The zeroed specification of a spot market.
    fn default() -> (r: CoreMarketSpecification)
        ensures
            r.market_id == 0,
            r.market_type == MarketType::Spot,
            r.base_asset == 0,
            r.quote_asset == 0,
            r.base_scale_k == 0,
            r.quote_scale_k == 0,
            r.base_native_scale == 0,
            r.quote_native_scale == 0,
            r.taker_fee == 0,
            r.maker_fee == 0,
            r.slippage == 0,
    {
        CoreMarketSpecification::zeroed()
    }
}

/// Best bid and best ask of each market, as last published by its order book.
#[derive(Debug)]
pub struct PriceCache {
    prices: HashMap<u32, (u64, u64)>,
}

impl View for PriceCache {
    type V = Map<u32, (u64, u64)>;

    closed spec fn view(&self) -> Map<u32, (u64, u64)> {
        self.prices@
    }
}

impl PriceCache {
    /// A cache with no market published yet.
    pub fn new() -> (r: PriceCache)
        ensures
            r@ == Map::<u32, (u64, u64)>::empty(),
    {
        PriceCache { prices: HashMap::new() }
    }

    /// Records the best bid and best ask of a market.
    pub fn update_prices(&mut self, market_id: u32, best_bid: u64, best_ask: u64)
        ensures
            final(self)@ == old(self)@.insert(market_id, (best_bid, best_ask)),
    {
        broadcast use vstd::std_specs::hash::group_hash_axioms;
        self.prices.insert(market_id, (best_bid, best_ask));
    }

    /// The best bid and best ask last recorded for a market.
    pub fn get_prices(&self, market_id: u32) -> (r: Option<(u64, u64)>)
        ensures
            r == (if self@.contains_key(market_id) {
                Some(self@[market_id])
            } else {
                None::<(u64, u64)>
            }),
    {
        broadcast use vstd::std_specs::hash::group_hash_axioms;
        match self.prices.get(&market_id) {
            Some(p) => Some(*p),
            None => None,
        }
    }
}

} // verus!
