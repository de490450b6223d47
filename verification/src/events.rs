//! What the events stage publishes for a processed command: records for the event topics
//! (balances, deposits, withdrawals, orders, trades, cancels, order book snapshots) and the
//! response to the gateway. Sending them is left to the caller.
use vstd::prelude::*;

use crate::decimal::{decimal, decimal_text};
use crate::level::sum_trade_sizes;
use crate::model::{
    base_asset, quote_asset, MatcherTradeEvent, OrderCommand, OrderCommandType, Side, Status,
    TimeInForce, UserBalance,
};

verus! {

/// The content of a record.
#[derive(Debug, Clone)]
pub enum EventMessage {
    /// Balance of one asset of one user.
    Balance { user_id: u64, asset_id: u32, available: u64, locked: u64, total: u64, timestamp: u64 },
    /// A deposit.
    Deposit { user_id: u64, asset_id: u32, amount: u64, timestamp: u64 },
    /// A withdrawal.
    Withdraw { user_id: u64, asset_id: u32, amount: u64, timestamp: u64 },
    /// State of an order.
    Order {
        order_id: u64,
        user_id: u64,
        price: u64,
        size: u64,
        side: Side,
        time_in_force: TimeInForce,
        status: Status,
        timestamp: u64,
        market_id: u32,
    },
    /// A trade between a maker and a taker.
    Trade {
        maker_user_id: u64,
        taker_user_id: u64,
        market_id: u32,
        price: u64,
        size: u64,
        maker_order_id: u64,
        taker_order_id: u64,
        taker_side: Side,
        timestamp: u64,
    },
    /// A cancelled order.
    Cancel { order_id: u64, market_id: u32, user_id: u64, timestamp: u64 },
    /// The order book levels with a price, as (price, size).
    Orderbook { market_id: u32, bids: Vec<(u64, u64)>, asks: Vec<(u64, u64)>, timestamp: u64 },
}

/// What the events stage publishes.
#[derive(Debug, Clone)]
pub enum Publication {
    /// A record for a Kafka topic, with its key.
    Record { topic: String, key: String, message: EventMessage },
    /// The processed command, back to the gateway it came from.
    Response,
}

/// The content of a record, as values.
pub enum MessageView {
    Balance { user_id: u64, asset_id: u32, available: u64, locked: u64, total: u64, timestamp: u64 },
    Deposit { user_id: u64, asset_id: u32, amount: u64, timestamp: u64 },
    Withdraw { user_id: u64, asset_id: u32, amount: u64, timestamp: u64 },
    Order {
        order_id: u64,
        user_id: u64,
        price: u64,
        size: u64,
        side: Side,
        time_in_force: TimeInForce,
        status: Status,
        timestamp: u64,
        market_id: u32,
    },
    Trade {
        maker_user_id: u64,
        taker_user_id: u64,
        market_id: u32,
        price: u64,
        size: u64,
        maker_order_id: u64,
        taker_order_id: u64,
        taker_side: Side,
        timestamp: u64,
    },
    Cancel { order_id: u64, market_id: u32, user_id: u64, timestamp: u64 },
    Orderbook { market_id: u32, bids: Seq<(u64, u64)>, asks: Seq<(u64, u64)>, timestamp: u64 },
}

/// A publication, as values.
pub enum PublicationView {
    Record { topic: Seq<char>, key: Seq<char>, message: MessageView },
    Response,
}

impl View for EventMessage {
    type V = MessageView;

    open spec fn view(&self) -> MessageView {
        match *self {
            EventMessage::Balance { user_id, asset_id, available, locked, total, timestamp } =>
                MessageView::Balance { user_id, asset_id, available, locked, total, timestamp },
            EventMessage::Deposit { user_id, asset_id, amount, timestamp } => MessageView::Deposit {
                user_id,
                asset_id,
                amount,
                timestamp,
            },
            EventMessage::Withdraw { user_id, asset_id, amount, timestamp } =>
                MessageView::Withdraw { user_id, asset_id, amount, timestamp },
            EventMessage::Order {
                order_id,
                user_id,
                price,
                size,
                side,
                time_in_force,
                status,
                timestamp,
                market_id,
            } => MessageView::Order {
                order_id,
                user_id,
                price,
                size,
                side,
                time_in_force,
                status,
                timestamp,
                market_id,
            },
            EventMessage::Trade {
                maker_user_id,
                taker_user_id,
                market_id,
                price,
                size,
                maker_order_id,
                taker_order_id,
                taker_side,
                timestamp,
            } => MessageView::Trade {
                maker_user_id,
                taker_user_id,
                market_id,
                price,
                size,
                maker_order_id,
                taker_order_id,
                taker_side,
                timestamp,
            },
            EventMessage::Cancel { order_id, market_id, user_id, timestamp } =>
                MessageView::Cancel { order_id, market_id, user_id, timestamp },
            EventMessage::Orderbook { market_id, bids, asks, timestamp } =>
                MessageView::Orderbook { market_id, bids: bids@, asks: asks@, timestamp },
        }
    }
}

impl View for Publication {
    type V = PublicationView;

    open spec fn view(&self) -> PublicationView {
        match *self {
            Publication::Record { topic, key, message } => PublicationView::Record {
                topic: topic@,
                key: key@,
                message: message@,
            },
            Publication::Response => PublicationView::Response,
        }
    }
}

/// The key made of two numbers: "a:b".
pub open spec fn pair_key(a: nat, b: nat) -> Seq<char> {
    decimal(a) + ":"@ + decimal(b)
}

/// A balance record of a user for an asset.
pub open spec fn balance_record(user_id: u64, asset_id: u32, b: UserBalance, timestamp: u64) -> PublicationView {
    PublicationView::Record {
        topic: "balances"@,
        key: pair_key(user_id as nat, asset_id as nat),
        message: MessageView::Balance {
            user_id,
            asset_id,
            available: b.available,
            locked: b.locked,
            total: (b.available + b.locked) as u64,
            timestamp,
        },
    }
}

/// The balance records of a user in the command's market: base asset, then quote asset.
pub open spec fn balance_records(user_id: u64, cmd: OrderCommand, balances: [UserBalance; 2]) -> Seq<PublicationView> {
    seq![
        balance_record(user_id, (cmd.market_id % 65536) as u32, balances@[0], cmd.timestamp),
        balance_record(user_id, (cmd.market_id / 65536) as u32, balances@[1], cmd.timestamp),
    ]
}

/// The balance record of a deposit or withdrawal: the asset is the lower 16 bits of the
/// command's market id, the balance the command's first one.
pub open spec fn funds_balance_record(cmd: OrderCommand) -> PublicationView {
    balance_record(cmd.user_id, (cmd.market_id % 65536) as u32, cmd.balance@[0], cmd.timestamp)
}

/// The record of a deposit.
pub open spec fn deposit_record(cmd: OrderCommand) -> PublicationView {
    PublicationView::Record {
        topic: "deposits"@,
        key: decimal(cmd.user_id as nat),
        message: MessageView::Deposit {
            user_id: cmd.user_id,
            asset_id: cmd.market_id,
            amount: cmd.size,
            timestamp: cmd.timestamp,
        },
    }
}

/// The record of a withdrawal.
pub open spec fn withdraw_record(cmd: OrderCommand) -> PublicationView {
    PublicationView::Record {
        topic: "withdrawals"@,
        key: decimal(cmd.user_id as nat),
        message: MessageView::Withdraw {
            user_id: cmd.user_id,
            asset_id: cmd.market_id,
            amount: cmd.size,
            timestamp: cmd.timestamp,
        },
    }
}

/// The order record of the command, with the given size.
pub open spec fn order_record(cmd: OrderCommand, size: u64) -> PublicationView {
    PublicationView::Record {
        topic: "orders"@,
        key: decimal(cmd.order_id as nat),
        message: MessageView::Order {
            order_id: cmd.order_id,
            user_id: cmd.user_id,
            price: cmd.price,
            size,
            side: cmd.side,
            time_in_force: cmd.time_in_force,
            status: cmd.status,
            timestamp: cmd.timestamp,
            market_id: cmd.market_id,
        },
    }
}

/// The record of a trade of the command.
pub open spec fn trade_record(e: MatcherTradeEvent, cmd: OrderCommand) -> PublicationView {
    PublicationView::Record {
        topic: "trades"@,
        key: pair_key(cmd.order_id as nat, e.matched_order_id as nat),
        message: MessageView::Trade {
            maker_user_id: e.maker_user_id,
            taker_user_id: cmd.user_id,
            market_id: cmd.market_id,
            price: e.price,
            size: e.size,
            maker_order_id: e.matched_order_id,
            taker_order_id: cmd.order_id,
            taker_side: cmd.side,
            timestamp: cmd.timestamp,
        },
    }
}

/// The record of a cancelled command.
pub open spec fn cancel_record(cmd: OrderCommand) -> PublicationView {
    PublicationView::Record {
        topic: "cancels"@,
        key: decimal(cmd.order_id as nat),
        message: MessageView::Cancel {
            order_id: cmd.order_id,
            market_id: cmd.market_id,
            user_id: cmd.user_id,
            timestamp: cmd.timestamp,
        },
    }
}

/// The levels among the first `n` whose price is above zero, as (price, volume).
pub open spec fn priced_levels(prices: Seq<u64>, volumes: Seq<u64>, n: int) -> Seq<(u64, u64)>
    decreases n,
{
    if n <= 0 {
        Seq::empty()
    } else {
        priced_levels(prices, volumes, n - 1) + if prices[n - 1] > 0 {
            seq![(prices[n - 1], volumes[n - 1])]
        } else {
            Seq::empty()
        }
    }
}

/// The order book record of the command's snapshot, if it has one.
pub open spec fn book_records(cmd: OrderCommand) -> Seq<PublicationView> {
    match cmd.l2_data {
        Some(s) => seq![
            PublicationView::Record {
                topic: "orderbook"@,
                key: decimal(cmd.market_id as nat),
                message: MessageView::Orderbook {
                    market_id: cmd.market_id,
                    bids: priced_levels(s.bid_prices@, s.bid_volumes@, s.bid_prices@.len() as int),
                    asks: priced_levels(s.ask_prices@, s.ask_volumes@, s.ask_prices@.len() as int),
                    timestamp: s.timestamp,
                },
            },
        ],
        None => Seq::empty(),
    }
}

/// For each trade of the command, in order: its trade record and the balance records of its
/// maker.
pub open spec fn trade_records(events: Seq<MatcherTradeEvent>, cmd: OrderCommand) -> Seq<PublicationView>
    decreases events.len(),
{
    if events.len() == 0 {
        Seq::empty()
    } else {
        trade_records(events.drop_last(), cmd) + seq![trade_record(events.last(), cmd)]
            + balance_records(events.last().maker_user_id, cmd, events.last().maker_balance)
    }
}

/// The size an order had when it entered: what its trades filled plus what is left.
pub open spec fn entered_size(cmd: OrderCommand) -> int {
    sum_trade_sizes(cmd.events@) + cmd.size
}

/// What is published for a processed command of the book, before the response.
pub open spec fn order_records(cmd: OrderCommand) -> Seq<PublicationView> {
    match cmd.status {
        Status::Rejected => Seq::empty(),
        Status::Placed => balance_records(cmd.user_id, cmd, cmd.balance) + seq![
            order_record(cmd, cmd.size),
        ] + book_records(cmd),
        Status::Cancelled => balance_records(cmd.user_id, cmd, cmd.balance) + seq![
            order_record(cmd, cmd.size),
            cancel_record(cmd),
        ] + book_records(cmd),
        Status::PartiallyFilled | Status::Filled => trade_records(cmd.events@, cmd)
            + balance_records(cmd.user_id, cmd, cmd.balance) + seq![
            order_record(cmd, entered_size(cmd) as u64),
        ] + book_records(cmd),
        Status::Processing => book_records(cmd),
        Status::Processed => seq![funds_balance_record(cmd)],
    }
}

/// Everything published for a processed command, in order: nothing while a journal is
/// replayed; for a deposit or withdrawal its record and balance when it was processed, then
/// the response; for a command of the book its records by status, then the response.
pub open spec fn publications_for(replaying: bool, cmd: OrderCommand) -> Seq<PublicationView> {
    if replaying {
        Seq::empty()
    } else {
        match cmd.command {
            OrderCommandType::DepositFunds => (if cmd.status == Status::Processed {
                seq![deposit_record(cmd), funds_balance_record(cmd)]
            } else {
                Seq::empty()
            }) + seq![PublicationView::Response],
            OrderCommandType::WithdrawFunds => (if cmd.status == Status::Processed {
                seq![withdraw_record(cmd), funds_balance_record(cmd)]
            } else {
                Seq::empty()
            }) + seq![PublicationView::Response],
            _ => order_records(cmd) + seq![PublicationView::Response],
        }
    }
}

/// The sum of a balance fits in 64 bits.
pub open spec fn balance_fits(b: UserBalance) -> bool {
    b.available + b.locked <= u64::MAX
}

/// The command can be published: every balance total that is published fits in 64 bits, the
/// entered size of a filled order fits, and the snapshot has a volume for every price.
pub open spec fn publishable(cmd: OrderCommand) -> bool {
    &&& balance_fits(cmd.balance@[0])
    &&& balance_fits(cmd.balance@[1])
    &&& forall|i: int| 0 <= i < cmd.events@.len() ==> balance_fits(#[trigger] cmd.events@[i].maker_balance@[0])
        && balance_fits(cmd.events@[i].maker_balance@[1])
    &&& entered_size(cmd) <= u64::MAX
    &&& match cmd.l2_data {
        Some(s) => s.bid_volumes@.len() >= s.bid_prices@.len() && s.ask_volumes@.len()
            >= s.ask_prices@.len(),
        None => true,
    }
}

fn record(topic: &str, key: String, message: EventMessage) -> (r: Publication)
    ensures
        r@ == (PublicationView::Record { topic: topic@, key: key@, message: message@ }),
{
    Publication::Record { topic: String::from_str(topic), key, message }
}

fn pair_key_text(a: u64, b: u64) -> (r: String)
    ensures
        r@ == pair_key(a as nat, b as nat),
{
    decimal_text(a).concat(":").concat(decimal_text(b).as_str())
}

fn push_balance(out: &mut Vec<Publication>, user_id: u64, asset_id: u32, b: &UserBalance, timestamp: u64)
    requires
        balance_fits(*b),
    ensures
        final(out)@.map_values(|p: Publication| p@) == old(out)@.map_values(|p: Publication| p@).push(
            balance_record(user_id, asset_id, *b, timestamp),
        ),
{
    let m = EventMessage::Balance {
        user_id,
        asset_id,
        available: b.available,
        locked: b.locked,
        total: b.available + b.locked,
        timestamp,
    };
    let p = record("balances", pair_key_text(user_id, asset_id as u64), m);
    let ghost before = out@;
    out.push(p);
    proof {
        assert(out@.map_values(|p: Publication| p@) =~= before.map_values(|p: Publication| p@).push(
            balance_record(user_id, asset_id, *b, timestamp),
        ));
    }
}

fn push_balances(out: &mut Vec<Publication>, user_id: u64, cmd: &OrderCommand, balances: &[UserBalance; 2])
    requires
        balance_fits(balances@[0]),
        balance_fits(balances@[1]),
    ensures
        final(out)@.map_values(|p: Publication| p@) == old(out)@.map_values(|p: Publication| p@)
            + balance_records(user_id, *cmd, *balances),
{
    let ghost before = out@.map_values(|p: Publication| p@);
    push_balance(out, user_id, base_asset(cmd.market_id) as u32, &balances[0], cmd.timestamp);
    push_balance(out, user_id, quote_asset(cmd.market_id) as u32, &balances[1], cmd.timestamp);
    proof {
        assert(out@.map_values(|p: Publication| p@) =~= before + balance_records(user_id, *cmd, *balances));
    }
}

fn push_one(out: &mut Vec<Publication>, p: Publication)
    ensures
        final(out)@.map_values(|q: Publication| q@) == old(out)@.map_values(|q: Publication| q@).push(p@),
{
    let ghost before = out@;
    out.push(p);
    proof {
        assert(out@.map_values(|q: Publication| q@) =~= before.map_values(|q: Publication| q@).push(p@));
    }
}

fn funds_balance(out: &mut Vec<Publication>, cmd: &OrderCommand)
    requires
        balance_fits(cmd.balance@[0]),
    ensures
        final(out)@.map_values(|p: Publication| p@) == old(out)@.map_values(|p: Publication| p@).push(
            funds_balance_record(*cmd),
        ),
{
    push_balance(out, cmd.user_id, base_asset(cmd.market_id) as u32, &cmd.balance[0], cmd.timestamp);
}

fn order_publication(cmd: &OrderCommand, size: u64) -> (r: Publication)
    ensures
        r@ == order_record(*cmd, size),
{
    record(
        "orders",
        decimal_text(cmd.order_id),
        EventMessage::Order {
            order_id: cmd.order_id,
            user_id: cmd.user_id,
            price: cmd.price,
            size,
            side: cmd.side,
            time_in_force: cmd.time_in_force,
            status: cmd.status,
            timestamp: cmd.timestamp,
            market_id: cmd.market_id,
        },
    )
}

fn priced(prices: &Vec<u64>, volumes: &Vec<u64>) -> (r: Vec<(u64, u64)>)
    requires
        volumes@.len() >= prices@.len(),
    ensures
        r@ == priced_levels(prices@, volumes@, prices@.len() as int),
{
    let mut r: Vec<(u64, u64)> = Vec::new();
    let mut i: usize = 0;
    while i < prices.len()
        invariant
            i <= prices@.len(),
            volumes@.len() >= prices@.len(),
            r@ == priced_levels(prices@, volumes@, i as int),
        decreases prices@.len() - i,
    {
        if prices[i] > 0 {
            r.push((prices[i], volumes[i]));
        }
        proof {
            assert(priced_levels(prices@, volumes@, i + 1) == priced_levels(prices@, volumes@, i as int) + if prices@[i as int] > 0 {
                seq![(prices@[i as int], volumes@[i as int])]
            } else {
                Seq::<(u64, u64)>::empty()
            });
        }
        i = i + 1;
    }
    r
}

fn push_book(out: &mut Vec<Publication>, cmd: &OrderCommand)
    requires
        match cmd.l2_data {
            Some(s) => s.bid_volumes@.len() >= s.bid_prices@.len() && s.ask_volumes@.len()
                >= s.ask_prices@.len(),
            None => true,
        },
    ensures
        final(out)@.map_values(|p: Publication| p@) == old(out)@.map_values(|p: Publication| p@)
            + book_records(*cmd),
{
    match &cmd.l2_data {
        Some(s) => {
            let m = EventMessage::Orderbook {
                market_id: cmd.market_id,
                bids: priced(&s.bid_prices, &s.bid_volumes),
                asks: priced(&s.ask_prices, &s.ask_volumes),
                timestamp: s.timestamp,
            };
            let ghost before = out@.map_values(|p: Publication| p@);
            push_one(out, record("orderbook", decimal_text(cmd.market_id as u64), m));
            proof {
                assert(out@.map_values(|p: Publication| p@) =~= before + book_records(*cmd));
            }
        },
        None => {
            proof {
                assert(out@.map_values(|p: Publication| p@) =~= out@.map_values(|p: Publication| p@)
                    + book_records(*cmd));
            }
        },
    }
}

fn push_trades(out: &mut Vec<Publication>, cmd: &OrderCommand)
    requires
        forall|i: int| 0 <= i < cmd.events@.len() ==> balance_fits(#[trigger] cmd.events@[i].maker_balance@[0])
            && balance_fits(cmd.events@[i].maker_balance@[1]),
    ensures
        final(out)@.map_values(|p: Publication| p@) == old(out)@.map_values(|p: Publication| p@)
            + trade_records(cmd.events@, *cmd),
{
    let ghost start = out@.map_values(|p: Publication| p@);
    let n = cmd.events.len();
    let mut i: usize = 0;
    while i < n
        invariant
            i <= n,
            n == cmd.events@.len(),
            forall|k: int| 0 <= k < cmd.events@.len() ==> balance_fits(#[trigger] cmd.events@[k].maker_balance@[0])
                && balance_fits(cmd.events@[k].maker_balance@[1]),
            out@.map_values(|p: Publication| p@) == start + trade_records(cmd.events@.take(i as int), *cmd),
        decreases n - i,
    {
        let e = &cmd.events[i];
        let ghost mid = out@.map_values(|p: Publication| p@);
        let t = record(
            "trades",
            pair_key_text(cmd.order_id, e.matched_order_id),
            EventMessage::Trade {
                maker_user_id: e.maker_user_id,
                taker_user_id: cmd.user_id,
                market_id: cmd.market_id,
                price: e.price,
                size: e.size,
                maker_order_id: e.matched_order_id,
                taker_order_id: cmd.order_id,
                taker_side: cmd.side,
                timestamp: cmd.timestamp,
            },
        );
        push_one(out, t);
        push_balances(out, e.maker_user_id, cmd, &e.maker_balance);
        proof {
            let pre = cmd.events@.take(i + 1);
            assert(pre.drop_last() =~= cmd.events@.take(i as int));
            assert(pre.last() == cmd.events@[i as int]);
            assert(out@.map_values(|p: Publication| p@) =~= start + trade_records(pre, *cmd));
        }
        i = i + 1;
    }
    proof {
        assert(cmd.events@.take(n as int) =~= cmd.events@);
    }
}

fn filled_size(events: &Vec<MatcherTradeEvent>, rest: u64) -> (r: u64)
    requires
        sum_trade_sizes(events@) + rest <= u64::MAX,
    ensures
        r == sum_trade_sizes(events@) + rest,
{
    let n = events.len();
    let mut total: u64 = rest;
    let mut i: usize = n;
    while i > 0
        invariant
            i <= n,
            n == events@.len(),
            sum_trade_sizes(events@) + rest <= u64::MAX,
            total == sum_trade_sizes(events@.subrange(i as int, n as int)) + rest,
        decreases i,
    {
        i = i - 1;
        proof {
            let tail = events@.subrange(i as int, n as int);
            assert(tail.drop_first() =~= events@.subrange(i + 1, n as int));
            crate::laws::lemma_sum_trade_sizes_append(events@.subrange(0, i as int), tail);
            assert(events@.subrange(0, i as int) + tail =~= events@);
            crate::laws::lemma_sum_nonneg(events@.subrange(0, i as int));
        }
        total = total + events[i].size;
    }
    proof {
        assert(events@.subrange(0, n as int) =~= events@);
    }
    total
}

/// Plans what the events stage publishes for a processed command; see `publications_for`.
pub fn plan_publications(replaying: bool, cmd: &OrderCommand) -> (r: Vec<Publication>)
    requires
        publishable(*cmd),
    ensures
        r@.map_values(|p: Publication| p@) == publications_for(replaying, *cmd),
{
    let mut out: Vec<Publication> = Vec::new();
    proof {
        assert(out@.map_values(|p: Publication| p@) =~= Seq::<PublicationView>::empty());
    }
    if replaying {
        return out;
    }
    match cmd.command {
        OrderCommandType::DepositFunds => {
            if cmd.status == Status::Processed {
                push_one(
                    &mut out,
                    record(
                        "deposits",
                        decimal_text(cmd.user_id),
                        EventMessage::Deposit {
                            user_id: cmd.user_id,
                            asset_id: cmd.market_id,
                            amount: cmd.size,
                            timestamp: cmd.timestamp,
                        },
                    ),
                );
                funds_balance(&mut out, cmd);
            }
            push_one(&mut out, Publication::Response);
            proof {
                assert(out@.map_values(|p: Publication| p@) =~= publications_for(replaying, *cmd));
            }
            return out;
        },
        OrderCommandType::WithdrawFunds => {
            if cmd.status == Status::Processed {
                push_one(
                    &mut out,
                    record(
                        "withdrawals",
                        decimal_text(cmd.user_id),
                        EventMessage::Withdraw {
                            user_id: cmd.user_id,
                            asset_id: cmd.market_id,
                            amount: cmd.size,
                            timestamp: cmd.timestamp,
                        },
                    ),
                );
                funds_balance(&mut out, cmd);
            }
            push_one(&mut out, Publication::Response);
            proof {
                assert(out@.map_values(|p: Publication| p@) =~= publications_for(replaying, *cmd));
            }
            return out;
        },
        _ => {},
    }
    match cmd.status {
        Status::Rejected => {},
        Status::Placed => {
            push_balances(&mut out, cmd.user_id, cmd, &cmd.balance);
            push_one(&mut out, order_publication(cmd, cmd.size));
            push_book(&mut out, cmd);
        },
        Status::Cancelled => {
            push_balances(&mut out, cmd.user_id, cmd, &cmd.balance);
            push_one(&mut out, order_publication(cmd, cmd.size));
            push_one(
                &mut out,
                record(
                    "cancels",
                    decimal_text(cmd.order_id),
                    EventMessage::Cancel {
                        order_id: cmd.order_id,
                        market_id: cmd.market_id,
                        user_id: cmd.user_id,
                        timestamp: cmd.timestamp,
                    },
                ),
            );
            push_book(&mut out, cmd);
        },
        Status::PartiallyFilled | Status::Filled => {
            push_trades(&mut out, cmd);
            let entered = filled_size(&cmd.events, cmd.size);
            push_balances(&mut out, cmd.user_id, cmd, &cmd.balance);
            push_one(&mut out, order_publication(cmd, entered));
            push_book(&mut out, cmd);
        },
        Status::Processing => {
            push_book(&mut out, cmd);
        },
        Status::Processed => {
            funds_balance(&mut out, cmd);
        },
    }
    push_one(&mut out, Publication::Response);
    proof {
        assert(out@.map_values(|p: Publication| p@) =~= publications_for(replaying, *cmd));
    }
    out
}

/// Every element of the trade records is a record.
proof fn lemma_trade_records_are_records(events: Seq<MatcherTradeEvent>, cmd: OrderCommand)
    ensures
        forall|k: int|
            0 <= k < trade_records(events, cmd).len() ==> (#[trigger] trade_records(events, cmd)[k]) is Record,
    decreases events.len(),
{
    if events.len() > 0 {
        lemma_trade_records_are_records(events.drop_last(), cmd);
    }
}

/// Every processed command is answered once: outside a replay, what is published ends with the
/// one response to the gateway, and everything before it is a record for a topic. During a
/// replay nothing is published.
pub proof fn law_one_response_last(cmd: OrderCommand)
    ensures
        publications_for(true, cmd).len() == 0,
        publications_for(false, cmd).len() > 0,
        publications_for(false, cmd).last() == PublicationView::Response,
        forall|k: int|
            0 <= k < publications_for(false, cmd).len() - 1 ==> (#[trigger] publications_for(
                false,
                cmd,
            )[k]) is Record,
{
    lemma_trade_records_are_records(cmd.events@, cmd);
    let p = publications_for(false, cmd);
    let body = p.drop_last();
    assert forall|k: int| 0 <= k < p.len() - 1 implies (#[trigger] p[k]) is Record by {
        assert(p[k] == body[k]);
        match cmd.command {
            OrderCommandType::DepositFunds | OrderCommandType::WithdrawFunds => {},
            _ => {
                let o = order_records(cmd);
                assert(body =~= o);
                match cmd.status {
                    Status::PartiallyFilled | Status::Filled => {
                        let t = trade_records(cmd.events@, cmd);
                        if k < t.len() {
                            assert(o[k] == t[k]);
                        }
                    },
                    _ => {},
                }
            },
        }
    }
}


/// The price, size, maker order, maker, taker and taker order of a trade message, or nothing
/// for any other publication.
pub open spec fn trade_fields(p: PublicationView) -> Option<(u64, u64, u64, u64, u64, u64)> {
    match p {
        PublicationView::Record {
            message: MessageView::Trade {
                price,
                size,
                maker_order_id,
                maker_user_id,
                taker_user_id,
                taker_order_id,
                ..
            },
            ..
        } => Some((price, size, maker_order_id, maker_user_id, taker_user_id, taker_order_id)),
        _ => None,
    }
}

/// What a trade message must carry for a trade event of a command: the event's price, size,
/// maker order and maker, and the command's user and order as the taker.
pub open spec fn event_fields(e: MatcherTradeEvent, cmd: OrderCommand) -> (u64, u64, u64, u64, u64, u64) {
    (e.price, e.size, e.matched_order_id, e.maker_user_id, cmd.user_id, cmd.order_id)
}

proof fn lemma_record_fields(e: MatcherTradeEvent, cmd: OrderCommand, user_id: u64, bs: [UserBalance; 2])
    ensures
        trade_fields(trade_record(e, cmd)) == Some(event_fields(e, cmd)),
        trade_fields(balance_records(user_id, cmd, bs)[0]) is None,
        trade_fields(balance_records(user_id, cmd, bs)[1]) is None,
        balance_records(user_id, cmd, bs).len() == 2,
{
}

proof fn lemma_trade_records_fields(events: Seq<MatcherTradeEvent>, cmd: OrderCommand)
    ensures
        trade_records(events, cmd).len() == 3 * events.len(),
        forall|k: int|
            0 <= k < events.len() ==> trade_fields(#[trigger] trade_records(events, cmd)[3 * k])
                == Some(event_fields(events[k], cmd)),
        forall|j: int|
            0 <= j < trade_records(events, cmd).len() && j % 3 != 0 ==> trade_fields(
                #[trigger] trade_records(events, cmd)[j],
            ) is None,
    decreases events.len(),
{
    if events.len() > 0 {
        let d = events.drop_last();
        let e = events.last();
        lemma_trade_records_fields(d, cmd);
        lemma_record_fields(e, cmd, e.maker_user_id, e.maker_balance);
        let t0 = trade_records(d, cmd);
        let b = balance_records(e.maker_user_id, cmd, e.maker_balance);
        let t = trade_records(events, cmd);
        assert(t == t0 + seq![trade_record(e, cmd)] + b);
        let n = t0.len() as int;
        assert forall|k: int| 0 <= k < events.len() implies trade_fields(#[trigger] t[3 * k])
            == Some(event_fields(events[k], cmd)) by {
            if k < d.len() {
                assert(events[k] == d[k]);
                assert(t[3 * k] == t0[3 * k]);
            } else {
                assert(3 * k == n);
                assert(t[n] == trade_record(e, cmd));
            }
        }
        assert forall|j: int| 0 <= j < t.len() && j % 3 != 0 implies trade_fields(#[trigger] t[j]) is None by {
            if j < n {
                assert(t[j] == t0[j]);
            } else if j == n + 1 {
                assert(t[j] == b[0]);
            } else {
                assert(j == n + 2);
                assert(t[j] == b[1]);
            }
        }
    }
}

/// Trade records carry the trades' own prices: outside a replay, for a command of the book
/// that traded, the trade messages published are exactly its trade events, in order: the
/// `k`-th carries the `k`-th event's price (the price of the maker's level, whatever the
/// command's own price), size, maker order and maker, with the command's user and order as
/// the taker, and no other publication is a trade message.
#[verifier::rlimit(50)]
pub proof fn law_trade_records_carry_trade_prices(cmd: OrderCommand)
    requires
        cmd.command != OrderCommandType::DepositFunds,
        cmd.command != OrderCommandType::WithdrawFunds,
        cmd.status == Status::PartiallyFilled || cmd.status == Status::Filled,
    ensures
        forall|k: int|
            0 <= k < cmd.events@.len() ==> trade_fields(#[trigger] publications_for(false, cmd)[3 * k])
                == Some(
                (
                    cmd.events@[k].price,
                    cmd.events@[k].size,
                    cmd.events@[k].matched_order_id,
                    cmd.events@[k].maker_user_id,
                    cmd.user_id,
                    cmd.order_id,
                ),
            ),
        forall|j: int|
            0 <= j < publications_for(false, cmd).len() && !(j % 3 == 0 && j < 3 * cmd.events@.len())
                ==> trade_fields(#[trigger] publications_for(false, cmd)[j]) is None,
{
    let evs = cmd.events@;
    lemma_trade_records_fields(evs, cmd);
    lemma_record_fields(evs[0], cmd, cmd.user_id, cmd.balance);
    let t = trade_records(evs, cmd);
    let b = balance_records(cmd.user_id, cmd, cmd.balance);
    let o = order_record(cmd, entered_size(cmd) as u64);
    let bk = book_records(cmd);
    let p = publications_for(false, cmd);
    assert(order_records(cmd) == t + b + seq![o] + bk);
    assert(p == t + b + seq![o] + bk + seq![PublicationView::Response]);
    let n = t.len() as int;
    assert forall|k: int| 0 <= k < evs.len() implies trade_fields(#[trigger] p[3 * k])
        == Some((evs[k].price, evs[k].size, evs[k].matched_order_id, evs[k].maker_user_id, cmd.user_id, cmd.order_id)) by {
        assert(p[3 * k] == t[3 * k]);
    }
    assert forall|j: int| 0 <= j < p.len() && !(j % 3 == 0 && j < 3 * evs.len()) implies trade_fields(
        #[trigger] p[j],
    ) is None by {
        if j < n {
            assert(p[j] == t[j]);
        } else if j < n + 2 {
            assert(p[j] == b[j - n]);
        } else if j == n + 2 {
            assert(p[j] == o);
        } else if j < n + 3 + bk.len() {
            assert(p[j] == bk[j - n - 3]);
        } else {
            assert(p[j] == PublicationView::Response);
        }
    }
}

} // verus!
