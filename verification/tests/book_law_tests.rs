use vex_core::book::{BTreeAskSide, BTreeBidSide, OrderBook};
use vex_core::model::{OrderCommand, PriceCache, Side, Status, TimeInForce};

fn book() -> OrderBook {
    OrderBook::new(BTreeBidSide::new(), BTreeAskSide::new(), 65538)
}

fn order(id: u64, user: u64, side: Side, price: u64, size: u64, tif: TimeInForce) -> OrderCommand {
    OrderCommand::place_order(tif, user, price, size, side, 65538, id)
}

fn place(b: &mut OrderBook, cache: &mut PriceCache, mut c: OrderCommand) -> OrderCommand {
    b.place_order(&mut c, cache);
    c
}

fn levels(b: &OrderBook, side: Side) -> Vec<(u64, u64)> {
    let ls = match side {
        Side::Bid => b.get_bids(),
        Side::Ask => b.get_asks(),
    };
    ls.iter().map(|l| (l.price(), l.get_total_volume())).collect()
}

#[test]
fn traded_plus_left_is_the_order_size() {
    let mut b = book();
    let mut cache = PriceCache::new();
    place(&mut b, &mut cache, order(1, 10, Side::Ask, 100, 30, TimeInForce::Gtc));
    place(&mut b, &mut cache, order(2, 11, Side::Ask, 101, 30, TimeInForce::Gtc));
    let taker = place(&mut b, &mut cache, order(3, 12, Side::Bid, 101, 75, TimeInForce::Gtc));
    let traded: u64 = taker.events.iter().map(|e| e.size).sum();
    assert_eq!(traded, 60);
    assert_eq!(traded + taker.size, 75);
    assert_eq!(taker.status, Status::PartiallyFilled);
    assert_eq!(levels(&b, Side::Bid), vec![(101, 15)]);
    assert!(levels(&b, Side::Ask).is_empty());
}

#[test]
fn an_order_trades_with_its_own_users_orders_too() {
    let mut b = book();
    let mut cache = PriceCache::new();
    place(&mut b, &mut cache, order(1, 10, Side::Ask, 100, 5, TimeInForce::Gtc));
    place(&mut b, &mut cache, order(2, 11, Side::Ask, 100, 5, TimeInForce::Gtc));
    let taker = place(&mut b, &mut cache, order(3, 10, Side::Bid, 100, 10, TimeInForce::Ioc));
    assert_eq!(taker.events.len(), 2);
    assert_eq!(taker.events[0].maker_user_id, 10);
    assert_eq!(taker.events[1].maker_user_id, 11);
    assert_eq!(taker.status, Status::Filled);
    assert!(levels(&b, Side::Ask).is_empty());
}

#[test]
fn trades_stay_within_the_limit_and_follow_price_priority() {
    let mut b = book();
    let mut cache = PriceCache::new();
    place(&mut b, &mut cache, order(1, 1, Side::Bid, 90, 5, TimeInForce::Gtc));
    place(&mut b, &mut cache, order(2, 2, Side::Bid, 95, 5, TimeInForce::Gtc));
    place(&mut b, &mut cache, order(3, 3, Side::Bid, 92, 5, TimeInForce::Gtc));
    let taker = place(&mut b, &mut cache, order(4, 4, Side::Ask, 91, 20, TimeInForce::Ioc));
    let prices: Vec<u64> = taker.events.iter().map(|e| e.price).collect();
    assert_eq!(prices, vec![95, 92]);
    assert!(prices.iter().all(|p| *p >= 91));
    assert_eq!(levels(&b, Side::Bid), vec![(90, 5)]);
    assert_eq!(taker.size, 10);
    assert_eq!(taker.status, Status::PartiallyFilled);
}

#[test]
fn fill_or_kill_is_all_or_nothing() {
    let mut b = book();
    let mut cache = PriceCache::new();
    place(&mut b, &mut cache, order(1, 1, Side::Ask, 100, 5, TimeInForce::Gtc));
    place(&mut b, &mut cache, order(2, 2, Side::Ask, 101, 5, TimeInForce::Gtc));
    let before = levels(&b, Side::Ask);
    let killed = place(&mut b, &mut cache, order(3, 3, Side::Bid, 101, 11, TimeInForce::Fok));
    assert_eq!(killed.status, Status::Cancelled);
    assert!(killed.events.is_empty());
    assert_eq!(levels(&b, Side::Ask), before);
    let filled = place(&mut b, &mut cache, order(4, 3, Side::Bid, 101, 10, TimeInForce::Fok));
    assert_eq!(filled.status, Status::Filled);
    assert_eq!(filled.size, 0);
    assert!(levels(&b, Side::Ask).is_empty());
}

#[test]
fn fill_or_kill_counts_own_orders() {
    let mut b = book();
    let mut cache = PriceCache::new();
    place(&mut b, &mut cache, order(1, 7, Side::Ask, 100, 5, TimeInForce::Gtc));
    place(&mut b, &mut cache, order(2, 8, Side::Ask, 100, 5, TimeInForce::Gtc));
    let filled = place(&mut b, &mut cache, order(3, 7, Side::Bid, 100, 10, TimeInForce::Fok));
    assert_eq!(filled.status, Status::Filled);
    assert!(levels(&b, Side::Ask).is_empty());
}

#[test]
fn good_till_cancelled_status_tells_what_happened() {
    let mut b = book();
    let mut cache = PriceCache::new();
    let placed = place(&mut b, &mut cache, order(1, 1, Side::Ask, 100, 5, TimeInForce::Gtc));
    assert_eq!(placed.status, Status::Placed);
    let filled = place(&mut b, &mut cache, order(2, 2, Side::Bid, 100, 2, TimeInForce::Gtc));
    assert_eq!(filled.status, Status::Filled);
    let partial = place(&mut b, &mut cache, order(3, 3, Side::Bid, 100, 4, TimeInForce::Gtc));
    assert_eq!(partial.status, Status::PartiallyFilled);
    assert_eq!(partial.size, 1);
    assert_eq!(levels(&b, Side::Bid), vec![(100, 1)]);
    assert_eq!(b.order_price(3), Some(100));
    assert_eq!(b.order_price(1), None);
}

#[test]
fn cancelling_a_resting_order_restores_the_book() {
    let mut b = book();
    let mut cache = PriceCache::new();
    place(&mut b, &mut cache, order(1, 1, Side::Bid, 99, 5, TimeInForce::Gtc));
    place(&mut b, &mut cache, order(2, 2, Side::Ask, 105, 5, TimeInForce::Gtc));
    let bids = levels(&b, Side::Bid);
    let asks = levels(&b, Side::Ask);
    let resting = place(&mut b, &mut cache, order(3, 3, Side::Bid, 100, 7, TimeInForce::Gtc));
    assert_eq!(resting.status, Status::Placed);
    let mut cancel = OrderCommand::cancel_order(3, 3, 65538);
    b.cancel_order(&mut cancel, &mut cache);
    assert_eq!(cancel.status, Status::Cancelled);
    assert_eq!(cancel.size, 7);
    assert_eq!(cancel.price, 100);
    assert_eq!(levels(&b, Side::Bid), bids);
    assert_eq!(levels(&b, Side::Ask), asks);
    assert_eq!(b.resting_order_count(), 2);
}

#[test]
fn orders_at_one_price_trade_first_in_first_out() {
    let mut b = book();
    let mut cache = PriceCache::new();
    for (id, user) in [(1u64, 21u64), (2, 22), (3, 23)] {
        place(&mut b, &mut cache, order(id, user, Side::Ask, 100, 4, TimeInForce::Gtc));
    }
    let taker = place(&mut b, &mut cache, order(4, 30, Side::Bid, 100, 10, TimeInForce::Gtc));
    let matched: Vec<u64> = taker.events.iter().map(|e| e.matched_order_id).collect();
    assert_eq!(matched, vec![1, 2, 3]);
    assert!(taker.events[0].matched_order_completed);
    assert!(!taker.events[2].matched_order_completed);
    assert!(taker.events[2].active_order_completed);
    assert_eq!(levels(&b, Side::Ask), vec![(100, 2)]);
}

#[test]
fn the_price_cache_gets_the_best_prices() {
    let mut b = book();
    let mut cache = PriceCache::new();
    place(&mut b, &mut cache, order(1, 1, Side::Bid, 99, 5, TimeInForce::Gtc));
    place(&mut b, &mut cache, order(2, 2, Side::Ask, 105, 5, TimeInForce::Gtc));
    assert_eq!(cache.get_prices(65538), Some((99, 105)));
    let snapshot = {
        let mut c = order(3, 3, Side::Bid, 98, 1, TimeInForce::Gtc);
        b.place_order(&mut c, &mut cache);
        c.l2_data.unwrap()
    };
    assert_eq!(snapshot.bid_prices, vec![99, 98]);
    assert_eq!(snapshot.bid_volumes, vec![5, 1]);
    assert_eq!(snapshot.ask_prices, vec![105]);
}

#[test]
fn market_sell_takes_the_execution_price() {
    let mut b = book();
    let mut cache = PriceCache::new();
    place(&mut b, &mut cache, order(1, 1, Side::Bid, 99, 5, TimeInForce::Gtc));
    let sell = place(&mut b, &mut cache, order(2, 2, Side::Ask, 0, 3, TimeInForce::Ioc));
    assert_eq!(sell.status, Status::Filled);
    assert_eq!(sell.price, 99);
    assert!(OrderBook::is_market_order(&order(3, 3, Side::Bid, u64::MAX, 1, TimeInForce::Ioc)));
    assert!(!OrderBook::is_market_order(&order(4, 3, Side::Bid, 10, 1, TimeInForce::Gtc)));
}

#[test]
fn the_order_index_follows_placing_matching_and_cancelling() {
    let mut b = book();
    let mut cache = PriceCache::new();
    place(&mut b, &mut cache, order(1, 1, Side::Ask, 100, 5, TimeInForce::Gtc));
    place(&mut b, &mut cache, order(2, 2, Side::Ask, 101, 5, TimeInForce::Gtc));
    place(&mut b, &mut cache, order(3, 3, Side::Bid, 90, 5, TimeInForce::Gtc));
    assert_eq!(b.order_price(1), Some(100));
    assert_eq!(b.order_price(2), Some(101));
    assert_eq!(b.order_price(3), Some(90));
    assert_eq!(b.resting_order_count(), 3);
    // uses up order 1 and part of order 2; the taker rests nothing
    place(&mut b, &mut cache, order(4, 4, Side::Bid, 101, 7, TimeInForce::Gtc));
    assert_eq!(b.order_price(1), None);
    assert_eq!(b.order_price(2), Some(101));
    assert_eq!(b.order_price(4), None);
    assert_eq!(b.resting_order_count(), 2);
    let mut cancel = OrderCommand::cancel_order(3, 3, 65538);
    b.cancel_order(&mut cancel, &mut cache);
    assert_eq!(cancel.status, Status::Cancelled);
    assert_eq!(b.order_price(3), None);
    assert_eq!(b.resting_order_count(), 1);
    assert!(levels(&b, Side::Bid).is_empty());
}

#[test]
fn completion_flags_mark_used_up_makers_and_the_last_trade() {
    let mut b = book();
    let mut cache = PriceCache::new();
    place(&mut b, &mut cache, order(1, 1, Side::Ask, 100, 5, TimeInForce::Gtc));
    place(&mut b, &mut cache, order(2, 2, Side::Ask, 101, 5, TimeInForce::Gtc));
    let taker = place(&mut b, &mut cache, order(3, 3, Side::Bid, 101, 7, TimeInForce::Gtc));
    assert_eq!(taker.events.len(), 2);
    assert!(taker.events[0].matched_order_completed);
    assert_eq!(taker.events[0].maker_remaining_size, 0);
    assert!(!taker.events[0].active_order_completed);
    assert!(!taker.events[1].matched_order_completed);
    assert_eq!(taker.events[1].maker_remaining_size, 3);
    assert!(taker.events[1].active_order_completed);
    assert_eq!(taker.size, 0);
}

#[test]
fn placing_and_cancelling_leaves_the_book_clean() {
    let mut b = book();
    let mut cache = PriceCache::new();
    place(&mut b, &mut cache, order(1, 1, Side::Bid, 99, 5, TimeInForce::Gtc));
    place(&mut b, &mut cache, order(2, 2, Side::Ask, 105, 5, TimeInForce::Gtc));
    let bids = levels(&b, Side::Bid);
    let asks = levels(&b, Side::Ask);
    let resting = place(&mut b, &mut cache, order(3, 3, Side::Ask, 104, 4, TimeInForce::Gtc));
    assert_eq!(resting.status, Status::Placed);
    let mut cancel = OrderCommand::cancel_order(3, 3, 65538);
    b.cancel_order(&mut cancel, &mut cache);
    assert_eq!(cancel.status, Status::Cancelled);
    assert_eq!(levels(&b, Side::Bid), bids);
    assert_eq!(levels(&b, Side::Ask), asks);
}
