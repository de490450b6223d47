use vex_core::model::{
    CoreMarketSpecification, MatcherTradeEvent, OrderCommand, PriceCache, Side, Status,
    TimeInForce, UserBalance,
};
use vex_core::risk::{RiskEngine, RiskEngineError};
use vex_core::router::MatchingEngineRouter;
use vex_core::tables::MarketSpecs;

const MARKET: u32 = 65538;

fn specs() -> MarketSpecs {
    let mut s = MarketSpecs::new();
    s.insert(
        MARKET,
        CoreMarketSpecification {
            market_id: MARKET,
            base_asset: 2,
            quote_asset: 1,
            base_scale_k: 1,
            quote_scale_k: 1,
            taker_fee: 2,
            maker_fee: 1,
            ..Default::default()
        },
    );
    s
}

#[test]
fn a_bid_locks_price_times_size_plus_taker_fee() {
    let mut risk = RiskEngine::new(specs(), 0, 1);
    risk.set_balance(7, MARKET, UserBalance::new(1_000, 0));
    let bid = OrderCommand::place_order(TimeInForce::Gtc, 7, 10, 5, Side::Bid, MARKET, 1);
    assert!(risk.pre_process_command(&bid).is_ok());
    assert_eq!(risk.get_balance(7, MARKET), Some(UserBalance::new(940, 60)));
    let ask = OrderCommand::place_order(TimeInForce::Gtc, 7, 10, 5, Side::Ask, MARKET, 2);
    assert!(risk.pre_process_command(&ask).is_ok());
    assert_eq!(risk.get_balance(7, MARKET), Some(UserBalance::new(935, 65)));
}

#[test]
fn refusals_name_their_reason() {
    let mut risk = RiskEngine::new(specs(), 0, 1);
    let unknown = OrderCommand::place_order(TimeInForce::Gtc, 9, 10, 5, Side::Bid, MARKET, 1);
    assert_eq!(risk.pre_process_command(&unknown), Err(RiskEngineError::UserNotFound { user_id: 9 }));
    risk.set_balance(9, MARKET, UserBalance::new(10, 0));
    let zero = OrderCommand::place_order(TimeInForce::Gtc, 9, 0, 5, Side::Bid, MARKET, 2);
    assert_eq!(
        risk.pre_process_command(&zero),
        Err(RiskEngineError::InvalidArguments { price: 0, size: 5 })
    );
    let other_market = OrderCommand::place_order(TimeInForce::Gtc, 9, 1, 1, Side::Bid, 7, 3);
    assert_eq!(
        risk.pre_process_command(&other_market),
        Err(RiskEngineError::MarketSpecNotFound { market_id: 7 })
    );
    let too_big = OrderCommand::place_order(TimeInForce::Gtc, 9, 10, 5, Side::Bid, MARKET, 4);
    assert_eq!(
        risk.pre_process_command(&too_big),
        Err(RiskEngineError::InsufficientFunds { user_id: 9, required: 60, available: 10 })
    );
    assert_eq!(risk.get_balance(9, MARKET), Some(UserBalance::new(10, 0)));
}

#[test]
fn users_of_other_shards_pass() {
    let mut risk = RiskEngine::new(specs(), 1, 4);
    let cmd = OrderCommand::place_order(TimeInForce::Gtc, 8, 10, 5, Side::Bid, MARKET, 1);
    assert!(!risk.user_id_for_this_handler(8));
    assert!(risk.pre_process_command(&cmd).is_ok());
    assert!(risk.user_id_for_this_handler(9));
}

fn trade(maker: u64, price: u64, size: u64) -> MatcherTradeEvent {
    MatcherTradeEvent {
        active_order_completed: false,
        matched_order_id: 1,
        maker_user_id: maker,
        matched_order_completed: true,
        price,
        size,
        maker_balance: [UserBalance::new(0, 0), UserBalance::new(0, 0)],
        maker_remaining_size: 0,
        maker_original_size: size,
    }
}

#[test]
fn settlement_spends_maker_locks_and_releases_the_taker() {
    let mut risk = RiskEngine::new(specs(), 0, 1);
    risk.set_balance(1, MARKET, UserBalance::new(0, 100));
    risk.set_balance(2, MARKET, UserBalance::new(0, 50));
    risk.set_balance(3, MARKET, UserBalance::new(5, 60));
    risk.handle_event(&[trade(1, 10, 4), trade(2, 10, 3)], MARKET, Side::Bid, 3);
    // maker 1 pays 40 from locked, maker 2 pays 30, the taker gets 40 + 4 * fee back
    assert_eq!(risk.get_balance(1, MARKET), Some(UserBalance::new(0, 60)));
    assert_eq!(risk.get_balance(2, MARKET), Some(UserBalance::new(0, 20)));
    assert_eq!(risk.get_balance(3, MARKET), Some(UserBalance::new(53, 12)));
}

#[test]
fn router_routes_by_market_and_rejects_unknown_markets() {
    let mut router = MatchingEngineRouter::new(0, 1);
    router.add_market(MARKET);
    let mut cache = PriceCache::new();
    let mut ask = OrderCommand::place_order(TimeInForce::Gtc, 1, 100, 5, Side::Ask, MARKET, 1);
    router.process_order(&mut ask, &mut cache);
    assert_eq!(ask.status, Status::Placed);
    let mut bid = OrderCommand::place_order(TimeInForce::Gtc, 2, 100, 5, Side::Bid, MARKET, 2);
    router.process_order(&mut bid, &mut cache);
    assert_eq!(bid.status, Status::Filled);
    let mut lost = OrderCommand::place_order(TimeInForce::Gtc, 2, 100, 5, Side::Bid, 99, 3);
    router.process_order(&mut lost, &mut cache);
    assert_eq!(lost.status, Status::Rejected);
    assert_eq!(router.get_orderbook(MARKET).unwrap().market_id(), MARKET);
    assert!(router.get_orderbook(99).is_none());
}

#[test]
fn the_matching_stage_skips_funds_commands_and_other_shards() {
    let mut router = MatchingEngineRouter::new(1, 2);
    router.add_market(3);
    let mut cache = PriceCache::new();
    let mut deposit = OrderCommand::deposit_funds(1, 10, 5);
    let before = deposit.clone();
    router.handle_command(&mut deposit, &mut cache);
    assert_eq!(deposit.status, before.status);
    let mut other_shard = OrderCommand::place_order(TimeInForce::Gtc, 1, 10, 1, Side::Bid, 2, 1);
    router.handle_command(&mut other_shard, &mut cache);
    assert_eq!(other_shard.status, Status::Processing);
    let mut mine = OrderCommand::place_order(TimeInForce::Gtc, 1, 10, 1, Side::Bid, 3, 2);
    router.handle_command(&mut mine, &mut cache);
    assert_eq!(mine.status, Status::Placed);
    let mut unknown = OrderCommand::place_order(TimeInForce::Gtc, 1, 10, 1, Side::Bid, 5, 3);
    router.handle_command(&mut unknown, &mut cache);
    assert_eq!(unknown.status, Status::Rejected);
    assert!(router.market_for_this_handler(7));
    assert!(!router.market_for_this_handler(8));
}
