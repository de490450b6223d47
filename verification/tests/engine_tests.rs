use vex_core::engine::{initialize_matching_engines, initialize_risk_engines, CorePinning, EngineError};
use vex_core::model::CoreMarketSpecification;
use vex_core::tables::MarketSpecs;

#[test]
fn exact_available_core_match_passes() {
    let pinning = CorePinning::default();

    assert!(
        pinning
            .validate_available_cores(&pinning.core_ids())
            .is_ok()
    );
}

#[test]
fn missing_available_core_fails_and_names_it() {
    let error = CorePinning::default()
        .validate_available_cores(&[1, 2, 3, 4, 5, 6, 7, 9, 10, 11, 12, 13, 14])
        .expect_err("core 8 should be required");
    let message = error.to_string();

    assert!(
        message.contains("requires CPU cores [1, 2, 3, 4, 5, 6, 7, 8, 9, 10, 11, 12, 13, 14]")
    );
    assert!(message.contains("affinity mask allows [1, 2, 3, 4, 5, 6, 7, 9"));
    assert!(message.contains("missing required cores [8]"));
    assert!(message.contains("ENABLE_CORE_PINNING=false"));
}

#[test]
fn available_core_superset_passes() {
    assert!(
        CorePinning::default()
            .validate_available_cores(&[0, 1, 2, 3, 4, 5, 6, 7, 8, 9, 10, 11, 12, 13, 14, 15])
            .is_ok()
    );
}

#[test]
fn empty_mask_lists_every_core_as_missing() {
    let error = CorePinning::default().validate_available_cores(&[]).unwrap_err();
    assert_eq!(
        error.to_string(),
        "Invalid configuration: Core pinning requires CPU cores [1, 2, 3, 4, 5, 6, 7, 8, 9, 10, 11, 12, 13, 14], \
but the process CPU affinity mask allows []; missing required cores [1, 2, 3, 4, 5, 6, 7, 8, 9, 10, 11, 12, 13, 14]. \
Adjust the process cpuset or set ENABLE_CORE_PINNING=false to start without pinning"
    );
}

#[test]
fn default_pinning_covers_cores_one_to_fourteen() {
    assert_eq!(
        CorePinning::default().core_ids(),
        [1, 2, 3, 4, 5, 6, 7, 8, 9, 10, 11, 12, 13, 14]
    );
}

#[test]
fn disabled_pinning_skips_the_affinity_check() {
    assert!(CorePinning::default().validate_for_start(false).is_ok());
    match CorePinning::default().validate_for_start(true) {
        Ok(()) => {}
        Err(e) => assert!(matches!(e, EngineError::Configuration(_))),
    }
}

#[test]
fn engine_error_texts() {
    assert_eq!(
        EngineError::ServerInitialization("x".to_string()).to_string(),
        "Failed to initialize server: x"
    );
    assert_eq!(EngineError::ServerRuntime("y".to_string()).to_string(), "Server runtime error: y");
}

fn spec(id: u32) -> CoreMarketSpecification {
    CoreMarketSpecification { market_id: id, base_asset: (id & 0xffff) as u16, quote_asset: (id >> 16) as u16, ..Default::default() }
}

#[test]
fn markets_go_to_the_shard_of_their_low_bits() {
    let mut specs = MarketSpecs::new();
    for id in [65536u32, 65537, 65538, 65539, 65543, 131077] {
        specs.insert(id, spec(id));
    }
    let routers = initialize_matching_engines(&specs, 4);
    assert_eq!(routers.len(), 4);
    for (k, router) in routers.iter().enumerate() {
        assert_eq!(router.shard_id, k as u32);
        assert_eq!(router.shard_mask, 3);
    }
    assert!(routers[0].get_orderbook(65536).is_some());
    assert!(routers[1].get_orderbook(65537).is_some());
    assert!(routers[1].get_orderbook(131077).is_some());
    assert!(routers[2].get_orderbook(65538).is_some());
    assert!(routers[3].get_orderbook(65539).is_some());
    assert!(routers[3].get_orderbook(65543).is_some());
    assert!(routers[0].get_orderbook(65537).is_none());
    assert!(routers[2].get_orderbook(65539).is_none());
    let book = routers[3].get_orderbook(65543).unwrap();
    assert_eq!(book.market_id(), 65543);
    assert_eq!(book.bid_level_count(), 0);
    assert_eq!(book.ask_level_count(), 0);
}

#[test]
fn each_risk_shard_gets_the_specifications() {
    let mut specs = MarketSpecs::new();
    specs.insert(65538, spec(65538));
    let engines = initialize_risk_engines(&specs, 4);
    assert_eq!(engines.len(), 4);
    for (k, engine) in engines.iter().enumerate() {
        assert!(engine.symbol_specs.get(65538).is_some());
        assert!(engine.user_id_for_this_handler(k as u64 + 8));
        assert!(!engine.user_id_for_this_handler(k as u64 + 9));
    }
}
