//! Configuration of the traded markets: their specifications by market id.
use vstd::prelude::*;

use crate::config::environment::Environment;
use crate::config::error::{text, ConfigError};
use crate::decimal::{decimal, decimal_text};
use crate::model::{CoreMarketSpecification, MarketType};
use crate::tables::MarketSpecs;

verus! {

/// The ETH/USDT spot market of the development and test defaults.
pub open spec fn eth_usdt_spot() -> CoreMarketSpecification {
    CoreMarketSpecification {
        market_id: 65539,
        market_type: MarketType::Spot,
        base_asset: 3,
        quote_asset: 1,
        base_scale_k: 100000,
        quote_scale_k: 10,
        base_native_scale: 1000000000000000000,
        quote_native_scale: 1000000,
        taker_fee: 0,
        maker_fee: 0,
        slippage: 150,
    }
}

/// The BTC/USDT futures market of the development and test defaults.
pub open spec fn btc_usdt_futures() -> CoreMarketSpecification {
    CoreMarketSpecification {
        market_id: 65538,
        market_type: MarketType::FuturesContract,
        base_asset: 2,
        quote_asset: 1,
        base_scale_k: 1,
        quote_scale_k: 1,
        base_native_scale: 100000000,
        quote_native_scale: 1000000,
        taker_fee: 0,
        maker_fee: 0,
        slippage: 150,
    }
}

/// The markets of the development and test defaults.
pub open spec fn default_markets() -> Map<u32, CoreMarketSpecification> {
    map![65539u32 => eth_usdt_spot(), 65538u32 => btc_usdt_futures()]
}

/// The market id that a specification's assets give: quote asset << 16 | base asset.
pub open spec fn assets_market_id(s: CoreMarketSpecification) -> int {
    s.quote_asset * 65536 + s.base_asset
}

/// The message of the first rule that the market `id` with specification `s` breaks, if any.
pub open spec fn symbol_problem(id: u32, s: CoreMarketSpecification) -> Option<Seq<char>> {
    if assets_market_id(s) != id {
        Some(
            "Symbol ID "@ + decimal(id as nat)
                + " does not match quote_asset << 16 | base_asset = "@ + decimal(
                assets_market_id(s) as nat,
            ),
        )
    } else if id != s.market_id {
        Some(
            "Symbol ID mismatch: key "@ + decimal(id as nat) + " != spec.market_id "@ + decimal(
                s.market_id as nat,
            ),
        )
    } else if s.base_scale_k == 0 {
        Some("Symbol "@ + decimal(id as nat) + ": base_scale_k cannot be zero"@)
    } else if s.quote_scale_k == 0 {
        Some("Symbol "@ + decimal(id as nat) + ": quote_scale_k cannot be zero"@)
    } else if s.taker_fee < s.maker_fee {
        Some(
            "Symbol "@ + decimal(id as nat) + ": taker_fee ("@ + decimal(s.taker_fee as nat)
                + ") should be >= maker_fee ("@ + decimal(s.maker_fee as nat) + ")"@,
        )
    } else {
        None
    }
}

/// Every market of the table is well specified.
pub open spec fn symbols_valid(m: Map<u32, CoreMarketSpecification>) -> bool {
    forall|id: u32| #[trigger] m.contains_key(id) ==> symbol_problem(id, m[id]) is None
}

/// The result of a symbol validation: `Ok` exactly when every market is well specified, else
/// a validation error with the problem of one market that has one (which one, when several
/// have, follows the table's walking order).
pub open spec fn symbols_result(
    r: Result<(), ConfigError>,
    m: Map<u32, CoreMarketSpecification>,
) -> bool {
    &&& (r is Ok <==> symbols_valid(m))
    &&& (r is Err ==> {
        &&& r->Err_0 is ValidationError
        &&& exists|id: u32| #[trigger]
            m.contains_key(id) && symbol_problem(id, m[id]) == Some(
                r->Err_0->ValidationError_0@,
            )
    })
}

/// Trading markets of the exchange, by market id.
pub struct SymbolSpecificationConfig {
    /// Specification of each market.
    pub symbols: MarketSpecs,
}

fn check_symbol(id: u32, s: &CoreMarketSpecification) -> (r: Result<(), ConfigError>)
    ensures
        match symbol_problem(id, *s) {
            None => r is Ok,
            Some(m) => r is Err && r->Err_0 is ValidationError && r->Err_0->ValidationError_0@
                == m,
        },
{
    let computed: u32 = (s.quote_asset as u32) * 65536 + (s.base_asset as u32);
    if computed != id {
        let m = text("Symbol ID ").concat(decimal_text(id as u64).as_str()).concat(
            " does not match quote_asset << 16 | base_asset = ",
        ).concat(decimal_text(computed as u64).as_str());
        return Err(ConfigError::ValidationError(m));
    }
    if id != s.market_id {
        let m = text("Symbol ID mismatch: key ").concat(decimal_text(id as u64).as_str()).concat(
            " != spec.market_id ",
        ).concat(decimal_text(s.market_id as u64).as_str());
        return Err(ConfigError::ValidationError(m));
    }
    if s.base_scale_k == 0 {
        let m = text("Symbol ").concat(decimal_text(id as u64).as_str()).concat(
            ": base_scale_k cannot be zero",
        );
        return Err(ConfigError::ValidationError(m));
    }
    if s.quote_scale_k == 0 {
        let m = text("Symbol ").concat(decimal_text(id as u64).as_str()).concat(
            ": quote_scale_k cannot be zero",
        );
        return Err(ConfigError::ValidationError(m));
    }
    if s.taker_fee < s.maker_fee {
        let m = text("Symbol ").concat(decimal_text(id as u64).as_str()).concat(
            ": taker_fee (",
        ).concat(decimal_text(s.taker_fee).as_str()).concat(") should be >= maker_fee (").concat(
            decimal_text(s.maker_fee).as_str(),
        ).concat(")");
        return Err(ConfigError::ValidationError(m));
    }
    Ok(())
}

impl SymbolSpecificationConfig {
    /// The defaults of the environment.
    pub fn for_environment(env: &Environment) -> (r: SymbolSpecificationConfig)
        ensures
            *env == Environment::Development ==> r.symbols@ == default_markets(),
            *env == Environment::Test ==> r.symbols@ == default_markets(),
            *env == Environment::Production ==> r.symbols@ == Map::<
                u32,
                CoreMarketSpecification,
            >::empty(),
    {
        match env {
            Environment::Development => Self::development_defaults(),
            Environment::Test => Self::test_defaults(),
            Environment::Production => Self::production_defaults(),
        }
    }

    fn default_table() -> (r: MarketSpecs)
        ensures
            r@ == default_markets(),
    {
        let usdt: u16 = 1;
        let btc: u16 = 2;
        let eth: u16 = 3;
        let btc_usdt: u32 = (usdt as u32) * 65536 + (btc as u32);
        let eth_usdt: u32 = (usdt as u32) * 65536 + (eth as u32);
        let mut symbols = MarketSpecs::new();
        symbols.insert(
            eth_usdt,
            CoreMarketSpecification {
                market_id: eth_usdt,
                market_type: MarketType::Spot,
                base_asset: eth,
                quote_asset: usdt,
                base_scale_k: 100000,
                quote_scale_k: 10,
                base_native_scale: 1000000000000000000,
                quote_native_scale: 1000000,
                taker_fee: 0,
                maker_fee: 0,
                slippage: 150,
            },
        );
        symbols.insert(
            btc_usdt,
            CoreMarketSpecification {
                market_id: btc_usdt,
                market_type: MarketType::FuturesContract,
                base_asset: btc,
                quote_asset: usdt,
                base_scale_k: 1,
                quote_scale_k: 1,
                base_native_scale: 100000000,
                quote_native_scale: 1000000,
                taker_fee: 0,
                maker_fee: 0,
                slippage: 150,
            },
        );
        symbols
    }

    /// Development defaults: an ETH/USDT spot market and a BTC/USDT futures market.
    pub fn development_defaults() -> (r: SymbolSpecificationConfig)
        ensures
            r.symbols@ == default_markets(),
    {
        SymbolSpecificationConfig { symbols: Self::default_table() }
    }

    /// Test defaults: the same markets as in development.
    pub fn test_defaults() -> (r: SymbolSpecificationConfig)
        ensures
            r.symbols@ == default_markets(),
    {
        SymbolSpecificationConfig { symbols: Self::default_table() }
    }

    /// Production defaults: no market.
    pub fn production_defaults() -> (r: SymbolSpecificationConfig)
        ensures
            r.symbols@ == Map::<u32, CoreMarketSpecification>::empty(),
    {
        SymbolSpecificationConfig { symbols: MarketSpecs::new() }
    }

    /// Checks every market: its id is quote asset << 16 | base asset and the id in its
    /// specification, its scales are not zero, and its taker fee is at least its maker fee.
    pub fn validate(&self) -> (r: Result<(), ConfigError>)
        ensures
            symbols_result(r, self.symbols@),
    {
        let entries = self.symbols.entries();
        let n = entries.len();
        let mut i: usize = 0;
        while i < n
            invariant
                i <= n,
                n == entries@.len(),
                forall|k: int| 0 <= k < n ==> self.symbols@.contains_key(#[trigger] entries@[k].0)
                    && self.symbols@[entries@[k].0] == entries@[k].1,
                forall|id: u32| #[trigger]
                    self.symbols@.contains_key(id) ==> exists|k: int|
                        0 <= k < n && entries@[k].0 == id,
                forall|k: int|
                    0 <= k < i ==> symbol_problem(#[trigger] entries@[k].0, entries@[k].1) is None,
            decreases n - i,
        {
            let id = entries[i].0;
            match check_symbol(id, &entries[i].1) {
                Ok(()) => {},
                Err(e) => {
                    assert(self.symbols@.contains_key(entries@[i as int].0));
                    return Err(e);
                },
            }
            i = i + 1;
        }
        proof {
            assert forall|id: u32| #[trigger] self.symbols@.contains_key(id) implies symbol_problem(
                id,
                self.symbols@[id],
            ) is None by {
                let k = choose|k: int| 0 <= k < n && entries@[k].0 == id;
                assert(symbol_problem(entries@[k].0, entries@[k].1) is None);
            }
        }
        Ok(())
    }

    /// Adds the markets of the other configuration, its specifications winning.
    pub fn merge_with(&mut self, other: &SymbolSpecificationConfig) -> (r: Result<(), ConfigError>)
        ensures
            r is Ok,
            final(self).symbols@ == old(self).symbols@.union_prefer_right(other.symbols@),
    {
        let entries = other.symbols.entries();
        let n = entries.len();
        let ghost start = self.symbols@;
        let mut i: usize = 0;
        while i < n
            invariant
                i <= n,
                n == entries@.len(),
                forall|k: int| 0 <= k < n ==> other.symbols@.contains_key(#[trigger] entries@[k].0)
                    && other.symbols@[entries@[k].0] == entries@[k].1,
                forall|id: u32| #[trigger]
                    other.symbols@.contains_key(id) ==> exists|k: int|
                        0 <= k < n && entries@[k].0 == id,
                forall|k: int, l: int| 0 <= k < l < n ==> entries@[k].0 != entries@[l].0,
                forall|id: u32| #[trigger]
                    self.symbols@.contains_key(id) <==> (start.contains_key(id) || exists|k: int|
                        0 <= k < i && entries@[k].0 == id),
                forall|id: u32| #[trigger]
                    self.symbols@.contains_key(id) ==> self.symbols@[id] == (if exists|k: int|
                        0 <= k < i && entries@[k].0 == id {
                        other.symbols@[id]
                    } else {
                        start[id]
                    }),
            decreases n - i,
        {
            let id = entries[i].0;
            let spec = entries[i].1;
            self.symbols.insert(id, spec);
            proof {
                assert forall|x: u32| #[trigger] self.symbols@.contains_key(x) implies self.symbols@[x]
                    == (if exists|k: int| 0 <= k < i + 1 && entries@[k].0 == x {
                    other.symbols@[x]
                } else {
                    start[x]
                }) by {
                    if x == id {
                        assert(entries@[i as int].0 == x);
                    } else {
                        if exists|k: int| 0 <= k < i + 1 && entries@[k].0 == x {
                            let k = choose|k: int| 0 <= k < i + 1 && entries@[k].0 == x;
                            assert(k != i);
                        }
                    }
                }
                assert forall|x: u32| #[trigger] self.symbols@.contains_key(x) <==> (
                start.contains_key(x) || exists|k: int| 0 <= k < i + 1 && entries@[k].0 == x) by {
                    if x == id {
                        assert(entries@[i as int].0 == x);
                    } else {
                        if exists|k: int| 0 <= k < i + 1 && entries@[k].0 == x {
                            let k = choose|k: int| 0 <= k < i + 1 && entries@[k].0 == x;
                            assert(k != i);
                        }
                    }
                }
            }
            i = i + 1;
        }
        proof {
            let want = start.union_prefer_right(other.symbols@);
            assert forall|x: u32| #[trigger] self.symbols@.contains_key(x) <==> want.contains_key(x) by {
                if other.symbols@.contains_key(x) {
                    let k = choose|k: int| 0 <= k < n && entries@[k].0 == x;
                }
            }
            assert forall|x: u32| #[trigger] self.symbols@.contains_key(x) implies self.symbols@[x]
                == want[x] by {
                if other.symbols@.contains_key(x) {
                    let k = choose|k: int| 0 <= k < n && entries@[k].0 == x;
                } else {
                    if exists|k: int| 0 <= k < n && entries@[k].0 == x {
                        let k = choose|k: int| 0 <= k < n && entries@[k].0 == x;
                        assert(other.symbols@.contains_key(entries@[k].0));
                    }
                }
            }
            assert(self.symbols@ =~= want);
        }
        Ok(())
    }

    /// The specification of a market, if it is configured.
    pub fn get_symbol(&self, market_id: u32) -> (r: Option<CoreMarketSpecification>)
        ensures
            r == (if self.symbols@.contains_key(market_id) {
                Some(self.symbols@[market_id])
            } else {
                None::<CoreMarketSpecification>
            }),
    {
        self.symbols.get(market_id)
    }

    /// The configured market ids, each once, in the table's walking order.
    pub fn get_market_ids(&self) -> (r: Vec<u32>)
        ensures
            r@.len() == self.symbols@.dom().len(),
            forall|k: int, l: int| 0 <= k < l < r@.len() ==> r@[k] != r@[l],
            forall|id: u32| #[trigger] self.symbols@.contains_key(id) <==> r@.contains(id),
    {
        let entries = self.symbols.entries();
        let n = entries.len();
        let mut ids: Vec<u32> = Vec::new();
        let mut i: usize = 0;
        while i < n
            invariant
                i <= n,
                n == entries@.len(),
                ids@.len() == i,
                forall|k: int| 0 <= k < i ==> ids@[k] == entries@[k].0,
            decreases n - i,
        {
            ids.push(entries[i].0);
            i = i + 1;
        }
        proof {
            assert forall|id: u32| #[trigger] self.symbols@.contains_key(id) <==> ids@.contains(id) by {
                if self.symbols@.contains_key(id) {
                    let k = choose|k: int| 0 <= k < n && entries@[k].0 == id;
                    assert(ids@[k] == id);
                }
                if ids@.contains(id) {
                    let k = choose|k: int| 0 <= k < ids@.len() && ids@[k] == id;
                    assert(self.symbols@.contains_key(entries@[k].0));
                }
            }
        }
        ids
    }

    /// Adds a market after checking its specification on its own; a failing check leaves the
    /// configuration unchanged.
    pub fn add_symbol(&mut self, spec: CoreMarketSpecification) -> (r: Result<(), ConfigError>)
        ensures
            match symbol_problem(spec.market_id, spec) {
                None => r is Ok && final(self).symbols@ == old(self).symbols@.insert(
                    spec.market_id,
                    spec,
                ),
                Some(m) => r is Err && r->Err_0 is ValidationError && r->Err_0->ValidationError_0@
                    == m && final(self).symbols@ == old(self).symbols@,
            },
    {
        match check_symbol(spec.market_id, &spec) {
            Ok(()) => {},
            Err(e) => {
                return Err(e);
            },
        }
        self.symbols.insert(spec.market_id, spec);
        Ok(())
    }

    /// Removes a market, handing out its specification.
    pub fn remove_symbol(&mut self, market_id: u32) -> (r: Option<CoreMarketSpecification>)
        ensures
            final(self).symbols@ == old(self).symbols@.remove(market_id),
            r == (if old(self).symbols@.contains_key(market_id) {
                Some(old(self).symbols@[market_id])
            } else {
                None::<CoreMarketSpecification>
            }),
    {
        self.symbols.remove(market_id)
    }

    /// Whether no market is configured.
    pub fn is_empty(&self) -> (r: bool)
        ensures
            r == (self.symbols@.dom().len() == 0),
    {
        self.symbols.len() == 0
    }

    /// Number of configured markets.
    pub fn len(&self) -> (r: usize)
        ensures
            r == self.symbols@.dom().len(),
    {
        self.symbols.len()
    }
}

impl Default for SymbolSpecificationConfig {
    fn default() -> (r: SymbolSpecificationConfig)
        ensures
            r.symbols@ == default_markets(),
    {
        Self::for_environment(&Environment::Development)
    }
}


/// The markets of the development and test defaults are well specified.
pub proof fn lemma_default_markets_valid()
    ensures
        symbols_valid(default_markets()),
{
    assert forall|id: u32| #[trigger] default_markets().contains_key(id) implies symbol_problem(
        id,
        default_markets()[id],
    ) is None by {
        if id == 65539u32 {
            assert(default_markets()[id] == eth_usdt_spot());
        } else {
            assert(id == 65538u32);
            assert(default_markets()[id] == btc_usdt_futures());
        }
    }
}

} // verus!
