//! Risk engine: per-user balances, funds held for new orders, and settlement of trades.
use std::collections::HashMap;
use vstd::prelude::*;

use crate::model::{
    CoreMarketSpecification, MatcherTradeEvent, OrderCommand, OrderCommandType, Side, UserBalance,
};
use crate::tables::{MarketSpecs, UserBalances};

verus! {

broadcast use vstd::std_specs::hash::group_hash_axioms;

/// Why a balance operation failed.
#[derive(Clone, Copy, Debug, PartialEq, Eq, Structural)]
pub enum BalanceError {
    /// The user has no balance of the asset.
    BalanceNotFound { user_id: u64, asset_id: u32 },
    /// The available amount does not cover the request.
    InsufficientFunds { user_id: u64, required: u64, available: u64 },
    /// The locked amount does not cover the request.
    InsufficientLocked { user_id: u64, required: u64, locked: u64 },
}

/// The balances of one asset key after holding `amount` of its available funds, if the key
/// has a balance and enough is available.
pub open spec fn lock_in(m: Map<u32, UserBalance>, key: u32, amount: u64) -> Option<Map<u32, UserBalance>> {
    if m.contains_key(key) && m[key].available >= amount {
        Some(m.insert(key, UserBalance { available: (m[key].available - amount) as u64, locked: (m[key].locked + amount) as u64 }))
    } else {
        None
    }
}

/// The balances after spending `amount` of the locked funds of a key, if enough is locked.
pub open spec fn consume_in(m: Map<u32, UserBalance>, key: u32, amount: u64) -> Option<Map<u32, UserBalance>> {
    if m.contains_key(key) && m[key].locked >= amount {
        Some(m.insert(key, UserBalance { locked: (m[key].locked - amount) as u64, ..m[key] }))
    } else {
        None
    }
}

/// The balances after releasing `amount` of the locked funds of a key back to available, if
/// enough is locked.
pub open spec fn unlock_in(m: Map<u32, UserBalance>, key: u32, amount: u64) -> Option<Map<u32, UserBalance>> {
    if m.contains_key(key) && m[key].locked >= amount {
        Some(m.insert(key, UserBalance { available: (m[key].available + amount) as u64, locked: (m[key].locked - amount) as u64 }))
    } else {
        None
    }
}

/// Every balance's total fits in a `u64`.
pub open spec fn balances_fit(m: Map<u32, UserBalance>) -> bool {
    forall|k: u32| #[trigger] m.contains_key(k) ==> m[k].available + m[k].locked <= u64::MAX
}

/// The balances of one user, by asset (or market) key.
#[derive(Debug)]
pub struct BalanceStore {
    balances: HashMap<u32, UserBalance>,
}

impl View for BalanceStore {
    type V = Map<u32, UserBalance>;

    closed spec fn view(&self) -> Map<u32, UserBalance> {
        self.balances@
    }
}

impl BalanceStore {
    /// Every total fits in a `u64`.
    pub open spec fn wf(&self) -> bool {
        balances_fit(self@)
    }

    /// A store without balances.
    pub fn new() -> (r: BalanceStore)
        ensures
            r@ == Map::<u32, UserBalance>::empty(),
            r.wf(),
    {
        BalanceStore { balances: HashMap::new() }
    }

    /// Sets the balance of a key.
    pub fn set_balance(&mut self, key: u32, balance: UserBalance)
        requires
            old(self).wf(),
            balance.available + balance.locked <= u64::MAX,
        ensures
            final(self)@ == old(self)@.insert(key, balance),
            final(self).wf(),
    {
        self.balances.insert(key, balance);
    }

    /// The balance of a key.
    pub fn get_balance(&self, user_id: u64, key: u32) -> (r: Result<UserBalance, BalanceError>)
        ensures
            r == (if self@.contains_key(key) {
                Ok::<UserBalance, BalanceError>(self@[key])
            } else {
                Err(BalanceError::BalanceNotFound { user_id, asset_id: key })
            }),
    {
        match self.balances.get(&key) {
            Some(b) => Ok(*b),
            None => Err(BalanceError::BalanceNotFound { user_id, asset_id: key }),
        }
    }

    /// Holds `amount` of the available funds of a key for an order.
    pub fn lock_funds(&mut self, user_id: u64, key: u32, amount: u64) -> (r: Result<(), BalanceError>)
        requires
            old(self).wf(),
        ensures
            final(self).wf(),
            match lock_in(old(self)@, key, amount) {
                Some(m) => r is Ok && final(self)@ == m,
                None => r is Err && final(self)@ == old(self)@,
            },
            r == (if !old(self)@.contains_key(key) {
                Err(BalanceError::BalanceNotFound { user_id, asset_id: key })
            } else if old(self)@[key].available < amount {
                Err(BalanceError::InsufficientFunds { user_id, required: amount, available: old(self)@[key].available })
            } else {
                Ok::<(), BalanceError>(())
            }),
    {
        match self.balances.get(&key) {
            None => Err(BalanceError::BalanceNotFound { user_id, asset_id: key }),
            Some(b) => {
                let b = *b;
                if b.available < amount {
                    Err(BalanceError::InsufficientFunds { user_id, required: amount, available: b.available })
                } else {
                    self.balances.insert(key, UserBalance { available: b.available - amount, locked: b.locked + amount });
                    Ok(())
                }
            },
        }
    }

    /// Spends `amount` of the locked funds of a key.
    pub fn consume_locked(&mut self, user_id: u64, key: u32, amount: u64) -> (r: Result<(), BalanceError>)
        requires
            old(self).wf(),
        ensures
            final(self).wf(),
            match consume_in(old(self)@, key, amount) {
                Some(m) => r is Ok && final(self)@ == m,
                None => r is Err && final(self)@ == old(self)@,
            },
            r == (if !old(self)@.contains_key(key) {
                Err(BalanceError::BalanceNotFound { user_id, asset_id: key })
            } else if old(self)@[key].locked < amount {
                Err(BalanceError::InsufficientLocked { user_id, required: amount, locked: old(self)@[key].locked })
            } else {
                Ok::<(), BalanceError>(())
            }),
    {
        match self.balances.get(&key) {
            None => Err(BalanceError::BalanceNotFound { user_id, asset_id: key }),
            Some(b) => {
                let b = *b;
                if b.locked < amount {
                    Err(BalanceError::InsufficientLocked { user_id, required: amount, locked: b.locked })
                } else {
                    self.balances.insert(key, UserBalance { available: b.available, locked: b.locked - amount });
                    Ok(())
                }
            },
        }
    }

    /// Releases `amount` of the locked funds of a key back to available.
    pub fn unlock_funds(&mut self, user_id: u64, key: u32, amount: u64) -> (r: Result<(), BalanceError>)
        requires
            old(self).wf(),
        ensures
            final(self).wf(),
            match unlock_in(old(self)@, key, amount) {
                Some(m) => r is Ok && final(self)@ == m,
                None => r is Err && final(self)@ == old(self)@,
            },
            r == (if !old(self)@.contains_key(key) {
                Err(BalanceError::BalanceNotFound { user_id, asset_id: key })
            } else if old(self)@[key].locked < amount {
                Err(BalanceError::InsufficientLocked { user_id, required: amount, locked: old(self)@[key].locked })
            } else {
                Ok::<(), BalanceError>(())
            }),
    {
        match self.balances.get(&key) {
            None => Err(BalanceError::BalanceNotFound { user_id, asset_id: key }),
            Some(b) => {
                let b = *b;
                if b.locked < amount {
                    Err(BalanceError::InsufficientLocked { user_id, required: amount, locked: b.locked })
                } else {
                    self.balances.insert(key, UserBalance { available: b.available + amount, locked: b.locked - amount });
                    Ok(())
                }
            },
        }
    }
}

/// Why the risk engine refused a command.
#[derive(Clone, Copy, Debug, PartialEq, Eq, Structural)]
pub enum RiskEngineError {
    /// The user has no balance store here.
    UserNotFound { user_id: u64 },
    /// The market has no specification.
    MarketSpecNotFound { market_id: u32 },
    /// Price or size of an order is zero.
    InvalidArguments { price: u64, size: u64 },
    /// The user cannot cover the funds the order needs.
    InsufficientFunds { user_id: u64, required: u64, available: u64 },
    /// A balance operation failed.
    BalanceError(BalanceError),
}

/// The balances of every user of a table, by user.
pub open spec fn balance_views(t: Map<u64, BalanceStore>) -> Map<u64, Map<u32, UserBalance>> {
    Map::new(|u: u64| t.contains_key(u), |u: u64| t[u]@)
}

/// Every store of the table keeps its totals within a `u64`.
pub open spec fn stores_fit(t: Map<u64, BalanceStore>) -> bool {
    forall|u: u64| #[trigger] t.contains_key(u) ==> t[u].wf()
}

/// Whether a shard with mask `mask` and id `shard` handles the user.
pub open spec fn handles(mask: u64, shard: u32, user: u64) -> bool {
    (user & mask) == shard as u64
}

/// Funds an order must hold: price times size plus the taker fee per unit for a bid, the size
/// for an ask.
pub open spec fn required_funds(cmd: OrderCommand, spec: CoreMarketSpecification) -> int {
    if cmd.side == Side::Bid {
        cmd.price * cmd.size + spec.taker_fee * cmd.size
    } else {
        cmd.size as int
    }
}

/// Settlement of the maker of a trade: its locked funds of the market pay for the trade, when
/// this shard handles the maker and the maker has a store. A failed spend changes nothing.
pub open spec fn settle_maker(
    bv: Map<u64, Map<u32, UserBalance>>,
    e: MatcherTradeEvent,
    market_id: u32,
    mask: u64,
    shard: u32,
) -> Map<u64, Map<u32, UserBalance>> {
    if handles(mask, shard, e.maker_user_id) && bv.contains_key(e.maker_user_id) {
        match consume_in(bv[e.maker_user_id], market_id, (e.price * e.size) as u64) {
            Some(m) => bv.insert(e.maker_user_id, m),
            None => bv,
        }
    } else {
        bv
    }
}

/// Settlement of the taker of a trade: the trade's amount and taker fee go back from locked
/// to available, when this shard handles the taker and the taker has a store. A failed
/// release changes nothing.
pub open spec fn settle_taker(
    bv: Map<u64, Map<u32, UserBalance>>,
    e: MatcherTradeEvent,
    market_id: u32,
    taker_id: u64,
    taker_fee: u64,
    mask: u64,
    shard: u32,
) -> Map<u64, Map<u32, UserBalance>> {
    if handles(mask, shard, taker_id) && bv.contains_key(taker_id) {
        match unlock_in(bv[taker_id], market_id, (e.price * e.size + taker_fee * e.size) as u64) {
            Some(m) => bv.insert(taker_id, m),
            None => bv,
        }
    } else {
        bv
    }
}

/// Maker settlement of the trades from index `i` on, in order.
pub open spec fn settle_makers_from(
    bv: Map<u64, Map<u32, UserBalance>>,
    es: Seq<MatcherTradeEvent>,
    i: int,
    market_id: u32,
    mask: u64,
    shard: u32,
) -> Map<u64, Map<u32, UserBalance>>
    decreases es.len() - i,
{
    if i < 0 || i >= es.len() {
        bv
    } else {
        settle_makers_from(settle_maker(bv, es[i], market_id, mask, shard), es, i + 1, market_id, mask, shard)
    }
}

/// The amounts of a trade fit in a `u64` wherever this shard computes them.
pub open spec fn trade_amounts_fit(
    users: Set<u64>,
    es: Seq<MatcherTradeEvent>,
    taker_id: u64,
    taker_fee: u64,
    mask: u64,
    shard: u32,
) -> bool {
    &&& forall|k: int|
        0 <= k < es.len() && handles(mask, shard, (#[trigger] es[k]).maker_user_id) && users.contains(
            es[k].maker_user_id,
        ) ==> es[k].price * es[k].size <= u64::MAX
    &&& es.len() > 0 && handles(mask, shard, taker_id) && users.contains(taker_id) ==> es[0].price
        * es[0].size + taker_fee * es[0].size <= u64::MAX
}

/// Risk engine of one shard: it holds the balance stores of the users it handles.
pub struct RiskEngine {
    pub user_balances: UserBalances,
    pub symbol_specs: MarketSpecs,
    shard_id: u32,
    shard_mask: u64,
}

/// Whether `n` is a power of two.
pub open spec fn is_power_of_two(n: u64) -> bool {
    n > 0 && (n & ((n - 1) as u64)) == 0
}

impl RiskEngine {
    pub closed spec fn spec_shard_id(&self) -> u32 {
        self.shard_id
    }

    pub closed spec fn spec_shard_mask(&self) -> u64 {
        self.shard_mask
    }

    /// The balance stores, by user.
    pub closed spec fn users(&self) -> Map<u64, BalanceStore> {
        self.user_balances@
    }

    /// The market specifications, by market.
    pub closed spec fn specs(&self) -> Map<u32, CoreMarketSpecification> {
        self.symbol_specs@
    }

    pub closed spec fn wf(&self) -> bool {
        stores_fit(self.user_balances@)
    }

    /// The balances of every user, by user.
    pub closed spec fn balances(&self) -> Map<u64, Map<u32, UserBalance>> {
        balance_views(self.user_balances@)
    }

    /// The balances are the views of the balance stores: a user has balances exactly when it
    /// has a store, and they are that store's.
    pub proof fn lemma_balances_of_users(&self)
        ensures
            self.balances() == balance_views(self.users()),
            forall|u: u64| #[trigger] self.balances().contains_key(u) <==> self.users().contains_key(u),
            forall|u: u64| #[trigger] self.users().contains_key(u) ==> self.balances()[u] == self.users()[u]@,
    {
    }

    /// A risk engine for shard `shard_id` of `num_shards`, which must be a power of two.
    pub fn new(symbol_specs: MarketSpecs, shard_id: u32, num_shards: u32) -> (r: RiskEngine)
        requires
            is_power_of_two(num_shards as u64),
        ensures
            r.wf(),
            r.users() == Map::<u64, BalanceStore>::empty(),
            r.balances() == Map::<u64, Map<u32, UserBalance>>::empty(),
            r.specs() == symbol_specs@,
            r.spec_shard_id() == shard_id,
            r.spec_shard_mask() == num_shards - 1,
    {
        let r = RiskEngine {
            user_balances: UserBalances::new(),
            symbol_specs,
            shard_id,
            shard_mask: (num_shards - 1) as u64,
        };
        assert(r.balances() =~= Map::<u64, Map<u32, UserBalance>>::empty());
        r
    }

    /// Whether this shard handles the user: the user id's bits under the mask are the shard
    /// id.
    pub fn user_id_for_this_handler(&self, user_id: u64) -> (r: bool)
        ensures
            r == handles(self.spec_shard_mask(), self.spec_shard_id(), user_id),
    {
        (user_id & self.shard_mask) == self.shard_id as u64
    }

    /// Sets the balance of a user for an asset (or market) key, creating the user's store.
    pub fn set_balance(&mut self, user_id: u64, key: u32, balance: UserBalance)
        requires
            old(self).wf(),
            balance.available + balance.locked <= u64::MAX,
        ensures
            final(self).wf(),
            final(self).balances() == old(self).balances().insert(
                user_id,
                if old(self).balances().contains_key(user_id) {
                    old(self).balances()[user_id].insert(key, balance)
                } else {
                    Map::<u32, UserBalance>::empty().insert(key, balance)
                },
            ),
            final(self).specs() == old(self).specs(),
            final(self).spec_shard_id() == old(self).spec_shard_id(),
            final(self).spec_shard_mask() == old(self).spec_shard_mask(),
    {
        let mut store = match self.user_balances.remove(user_id) {
            Some(s) => s,
            None => BalanceStore::new(),
        };
        store.set_balance(key, balance);
        self.user_balances.insert(user_id, store);
        proof {
            assert(self.balances() =~= old(self).balances().insert(
                user_id,
                if old(self).balances().contains_key(user_id) {
                    old(self).balances()[user_id].insert(key, balance)
                } else {
                    Map::<u32, UserBalance>::empty().insert(key, balance)
                },
            ));
        }
    }

    /// The balance of a user for an asset (or market) key, if any.
    pub fn get_balance(&self, user_id: u64, key: u32) -> (r: Option<UserBalance>)
        ensures
            r == (if self.balances().contains_key(user_id) && self.balances()[user_id].contains_key(key) {
                Some(self.balances()[user_id][key])
            } else {
                None::<UserBalance>
            }),
    {
        match self.user_balances.get(user_id) {
            Some(store) => match store.get_balance(user_id, key) {
                Ok(b) => Some(b),
                Err(_) => None,
            },
            None => None,
        }
    }

    /// Checks a command before matching and holds the funds a new order needs. Commands of
    /// users of other shards pass untouched. The user must have a store; an order must have a
    /// non-zero price and size and a known market, and the user's available funds of the
    /// market must cover the required funds, which are then locked.
    pub fn pre_process_command(&mut self, cmd: &OrderCommand) -> (r: Result<(), RiskEngineError>)
        requires
            old(self).wf(),
            handles(old(self).spec_shard_mask(), old(self).spec_shard_id(), cmd.user_id)
                && old(self).balances().contains_key(cmd.user_id)
                && cmd.command == OrderCommandType::PlaceOrder && cmd.price > 0 && cmd.size > 0
                && old(self).specs().contains_key(cmd.market_id) ==> required_funds(
                *cmd,
                old(self).specs()[cmd.market_id],
            ) <= u64::MAX,
        ensures
            final(self).wf(),
            final(self).specs() == old(self).specs(),
            final(self).spec_shard_id() == old(self).spec_shard_id(),
            final(self).spec_shard_mask() == old(self).spec_shard_mask(),
            ({
                let bv = old(self).balances();
                let user = cmd.user_id;
                if !handles(old(self).spec_shard_mask(), old(self).spec_shard_id(), user) {
                    r == Ok::<(), RiskEngineError>(()) && final(self).balances() == bv
                } else if !bv.contains_key(user) {
                    r == Err::<(), RiskEngineError>(RiskEngineError::UserNotFound { user_id: user })
                        && final(self).balances() == bv
                } else if cmd.command != OrderCommandType::PlaceOrder {
                    r == Ok::<(), RiskEngineError>(()) && final(self).balances() == bv
                } else if cmd.size == 0 || cmd.price == 0 {
                    r == Err::<(), RiskEngineError>(RiskEngineError::InvalidArguments { price: cmd.price, size: cmd.size })
                        && final(self).balances() == bv
                } else if !old(self).specs().contains_key(cmd.market_id) {
                    r == Err::<(), RiskEngineError>(RiskEngineError::MarketSpecNotFound { market_id: cmd.market_id })
                        && final(self).balances() == bv
                } else {
                    let need = required_funds(*cmd, old(self).specs()[cmd.market_id]) as u64;
                    match lock_in(bv[user], cmd.market_id, need) {
                        Some(m) => r == Ok::<(), RiskEngineError>(()) && final(self).balances() == bv.insert(user, m),
                        None => r == Err::<(), RiskEngineError>(RiskEngineError::InsufficientFunds {
                            user_id: user,
                            required: need,
                            available: if bv[user].contains_key(cmd.market_id) {
                                bv[user][cmd.market_id].available
                            } else {
                                0
                            },
                        }) && final(self).balances() == bv,
                    }
                }
            }),
    {
        if !self.user_id_for_this_handler(cmd.user_id) {
            return Ok(());
        }
        let mut store = match self.user_balances.remove(cmd.user_id) {
            Some(s) => s,
            None => {
                return Err(RiskEngineError::UserNotFound { user_id: cmd.user_id });
            },
        };
        let ghost old_store = store@;
        proof {
            assert(self.users().insert(cmd.user_id, store) =~= old(self).users());
        }
        let mut result: Result<(), RiskEngineError> = Ok(());
        if cmd.command == OrderCommandType::PlaceOrder {
            if cmd.size == 0 || cmd.price == 0 {
                result = Err(RiskEngineError::InvalidArguments { price: cmd.price, size: cmd.size });
            } else {
                match self.symbol_specs.get(cmd.market_id) {
                    None => {
                        result = Err(RiskEngineError::MarketSpecNotFound { market_id: cmd.market_id });
                    },
                    Some(spec) => {
                        let required_funds = if cmd.side == Side::Bid {
                            cmd.price * cmd.size + spec.taker_fee * cmd.size
                        } else {
                            cmd.size
                        };
                        match store.lock_funds(cmd.user_id, cmd.market_id, required_funds) {
                            Ok(()) => {},
                            Err(_) => {
                                let available = match store.get_balance(cmd.user_id, cmd.market_id) {
                                    Ok(b) => b.available,
                                    Err(_) => 0,
                                };
                                result = Err(RiskEngineError::InsufficientFunds {
                                    user_id: cmd.user_id,
                                    required: required_funds,
                                    available,
                                });
                            },
                        }
                    },
                }
            }
        }
        self.user_balances.insert(cmd.user_id, store);
        proof {
            let bv = old(self).balances();
            assert(self.balances() =~= bv.insert(cmd.user_id, store@));
            if store@ == old_store {
                assert(bv.insert(cmd.user_id, store@) =~= bv);
            }
        }
        result
    }

    /// Settles the trades of a matched command on this shard: the first trade settles its
    /// maker (locked funds of the market pay the trade amount) and the taker (the trade amount
    /// plus the taker fee go back from locked to available); every further trade settles its
    /// maker. Only users this shard handles and that have a store are touched, failed balance
    /// operations change nothing, and without a specification of the market nothing happens.
    pub fn handle_event(&mut self, events: &[MatcherTradeEvent], market_id: u32, taker_side: Side, taker_id: u64)
        requires
            old(self).wf(),
            old(self).specs().contains_key(market_id) ==> trade_amounts_fit(
                old(self).users().dom(),
                events@,
                taker_id,
                old(self).specs()[market_id].taker_fee,
                old(self).spec_shard_mask(),
                old(self).spec_shard_id(),
            ),
        ensures
            final(self).wf(),
            final(self).specs() == old(self).specs(),
            final(self).spec_shard_id() == old(self).spec_shard_id(),
            final(self).spec_shard_mask() == old(self).spec_shard_mask(),
            final(self).users().dom() == old(self).users().dom(),
            ({
                let bv = old(self).balances();
                let mask = old(self).spec_shard_mask();
                let shard = old(self).spec_shard_id();
                if !old(self).specs().contains_key(market_id) || events@.len() == 0 {
                    final(self).balances() == bv
                } else {
                    let fee = old(self).specs()[market_id].taker_fee;
                    let bv1 = settle_maker(bv, events@[0], market_id, mask, shard);
                    let bv2 = settle_taker(bv1, events@[0], market_id, taker_id, fee, mask, shard);
                    final(self).balances() == settle_makers_from(bv2, events@, 1, market_id, mask, shard)
                }
            }),
    {
        let spec = match self.symbol_specs.get(market_id) {
            Some(s) => s,
            None => {
                return ;
            },
        };
        if events.len() == 0 {
            return ;
        }
        let ghost users = self.users().dom();
        let ev = events[0];
        self.settle_maker_of(&ev, market_id);
        if self.user_id_for_this_handler(taker_id) {
            match self.user_balances.remove(taker_id) {
                Some(mut store) => {
                    let total_trade_amount = ev.price * ev.size;
                    let taker_fee = spec.taker_fee * ev.size;
                    let total_required = total_trade_amount + taker_fee;
                    let _ = store.unlock_funds(taker_id, market_id, total_required);
                    self.user_balances.insert(taker_id, store);
                    proof {
                        assert(self.users().dom() =~= users);
                    }
                },
                None => {},
            }
        }
        proof {
            assert(self.balances() =~= settle_taker(
                settle_maker(old(self).balances(), events@[0], market_id, old(self).spec_shard_mask(), old(self).spec_shard_id()),
                events@[0], market_id, taker_id, spec.taker_fee, old(self).spec_shard_mask(), old(self).spec_shard_id()));
        }
        let mut i: usize = 1;
        while i < events.len()
            invariant
                1 <= i <= events@.len(),
                self.wf(),
                self.specs() == old(self).specs(),
                self.spec_shard_id() == old(self).spec_shard_id(),
                self.spec_shard_mask() == old(self).spec_shard_mask(),
                self.users().dom() == users,
                users == old(self).users().dom(),
                trade_amounts_fit(users, events@, taker_id, spec.taker_fee, self.spec_shard_mask(), self.spec_shard_id()),
                settle_makers_from(
                    settle_taker(
                        settle_maker(old(self).balances(), events@[0], market_id, old(self).spec_shard_mask(), old(self).spec_shard_id()),
                        events@[0], market_id, taker_id, spec.taker_fee, old(self).spec_shard_mask(), old(self).spec_shard_id()),
                    events@, 1, market_id, old(self).spec_shard_mask(), old(self).spec_shard_id(),
                ) == settle_makers_from(self.balances(), events@, i as int, market_id, self.spec_shard_mask(), self.spec_shard_id()),
            decreases events@.len() - i,
        {
            let e = events[i];
            self.settle_maker_of(&e, market_id);
            i = i + 1;
        }
    }

    /// Settles the maker of one trade (see `settle_maker`).
    fn settle_maker_of(&mut self, e: &MatcherTradeEvent, market_id: u32)
        requires
            old(self).wf(),
            handles(old(self).spec_shard_mask(), old(self).spec_shard_id(), e.maker_user_id)
                && old(self).users().contains_key(e.maker_user_id) ==> e.price * e.size
                <= u64::MAX,
        ensures
            final(self).wf(),
            final(self).specs() == old(self).specs(),
            final(self).spec_shard_id() == old(self).spec_shard_id(),
            final(self).spec_shard_mask() == old(self).spec_shard_mask(),
            final(self).users().dom() == old(self).users().dom(),
            final(self).balances() == settle_maker(
                old(self).balances(),
                *e,
                market_id,
                old(self).spec_shard_mask(),
                old(self).spec_shard_id(),
            ),
    {
        if self.user_id_for_this_handler(e.maker_user_id) {
            match self.user_balances.remove(e.maker_user_id) {
                Some(mut store) => {
                    let trade_amount = e.price * e.size;
                    let _ = store.consume_locked(e.maker_user_id, market_id, trade_amount);
                    self.user_balances.insert(e.maker_user_id, store);
                    proof {
                        assert(self.users().dom() =~= old(self).users().dom());
                        assert(self.balances() =~= settle_maker(old(self).balances(), *e, market_id, old(self).spec_shard_mask(), old(self).spec_shard_id()));
                    }
                },
                None => {
                    proof {
                        assert(self.users() =~= old(self).users());
                    }
                },
            }
        }
    }
}

impl Default for RiskEngine {
    /// A single-shard engine without markets or users.
    fn default() -> (r: RiskEngine)
        ensures
            r.wf(),
            r.users() == Map::<u64, BalanceStore>::empty(),
            r.balances() == Map::<u64, Map<u32, UserBalance>>::empty(),
            r.specs() == Map::<u32, CoreMarketSpecification>::empty(),
            r.spec_shard_id() == 0,
            r.spec_shard_mask() == 0,
    {
        proof {
            assert((1u64 & 0u64) == 0) by (bit_vector);
        }
        Self::new(MarketSpecs::new(), 0, 1)
    }
}


/// Settlement charges every maker it handles: settling a trade whose maker this shard handles
/// and whose locked funds of the market cover price times size takes exactly that amount out
/// of the maker's locked funds, leaves its available funds as they were, and touches no other
/// user, whether or not the trade used the maker's order up. Run as `handle_event` does on a
/// single trade with a taker other than the maker, the maker ends with exactly that charge.
pub proof fn law_settlement_charges_the_maker(
    bv: Map<u64, Map<u32, UserBalance>>,
    e: MatcherTradeEvent,
    market_id: u32,
    taker_id: u64,
    taker_fee: u64,
    mask: u64,
    shard: u32,
)
    requires
        handles(mask, shard, e.maker_user_id),
        bv.contains_key(e.maker_user_id),
        bv[e.maker_user_id].contains_key(market_id),
        e.price * e.size <= bv[e.maker_user_id][market_id].locked,
    ensures
        ({
            let after = settle_maker(bv, e, market_id, mask, shard);
            &&& after.dom() == bv.dom()
            &&& after[e.maker_user_id][market_id].locked == bv[e.maker_user_id][market_id].locked
                - e.price * e.size
            &&& after[e.maker_user_id][market_id].available
                == bv[e.maker_user_id][market_id].available
            &&& forall|u: u64| #[trigger] bv.contains_key(u) && u != e.maker_user_id ==> after[u] == bv[u]
        }),
        taker_id != e.maker_user_id ==> ({
            let bv1 = settle_maker(bv, e, market_id, mask, shard);
            let bv2 = settle_taker(bv1, e, market_id, taker_id, taker_fee, mask, shard);
            let fin = settle_makers_from(bv2, seq![e], 1, market_id, mask, shard);
            fin[e.maker_user_id][market_id].locked == bv[e.maker_user_id][market_id].locked - e.price
                * e.size
        }),
{
    let after = settle_maker(bv, e, market_id, mask, shard);
    assert(after.dom() =~= bv.dom());
}

} // verus!
