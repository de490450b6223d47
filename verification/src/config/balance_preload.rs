//! Balances credited to user accounts at startup, for test and local environments.
use vstd::prelude::*;

use std::collections::HashMap;
use vstd::std_specs::iter::IteratorSpec;

use crate::config::error::{text, ConfigError};
use crate::decimal::{decimal, decimal_text};
use crate::model::{OrderCommand, OrderCommandType};

verus! {

broadcast use vstd::std_specs::hash::group_hash_axioms;

/// An amount of one asset credited to a user.
#[derive(Debug, Clone, Copy, PartialEq, Eq, Structural)]
pub struct UserBalance {
    /// The asset.
    pub asset_id: u16,
    /// The amount credited.
    pub amount: u64,
}

/// Which users get which balances at startup.
#[derive(Debug, Clone)]
pub struct BalancePreloadConfig {
    /// Whether balances are credited at all.
    pub enabled: bool,
    /// The balances of each user id.
    pub users: HashMap<u64, Vec<UserBalance>>,
}

/// The message for a user without balances.
pub open spec fn no_balances_message(user_id: u64) -> Seq<char> {
    "User "@ + decimal(user_id as nat) + " has no balances configured"@
}

/// The (user, balance) entries of the users in the given order, each user's balances in
/// their order.
pub open spec fn preload_entries(order: Seq<u64>, users: Map<u64, Vec<UserBalance>>) -> Seq<(u64, UserBalance)>
    decreases order.len(),
{
    if order.len() == 0 {
        Seq::empty()
    } else {
        preload_entries(order.drop_last(), users) + users[order.last()]@.map_values(
            |b: UserBalance| (order.last(), b),
        )
    }
}

/// The command is the deposit of the entry's amount of its asset for its user, as it enters
/// the pipeline.
pub open spec fn is_deposit_of(c: OrderCommand, e: (u64, UserBalance)) -> bool {
    &&& c.command == OrderCommandType::DepositFunds
    &&& c.user_id == e.0
    &&& c.size == e.1.amount
    &&& c.market_id == e.1.asset_id
    &&& c.events@.len() == 0
    &&& c.l2_data.is_none()
}

/// The commands are the deposits of the entries, one for one.
pub open spec fn deposits_of(cmds: Seq<OrderCommand>, entries: Seq<(u64, UserBalance)>) -> bool {
    &&& cmds.len() == entries.len()
    &&& forall|k: int| 0 <= k < cmds.len() ==> is_deposit_of(#[trigger] cmds[k], entries[k])
}

impl BalancePreloadConfig {
    /// Preloading switched off, with no users.
    pub fn new() -> (r: BalancePreloadConfig)
        ensures
            !r.enabled,
            r.users@ == Map::<u64, Vec<UserBalance>>::empty(),
    {
        BalancePreloadConfig { enabled: false, users: HashMap::new() }
    }

    /// Checks that every user has at least one balance. When several have none, which of
    /// them the error names follows the walking order of the table.
    pub fn validate(&self) -> (r: Result<(), ConfigError>)
        ensures
            r is Ok <==> (forall|u: u64| #[trigger]
                self.users@.contains_key(u) ==> self.users@[u]@.len() > 0),
            r is Err ==> r->Err_0 is ValidationError && exists|u: u64| #[trigger]
                self.users@.contains_key(u) && self.users@[u]@.len() == 0
                    && r->Err_0->ValidationError_0@ == no_balances_message(u),
    {
        let ghost entries = self.users.iter().remaining();
        for item in it: self.users.iter()
            invariant
                entries == self.users.iter().remaining(),
                it.seq() == entries,
                forall|j: int| 0 <= j < it.index() ==> (*entries[j].1)@.len() > 0,
        {
            let (user_id, balances) = item;
            if balances.len() == 0 {
                proof {
                    assert(self.users@.contains_key(*user_id));
                }
                let m = text("User ").concat(decimal_text(*user_id).as_str()).concat(
                    " has no balances configured",
                );
                return Err(ConfigError::ValidationError(m));
            }
        }
        proof {
            assert forall|u: u64| #[trigger] self.users@.contains_key(u) implies self.users@[u]@.len()
                > 0 by {
                assert(entries.contains((&u, &self.users@[u])));
                let j = choose|j: int| 0 <= j < entries.len() && entries[j] == (&u, &self.users@[u]);
            }
        }
        Ok(())
    }
}

impl BalancePreloadConfig {
    /// The deposits that fund the users at startup: none when preloading is off; else, user
    /// after user in the walking order of the table (which is left open), one deposit per
    /// configured balance, in the order of the user's balances.
    pub fn deposit_commands(&self) -> (r: Vec<OrderCommand>)
        ensures
            !self.enabled ==> r@.len() == 0,
            self.enabled ==> exists|order: Seq<u64>|
                order.no_duplicates() && order.to_set() == self.users@.dom() && deposits_of(
                    r@,
                    #[trigger] preload_entries(order, self.users@),
                ),
    {
        let mut out: Vec<OrderCommand> = Vec::new();
        if !self.enabled {
            return out;
        }
        let ghost entries = self.users.iter().remaining();
        let ghost mut order: Seq<u64> = Seq::empty();
        for item in it: self.users.iter()
            invariant
                entries == self.users.iter().remaining(),
                it.seq() == entries,
                order.len() == it.index(),
                forall|j: int| 0 <= j < it.index() ==> order[j] == *entries[j].0,
                forall|j: int| 0 <= j < it.index() ==> self.users@.contains_key(#[trigger] order[j])
                    && self.users@[order[j]] == *entries[j].1,
                deposits_of(out@, preload_entries(order, self.users@)),
        {
            let (user_id, balances) = item;
            let ghost start = out@;
            proof {
                assert(self.users@.contains_key(*user_id));
                assert(self.users@[*user_id] == *balances);
            }
            let mut k: usize = 0;
            while k < balances.len()
                invariant
                    k <= balances@.len(),
                    out@.len() == start.len() + k,
                    forall|x: int| 0 <= x < start.len() ==> out@[x] == start[x],
                    forall|x: int|
                        0 <= x < k ==> is_deposit_of(#[trigger] out@[start.len() + x], (*user_id, balances@[x])),
                decreases balances@.len() - k,
            {
                let b = balances[k];
                out.push(OrderCommand::deposit_funds(*user_id, b.amount, b.asset_id));
                k = k + 1;
            }
            proof {
                let i = order.len();
                let new_order = order.push(*user_id);
                assert(new_order.drop_last() =~= order);
                let added = balances@.map_values(|b: UserBalance| (*user_id, b));
                assert(preload_entries(new_order, self.users@) == preload_entries(order, self.users@)
                    + added);
                assert forall|x: int| 0 <= x < out@.len() implies is_deposit_of(
                    #[trigger] out@[x],
                    preload_entries(new_order, self.users@)[x],
                ) by {
                    if x >= start.len() {
                        let y = x - start.len();
                        assert(out@[start.len() + y] == out@[x]);
                        assert(preload_entries(new_order, self.users@)[x] == added[y]);
                    } else {
                        assert(out@[x] == start[x]);
                        assert(preload_entries(new_order, self.users@)[x] == preload_entries(
                            order,
                            self.users@,
                        )[x]);
                    }
                }
                order = new_order;
            }
        }
        proof {
            assert(order.no_duplicates()) by {
                assert forall|a: int, b: int| 0 <= a < order.len() && 0 <= b < order.len() && a != b
                    implies order[a] != order[b] by {
                    if order[a] == order[b] {
                        assert(entries[a] == entries[b]);
                    }
                }
            }
            assert(order.to_set() =~= self.users@.dom()) by {
                assert forall|u: u64| #[trigger] self.users@.contains_key(u) implies order.to_set().contains(u) by {
                    assert(entries.contains((&u, &self.users@[u])));
                    let j = choose|j: int| 0 <= j < entries.len() && entries[j] == (&u, &self.users@[u]);
                    assert(order[j] == u);
                }
            }
        }
        out
    }
}

impl Default for BalancePreloadConfig {
    fn default() -> (r: BalancePreloadConfig)
        ensures
            !r.enabled,
            r.users@ == Map::<u64, Vec<UserBalance>>::empty(),
    {
        Self::new()
    }
}

} // verus!
