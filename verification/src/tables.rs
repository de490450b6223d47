//! Hash tables of the engine, held in `hashbrown` maps: order books by market, market
//! specifications by market, and balance stores by user.
use vstd::prelude::*;

use crate::book::OrderBook;
use crate::model::CoreMarketSpecification;
use crate::risk::BalanceStore;

verus! {

/// The order books of a matching shard, by market id.
#[verifier::external_body]
pub struct MarketBooks {
    map: hashbrown::HashMap<u32, Box<OrderBook>>,
}

/// What a `MarketBooks` table holds: the book of each market id in it.
pub uninterp spec fn market_books_contents(t: MarketBooks) -> Map<u32, Box<OrderBook>>;

impl View for MarketBooks {
    type V = Map<u32, Box<OrderBook>>;

    open spec fn view(&self) -> Map<u32, Box<OrderBook>> {
        market_books_contents(*self)
    }
}

impl MarketBooks {
    /// `hashbrown::HashMap::new`: an empty table.
    #[verifier::external_body]
    pub(crate) fn new() -> (table: MarketBooks)
        ensures
            market_books_contents(table) == (Map::<u32, Box<OrderBook>>::empty()),
    {
        MarketBooks { map: hashbrown::HashMap::new() }
    }

    /// `hashbrown::HashMap::insert`: the key maps to the value afterwards, all other keys as
    /// before.
    #[verifier::external_body]
    pub(crate) fn insert(&mut self, k: u32, v: Box<OrderBook>)
        ensures
            market_books_contents(*final(self)) == market_books_contents(*old(self)).insert(k, v),
    {
        self.map.insert(k, v);
    }

    /// `hashbrown::HashMap::remove`: hands out the value of the key, if any, and the key is
    /// gone afterwards.
    #[verifier::external_body]
    pub(crate) fn remove(&mut self, k: u32) -> (r: Option<Box<OrderBook>>)
        ensures
            market_books_contents(*final(self)) == market_books_contents(*old(self)).remove(k),
            r == (if market_books_contents(*old(self)).contains_key(k) {
                Some(market_books_contents(*old(self))[k])
            } else {
                None::<Box<OrderBook>>
            }),
    {
        self.map.remove(&k)
    }

    /// `hashbrown::HashMap::get`: the value of the key, if any.
    #[verifier::external_body]
    pub(crate) fn get(&self, k: u32) -> (r: Option<&Box<OrderBook>>)
        ensures
            r == (if market_books_contents(*self).contains_key(k) {
                Some(&market_books_contents(*self)[k])
            } else {
                None::<&Box<OrderBook>>
            }),
    {
        self.map.get(&k)
    }

    /// `hashbrown::HashMap::contains_key`: whether the key is in the table.
    #[verifier::external_body]
    pub(crate) fn contains_key(&self, k: u32) -> (r: bool)
        ensures
            r == market_books_contents(*self).contains_key(k),
    {
        self.map.contains_key(&k)
    }
}

/// Market specifications by market id.
#[verifier::external_body]
pub struct MarketSpecs {
    map: hashbrown::HashMap<u32, CoreMarketSpecification>,
}

/// What a `MarketSpecs` table holds: the specification of each market id in it.
pub uninterp spec fn market_specs_contents(t: MarketSpecs) -> Map<u32, CoreMarketSpecification>;

impl View for MarketSpecs {
    type V = Map<u32, CoreMarketSpecification>;

    open spec fn view(&self) -> Map<u32, CoreMarketSpecification> {
        market_specs_contents(*self)
    }
}

impl MarketSpecs {
    /// `hashbrown::HashMap::new`: an empty table.
    #[verifier::external_body]
    fn hb_new() -> (table: MarketSpecs)
        ensures
            market_specs_contents(table) == (Map::<u32, CoreMarketSpecification>::empty()),
    {
        MarketSpecs { map: hashbrown::HashMap::new() }
    }

    /// `hashbrown::HashMap::insert`: the key maps to the value afterwards, all other keys as
    /// before.
    #[verifier::external_body]
    fn hb_insert(&mut self, k: u32, v: CoreMarketSpecification)
        ensures
            market_specs_contents(*final(self)) == market_specs_contents(*old(self)).insert(k, v),
    {
        self.map.insert(k, v);
    }

    /// `hashbrown::HashMap::remove`: hands out the value of the key, if any, and the key is
    /// gone afterwards.
    #[verifier::external_body]
    fn hb_remove(&mut self, k: u32) -> (r: Option<CoreMarketSpecification>)
        ensures
            market_specs_contents(*final(self)) == market_specs_contents(*old(self)).remove(k),
            r == (if market_specs_contents(*old(self)).contains_key(k) {
                Some(market_specs_contents(*old(self))[k])
            } else {
                None::<CoreMarketSpecification>
            }),
    {
        self.map.remove(&k)
    }

    /// `hashbrown::HashMap::get` with the value copied out: the value of the key, if any.
    #[verifier::external_body]
    fn hb_get(&self, k: u32) -> (r: Option<CoreMarketSpecification>)
        ensures
            r == (if market_specs_contents(*self).contains_key(k) {
                Some(market_specs_contents(*self)[k])
            } else {
                None::<CoreMarketSpecification>
            }),
    {
        self.map.get(&k).copied()
    }

    /// `hashbrown::HashMap::len`: the number of keys.
    #[verifier::external_body]
    fn hb_len(&self) -> (r: usize)
        ensures
            r == market_specs_contents(*self).dom().len(),
    {
        self.map.len()
    }

    /// `hashbrown::HashMap::iter`, collected: every entry once, in the table's walking order,
    /// which is left open.
    #[verifier::external_body]
    fn hb_entries(&self) -> (r: Vec<(u32, CoreMarketSpecification)>)
        ensures
            r@.len() == market_specs_contents(*self).dom().len(),
            forall|k: int, l: int| 0 <= k < l < r@.len() ==> r@[k].0 != r@[l].0,
            forall|k: int| 0 <= k < r@.len() ==> market_specs_contents(*self).contains_key(#[trigger] r@[k].0) && market_specs_contents(*self)[r@[k].0] == r@[k].1,
            forall|id: u32| #[trigger] market_specs_contents(*self).contains_key(id) ==> exists|k: int| 0 <= k < r@.len() && r@[k].0 == id,
    {
        self.map.iter().map(|(k, v)| (*k, *v)).collect()
    }

    /// `hashbrown::HashMap::clone`: a table with the same entries.
    #[verifier::external_body]
    fn hb_clone(&self) -> (r: MarketSpecs)
        ensures
            market_specs_contents(r) == market_specs_contents(*self),
    {
        MarketSpecs { map: self.map.clone() }
    }

    /// A table with the same specifications.
    pub fn duplicate(&self) -> (r: MarketSpecs)
        ensures
            r@ == self@,
    {
        self.hb_clone()
    }

    /// An empty table.
    pub fn new() -> (r: MarketSpecs)
        ensures
            r@ == Map::<u32, CoreMarketSpecification>::empty(),
    {
        Self::hb_new()
    }

    /// Sets the specification of a market id.
    pub fn insert(&mut self, k: u32, v: CoreMarketSpecification)
        ensures
            final(self)@ == old(self)@.insert(k, v),
    {
        self.hb_insert(k, v)
    }

    /// Removes a market id, handing out its specification.
    pub fn remove(&mut self, k: u32) -> (r: Option<CoreMarketSpecification>)
        ensures
            final(self)@ == old(self)@.remove(k),
            r == (if old(self)@.contains_key(k) {
                Some(old(self)@[k])
            } else {
                None::<CoreMarketSpecification>
            }),
    {
        self.hb_remove(k)
    }

    /// The specification of a market id, if any.
    pub fn get(&self, k: u32) -> (r: Option<CoreMarketSpecification>)
        ensures
            r == (if self@.contains_key(k) {
                Some(self@[k])
            } else {
                None::<CoreMarketSpecification>
            }),
    {
        self.hb_get(k)
    }

    /// Number of market ids.
    pub fn len(&self) -> (r: usize)
        ensures
            r == self@.dom().len(),
    {
        self.hb_len()
    }

    /// Every (market id, specification) entry once, in an unspecified order.
    pub fn entries(&self) -> (r: Vec<(u32, CoreMarketSpecification)>)
        ensures
            r@.len() == self@.dom().len(),
            forall|k: int, l: int| 0 <= k < l < r@.len() ==> r@[k].0 != r@[l].0,
            forall|k: int| 0 <= k < r@.len() ==> self@.contains_key(#[trigger] r@[k].0) && self@[r@[k].0] == r@[k].1,
            forall|id: u32| #[trigger] self@.contains_key(id) ==> exists|k: int| 0 <= k < r@.len() && r@[k].0 == id,
    {
        self.hb_entries()
    }
}

/// Balance stores by user id.
#[verifier::external_body]
pub struct UserBalances {
    map: hashbrown::HashMap<u64, BalanceStore>,
}

/// What a `UserBalances` table holds: the balance store of each user id in it.
pub uninterp spec fn user_balances_contents(t: UserBalances) -> Map<u64, BalanceStore>;

impl View for UserBalances {
    type V = Map<u64, BalanceStore>;

    open spec fn view(&self) -> Map<u64, BalanceStore> {
        user_balances_contents(*self)
    }
}

impl UserBalances {
    /// `hashbrown::HashMap::new`: an empty table.
    #[verifier::external_body]
    pub(crate) fn new() -> (table: UserBalances)
        ensures
            user_balances_contents(table) == (Map::<u64, BalanceStore>::empty()),
    {
        UserBalances { map: hashbrown::HashMap::new() }
    }

    /// `hashbrown::HashMap::insert`: the key maps to the value afterwards, all other keys as
    /// before.
    #[verifier::external_body]
    pub(crate) fn insert(&mut self, k: u64, v: BalanceStore)
        ensures
            user_balances_contents(*final(self)) == user_balances_contents(*old(self)).insert(k, v),
    {
        self.map.insert(k, v);
    }

    /// `hashbrown::HashMap::remove`: hands out the value of the key, if any, and the key is
    /// gone afterwards.
    #[verifier::external_body]
    pub(crate) fn remove(&mut self, k: u64) -> (r: Option<BalanceStore>)
        ensures
            user_balances_contents(*final(self)) == user_balances_contents(*old(self)).remove(k),
            r == (if user_balances_contents(*old(self)).contains_key(k) {
                Some(user_balances_contents(*old(self))[k])
            } else {
                None::<BalanceStore>
            }),
    {
        self.map.remove(&k)
    }

    /// `hashbrown::HashMap::get`: the value of the key, if any.
    #[verifier::external_body]
    pub(crate) fn get(&self, k: u64) -> (r: Option<&BalanceStore>)
        ensures
            r == (if user_balances_contents(*self).contains_key(k) {
                Some(&user_balances_contents(*self)[k])
            } else {
                None::<&BalanceStore>
            }),
    {
        self.map.get(&k)
    }
}

} // verus!
