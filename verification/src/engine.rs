//! Set-up decisions of the core engine: the shards of risk and matching engines, the CPU
//! cores its stages are pinned to, and the errors of its start.
use vstd::prelude::*;

use crate::book::OrderBook;
use crate::decimal::{decimal, decimal_text};
use crate::model::CoreMarketSpecification;
use crate::risk::{handles, is_power_of_two, RiskEngine};
use crate::router::handles_market;
use crate::router::MatchingEngineRouter;
use crate::tables::MarketSpecs;

verus! {

/// Number of risk engine shards.
pub const NUM_RISK_ENGINES: usize = 4;

/// Number of matching engine shards.
pub const NUM_MATCHING_ENGINES: usize = 4;

/// Size of the ring buffer between the stages (a power of two).
pub const BUFFER_SIZE: usize = 1024;

/// What went wrong while starting or running the engine.
#[derive(Debug, Clone)]
pub enum EngineError {
    /// The server could not be initialized.
    ServerInitialization(String),
    /// The server failed while running.
    ServerRuntime(String),
    /// The configuration does not fit the machine.
    Configuration(String),
}

/// The text of an engine error.
pub open spec fn engine_error_text(e: EngineError) -> Seq<char> {
    match e {
        EngineError::ServerInitialization(m) => "Failed to initialize server: "@ + m@,
        EngineError::ServerRuntime(m) => "Server runtime error: "@ + m@,
        EngineError::Configuration(m) => "Invalid configuration: "@ + m@,
    }
}

impl EngineError {
    /// The text of the error: its kind, a colon, and its message.
    pub fn to_string(&self) -> (r: String)
        ensures
            r@ == engine_error_text(*self),
    {
        match self {
            EngineError::ServerInitialization(m) => String::from_str(
                "Failed to initialize server: ",
            ).concat(m.as_str()),
            EngineError::ServerRuntime(m) => String::from_str("Server runtime error: ").concat(
                m.as_str(),
            ),
            EngineError::Configuration(m) => String::from_str("Invalid configuration: ").concat(
                m.as_str(),
            ),
        }
    }
}

/// The numbers of a list, each in decimal, separated by ", ".
pub open spec fn joined(s: Seq<usize>) -> Seq<char>
    decreases s.len(),
{
    if s.len() == 0 {
        Seq::empty()
    } else if s.len() == 1 {
        decimal(s[0] as nat)
    } else {
        joined(s.drop_last()) + ", "@ + decimal(s.last() as nat)
    }
}

/// A list of numbers as `Debug` writes it: "[1, 2, 3]".
pub open spec fn list_text(s: Seq<usize>) -> Seq<char> {
    "["@ + joined(s) + "]"@
}

/// The cores of `required` that `available` lacks, in the order of `required`.
pub open spec fn missing_cores(required: Seq<usize>, available: Seq<usize>) -> Seq<usize>
    decreases required.len(),
{
    if required.len() == 0 {
        Seq::empty()
    } else {
        missing_cores(required.drop_last(), available) + if available.contains(required.last()) {
            Seq::empty()
        } else {
            seq![required.last()]
        }
    }
}

/// The message when the affinity mask lacks required cores.
pub open spec fn missing_cores_message(required: Seq<usize>, available: Seq<usize>) -> Seq<char> {
    "Core pinning requires CPU cores "@ + list_text(required)
        + ", but the process CPU affinity mask allows "@ + list_text(available)
        + "; missing required cores "@ + list_text(missing_cores(required, available))
        + ". Adjust the process cpuset or set ENABLE_CORE_PINNING=false to start without pinning"@
}

/// The message when the affinity mask cannot be read.
pub open spec fn unreadable_mask_message(required: Seq<usize>) -> Seq<char> {
    "Core pinning requires CPU cores "@ + list_text(required)
        + ", but the process CPU affinity mask could not be read. Set ENABLE_CORE_PINNING=false to start without pinning"@
}

fn list_text_of(s: &[usize]) -> (r: String)
    ensures
        r@ == list_text(s@),
{
    let mut body = String::new();
    let mut i: usize = 0;
    while i < s.len()
        invariant
            i <= s@.len(),
            body@ == joined(s@.take(i as int)),
        decreases s@.len() - i,
    {
        proof {
            let pre = s@.take(i + 1);
            assert(pre.drop_last() =~= s@.take(i as int));
            assert(pre.last() == s@[i as int]);
            if i == 0 {
                assert(s@.take(0) =~= Seq::<usize>::empty());
            }
        }
        if i > 0 {
            body.append(", ");
        }
        body.append(decimal_text(s[i] as u64).as_str());
        i = i + 1;
    }
    proof {
        assert(s@.take(s@.len() as int) =~= s@);
    }
    String::from_str("[").concat(body.as_str()).concat("]")
}

fn contains_core(s: &[usize], c: usize) -> (r: bool)
    ensures
        r == s@.contains(c),
{
    let mut i: usize = 0;
    while i < s.len()
        invariant
            i <= s@.len(),
            forall|k: int| 0 <= k < i ==> s@[k] != c,
        decreases s@.len() - i,
    {
        if s[i] == c {
            assert(s@[i as int] == c);
            return true;
        }
        i = i + 1;
    }
    false
}

/// `core_affinity::get_core_ids`: the ids of the cores in the process's CPU affinity mask, or
/// nothing when the mask cannot be read. What it gives depends on the machine and is not
/// stated.
#[verifier::external_body]
fn affinity_core_ids() -> (r: Option<Vec<usize>>) {
    match core_affinity::get_core_ids() {
        Some(ids) => {
            let mut out = Vec::new();
            for c in ids {
                out.push(c.id);
            }
            Some(out)
        },
        None => None,
    }
}

/// The CPU core of each processing stage: journaling, the risk shards, the matching shards,
/// the settlement shards, and the events stage.
#[derive(Debug, Clone, Copy)]
pub struct CorePinning {
    journaling: usize,
    risk_engines: [usize; NUM_RISK_ENGINES],
    matching_engines: [usize; NUM_MATCHING_ENGINES],
    risk_r2_engines: [usize; NUM_RISK_ENGINES],
    events: usize,
}

impl CorePinning {
    /// The cores of the stages, in pipeline order.
    pub closed spec fn core_list(&self) -> Seq<usize> {
        seq![
            self.journaling,
            self.risk_engines@[0],
            self.risk_engines@[1],
            self.risk_engines@[2],
            self.risk_engines@[3],
            self.matching_engines@[0],
            self.matching_engines@[1],
            self.matching_engines@[2],
            self.matching_engines@[3],
            self.risk_r2_engines@[0],
            self.risk_r2_engines@[1],
            self.risk_r2_engines@[2],
            self.risk_r2_engines@[3],
            self.events,
        ]
    }

    /// The cores of the stages, in pipeline order.
    pub fn core_ids(self) -> (r: [usize; 14])
        ensures
            r@ == self.core_list(),
    {
        let r = [
            self.journaling,
            self.risk_engines[0],
            self.risk_engines[1],
            self.risk_engines[2],
            self.risk_engines[3],
            self.matching_engines[0],
            self.matching_engines[1],
            self.matching_engines[2],
            self.matching_engines[3],
            self.risk_r2_engines[0],
            self.risk_r2_engines[1],
            self.risk_r2_engines[2],
            self.risk_r2_engines[3],
            self.events,
        ];
        assert(r@ =~= self.core_list());
        r
    }

    /// Accepts the affinity mask when it holds every required core; else a configuration
    /// error that lists the required cores, the available ones and the missing ones.
    pub fn validate_available_cores(self, available_cores: &[usize]) -> (r: Result<(), EngineError>)
        ensures
            missing_cores(self.core_list(), available_cores@).len() == 0 ==> r is Ok,
            missing_cores(self.core_list(), available_cores@).len() > 0 ==> r is Err
                && r->Err_0 is Configuration && r->Err_0->Configuration_0@
                == missing_cores_message(self.core_list(), available_cores@),
    {
        let required = self.core_ids();
        let mut missing: Vec<usize> = Vec::new();
        let mut i: usize = 0;
        while i < 14
            invariant
                i <= 14,
                required@ == self.core_list(),
                missing@ == missing_cores(required@.take(i as int), available_cores@),
            decreases 14 - i,
        {
            proof {
                let pre = required@.take(i + 1);
                assert(pre.drop_last() =~= required@.take(i as int));
                assert(pre.last() == required@[i as int]);
            }
            if !contains_core(available_cores, required[i]) {
                missing.push(required[i]);
            }
            i = i + 1;
        }
        proof {
            assert(required@.take(14) =~= required@);
        }
        if missing.len() == 0 {
            return Ok(());
        }
        let m = String::from_str("Core pinning requires CPU cores ").concat(
            list_text_of(&required).as_str(),
        ).concat(", but the process CPU affinity mask allows ").concat(
            list_text_of(available_cores).as_str(),
        ).concat("; missing required cores ").concat(list_text_of(missing.as_slice()).as_str()).concat(
            ". Adjust the process cpuset or set ENABLE_CORE_PINNING=false to start without pinning",
        );
        Err(EngineError::Configuration(m))
    }

    /// Checks the process's CPU affinity mask: a configuration error when it cannot be read,
    /// else as `validate_available_cores` on the cores it holds. Which cores those are depends
    /// on the machine, so whether it passes is not stated; an error is one of the two above.
    pub fn validate_process_affinity(self) -> (r: Result<(), EngineError>)
        ensures
            r is Err ==> r->Err_0 is Configuration && (r->Err_0->Configuration_0@
                == unreadable_mask_message(self.core_list()) || exists|available: Seq<usize>|
                missing_cores(self.core_list(), available).len() > 0
                    && r->Err_0->Configuration_0@ == missing_cores_message(
                    self.core_list(),
                    available,
                )),
    {
        match affinity_core_ids() {
            Some(ids) => self.validate_available_cores(ids.as_slice()),
            None => {
                let required = self.core_ids();
                let m = String::from_str("Core pinning requires CPU cores ").concat(
                    list_text_of(&required).as_str(),
                ).concat(
                    ", but the process CPU affinity mask could not be read. Set ENABLE_CORE_PINNING=false to start without pinning",
                );
                Err(EngineError::Configuration(m))
            },
        }
    }

    /// The check made before the engine starts: without pinning it passes; with pinning it is
    /// `validate_process_affinity`, whose outcome rests on the machine's affinity mask.
    pub fn validate_for_start(self, enable_pinning: bool) -> (r: Result<(), EngineError>)
        ensures
            !enable_pinning ==> r is Ok,
            enable_pinning && r is Err ==> r->Err_0 is Configuration && (r->Err_0->Configuration_0@
                == unreadable_mask_message(self.core_list()) || exists|available: Seq<usize>|
                missing_cores(self.core_list(), available).len() > 0
                    && r->Err_0->Configuration_0@ == missing_cores_message(
                    self.core_list(),
                    available,
                )),
    {
        if enable_pinning {
            self.validate_process_affinity()
        } else {
            Ok(())
        }
    }
}

impl Default for CorePinning {
    /// Journaling on core 1, risk shards on 2 to 5, matching shards on 6 to 9, settlement
    /// shards on 10 to 13, events on 14.
    fn default() -> (r: CorePinning)
        ensures
            r.core_list() == seq![1usize, 2, 3, 4, 5, 6, 7, 8, 9, 10, 11, 12, 13, 14],
    {
        let r = CorePinning {
            journaling: 1,
            risk_engines: [2, 3, 4, 5],
            matching_engines: [6, 7, 8, 9],
            risk_r2_engines: [10, 11, 12, 13],
            events: 14,
        };
        assert(r.core_list() =~= seq![1usize, 2, 3, 4, 5, 6, 7, 8, 9, 10, 11, 12, 13, 14]);
        r
    }
}

/// The shard of a market: its id under the mask.
pub open spec fn market_shard(id: u32, mask: u64) -> u64 {
    (id as u64) & mask
}

/// One risk engine per shard, each with the market specifications, shard `k` of
/// `num_shards`.
pub fn initialize_risk_engines(symbol_specs: &MarketSpecs, num_shards: u32) -> (r: Vec<RiskEngine>)
    requires
        is_power_of_two(num_shards as u64),
    ensures
        r@.len() == num_shards,
        forall|k: int|
            0 <= k < num_shards ==> {
                &&& (#[trigger] r@[k]).wf()
                &&& r@[k].users() == Map::<u64, crate::risk::BalanceStore>::empty()
                &&& r@[k].balances() == Map::<u64, Map<u32, crate::model::UserBalance>>::empty()
                &&& r@[k].specs() == symbol_specs@
                &&& r@[k].spec_shard_id() == k
                &&& r@[k].spec_shard_mask() == num_shards - 1
            },
{
    let mut engines: Vec<RiskEngine> = Vec::new();
    let mut shard: u32 = 0;
    while shard < num_shards
        invariant
            shard <= num_shards,
            is_power_of_two(num_shards as u64),
            engines@.len() == shard,
            forall|k: int|
                0 <= k < shard ==> {
                    &&& (#[trigger] engines@[k]).wf()
                    &&& engines@[k].users() == Map::<u64, crate::risk::BalanceStore>::empty()
                    &&& engines@[k].balances() == Map::<u64, Map<u32, crate::model::UserBalance>>::empty()
                    &&& engines@[k].specs() == symbol_specs@
                    &&& engines@[k].spec_shard_id() == k
                    &&& engines@[k].spec_shard_mask() == num_shards - 1
                },
        decreases num_shards - shard,
    {
        engines.push(RiskEngine::new(symbol_specs.duplicate(), shard, num_shards));
        shard = shard + 1;
    }
    engines
}

/// One matching router per shard; every market of the specifications gets an empty book in
/// the router of its shard (its id under the mask `num_shards - 1`), and only there.
pub fn initialize_matching_engines(symbol_specs: &MarketSpecs, num_shards: u64) -> (r: Vec<
    MatchingEngineRouter,
>)
    requires
        is_power_of_two(num_shards),
        num_shards <= u32::MAX,
    ensures
        r@.len() == num_shards,
        forall|k: int|
            0 <= k < num_shards ==> {
                &&& (#[trigger] r@[k]).wf()
                &&& r@[k].shard_id == k
                &&& r@[k].shard_mask == num_shards - 1
                &&& forall|id: u32| #[trigger]
                    r@[k].order_books@.contains_key(id) <==> (symbol_specs@.contains_key(id)
                        && market_shard(id, (num_shards - 1) as u64) == k)
                &&& forall|id: u32| #[trigger]
                    r@[k].order_books@.contains_key(id) ==> {
                        &&& r@[k].order_books@[id]@.bids.len() == 0
                        &&& r@[k].order_books@[id]@.asks.len() == 0
                        &&& r@[k].order_books@[id]@.orders == Map::<u64, u64>::empty()
                    }
            },
{
    let n = num_shards as usize;
    let mask: u64 = num_shards - 1;
    let mut routers: Vec<MatchingEngineRouter> = Vec::new();
    let mut shard: usize = 0;
    while shard < n
        invariant
            shard <= n,
            n == num_shards,
            num_shards <= u32::MAX,
            mask == num_shards - 1,
            is_power_of_two(num_shards),
            routers@.len() == shard,
            forall|k: int|
                0 <= k < shard ==> {
                    &&& (#[trigger] routers@[k]).wf()
                    &&& routers@[k].shard_id == k
                    &&& routers@[k].shard_mask == mask
                    &&& routers@[k].order_books@ == Map::<u32, Box<OrderBook>>::empty()
                },
        decreases n - shard,
    {
        routers.push(MatchingEngineRouter::new(shard as u32, num_shards));
        shard = shard + 1;
    }
    let entries = symbol_specs.entries();
    let m = entries.len();
    let mut i: usize = 0;
    while i < m
        invariant
            i <= m,
            m == entries@.len(),
            n == num_shards,
            mask == num_shards - 1,
            is_power_of_two(num_shards),
            routers@.len() == n,
            forall|k: int|
                0 <= k < m ==> symbol_specs@.contains_key(#[trigger] entries@[k].0)
                    && symbol_specs@[entries@[k].0] == entries@[k].1,
            forall|id: u32| #[trigger]
                symbol_specs@.contains_key(id) ==> exists|k: int| 0 <= k < m && entries@[k].0 == id,
            forall|k: int|
                0 <= k < n ==> {
                    &&& (#[trigger] routers@[k]).wf()
                    &&& routers@[k].shard_id == k
                    &&& routers@[k].shard_mask == mask
                    &&& forall|id: u32| #[trigger]
                        routers@[k].order_books@.contains_key(id) <==> (exists|j: int|
                            0 <= j < i && entries@[j].0 == id) && market_shard(id, mask) == k
                    &&& forall|id: u32| #[trigger]
                        routers@[k].order_books@.contains_key(id) ==> {
                            &&& routers@[k].order_books@[id]@.bids.len() == 0
                            &&& routers@[k].order_books@[id]@.asks.len() == 0
                            &&& routers@[k].order_books@[id]@.orders == Map::<u64, u64>::empty()
                        }
                },
        decreases m - i,
    {
        let id = entries[i].0;
        let owner_bits: u64 = (id as u64) & mask;
        proof {
            let x = id as u64;
            assert((x & mask) <= mask) by (bit_vector);
        }
        let owner = owner_bits as usize;
        let ghost before = routers@;
        let mut router = routers.remove(owner);
        router.add_market(id);
        routers.insert(owner, router);
        proof {
            assert(routers@ =~= before.update(owner as int, router));
            assert forall|k: int| 0 <= k < n implies {
                &&& (#[trigger] routers@[k]).wf()
                &&& routers@[k].shard_id == k
                &&& routers@[k].shard_mask == mask
                &&& forall|x: u32| #[trigger]
                    routers@[k].order_books@.contains_key(x) <==> (exists|j: int|
                        0 <= j < i + 1 && entries@[j].0 == x) && market_shard(x, mask) == k
                &&& forall|x: u32| #[trigger]
                    routers@[k].order_books@.contains_key(x) ==> {
                        &&& routers@[k].order_books@[x]@.bids.len() == 0
                        &&& routers@[k].order_books@[x]@.asks.len() == 0
                        &&& routers@[k].order_books@[x]@.orders == Map::<u64, u64>::empty()
                    }
            } by {
                assert forall|x: u32| #[trigger] routers@[k].order_books@.contains_key(x) <==> (exists|j: int|
                    0 <= j < i + 1 && entries@[j].0 == x) && market_shard(x, mask) == k by {
                    if x == id {
                        assert(entries@[i as int].0 == x);
                    } else {
                        if exists|j: int| 0 <= j < i + 1 && entries@[j].0 == x {
                            let j = choose|j: int| 0 <= j < i + 1 && entries@[j].0 == x;
                            assert(j != i);
                        }
                    }
                }
            }
        }
        i = i + 1;
    }
    proof {
        assert forall|k: int| #![trigger routers@[k]] 0 <= k < n implies forall|x: u32| #[trigger]
            routers@[k].order_books@.contains_key(x) <==> (symbol_specs@.contains_key(x)
                && market_shard(x, (num_shards - 1) as u64) == k) by {
            assert forall|x: u32| #[trigger] routers@[k].order_books@.contains_key(x) <==> (
            symbol_specs@.contains_key(x) && market_shard(x, (num_shards - 1) as u64) == k) by {
                if symbol_specs@.contains_key(x) {
                    let j = choose|j: int| 0 <= j < m && entries@[j].0 == x;
                }
                if exists|j: int| 0 <= j < m && entries@[j].0 == x {
                    let j = choose|j: int| 0 <= j < m && entries@[j].0 == x;
                    assert(symbol_specs@.contains_key(entries@[j].0));
                }
            }
        }
    }
    routers
}

/// Sharding splits the work: with a power-of-two number of shards, every user is handled by
/// exactly one risk shard and every market by exactly one matching shard, the one its id
/// gives under the mask `num_shards - 1`, which is a valid shard.
pub proof fn law_one_shard_each(num_shards: u64, id: u64)
    requires
        is_power_of_two(num_shards),
    ensures
        (id & ((num_shards - 1) as u64)) < num_shards,
        forall|k: u32|
            #![trigger handles((num_shards - 1) as u64, k, id)]
            (k as u64) < num_shards ==> (handles((num_shards - 1) as u64, k, id) <==> k as u64 == (
            id & ((num_shards - 1) as u64))),
        forall|k: u32|
            #![trigger handles_market((num_shards - 1) as u64, k, id)]
            (k as u64) < num_shards ==> (handles_market((num_shards - 1) as u64, k, id) <==> k as u64
                == (id & ((num_shards - 1) as u64))),
{
    let m = (num_shards - 1) as u64;
    assert((id & m) <= m) by (bit_vector);
}

} // verus!
