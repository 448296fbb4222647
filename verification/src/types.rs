//! Data model: addresses, transaction identities, pools, opportunities,
//! simulation results and bundles, with their construction invariants and the
//! ranking order used to pick which opportunity goes out first.

use crate::u256::{sat_sub, U256};
use vstd::prelude::*;

verus! {

/// A 160-bit account or contract address, big-endian: the value is
/// `hi * 2^128 + lo`. Numeric order coincides with lexicographic byte order.
#[derive(Clone, Copy, Debug, PartialEq, Eq, Structural, Hash)]
pub struct Addr {
    pub hi: u32,
    pub lo: u128,
}

impl View for Addr {
    type V = nat;

    open spec fn view(&self) -> nat {
        (self.hi * 0x100000000000000000000000000000000nat + self.lo) as nat
    }
}

impl Addr {
    pub fn zero() -> (r: Addr)
        ensures
            r@ == 0,
    {
        Addr { hi: 0, lo: 0 }
    }

    /// Numeric (equivalently, lexicographic) strict order.
    pub fn lt(&self, other: &Addr) -> (r: bool)
        ensures
            r <==> self@ < other@,
    {
        if self.hi != other.hi {
            self.hi < other.hi
        } else {
            self.lo < other.lo
        }
    }

    pub fn eq_addr(&self, other: &Addr) -> (r: bool)
        ensures
            r <==> self@ == other@,
    {
        self.hi == other.hi && self.lo == other.lo
    }
}

/// A 32-byte transaction hash, big-endian halves.
#[derive(Clone, Copy, Debug, PartialEq, Eq, Structural, Hash)]
pub struct TxHash {
    pub hi: u128,
    pub lo: u128,
}

impl TxHash {
    pub fn eq_hash(&self, other: &TxHash) -> (r: bool)
        ensures
            r <==> *self == *other,
    {
        self.hi == other.hi && self.lo == other.lo
    }
}

/// The exchange family a pool belongs to.
#[derive(Clone, Copy, Debug, PartialEq, Eq, Structural, Hash)]
pub enum DexType {
    UniswapV2,
    UniswapV3,
    SushiSwap,
    PancakeSwap,
    Custom(u8),
}

/// A snapshot of one liquidity pool.
#[derive(Clone, Copy, Debug)]
pub struct PoolInfo {
    pub address: Addr,
    pub token0: Addr,
    pub token1: Addr,
    pub reserve0: U256,
    pub reserve1: U256,
    pub fee_bps: u64,
    pub dex_type: DexType,
}

impl PoolInfo {
    /// Canonical token ordering and a meaningful fee.
    pub open spec fn wf(&self) -> bool {
        self.token0@ < self.token1@ && self.fee_bps <= 10000
    }

    /// Both reserves strictly positive: the pool can actually be traded.
    pub open spec fn usable(&self) -> bool {
        self.reserve0@ > 0 && self.reserve1@ > 0
    }

    pub fn is_usable(&self) -> (r: bool)
        ensures
            r <==> self.usable(),
    {
        !self.reserve0.is_zero() && !self.reserve1.is_zero()
    }
}

/// An observed, unconfirmed transaction. A missing recipient means contract
/// creation; a missing gas price means a fee-cap style transaction.
#[derive(Clone, Debug)]
pub struct PendingTx {
    pub hash: TxHash,
    pub from: Addr,
    pub to: Option<Addr>,
    pub value: U256,
    pub gas: U256,
    pub gas_price: Option<U256>,
    pub nonce: u64,
    pub input: Vec<u8>,
}

/// A sandwich plan around one victim swap. Gas prices for the three slots are
/// fixed at construction so the ordering invariant is part of the record.
#[derive(Clone, Debug)]
pub struct SandwichDetails {
    pub target_pool: Addr,
    pub token_in: Addr,
    pub token_out: Addr,
    pub frontrun_amount: U256,
    pub backrun_amount: U256,
    pub victim_amount_in: U256,
    pub victim_amount_out_min: U256,
    /// Price impact of the frontrun as parts per million of the input
    /// reserve; reporting only, never used in settlement math.
    pub price_impact_ppm: u64,
    pub victim_gas_price: U256,
    pub frontrun_gas_price: U256,
    pub backrun_gas_price: U256,
}

impl SandwichDetails {
    pub open spec fn wf(&self) -> bool {
        &&& self.victim_amount_in@ > 0
        &&& self.price_impact_ppm <= 1000000
        &&& self.frontrun_gas_price@ > self.victim_gas_price@
        &&& self.backrun_gas_price@ < self.victim_gas_price@
    }
}

/// A cyclic arbitrage plan: `path` is the token route, `pools` the pool for
/// each hop.
#[derive(Clone, Debug)]
pub struct ArbitrageDetails {
    pub path: Vec<Addr>,
    pub pools: Vec<PoolInfo>,
    pub amount_in: U256,
    pub expected_profit: U256,
    pub gas_estimate: U256,
}

impl ArbitrageDetails {
    pub open spec fn wf(&self) -> bool {
        &&& self.path@.len() == self.pools@.len() + 1
        &&& self.path@[0]@ == self.path@[self.path@.len() - 1]@
        &&& 2 <= self.pools@.len() <= 5
    }
}

#[derive(Clone, Debug)]
pub enum StrategyType {
    Sandwich(SandwichDetails),
    Arbitrage(ArbitrageDetails),
}

/// One candidate extraction, ready for simulation and dispatch.
#[derive(Clone, Debug)]
pub struct MEVOpportunity {
    pub id: Vec<u8>,
    pub strategy: StrategyType,
    pub estimated_profit: U256,
    pub gas_cost: U256,
    pub priority: u8,
    pub expiry_block: u64,
}

impl MEVOpportunity {
    pub open spec fn wf(&self) -> bool {
        &&& self.priority <= 10
        &&& match self.strategy {
            StrategyType::Sandwich(d) => d.wf(),
            StrategyType::Arbitrage(d) => d.wf(),
        }
    }

    /// Gross profit net of the gas estimate, saturating at zero.
    pub open spec fn spec_net_profit(&self) -> nat {
        sat_sub(self.estimated_profit@, self.gas_cost@)
    }

    pub fn net_profit(&self) -> (r: U256)
        ensures
            r@ == self.spec_net_profit(),
    {
        self.estimated_profit.sub_sat(&self.gas_cost)
    }
}

/// The dispatch order: descending net profit, ties broken by higher priority,
/// then by earlier expiry.
pub open spec fn spec_ranks_before(a: &MEVOpportunity, b: &MEVOpportunity) -> bool {
    let na = a.spec_net_profit();
    let nb = b.spec_net_profit();
    ||| na > nb
    ||| (na == nb && a.priority > b.priority)
    ||| (na == nb && a.priority == b.priority && a.expiry_block < b.expiry_block)
}

/// Non-strict version of the dispatch order.
pub open spec fn spec_ranks_le(a: &MEVOpportunity, b: &MEVOpportunity) -> bool {
    !spec_ranks_before(b, a)
}

pub fn ranks_before(a: &MEVOpportunity, b: &MEVOpportunity) -> (r: bool)
    ensures
        r <==> spec_ranks_before(a, b),
{
    let na = a.net_profit();
    let nb = b.net_profit();
    if na.gt(&nb) {
        true
    } else if nb.gt(&na) {
        false
    } else if a.priority != b.priority {
        a.priority > b.priority
    } else {
        a.expiry_block < b.expiry_block
    }
}

/// The outcome of rehearsing a candidate against current chain state.
#[derive(Clone, Debug)]
pub struct SimulationResult {
    pub success: bool,
    pub profit: U256,
    pub gas_used: U256,
    pub revert_reason: Option<Vec<u8>>,
}

/// One entry of a relay bundle: a fully signed raw transaction and whether
/// the bundle tolerates it reverting.
#[derive(Clone, Debug)]
pub struct BundleTransaction {
    pub signer: Addr,
    pub raw_tx: Vec<u8>,
    pub can_revert: bool,
}

/// An ordered, atomic set of transactions aimed at one target block.
#[derive(Clone, Debug)]
pub struct Bundle {
    pub txs: Vec<BundleTransaction>,
    pub block_number: u64,
    pub min_timestamp: Option<u64>,
    pub max_timestamp: Option<u64>,
}

} // verus!
