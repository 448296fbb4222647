//! Auxiliary screens around the main two strategies: just-in-time liquidity
//! sizing for large swaps, and the transaction classifiers that gate
//! backrun-only work. They share the opportunity-emission interface so
//! further strategies can slot into the same pipeline.

use crate::types::{Addr, PendingTx, TxHash};
use crate::u256::{div0, sat_mul, U256};
use vstd::prelude::*;

verus! {

/// 5 ETH in wei: the swap size worth providing just-in-time liquidity for.
pub open spec fn jit_threshold_wei() -> nat {
    5000000000000000000
}

/// The gas cost assumed for the add-and-remove liquidity pair.
pub open spec fn jit_gas_cost_wei() -> nat {
    30000000000000000
}

/// A just-in-time liquidity plan: provide half the swap's value around it
/// and collect the pool fee.
#[derive(Clone, Debug)]
pub struct JitOpportunity {
    pub target_tx: TxHash,
    pub pool: Addr,
    pub liquidity_amount: U256,
    pub expected_fees: U256,
}

/// Whether a pending swap is worth a just-in-time liquidity sandwich: big
/// enough, aimed at a real pool, and with fees at least twice the gas.
pub open spec fn spec_jit_accepted(tx: &PendingTx) -> bool {
    let fees = div0(sat_mul(tx.value@ / 2, 3), 1000);
    &&& tx.value@ >= jit_threshold_wei()
    &&& tx.to is Some
    &&& fees > 2 * jit_gas_cost_wei()
}

pub fn find_jit_opportunity(tx: &PendingTx) -> (r: Option<JitOpportunity>)
    ensures
        r is Some <==> spec_jit_accepted(tx),
        r matches Some(o) ==> {
            &&& o.target_tx == tx.hash
            &&& (tx.to matches Some(p) && o.pool@ == p@)
            &&& o.liquidity_amount@ == tx.value@ / 2
            &&& o.expected_fees@ == div0(sat_mul(tx.value@ / 2, 3), 1000)
        },
{
    let threshold = U256::from_u64(5000000000000000000);
    if tx.value.lt(&threshold) {
        return None;
    }
    let pool = match tx.to {
        Some(p) => p,
        None => {
            return None;
        },
    };
    let two = U256::from_u64(2);
    let thousand = U256::from_u64(1000);
    let (liquidity, _) = tx.value.divrem(&two);
    let (fees, _) = liquidity.mul_u64_sat(3).divrem(&thousand);
    let gas_cost = U256::from_u64(30000000000000000);
    let doubled = gas_cost.mul_u64_sat(2);
    if !fees.gt(&doubled) {
        return None;
    }
    Some(JitOpportunity { target_tx: tx.hash, pool, liquidity_amount: liquidity,
        expected_fees: fees })
}

/// Whether the calldata calls a known lending-protocol liquidation entry
/// point.
pub open spec fn spec_is_liquidation(input: Seq<u8>) -> bool {
    &&& input.len() >= 4
    &&& ((input[0] == 0x96 && input[1] == 0xcd && input[2] == 0x4d && input[3] == 0xdb) || (
    input[0] == 0x00 && input[1] == 0xa7 && input[2] == 0x18 && input[3] == 0xa9))
}

pub fn is_liquidation(tx: &PendingTx) -> (r: bool)
    ensures
        r <==> spec_is_liquidation(tx.input@),
{
    if tx.input.len() < 4 {
        return false;
    }
    let b0 = tx.input[0];
    let b1 = tx.input[1];
    let b2 = tx.input[2];
    let b3 = tx.input[3];
    (b0 == 0x96 && b1 == 0xcd && b2 == 0x4d && b3 == 0xdb) || (b0 == 0x00 && b1 == 0xa7 && b2
        == 0x18 && b3 == 0xa9)
}

/// 10 ETH in wei: trades above this are assumed to leave a price imbalance
/// worth rebalancing behind.
pub open spec fn imbalance_threshold_wei() -> nat {
    10000000000000000000
}

pub fn creates_imbalance(tx: &PendingTx) -> (r: bool)
    ensures
        r <==> tx.value@ > imbalance_threshold_wei(),
{
    let threshold = U256::from_u64(10000000000000000000);
    tx.value.gt(&threshold)
}

} // verus!
