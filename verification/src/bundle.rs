//! Bundle assembly: the ordered frontrun/victim/backrun triple for a
//! sandwich, the arbitrage transaction's gas price rule, and the gas-price
//! ordering law every emitted sandwich satisfies.

use crate::types::{Addr, ArbitrageDetails, Bundle, BundleTransaction, SandwichDetails};
use crate::u256::{div0, sat_add, sat_mul, U256};
use vstd::prelude::*;

verus! {

/// Gas prices of every well-formed sandwich plan are strictly ordered:
/// frontrun over victim over backrun.
pub proof fn lemma_sandwich_gas_ordering(d: &SandwichDetails)
    requires
        d.wf(),
    ensures
        d.frontrun_gas_price@ > d.victim_gas_price@,
        d.victim_gas_price@ > d.backrun_gas_price@,
{
}

/// Assemble the three-entry sandwich bundle for the next block: the
/// attacker's frontrun (must land), the re-encoded victim (may revert), and
/// the attacker's backrun (must land). The attacker signs the outer two;
/// the victim keeps its own sender.
pub fn build_sandwich_bundle(details: &SandwichDetails, bot_signer: Addr, victim_sender: Addr,
    frontrun_raw: Vec<u8>, victim_raw: Vec<u8>, backrun_raw: Vec<u8>, current_block: u64) -> (r:
    Bundle)
    requires
        details.wf(),
        bot_signer@ != victim_sender@,
        current_block < u64::MAX,
    ensures
        r.txs@.len() == 3,
        r.txs@[0].signer@ == bot_signer@ && !r.txs@[0].can_revert && r.txs@[0].raw_tx@
            == frontrun_raw@,
        r.txs@[1].signer@ == victim_sender@ && r.txs@[1].can_revert && r.txs@[1].raw_tx@
            == victim_raw@,
        r.txs@[2].signer@ == bot_signer@ && !r.txs@[2].can_revert && r.txs@[2].raw_tx@
            == backrun_raw@,
        r.txs@[0].signer@ != r.txs@[1].signer@,
        r.block_number == current_block + 1,
        r.min_timestamp is None && r.max_timestamp is None,
{
    let mut txs: Vec<BundleTransaction> = Vec::new();
    txs.push(BundleTransaction { signer: bot_signer, raw_tx: frontrun_raw, can_revert: false });
    txs.push(BundleTransaction { signer: victim_sender, raw_tx: victim_raw, can_revert: true });
    txs.push(BundleTransaction { signer: bot_signer, raw_tx: backrun_raw, can_revert: false });
    Bundle { txs, block_number: current_block + 1, min_timestamp: None, max_timestamp: None }
}

/// The arbitrage transaction's gas price: eighty percent of the profit per
/// gas unit, but never below the base fee plus a 2 gwei priority margin.
pub open spec fn spec_arb_gas_price(profit: nat, gas_estimate: nat, base_fee: nat) -> nat {
    let target = div0(sat_mul(div0(profit, gas_estimate), 80), 100);
    let floor = sat_add(base_fee, 2000000000);
    if target > floor {
        target
    } else {
        floor
    }
}

pub fn arb_gas_price(profit: &U256, gas_estimate: &U256, base_fee: &U256) -> (r: U256)
    ensures
        r@ == spec_arb_gas_price(profit@, gas_estimate@, base_fee@),
        r@ >= sat_add(base_fee@, 2000000000),
{
    let per_gas = profit.div_or_zero(gas_estimate);
    let hundred = U256::from_u64(100);
    let target = per_gas.mul_u64_sat(80).div_or_zero(&hundred);
    let floor = base_fee.add_sat(&U256::from_u64(2000000000));
    if target.gt(&floor) {
        target
    } else {
        floor
    }
}

/// The field rules of the single arbitrage transaction: it is addressed to
/// the route's first pool, carries the sized input as native value exactly
/// when the route starts at the wrapped native token, budgets the plan's
/// gas estimate, and bids the computed gas price.
pub struct ArbTransactionPlan {
    pub to: Addr,
    pub value: U256,
    pub gas_limit: U256,
    pub gas_price: U256,
}

pub fn plan_arb_transaction(details: &ArbitrageDetails, weth: Addr, base_fee: &U256) -> (r:
    ArbTransactionPlan)
    requires
        details.wf(),
    ensures
        r.to@ == details.pools@[0].address@,
        r.value@ == (if details.path@[0]@ == weth@ {
            details.amount_in@
        } else {
            0nat
        }),
        r.gas_limit@ == details.gas_estimate@,
        r.gas_price@ == spec_arb_gas_price(details.expected_profit@, details.gas_estimate@,
            base_fee@),
{
    let to = details.pools[0].address;
    let value = if details.path[0].eq_addr(&weth) {
        details.amount_in
    } else {
        U256::zero()
    };
    let gas_price = arb_gas_price(&details.expected_profit, &details.gas_estimate, base_fee);
    ArbTransactionPlan { to, value, gas_limit: details.gas_estimate, gas_price }
}

} // verus!
