//! Simulation outcomes: compose the chain's dry-run answers for a candidate
//! into one result, and the rejection policy that drops anything not
//! strictly profitable. The dry-run calls themselves are chain I/O; their
//! outcomes are handed in as plain values and every composition is verified
//! for all of them.

use crate::types::SimulationResult;
use crate::u256::{sat_add, sat_mul, sat_sub, U256};
use vstd::prelude::*;

verus! {

/// The view of an optional byte string.
pub open spec fn reason_view(o: &Option<Vec<u8>>) -> Option<Seq<u8>> {
    match o {
        Some(v) => Some(v@),
        None => None,
    }
}

/// Copy an optional byte string.
fn copy_reason(o: &Option<Vec<u8>>) -> (r: Option<Vec<u8>>)
    ensures
        reason_view(&r) == reason_view(o),
{
    match o {
        None => None,
        Some(v) => Some(crate::relay::slice_range(v, 0, v.len())),
    }
}

/// One dry-run answer from the chain: did the call revert, what gas did it
/// take, and the revert data if any.
#[derive(Clone, Debug)]
pub struct DryRunOutcome {
    pub success: bool,
    pub gas_used: U256,
    pub revert_reason: Option<Vec<u8>>,
}

/// The bytes of `victim transaction would fail`.
pub open spec fn lit_victim_fail() -> Seq<u8> {
    seq![118u8, 105, 99, 116, 105, 109, 32, 116, 114, 97, 110, 115, 97, 99, 116, 105, 111, 110,
        32, 119, 111, 117, 108, 100, 32, 102, 97, 105, 108]
}

/// Compose the three dry-runs of a sandwich. A failing leg rejects with the
/// gas burned up to it; when all three pass, the profit is the balance gain
/// net of gas at the price actually paid.
pub fn simulate_sandwich(front: &DryRunOutcome, victim: &DryRunOutcome, back: &DryRunOutcome,
    balance_delta: &U256, gas_price: &U256) -> (r: SimulationResult)
    ensures
        r.success <==> front.success && victim.success && back.success,
        !front.success ==> r.gas_used@ == front.gas_used@ && reason_view(&r.revert_reason)
            == reason_view(&front.revert_reason),
        front.success && !victim.success ==> r.gas_used@ == front.gas_used@ && (r.revert_reason
            matches Some(m) && m@ == lit_victim_fail()),
        front.success && victim.success && !back.success ==> r.gas_used@ == sat_add(
            front.gas_used@, victim.gas_used@) && reason_view(&r.revert_reason) == reason_view(
            &back.revert_reason),
        !r.success ==> r.profit@ == 0,
        r.success ==> {
            &&& r.gas_used@ == sat_add(front.gas_used@, back.gas_used@)
            &&& r.profit@ == sat_sub(balance_delta@, sat_mul(sat_add(front.gas_used@,
                back.gas_used@), gas_price@))
            &&& r.revert_reason is None
        },
{
    if !front.success {
        return SimulationResult {
            success: false,
            profit: U256::zero(),
            gas_used: front.gas_used,
            revert_reason: copy_reason(&front.revert_reason),
        };
    }
    if !victim.success {
        let msg: Vec<u8> = vec![118u8, 105, 99, 116, 105, 109, 32, 116, 114, 97, 110, 115, 97, 99,
            116, 105, 111, 110, 32, 119, 111, 117, 108, 100, 32, 102, 97, 105, 108];
        proof {
            assert(msg@ =~= lit_victim_fail());
        }
        return SimulationResult {
            success: false,
            profit: U256::zero(),
            gas_used: front.gas_used,
            revert_reason: Some(msg),
        };
    }
    if !back.success {
        return SimulationResult {
            success: false,
            profit: U256::zero(),
            gas_used: front.gas_used.add_sat(&victim.gas_used),
            revert_reason: copy_reason(&back.revert_reason),
        };
    }
    let total_gas = front.gas_used.add_sat(&back.gas_used);
    let gas_cost = total_gas.mul_sat(gas_price);
    SimulationResult {
        success: true,
        profit: balance_delta.sub_sat(&gas_cost),
        gas_used: total_gas,
        revert_reason: None,
    }
}

/// Compose the single dry-run of an arbitrage call: the expected gross gain
/// net of gas at the price actually paid, or the revert.
pub fn simulate_arbitrage(outcome: &DryRunOutcome, expected_gross: &U256, gas_price: &U256) -> (r:
    SimulationResult)
    ensures
        r.success == outcome.success,
        r.gas_used@ == outcome.gas_used@,
        !outcome.success ==> r.profit@ == 0 && reason_view(&r.revert_reason) == reason_view(
            &outcome.revert_reason),
        outcome.success ==> r.profit@ == sat_sub(expected_gross@, sat_mul(outcome.gas_used@,
            gas_price@)) && r.revert_reason is None,
{
    if !outcome.success {
        return SimulationResult {
            success: false,
            profit: U256::zero(),
            gas_used: outcome.gas_used,
            revert_reason: copy_reason(&outcome.revert_reason),
        };
    }
    let gas_cost = outcome.gas_used.mul_sat(gas_price);
    SimulationResult {
        success: true,
        profit: expected_gross.sub_sat(&gas_cost),
        gas_used: outcome.gas_used,
        revert_reason: None,
    }
}

/// The rejection policy: only a successful rehearsal with strictly positive
/// net profit survives.
pub fn keep_candidate(sim: &SimulationResult) -> (r: bool)
    ensures
        r <==> sim.success && sim.profit@ > 0,
{
    sim.success && !sim.profit.is_zero()
}

} // verus!
