//! The strategy pipeline: turn one screened pending transaction into a
//! sandwich opportunity, rank opportunity lists for dispatch, throttle the
//! cross-venue search, and keep the relay's answer from ever stalling the
//! run.

use crate::calldata::{decode_swap, spec_decode_swap};
use crate::encode::{push_hex_u128, spec_hex_u128};
use crate::relay::RelayOutcome;
use crate::sandwich::{max_victim_gas_price_wei, min_victim_value_wei, plan_sandwich,
    priority_for, spec_effective_gas_price, spec_priority_for, spec_sandwich_accepted};
use crate::types::{Addr, ArbitrageDetails, MEVOpportunity, PendingTx, PoolInfo, StrategyType,
    TxHash, spec_ranks_before, spec_ranks_le, ranks_before};
use crate::u256::{sat_mul, U256};
use vstd::prelude::*;
use vstd::multiset::Multiset;
use vstd::seq_lib::group_to_multiset_ensures;

verus! {

/// The bytes of `sandwich_0x`.
pub open spec fn lit_sandwich_prefix() -> Seq<u8> {
    seq![115u8, 97, 110, 100, 119, 105, 99, 104, 95, 48, 120]
}

/// The opportunity id for a victim hash: `sandwich_0x<hi>_<lo>`.
pub open spec fn spec_sandwich_id(h: TxHash) -> Seq<u8> {
    lit_sandwich_prefix() + spec_hex_u128(h.hi as nat) + seq![95u8] + spec_hex_u128(h.lo as nat)
}

fn sandwich_id(h: &TxHash) -> (r: Vec<u8>)
    ensures
        r@ == spec_sandwich_id(*h),
{
    let mut out: Vec<u8> = vec![115u8, 97, 110, 100, 119, 105, 99, 104, 95, 48, 120];
    proof {
        assert(out@ =~= lit_sandwich_prefix());
    }
    push_hex_u128(&mut out, h.hi);
    out.push(95);
    push_hex_u128(&mut out, h.lo);
    proof {
        assert(out@ =~= spec_sandwich_id(*h));
    }
    out
}

/// The victim's input amount: the calldata argument for token-input swaps,
/// the transaction value for native-input swaps.
pub open spec fn spec_victim_amount(tx: &PendingTx, amount_arg: Option<nat>) -> nat {
    match amount_arg {
        Some(a) => a,
        None => tx.value@,
    }
}

/// The pool reserves seen from the trade direction: input side first.
pub open spec fn spec_directed_reserves(pool: &PoolInfo, token_in: nat) -> (nat, nat) {
    if token_in == pool.token0@ {
        (pool.reserve0@, pool.reserve1@)
    } else {
        (pool.reserve1@, pool.reserve0@)
    }
}

/// Whether a pending transaction yields a sandwich on the given pool.
pub open spec fn spec_tx_yields_sandwich(tx: &PendingTx, pool: &PoolInfo, gas_cost: nat,
    min_profit: nat, max_position: nat) -> bool {
    match spec_decode_swap(tx.input@) {
        None => false,
        Some(d) => {
            let path = d.3;
            &&& path.len() >= 2
            &&& spec_sandwich_accepted(tx, spec_victim_amount(tx, d.1), spec_directed_reserves(
                pool, path[0]).0, spec_directed_reserves(pool, path[0]).1, pool.fee_bps as nat,
                gas_cost, min_profit, max_position)
        },
    }
}

/// Analyze one pending transaction against the pool its route trades on:
/// decode the calldata, screen the victim, optimize the frontrun, and emit
/// the full opportunity or nothing. Too little value, a zero or excessive
/// gas price, or undecodable calldata all emit nothing.
pub fn analyze_swap_tx(tx: &PendingTx, pool: &PoolInfo, current_block: u64, gas_cost: &U256,
    min_profit: &U256, max_position: &U256) -> (r: Option<MEVOpportunity>)
    requires
        current_block < u64::MAX,
    ensures
        r is Some <==> spec_tx_yields_sandwich(tx, pool, gas_cost@, min_profit@, max_position@),
        tx.input@.len() < 4 ==> r is None,
        tx.value@ < min_victim_value_wei() ==> r is None,
        spec_effective_gas_price(tx) == 0 ==> r is None,
        spec_effective_gas_price(tx) > max_victim_gas_price_wei() ==> r is None,
        r matches Some(o) ==> {
            &&& o.wf()
            &&& o.expiry_block == current_block + 1
            &&& o.gas_cost@ == gas_cost@
            &&& o.id@ == spec_sandwich_id(tx.hash)
            &&& o.priority == spec_priority_for(o.estimated_profit@)
            &&& match spec_decode_swap(tx.input@) {
                Some(d) => {
                    let v = spec_victim_amount(tx, d.1);
                    let rs = spec_directed_reserves(pool, d.3[0]);
                    let best = crate::sandwich::spec_best_frontrun(v, rs.0, rs.1,
                        pool.fee_bps as nat, gas_cost@, max_position@);
                    &&& o.estimated_profit@ == best.1
                    &&& (o.strategy matches StrategyType::Sandwich(sd) && {
                        &&& sd.wf()
                        &&& sd.victim_gas_price@ == spec_effective_gas_price(tx)
                        &&& (sd.frontrun_gas_price@, sd.backrun_gas_price@)
                            == crate::sandwich::spec_gas_prices(spec_effective_gas_price(tx))
                        &&& sd.target_pool@ == pool.address@
                        &&& sd.token_in@ == d.3[0]
                        &&& sd.token_out@ == d.3[d.3.len() - 1]
                        &&& sd.victim_amount_in@ == v
                        &&& sd.victim_amount_out_min@ == d.2
                        &&& sd.frontrun_amount@ == best.0
                        &&& sd.backrun_amount@ == crate::u256::div0(crate::u256::sat_mul(best.0,
                            98), 100)
                    })
                },
                None => false,
            }
        },
{
    let decoded = match decode_swap(&tx.input) {
        None => {
            return None;
        },
        Some(d) => d,
    };
    if decoded.path.len() < 2 {
        return None;
    }
    let token_in = decoded.path[0];
    let token_out = decoded.path[decoded.path.len() - 1];
    let victim_amount = match decoded.amount_in {
        Some(a) => a,
        None => tx.value,
    };
    let (r_in, r_out) = if token_in.eq_addr(&pool.token0) {
        (pool.reserve0, pool.reserve1)
    } else {
        (pool.reserve1, pool.reserve0)
    };
    let planned = plan_sandwich(tx, &victim_amount, &decoded.amount_out_min, pool.address,
        token_in, token_out, &r_in, &r_out, pool.fee_bps, gas_cost, min_profit, max_position);
    match planned {
        None => None,
        Some((details, profit)) => {
            let priority = priority_for(&profit);
            Some(MEVOpportunity {
                id: sandwich_id(&tx.hash),
                strategy: StrategyType::Sandwich(details),
                estimated_profit: profit,
                gas_cost: *gas_cost,
                priority,
                expiry_block: current_block + 1,
            })
        },
    }
}

/// The dispatch order is transitive.
pub proof fn lemma_ranks_transitive(a: &MEVOpportunity, b: &MEVOpportunity, c: &MEVOpportunity)
    ensures
        spec_ranks_before(a, b) && spec_ranks_before(b, c) ==> spec_ranks_before(a, c),
        spec_ranks_le(a, b) && spec_ranks_le(b, c) ==> spec_ranks_le(a, c),
        spec_ranks_before(a, b) && spec_ranks_le(b, c) ==> spec_ranks_before(a, c),
{
}

/// The index of the opportunity that dispatches first: no other element
/// ranks strictly before it, and it is the first such element.
fn best_index(v: &Vec<MEVOpportunity>) -> (r: usize)
    requires
        v@.len() > 0,
    ensures
        r < v@.len(),
        forall|j: int| 0 <= j < v@.len() ==> !spec_ranks_before(&v@[j], &v@[r as int]),
{
    let n = v.len();
    let mut best: usize = 0;
    let mut i: usize = 1;
    while i < n
        invariant
            n == v@.len(),
            best < i <= n,
            forall|j: int| 0 <= j < i ==> !spec_ranks_before(&v@[j], &v@[best as int]),
        decreases n - i,
    {
        if ranks_before(&v[i], &v[best]) {
            proof {
                assert forall|j: int| 0 <= j < i implies !spec_ranks_before(&v@[j],
                    &v@[i as int]) by {
                    lemma_ranks_transitive(&v@[j], &v@[i as int], &v@[best as int]);
                }
            }
            best = i;
        }
        i = i + 1;
    }
    best
}

/// Sort opportunities into dispatch order: the result is ordered by the
/// ranking and holds exactly the input's elements.
pub fn rank_opportunities(input: Vec<MEVOpportunity>) -> (r: Vec<MEVOpportunity>)
    ensures
        r@.len() == input@.len(),
        r@.to_multiset() == input@.to_multiset(),
        forall|i: int, j: int| 0 <= i < j < r@.len() ==> spec_ranks_le(&r@[i], &r@[j]),
{
    broadcast use group_to_multiset_ensures;

    let mut src = input;
    let mut out: Vec<MEVOpportunity> = Vec::new();
    let ghost all: Multiset<MEVOpportunity> = src@.to_multiset();
    proof {
        assert(out@.to_multiset() =~= Multiset::<MEVOpportunity>::empty());
        assert(out@.to_multiset().add(src@.to_multiset()) =~= all);
    }
    while src.len() > 0
        invariant
            out@.to_multiset().add(src@.to_multiset()) == all,
            out@.len() + src@.len() == all.len(),
            forall|i: int, j: int| 0 <= i < j < out@.len() ==> spec_ranks_le(&out@[i], &out@[j]),
            forall|i: int, j: int|
                0 <= i < out@.len() && 0 <= j < src@.len() ==> spec_ranks_le(&out@[i], &src@[j]),
        decreases src@.len(),
    {
        let bi = best_index(&src);
        let ghost src_old: Seq<MEVOpportunity> = src@;
        let ghost out_old: Seq<MEVOpportunity> = out@;
        let e = src.remove(bi);
        out.push(e);
        proof {
            src_old.to_multiset_ensures();
            out_old.to_multiset_ensures();
            assert(src_old.contains(e));
            assert(src_old.to_multiset().count(e) > 0);
            assert(src@ =~= src_old.remove(bi as int));
            assert(src@.to_multiset() =~= src_old.to_multiset().remove(e));
            assert(out@ =~= out_old.push(e));
            assert(out@.to_multiset() =~= out_old.to_multiset().insert(e));
            assert(out@.to_multiset().add(src@.to_multiset()) =~= all);
            assert forall|i: int, j: int|
                0 <= i < out@.len() && 0 <= j < src@.len() implies spec_ranks_le(&out@[i],
                &src@[j]) by {
                assert(src@[j] == src_old[if j < bi {
                    j
                } else {
                    j + 1
                }]);
                if i < out@.len() - 1 {
                    lemma_ranks_transitive(&out@[i], &e, &src@[j]);
                }
            }
        }
    }
    proof {
        assert(src@.to_multiset() =~= Multiset::<MEVOpportunity>::empty());
        assert(out@.to_multiset() =~= all);
        assert(out@.to_multiset().len() == all.len());
    }
    out
}

/// Keep the first `k` of a ranked list: the top of the ranking proceeds to
/// simulation.
pub fn take_top(v: Vec<MEVOpportunity>, k: usize) -> (r: Vec<MEVOpportunity>)
    ensures
        r@ == v@.subrange(0, if k < v@.len() {
            k as int
        } else {
            v@.len() as int
        }),
{
    let ghost orig: Seq<MEVOpportunity> = v@;
    let mut v = v;
    proof {
        assert(orig.subrange(0, orig.len() as int) =~= orig);
    }
    while v.len() > k
        invariant
            v@ == orig.subrange(0, v@.len() as int),
            v@.len() >= k || v@.len() == orig.len(),
            v@.len() <= orig.len(),
        decreases v@.len(),
    {
        let ghost before: Seq<MEVOpportunity> = v@;
        v.pop();
        proof {
            assert(v@ =~= before.subrange(0, before.len() - 1));
            assert(orig.subrange(0, before.len() as int).subrange(0, before.len() - 1)
                =~= orig.subrange(0, before.len() - 1));
        }
    }
    v
}

/// The cross-venue search throttle: one admission in every hundred ticks.
pub struct ArbSampler {
    pub counter: u64,
}

impl ArbSampler {
    pub open spec fn wf(&self) -> bool {
        self.counter < 100
    }

    pub fn new() -> (r: ArbSampler)
        ensures
            r.wf(),
            r.counter == 0,
    {
        ArbSampler { counter: 0 }
    }

    /// Count one transaction; sample exactly when the period starts over.
    pub fn tick(&mut self) -> (sample: bool)
        requires
            old(self).wf(),
        ensures
            final(self).wf(),
            sample <==> old(self).counter == 0,
            final(self).counter == (old(self).counter + 1) % 100,
    {
        let sample = self.counter == 0;
        self.counter = (self.counter + 1) % 100;
        sample
    }
}

/// After the relay answers: a rejection or malformed answer drops only the
/// one opportunity; nothing the relay returns stops the run.
pub fn submission_confirmed(outcome: &RelayOutcome) -> (r: bool)
    ensures
        r <==> outcome matches RelayOutcome::Accepted { .. },
{
    match outcome {
        RelayOutcome::Accepted { .. } => true,
        _ => false,
    }
}

/// The fixed vocabulary of candidate cyclic routes for one observed token:
/// triangular and longer cycles through the wrapped native token and two
/// stables. Every route starts and ends at the wrapped token.
pub fn candidate_paths(token: Addr, weth: Addr, usdc: Addr, dai: Addr) -> (r: Vec<Vec<Addr>>)
    ensures
        r@.len() == 6,
        forall|i: int| 0 <= i < r@.len() ==> {
            &&& (#[trigger] r@[i])@.len() >= 4
            &&& r@[i]@.len() <= 6
            &&& r@[i]@[0]@ == weth@
            &&& r@[i]@[r@[i]@.len() - 1]@ == weth@
        },
{
    let mut out: Vec<Vec<Addr>> = Vec::new();
    let p1: Vec<Addr> = vec![weth, token, usdc, weth];
    let p2: Vec<Addr> = vec![weth, token, dai, weth];
    let p3: Vec<Addr> = vec![weth, usdc, token, dai, weth];
    let p4: Vec<Addr> = vec![weth, token, usdc, dai, weth];
    let p5: Vec<Addr> = vec![weth, dai, usdc, token, weth];
    let p6: Vec<Addr> = vec![weth, token, usdc, dai, token, weth];
    out.push(p1);
    out.push(p2);
    out.push(p3);
    out.push(p4);
    out.push(p5);
    out.push(p6);
    out
}

/// Make a ranked opportunity out of an accepted arbitrage plan.
pub fn arb_opportunity(id: Vec<u8>, details: ArbitrageDetails, base_fee: &U256, priority: u8,
    current_block: u64) -> (r: MEVOpportunity)
    requires
        details.wf(),
        priority <= 10,
        current_block < u64::MAX,
    ensures
        r.wf(),
        r.expiry_block == current_block + 1,
        r.estimated_profit@ == details.expected_profit@,
        r.gas_cost@ == sat_mul(details.gas_estimate@, base_fee@),
        r.priority == priority,
        r.id@ == id@,
        r.strategy matches StrategyType::Arbitrage(d) && d.wf(),
{
    let gas_cost = details.gas_estimate.mul_sat(base_fee);
    let estimated_profit = details.expected_profit;
    MEVOpportunity {
        id,
        strategy: StrategyType::Arbitrage(details),
        estimated_profit,
        gas_cost,
        priority,
        expiry_block: current_block + 1,
    }
}

} // verus!
