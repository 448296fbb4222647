//! Sandwich strategy: victim screening, the three-hop profit function, the
//! frontrun-size optimizers (bounded bisection and a Newton-style refinement),
//! and acceptance into a well-formed sandwich plan.

use crate::amm::{spec_amount_out, swap};
use crate::types::PendingTx;
use crate::u256::{div0, sat_add, sat_mul, sat_sub, u256_max, U256};
use vstd::arithmetic::div_mod::{
    lemma_div_is_ordered, lemma_div_is_ordered_by_denominator, lemma_fundamental_div_mod,
    lemma_mod_bound,
};
use vstd::prelude::*;

verus! {

/// 0.01 ETH in wei: the least victim value worth attacking.
pub open spec fn min_victim_value_wei() -> nat {
    10000000000000000
}

/// 500 gwei in wei: the highest victim gas price worth outbidding.
pub open spec fn max_victim_gas_price_wei() -> nat {
    500000000000
}

/// 2 gwei in wei: the premium over and under the victim's gas price.
pub open spec fn gas_premium_wei() -> nat {
    2000000000
}

/// 20 gwei in wei: the stand-in when the victim states no gas price.
pub open spec fn default_gas_price_wei() -> nat {
    20000000000
}

/// The gas price the victim effectively bids.
pub open spec fn spec_effective_gas_price(tx: &PendingTx) -> nat {
    match tx.gas_price {
        Some(gp) => gp@,
        None => default_gas_price_wei(),
    }
}

pub fn effective_gas_price(tx: &PendingTx) -> (r: U256)
    ensures
        r@ == spec_effective_gas_price(tx),
{
    match tx.gas_price {
        Some(gp) => gp,
        None => {
            let g = U256::from_u64(20000000000);
            g
        },
    }
}

/// Victim screening: enough value, a sane gas price, and a real recipient.
pub open spec fn spec_victim_ok(tx: &PendingTx) -> bool {
    &&& tx.value@ >= min_victim_value_wei()
    &&& tx.to is Some
    &&& spec_effective_gas_price(tx) > 0
    &&& spec_effective_gas_price(tx) <= max_victim_gas_price_wei()
}

pub fn victim_ok(tx: &PendingTx) -> (r: bool)
    ensures
        r <==> spec_victim_ok(tx),
{
    let min_value = U256::from_u64(10000000000000000);
    let max_gas = U256::from_u64(500000000000);
    if tx.value.lt(&min_value) {
        return false;
    }
    if tx.to.is_none() {
        return false;
    }
    let gp = effective_gas_price(tx);
    !gp.is_zero() && gp.le(&max_gas)
}

/// Gas prices for the frontrun and backrun slots: the victim plus and minus a
/// 2 gwei premium, halving instead when the victim bids under the premium.
/// Within the screened gas-price range the ordering is strict.
pub open spec fn spec_gas_prices(victim: nat) -> (nat, nat) {
    (sat_add(victim, gas_premium_wei()), if victim > gas_premium_wei() {
        (victim - gas_premium_wei()) as nat
    } else {
        victim / 2
    })
}

pub fn sandwich_gas_prices(victim: &U256) -> (r: (U256, U256))
    ensures
        (r.0@, r.1@) == spec_gas_prices(victim@),
        0 < victim@ <= max_victim_gas_price_wei() ==> r.0@ > victim@ && r.1@ < victim@,
{
    let premium = U256::from_u64(2000000000);
    let front = victim.add_sat(&premium);
    let back = if victim.gt(&premium) {
        victim.sub_sat(&premium)
    } else {
        let (half, _) = victim.divrem(&U256::from_u64(2));
        half
    };
    (front, back)
}

/// Profit of a sandwich with frontrun input `x`: run the frontrun, then the
/// victim, then sell the frontrun proceeds back, all on the constant-product
/// kernel; profit is what the backrun returns beyond the frontrun outlay.
pub open spec fn spec_profit(x: nat, victim_amount: nat, r_in: nat, r_out: nat, fee: nat) -> nat {
    sat_sub(spec_backrun_out(x, victim_amount, r_in, r_out, fee), x)
}

/// What the backrun returns: the last hop of the composed simulation.
pub open spec fn spec_backrun_out(x: nat, victim_amount: nat, r_in: nat, r_out: nat,
    fee: nat) -> nat {
    let y1 = spec_amount_out(x, r_in, r_out, fee);
    let r1_in = sat_add(r_in, x);
    let r1_out = sat_sub(r_out, y1);
    let y2 = spec_amount_out(victim_amount, r1_in, r1_out, fee);
    let r2_in = sat_add(r1_in, victim_amount);
    let r2_out = sat_sub(r1_out, y2);
    spec_amount_out(y1, r2_out, r2_in, fee)
}

pub fn sandwich_profit(x: &U256, victim_amount: &U256, r_in: &U256, r_out: &U256, fee: u64) -> (r:
    U256)
    ensures
        r@ == spec_profit(x@, victim_amount@, r_in@, r_out@, fee as nat),
{
    let (y1, r1_in, r1_out) = swap(x, r_in, r_out, fee);
    let (_y2, r2_in, r2_out) = swap(victim_amount, &r1_in, &r1_out, fee);
    let (back, _, _) = swap(&y1, &r2_out, &r2_in, fee);
    back.sub_sat(x)
}

/// A strictly positive profit means the backrun returns strictly more than
/// the frontrun put in.
pub proof fn lemma_profit_means_backrun_exceeds_frontrun(x: nat, victim_amount: nat, r_in: nat,
    r_out: nat, fee: nat)
    requires
        spec_profit(x, victim_amount, r_in, r_out, fee) > 0,
    ensures
        spec_backrun_out(x, victim_amount, r_in, r_out, fee) > x,
{
}

/// A drained pool yields no sandwich profit at any frontrun size.
pub proof fn lemma_zero_reserves_zero_profit(x: nat, victim_amount: nat, r_in: nat, r_out: nat,
    fee: nat)
    requires
        r_in == 0 || r_out == 0,
    ensures
        spec_profit(x, victim_amount, r_in, r_out, fee) == 0,
{
    assert(spec_amount_out(x, r_in, r_out, fee) == 0);
}

/// 0.01 ETH in wei: the lower bracket end of the frontrun search.
pub open spec fn min_frontrun_wei() -> nat {
    10000000000000000
}

/// Bounded bisection over the frontrun size. The bracket starts at
/// `[lo, hi]`; each round probes the midpoint, keeps the best profit seen,
/// and moves the end chosen by comparing the probe against the gas cost.
/// It stops when the fuel runs out, the bracket empties, or the bracket
/// width falls under the tolerance.
pub open spec fn spec_bisect(v: nat, r_in: nat, r_out: nat, fee: nat, gas: nat, lo: nat, hi: nat,
    bx: nat, bp: nat, tol: nat, fuel: nat) -> (nat, nat)
    decreases fuel,
{
    if fuel == 0 || lo > hi || hi - lo < tol {
        (bx, bp)
    } else {
        let mid = ((lo + hi) / 2) as nat;
        let p = spec_profit(mid, v, r_in, r_out, fee);
        let bx2 = if p > bp {
            mid
        } else {
            bx
        };
        let bp2 = if p > bp {
            p
        } else {
            bp
        };
        if p > gas {
            spec_bisect(v, r_in, r_out, fee, gas, (mid + 1) as nat, hi, bx2, bp2, tol, (fuel
                - 1) as nat)
        } else if mid == 0 {
            (bx2, bp2)
        } else {
            spec_bisect(v, r_in, r_out, fee, gas, lo, (mid - 1) as nat, bx2, bp2, tol, (fuel
                - 1) as nat)
        }
    }
}

/// The documented frontrun search: bracket `[0.01 ETH, r_in / 5]`, tolerance
/// `r_in / 10^6`, forty rounds.
pub open spec fn spec_optimal_frontrun(v: nat, r_in: nat, r_out: nat, fee: nat, gas: nat) -> (nat,
    nat) {
    spec_bisect(v, r_in, r_out, fee, gas, min_frontrun_wei(), r_in / 5, 0, 0, r_in / 1000000, 40)
}

/// The optimizer is a function of its inputs: two runs agree exactly.
pub proof fn lemma_optimizer_deterministic(v: nat, r_in: nat, r_out: nat, fee: nat, gas: nat, r1: (
    nat, nat), r2: (nat, nat))
    requires
        r1 == spec_optimal_frontrun(v, r_in, r_out, fee, gas),
        r2 == spec_optimal_frontrun(v, r_in, r_out, fee, gas),
    ensures
        r1 == r2,
{
}

/// Bounded bisection for the profit-maximising frontrun size, pinned to
/// `spec_optimal_frontrun`. The returned size never exceeds a fifth of the
/// input reserve, and a drained pool yields zero profit.
pub fn optimize_frontrun_bisect(victim_amount: &U256, r_in: &U256, r_out: &U256, fee: u64,
    gas_cost: &U256) -> (r: (U256, U256))
    ensures
        (r.0@, r.1@) == spec_optimal_frontrun(victim_amount@, r_in@, r_out@, fee as nat,
            gas_cost@),
        r.1@ == spec_profit(r.0@, victim_amount@, r_in@, r_out@, fee as nat),
        r.0@ <= r_in@ / 5,
        r_in@ == 0 || r_out@ == 0 ==> r.1@ == 0,
{
    let five = U256::from_u64(5);
    let million = U256::from_u64(1000000);
    let two = U256::from_u64(2);
    let one = U256::from_u64(1);
    let (hi0, _) = r_in.divrem(&five);
    let (tol, _) = r_in.divrem(&million);
    let mut lo = U256::from_u64(10000000000000000);
    let mut hi = hi0;
    let mut bx = U256::zero();
    let mut bp = U256::zero();
    let mut k: u64 = 0;
    proof {
        lemma_fundamental_div_mod(r_in@ as int, 5);
        lemma_mod_bound(r_in@ as int, 5);
        if r_in@ == 0 || r_out@ == 0 {
            lemma_zero_reserves_zero_profit(0, victim_amount@, r_in@, r_out@, fee as nat);
        }
    }
    loop
        invariant
            five@ == 5,
            two@ == 2,
            one@ == 1,
            k <= 40,
            hi0@ == r_in@ / 5,
            5 * hi0@ <= r_in@,
            r_in@ < crate::u256::b256(),
            tol@ == r_in@ / 1000000,
            bp@ == spec_profit(bx@, victim_amount@, r_in@, r_out@, fee as nat),
            bx@ <= hi0@,
            hi@ <= hi0@,
            lo@ <= hi0@ + 1 || lo@ == min_frontrun_wei(),
            spec_optimal_frontrun(victim_amount@, r_in@, r_out@, fee as nat, gas_cost@)
                == spec_bisect(victim_amount@, r_in@, r_out@, fee as nat, gas_cost@, lo@, hi@,
                bx@, bp@, tol@, (40 - k) as nat),
        ensures
            (bx@, bp@) == spec_optimal_frontrun(victim_amount@, r_in@, r_out@, fee as nat,
                gas_cost@),
            bx@ <= hi0@,
            bp@ == spec_profit(bx@, victim_amount@, r_in@, r_out@, fee as nat),
        decreases 41 - k,
    {
        if k >= 40 {
            break;
        }
        if !lo.le(&hi) {
            break;
        }
        let width = hi.sub_sat(&lo);
        if width.lt(&tol) {
            break;
        }
        let ghost lo_old: nat = lo@;
        let ghost hi_old: nat = hi@;
        let ghost bx_old: nat = bx@;
        let ghost bp_old: nat = bp@;
        let ghost fuel_old: nat = (40 - k) as nat;
        proof {
            assert(lo@ + hi@ <= u256_max());
        }
        let sum = lo.add_sat(&hi);
        let (mid, _) = sum.divrem(&two);
        proof {
            lemma_div_is_ordered((2 * lo@) as int, (lo@ + hi@) as int, 2);
            lemma_div_is_ordered((lo@ + hi@) as int, (2 * hi@) as int, 2);
            assert(lo@ <= mid@ <= hi@);
        }
        let p = sandwich_profit(&mid, victim_amount, r_in, r_out, fee);
        if p.gt(&bp) {
            bx = mid;
            bp = p;
        }
        if p.gt(gas_cost) {
            lo = mid.add_sat(&one);
        } else if mid.is_zero() {
            proof {
                assert(spec_bisect(victim_amount@, r_in@, r_out@, fee as nat, gas_cost@, lo_old,
                    hi_old, bx_old, bp_old, tol@, fuel_old) == (bx@, bp@));
            }
            break;
        } else {
            hi = mid.sub_sat(&one);
        }
        k = k + 1;
        proof {
            assert(spec_bisect(victim_amount@, r_in@, r_out@, fee as nat, gas_cost@, lo_old,
                hi_old, bx_old, bp_old, tol@, fuel_old) == spec_bisect(victim_amount@, r_in@,
                r_out@, fee as nat, gas_cost@, lo@, hi@, bx@, bp@, tol@, (fuel_old
                - 1) as nat));
        }
    }
    proof {
        if r_in@ == 0 || r_out@ == 0 {
            lemma_zero_reserves_zero_profit(bx@, victim_amount@, r_in@, r_out@, fee as nat);
        }
    }
    (bx, bp)
}

/// Newton-style refinement of the frontrun size: probe the profit and a
/// forward difference, step by the ratio, clamp to a fifth of the input
/// reserve and the position cap, and keep the best profit seen. The round
/// ends early when the derivative collapses.
pub open spec fn spec_newton(v: nat, r_in: nat, r_out: nat, fee: nat, max_position: nat, x: nat,
    bx: nat, bp: nat, fuel: nat) -> (nat, nat)
    decreases fuel,
{
    if fuel == 0 {
        (bx, bp)
    } else {
        let p = spec_profit(x, v, r_in, r_out, fee);
        let bx2 = if p > bp {
            x
        } else {
            bx
        };
        let bp2 = if p > bp {
            p
        } else {
            bp
        };
        let h = (x / 1000 + 1) as nat;
        let p_plus = spec_profit((x + h) as nat, v, r_in, r_out, fee);
        let der = sat_sub(p_plus, p) / h;
        if der > 1000 {
            let adj = (sat_mul(p, 1000000000000000000) / der) / 1000000000000000000;
            let stepped = sat_add(x, adj);
            let cap = if max_position < r_in / 5 {
                max_position
            } else {
                r_in / 5
            };
            let x2 = if stepped < cap {
                stepped
            } else {
                cap
            };
            spec_newton(v, r_in, r_out, fee, max_position, x2, bx2, bp2, (fuel - 1) as nat)
        } else {
            (bx2, bp2)
        }
    }
}

/// The documented refinement: start at a twentieth of the reserve, ten rounds.
pub open spec fn spec_newton_frontrun(v: nat, r_in: nat, r_out: nat, fee: nat,
    max_position: nat) -> (nat, nat) {
    spec_newton(v, r_in, r_out, fee, max_position, r_in / 20, 0, 0, 10)
}

/// Newton-style frontrun refinement, pinned to `spec_newton_frontrun`.
pub fn optimize_frontrun_newton(victim_amount: &U256, r_in: &U256, r_out: &U256, fee: u64,
    max_position: &U256) -> (r: (U256, U256))
    ensures
        (r.0@, r.1@) == spec_newton_frontrun(victim_amount@, r_in@, r_out@, fee as nat,
            max_position@),
        r.1@ == spec_profit(r.0@, victim_amount@, r_in@, r_out@, fee as nat),
        r.0@ <= r_in@ / 5,
        r_in@ == 0 || r_out@ == 0 ==> r.1@ == 0,
{
    let five = U256::from_u64(5);
    let twenty = U256::from_u64(20);
    let thousand = U256::from_u64(1000);
    let one = U256::from_u64(1);
    let wad = U256::from_u64(1000000000000000000);
    let (cap5, _) = r_in.divrem(&five);
    let cap = if max_position.lt(&cap5) {
        *max_position
    } else {
        cap5
    };
    let (mut x, _) = r_in.divrem(&twenty);
    let mut bx = U256::zero();
    let mut bp = U256::zero();
    let mut k: u64 = 0;
    proof {
        lemma_fundamental_div_mod(r_in@ as int, 5);
        lemma_mod_bound(r_in@ as int, 5);
        lemma_fundamental_div_mod(r_in@ as int, 20);
        lemma_mod_bound(r_in@ as int, 20);
        lemma_div_is_ordered_by_denominator(r_in@ as int, 5, 20);
        if r_in@ == 0 || r_out@ == 0 {
            lemma_zero_reserves_zero_profit(bx@, victim_amount@, r_in@, r_out@, fee as nat);
        }
    }
    loop
        invariant
            five@ == 5,
            one@ == 1,
            thousand@ == 1000,
            wad@ == 1000000000000000000,
            k <= 10,
            cap5@ == r_in@ / 5,
            5 * cap5@ <= r_in@,
            cap@ == (if max_position@ < r_in@ / 5 { max_position@ } else { r_in@ / 5 }),
            x@ <= r_in@ / 5,
            bx@ <= r_in@ / 5,
            bp@ == spec_profit(bx@, victim_amount@, r_in@, r_out@, fee as nat),
            spec_newton_frontrun(victim_amount@, r_in@, r_out@, fee as nat, max_position@)
                == spec_newton(victim_amount@, r_in@, r_out@, fee as nat, max_position@, x@, bx@,
                bp@, (10 - k) as nat),
        ensures
            (bx@, bp@) == spec_newton_frontrun(victim_amount@, r_in@, r_out@, fee as nat,
                max_position@),
            bx@ <= r_in@ / 5,
            bp@ == spec_profit(bx@, victim_amount@, r_in@, r_out@, fee as nat),
        decreases 11 - k,
    {
        if k >= 10 {
            break;
        }
        let ghost x_old: nat = x@;
        let ghost bx_old: nat = bx@;
        let ghost bp_old: nat = bp@;
        let ghost fuel_old: nat = (10 - k) as nat;
        let p = sandwich_profit(&x, victim_amount, r_in, r_out, fee);
        if p.gt(&bp) {
            bx = x;
            bp = p;
        }
        let (h0, _) = x.divrem(&thousand);
        let h = h0.add_sat(&one);
        proof {
            lemma_fundamental_div_mod(x@ as int, 1000);
            lemma_mod_bound(x@ as int, 1000);
            assert(x@ + h@ <= u256_max());
        }
        let x_plus = x.add_sat(&h);
        let p_plus = sandwich_profit(&x_plus, victim_amount, r_in, r_out, fee);
        let (der, _) = p_plus.sub_sat(&p).divrem(&h);
        if der.gt(&thousand) {
            let scaled = p.mul_u64_sat(1000000000000000000);
            let (q1, _) = scaled.divrem(&der);
            let (adj, _) = q1.divrem(&wad);
            let stepped = x.add_sat(&adj);
            x = if stepped.lt(&cap) {
                stepped
            } else {
                cap
            };
            k = k + 1;
            proof {
                assert(spec_newton(victim_amount@, r_in@, r_out@, fee as nat, max_position@,
                    x_old, bx_old, bp_old, fuel_old) == spec_newton(victim_amount@, r_in@,
                    r_out@, fee as nat, max_position@, x@, bx@, bp@, (fuel_old - 1) as nat));
            }
        } else {
            proof {
                assert(spec_newton(victim_amount@, r_in@, r_out@, fee as nat, max_position@,
                    x_old, bx_old, bp_old, fuel_old) == (bx@, bp@));
            }
            break;
        }
    }
    proof {
        if r_in@ == 0 || r_out@ == 0 {
            lemma_zero_reserves_zero_profit(bx@, victim_amount@, r_in@, r_out@, fee as nat);
        }
    }
    (bx, bp)
}

/// The better of the two searches: bisection cross-checked against the
/// Newton-style refinement, keeping whichever found more profit.
pub open spec fn spec_best_frontrun(v: nat, r_in: nat, r_out: nat, fee: nat, gas: nat,
    max_position: nat) -> (nat, nat) {
    let b = spec_optimal_frontrun(v, r_in, r_out, fee, gas);
    let n = spec_newton_frontrun(v, r_in, r_out, fee, max_position);
    if n.1 > b.1 {
        n
    } else {
        b
    }
}

pub fn best_frontrun(victim_amount: &U256, r_in: &U256, r_out: &U256, fee: u64, gas_cost: &U256,
    max_position: &U256) -> (r: (U256, U256))
    ensures
        (r.0@, r.1@) == spec_best_frontrun(victim_amount@, r_in@, r_out@, fee as nat, gas_cost@,
            max_position@),
        r.1@ == spec_profit(r.0@, victim_amount@, r_in@, r_out@, fee as nat),
        r.0@ <= r_in@ / 5,
        r_in@ == 0 || r_out@ == 0 ==> r.1@ == 0,
{
    let (bx, bp) = optimize_frontrun_bisect(victim_amount, r_in, r_out, fee, gas_cost);
    let (nx, np) = optimize_frontrun_newton(victim_amount, r_in, r_out, fee, max_position);
    if np.gt(&bp) {
        (nx, np)
    } else {
        (bx, bp)
    }
}

/// Price impact of the frontrun as parts per million of the input reserve,
/// clamped to one: reporting only.
pub open spec fn spec_price_impact_ppm(x: nat, r_in: nat) -> nat {
    let raw = div0(sat_mul(x, 1000000), r_in);
    if raw > 1000000 {
        1000000
    } else {
        raw
    }
}

pub fn price_impact_ppm(x: &U256, r_in: &U256) -> (r: u64)
    ensures
        r == spec_price_impact_ppm(x@, r_in@),
        r <= 1000000,
{
    let raw = x.mul_u64_sat(1000000).div_or_zero(r_in);
    let million = U256::from_u64(1000000);
    if million.lt(&raw) {
        1000000
    } else {
        raw.as_u64()
    }
}

/// The dispatch priority for a sandwich profit, higher for larger profits.
pub open spec fn spec_priority_for(profit: nat) -> u8 {
    if profit > 1000000000000000000 {
        10
    } else if profit > 500000000000000000 {
        8
    } else {
        5
    }
}

pub fn priority_for(profit: &U256) -> (r: u8)
    ensures
        r == spec_priority_for(profit@),
        r <= 10,
{
    let one_eth = U256::from_u64(1000000000000000000);
    let half_eth = U256::from_u64(500000000000000000);
    if profit.gt(&one_eth) {
        10
    } else if profit.gt(&half_eth) {
        8
    } else {
        5
    }
}

/// Whether a sandwich on these terms is accepted: a screened victim with a
/// positive stated amount, and a best profit that clears both the absolute
/// floor and twice the gas estimate.
pub open spec fn spec_sandwich_accepted(victim: &PendingTx, victim_amount_in: nat, r_in: nat,
    r_out: nat, fee: nat, gas_cost: nat, min_profit: nat, max_position: nat) -> bool {
    let best = spec_best_frontrun(victim_amount_in, r_in, r_out, fee, gas_cost, max_position);
    &&& spec_victim_ok(victim)
    &&& victim_amount_in > 0
    &&& best.1 >= min_profit
    &&& best.1 > 2 * gas_cost
}

/// Screen the victim, search for the best frontrun size, and either reject
/// or assemble the full sandwich plan together with its expected profit.
pub fn plan_sandwich(victim: &PendingTx, victim_amount_in: &U256, victim_amount_out_min: &U256,
    target_pool: crate::types::Addr, token_in: crate::types::Addr, token_out: crate::types::Addr,
    r_in: &U256, r_out: &U256, fee: u64, gas_cost: &U256, min_profit: &U256, max_position: &U256)
    -> (r: Option<(crate::types::SandwichDetails, U256)>)
    ensures
        r is Some <==> spec_sandwich_accepted(victim, victim_amount_in@, r_in@, r_out@,
            fee as nat, gas_cost@, min_profit@, max_position@),
        r matches Some(p) ==> {
            let best = spec_best_frontrun(victim_amount_in@, r_in@, r_out@, fee as nat,
                gas_cost@, max_position@);
            &&& p.0.wf()
            &&& p.0.frontrun_amount@ == best.0
            &&& p.1@ == best.1
            &&& p.1@ == spec_profit(p.0.frontrun_amount@, victim_amount_in@, r_in@, r_out@,
                fee as nat)
            &&& p.0.frontrun_amount@ <= r_in@ / 5
            &&& p.0.backrun_amount@ == div0(sat_mul(best.0, 98), 100)
            &&& p.0.victim_amount_in@ == victim_amount_in@
            &&& p.0.victim_amount_out_min@ == victim_amount_out_min@
            &&& p.0.victim_gas_price@ == spec_effective_gas_price(victim)
            &&& (p.0.frontrun_gas_price@, p.0.backrun_gas_price@) == spec_gas_prices(
                spec_effective_gas_price(victim))
            &&& p.0.price_impact_ppm == spec_price_impact_ppm(best.0, r_in@)
            &&& p.0.target_pool@ == target_pool@
            &&& p.0.token_in@ == token_in@
            &&& p.0.token_out@ == token_out@
        },
{
    if !victim_ok(victim) {
        return None;
    }
    if victim_amount_in.is_zero() {
        return None;
    }
    let (x, p) = best_frontrun(victim_amount_in, r_in, r_out, fee, gas_cost, max_position);
    if p.lt(min_profit) {
        return None;
    }
    let doubled = gas_cost.mul_u64_sat(2);
    if !p.gt(&doubled) {
        proof {
            assert(p@ <= 2 * gas_cost@);
        }
        return None;
    }
    proof {
        assert(p@ > 2 * gas_cost@);
    }
    let hundred = U256::from_u64(100);
    let (backrun, _) = x.mul_u64_sat(98).divrem(&hundred);
    let vgp = effective_gas_price(victim);
    let (front_gp, back_gp) = sandwich_gas_prices(&vgp);
    let ppm = price_impact_ppm(&x, r_in);
    Some((
        crate::types::SandwichDetails {
            target_pool,
            token_in,
            token_out,
            frontrun_amount: x,
            backrun_amount: backrun,
            victim_amount_in: *victim_amount_in,
            victim_amount_out_min: *victim_amount_out_min,
            price_impact_ppm: ppm,
            victim_gas_price: vgp,
            frontrun_gas_price: front_gp,
            backrun_gas_price: back_gp,
        },
        p,
    ))
}

/// The bisection keeps its best pair consistent: the returned profit is the
/// profit of the returned size.
pub proof fn lemma_bisect_consistent(v: nat, r_in: nat, r_out: nat, fee: nat, gas: nat, lo: nat,
    hi: nat, bx: nat, bp: nat, tol: nat, fuel: nat)
    requires
        bp == spec_profit(bx, v, r_in, r_out, fee),
    ensures
        spec_bisect(v, r_in, r_out, fee, gas, lo, hi, bx, bp, tol, fuel).1 == spec_profit(
            spec_bisect(v, r_in, r_out, fee, gas, lo, hi, bx, bp, tol, fuel).0, v, r_in, r_out,
            fee),
    decreases fuel,
{
    if fuel == 0 || lo > hi || hi - lo < tol {
    } else {
        let mid = ((lo + hi) / 2) as nat;
        let p = spec_profit(mid, v, r_in, r_out, fee);
        let bx2 = if p > bp {
            mid
        } else {
            bx
        };
        let bp2 = if p > bp {
            p
        } else {
            bp
        };
        if p > gas {
            lemma_bisect_consistent(v, r_in, r_out, fee, gas, (mid + 1) as nat, hi, bx2, bp2,
                tol, (fuel - 1) as nat);
        } else if mid == 0 {
        } else {
            lemma_bisect_consistent(v, r_in, r_out, fee, gas, lo, (mid - 1) as nat, bx2, bp2,
                tol, (fuel - 1) as nat);
        }
    }
}

/// The Newton rounds keep the same consistency.
pub proof fn lemma_newton_consistent(v: nat, r_in: nat, r_out: nat, fee: nat, max_position: nat,
    x: nat, bx: nat, bp: nat, fuel: nat)
    requires
        bp == spec_profit(bx, v, r_in, r_out, fee),
    ensures
        spec_newton(v, r_in, r_out, fee, max_position, x, bx, bp, fuel).1 == spec_profit(
            spec_newton(v, r_in, r_out, fee, max_position, x, bx, bp, fuel).0, v, r_in, r_out,
            fee),
    decreases fuel,
{
    if fuel == 0 {
    } else {
        let p = spec_profit(x, v, r_in, r_out, fee);
        let bx2 = if p > bp {
            x
        } else {
            bx
        };
        let bp2 = if p > bp {
            p
        } else {
            bp
        };
        let h = (x / 1000 + 1) as nat;
        let p_plus = spec_profit((x + h) as nat, v, r_in, r_out, fee);
        let der = sat_sub(p_plus, p) / h;
        if der > 1000 {
            let adj = (sat_mul(p, 1000000000000000000) / der) / 1000000000000000000;
            let stepped = sat_add(x, adj);
            let cap = if max_position < r_in / 5 {
                max_position
            } else {
                r_in / 5
            };
            let x2 = if stepped < cap {
                stepped
            } else {
                cap
            };
            lemma_newton_consistent(v, r_in, r_out, fee, max_position, x2, bx2, bp2, (fuel
                - 1) as nat);
        }
    }
}

/// The combined search also returns the profit of the size it returns.
pub proof fn lemma_best_frontrun_consistent(v: nat, r_in: nat, r_out: nat, fee: nat, gas: nat,
    max_position: nat)
    ensures
        spec_best_frontrun(v, r_in, r_out, fee, gas, max_position).1 == spec_profit(
            spec_best_frontrun(v, r_in, r_out, fee, gas, max_position).0, v, r_in, r_out, fee),
{
    lemma_bisect_consistent(v, r_in, r_out, fee, gas, min_frontrun_wei(), r_in / 5, 0, 0, r_in
        / 1000000, 40);
    lemma_newton_consistent(v, r_in, r_out, fee, max_position, r_in / 20, 0, 0, 10);
}

/// Any accepted sandwich is strictly profitable before gas: the composed
/// simulation returns more from the backrun than the frontrun put in.
pub proof fn lemma_accepted_sandwich_profitable(victim: &PendingTx, v: nat, r_in: nat,
    r_out: nat, fee: nat, gas: nat, min_profit: nat, max_position: nat)
    requires
        spec_sandwich_accepted(victim, v, r_in, r_out, fee, gas, min_profit, max_position),
        min_profit > 0,
    ensures
        spec_backrun_out(spec_best_frontrun(v, r_in, r_out, fee, gas, max_position).0, v, r_in,
            r_out, fee) > spec_best_frontrun(v, r_in, r_out, fee, gas, max_position).0,
{
    let best = spec_best_frontrun(v, r_in, r_out, fee, gas, max_position);
    lemma_best_frontrun_consistent(v, r_in, r_out, fee, gas, max_position);
    lemma_profit_means_backrun_exceeds_frontrun(best.0, v, r_in, r_out, fee);
}

/// With zero best profit at the start, the bisection never finds more on a
/// drained pool.
proof fn lemma_bisect_zero_reserves(v: nat, r_in: nat, r_out: nat, fee: nat, gas: nat, lo: nat,
    hi: nat, bx: nat, tol: nat, fuel: nat)
    requires
        r_in == 0 || r_out == 0,
    ensures
        spec_bisect(v, r_in, r_out, fee, gas, lo, hi, bx, 0, tol, fuel).1 == 0,
    decreases fuel,
{
    if fuel == 0 || lo > hi || hi - lo < tol {
    } else {
        let mid = ((lo + hi) / 2) as nat;
        lemma_zero_reserves_zero_profit(mid, v, r_in, r_out, fee);
        let p = spec_profit(mid, v, r_in, r_out, fee);
        if p > gas {
            lemma_bisect_zero_reserves(v, r_in, r_out, fee, gas, (mid + 1) as nat, hi, bx, tol,
                (fuel - 1) as nat);
        } else if mid == 0 {
        } else {
            lemma_bisect_zero_reserves(v, r_in, r_out, fee, gas, lo, (mid - 1) as nat, bx, tol,
                (fuel - 1) as nat);
        }
    }
}

/// Nor do the Newton rounds.
proof fn lemma_newton_zero_reserves(v: nat, r_in: nat, r_out: nat, fee: nat, max_position: nat,
    x: nat, bx: nat, fuel: nat)
    requires
        r_in == 0 || r_out == 0,
    ensures
        spec_newton(v, r_in, r_out, fee, max_position, x, bx, 0, fuel).1 == 0,
    decreases fuel,
{
    if fuel == 0 {
    } else {
        lemma_zero_reserves_zero_profit(x, v, r_in, r_out, fee);
        let p = spec_profit(x, v, r_in, r_out, fee);
        let h = (x / 1000 + 1) as nat;
        lemma_zero_reserves_zero_profit((x + h) as nat, v, r_in, r_out, fee);
        let p_plus = spec_profit((x + h) as nat, v, r_in, r_out, fee);
        let der = sat_sub(p_plus, p) / h;
        if der > 1000 {
            let adj = (sat_mul(p, 1000000000000000000) / der) / 1000000000000000000;
            let stepped = sat_add(x, adj);
            let cap = if max_position < r_in / 5 {
                max_position
            } else {
                r_in / 5
            };
            let x2 = if stepped < cap {
                stepped
            } else {
                cap
            };
            lemma_newton_zero_reserves(v, r_in, r_out, fee, max_position, x2, bx, (fuel
                - 1) as nat);
        }
    }
}

/// A drained pool emits nothing: with either reserve zero and a positive
/// profit floor, no sandwich is accepted.
pub proof fn lemma_zero_reserves_no_sandwich(victim: &PendingTx, v: nat, r_in: nat, r_out: nat,
    fee: nat, gas: nat, min_profit: nat, max_position: nat)
    requires
        r_in == 0 || r_out == 0,
        min_profit > 0,
    ensures
        !spec_sandwich_accepted(victim, v, r_in, r_out, fee, gas, min_profit, max_position),
        spec_best_frontrun(v, r_in, r_out, fee, gas, max_position).1 == 0,
{
    lemma_bisect_zero_reserves(v, r_in, r_out, fee, gas, min_frontrun_wei(), r_in / 5, 0, r_in
        / 1000000, 40);
    lemma_newton_zero_reserves(v, r_in, r_out, fee, max_position, r_in / 20, 0, 10);
}

/// The bisection never leaves its bracket: the returned size stays under
/// any bound that covers the bracket top and the best so far.
proof fn lemma_bisect_bounded(v: nat, r_in: nat, r_out: nat, fee: nat, gas: nat, lo: nat,
    hi: nat, bx: nat, bp: nat, tol: nat, fuel: nat, bound: nat)
    requires
        bx <= bound,
        hi <= bound,
    ensures
        spec_bisect(v, r_in, r_out, fee, gas, lo, hi, bx, bp, tol, fuel).0 <= bound,
    decreases fuel,
{
    if fuel == 0 || lo > hi || hi - lo < tol {
    } else {
        let mid = ((lo + hi) / 2) as nat;
        assert(mid <= hi) by (nonlinear_arith)
            requires
                lo <= hi,
                mid == (lo + hi) / 2,
        ;
        let p = spec_profit(mid, v, r_in, r_out, fee);
        let bx2 = if p > bp {
            mid
        } else {
            bx
        };
        let bp2 = if p > bp {
            p
        } else {
            bp
        };
        if p > gas {
            lemma_bisect_bounded(v, r_in, r_out, fee, gas, (mid + 1) as nat, hi, bx2, bp2, tol,
                (fuel - 1) as nat, bound);
        } else if mid == 0 {
        } else {
            lemma_bisect_bounded(v, r_in, r_out, fee, gas, lo, (mid - 1) as nat, bx2, bp2, tol,
                (fuel - 1) as nat, bound);
        }
    }
}

/// The Newton rounds never step past the position cap or a fifth of the
/// input reserve.
proof fn lemma_newton_bounded(v: nat, r_in: nat, r_out: nat, fee: nat, max_position: nat,
    x: nat, bx: nat, bp: nat, fuel: nat)
    requires
        x <= r_in / 5,
        bx <= r_in / 5,
    ensures
        spec_newton(v, r_in, r_out, fee, max_position, x, bx, bp, fuel).0 <= r_in / 5,
    decreases fuel,
{
    if fuel == 0 {
    } else {
        let p = spec_profit(x, v, r_in, r_out, fee);
        let bx2 = if p > bp {
            x
        } else {
            bx
        };
        let bp2 = if p > bp {
            p
        } else {
            bp
        };
        let h = (x / 1000 + 1) as nat;
        let p_plus = spec_profit((x + h) as nat, v, r_in, r_out, fee);
        let der = sat_sub(p_plus, p) / h;
        if der > 1000 {
            let adj = (sat_mul(p, 1000000000000000000) / der) / 1000000000000000000;
            let stepped = sat_add(x, adj);
            let cap = if max_position < r_in / 5 {
                max_position
            } else {
                r_in / 5
            };
            let x2 = if stepped < cap {
                stepped
            } else {
                cap
            };
            lemma_newton_bounded(v, r_in, r_out, fee, max_position, x2, bx2, bp2, (fuel
                - 1) as nat);
        }
    }
}

/// The combined search never proposes a frontrun above a fifth of the
/// input-side reserve.
pub proof fn lemma_frontrun_within_bracket(v: nat, r_in: nat, r_out: nat, fee: nat, gas: nat,
    max_position: nat)
    ensures
        spec_best_frontrun(v, r_in, r_out, fee, gas, max_position).0 <= r_in / 5,
{
    lemma_bisect_bounded(v, r_in, r_out, fee, gas, min_frontrun_wei(), r_in / 5, 0, 0, r_in
        / 1000000, 40, r_in / 5);
    lemma_div_is_ordered_by_denominator(r_in as int, 5, 20);
    lemma_newton_bounded(v, r_in, r_out, fee, max_position, r_in / 20, 0, 0, 10);
}

} // verus!
