//! Arbitrage search: evaluate cyclic token routes across pools, size the
//! input by bounded binary search, and accept routes whose profit clears the
//! floor and the pessimistic gas estimate.

use crate::amm::spec_amount_out;
use crate::amm::swap;
use crate::types::{Addr, ArbitrageDetails, PoolInfo};
use crate::u256::{div0, sat_mul, sat_sub, u256_max, U256};
use vstd::prelude::*;

verus! {

/// 0.01 ETH in wei: the smallest input worth routing.
pub open spec fn min_arb_input_wei() -> nat {
    10000000000000000
}

/// 100 ETH in wei: the largest input the search considers.
pub open spec fn max_arb_input_wei() -> nat {
    100000000000000000000
}

/// Gas units per hop of the composed arbitrage call, pessimistic.
pub open spec fn arb_gas_per_hop() -> nat {
    300000
}

/// The amount left after routing `a` through the hops from `i` on: each hop
/// swaps on its pool, entering on whichever side matches the source token.
pub open spec fn spec_path_amount(pools: Seq<PoolInfo>, path: Seq<Addr>, a: nat, i: nat) -> nat
    decreases pools.len() - i,
{
    if i >= pools.len() {
        a
    } else {
        let p = pools[i as int];
        let out = if path[i as int]@ == p.token0@ {
            spec_amount_out(a, p.reserve0@, p.reserve1@, p.fee_bps as nat)
        } else {
            spec_amount_out(a, p.reserve1@, p.reserve0@, p.fee_bps as nat)
        };
        spec_path_amount(pools, path, out, (i + 1) as nat)
    }
}

/// Profit of routing `a` around the whole cycle.
pub open spec fn spec_path_profit(pools: Seq<PoolInfo>, path: Seq<Addr>, a: nat) -> nat {
    sat_sub(spec_path_amount(pools, path, a, 0), a)
}

/// Route an amount through every hop.
pub fn eval_path(pools: &Vec<PoolInfo>, path: &Vec<Addr>, amount: &U256) -> (r: U256)
    requires
        path@.len() == pools@.len() + 1,
    ensures
        r@ == spec_path_amount(pools@, path@, amount@, 0),
{
    let mut cur = *amount;
    let mut i: usize = 0;
    while i < pools.len()
        invariant
            i <= pools@.len(),
            path@.len() == pools@.len() + 1,
            spec_path_amount(pools@, path@, amount@, 0) == spec_path_amount(pools@, path@, cur@,
                i as nat),
        decreases pools@.len() - i,
    {
        let p = &pools[i];
        let (out, _, _) = if path[i].eq_addr(&p.token0) {
            swap(&cur, &p.reserve0, &p.reserve1, p.fee_bps)
        } else {
            swap(&cur, &p.reserve1, &p.reserve0, p.fee_bps)
        };
        cur = out;
        i = i + 1;
    }
    cur
}

/// Profit of routing an amount around the cycle.
pub fn path_profit(pools: &Vec<PoolInfo>, path: &Vec<Addr>, amount: &U256) -> (r: U256)
    requires
        path@.len() == pools@.len() + 1,
    ensures
        r@ == spec_path_profit(pools@, path@, amount@),
{
    let fin = eval_path(pools, path, amount);
    fin.sub_sat(amount)
}

/// The smallest input-side reserve along the route.
pub open spec fn spec_tightest_reserve(pools: Seq<PoolInfo>, path: Seq<Addr>, i: nat) -> nat
    decreases pools.len() - i,
{
    if i >= pools.len() {
        u256_max()
    } else {
        let p = pools[i as int];
        let r_in = if path[i as int]@ == p.token0@ {
            p.reserve0@
        } else {
            p.reserve1@
        };
        let rest = spec_tightest_reserve(pools, path, (i + 1) as nat);
        if r_in < rest {
            r_in
        } else {
            rest
        }
    }
}

pub fn tightest_reserve(pools: &Vec<PoolInfo>, path: &Vec<Addr>) -> (r: U256)
    requires
        path@.len() == pools@.len() + 1,
    ensures
        r@ == spec_tightest_reserve(pools@, path@, 0),
{
    let mut best = U256::max_value();
    let mut i: usize = pools.len();
    while i > 0
        invariant
            i <= pools@.len(),
            path@.len() == pools@.len() + 1,
            best@ == spec_tightest_reserve(pools@, path@, i as nat),
        decreases i,
    {
        i = i - 1;
        let p = &pools[i];
        let r_in = if path[i].eq_addr(&p.token0) {
            p.reserve0
        } else {
            p.reserve1
        };
        if r_in.lt(&best) {
            best = r_in;
        }
    }
    best
}

/// Routing nothing yields nothing, whatever the route.
pub proof fn lemma_path_amount_zero(pools: Seq<PoolInfo>, path: Seq<Addr>, i: nat)
    ensures
        spec_path_amount(pools, path, 0, i) == 0,
    decreases pools.len() - i,
{
    if i >= pools.len() {
    } else {
        lemma_path_amount_zero(pools, path, (i + 1) as nat);
    }
}

/// Bounded binary search over the route input: probe the midpoint, keep the
/// best profit seen, and move up while the probe is profitable.
pub open spec fn spec_arb_search(pools: Seq<PoolInfo>, path: Seq<Addr>, lo: nat, hi: nat, bx: nat,
    bp: nat, fuel: nat) -> (nat, nat)
    decreases fuel,
{
    if fuel == 0 || lo > hi {
        (bx, bp)
    } else {
        let mid = ((lo + hi) / 2) as nat;
        let p = spec_path_profit(pools, path, mid);
        let bx2 = if p > bp {
            mid
        } else {
            bx
        };
        let bp2 = if p > bp {
            p
        } else {
            bp
        };
        if p > 0 {
            spec_arb_search(pools, path, (mid + 1) as nat, hi, bx2, bp2, (fuel - 1) as nat)
        } else if mid == 0 {
            (bx2, bp2)
        } else {
            spec_arb_search(pools, path, lo, (mid - 1) as nat, bx2, bp2, (fuel - 1) as nat)
        }
    }
}

/// The documented input sizing: twenty rounds over `[0.01 ETH, min(100 ETH,
/// tightest reserve / 5)]`.
pub open spec fn spec_optimal_arb_amount(pools: Seq<PoolInfo>, path: Seq<Addr>) -> (nat, nat) {
    let cap = spec_tightest_reserve(pools, path, 0) / 5;
    let hi = if cap < max_arb_input_wei() {
        cap
    } else {
        max_arb_input_wei()
    };
    spec_arb_search(pools, path, min_arb_input_wei(), hi, 0, 0, 20)
}

/// Binary search for the profit-maximising route input, pinned to
/// `spec_optimal_arb_amount`.
pub fn optimize_arb_amount(pools: &Vec<PoolInfo>, path: &Vec<Addr>) -> (r: (U256, U256))
    requires
        path@.len() == pools@.len() + 1,
    ensures
        (r.0@, r.1@) == spec_optimal_arb_amount(pools@, path@),
        r.1@ == spec_path_profit(pools@, path@, r.0@),
{
    let five = U256::from_u64(5);
    let two = U256::from_u64(2);
    let one = U256::from_u64(1);
    let max_input = U256::from_u128(100000000000000000000u128);
    let tight = tightest_reserve(pools, path);
    let (cap, _) = tight.divrem(&five);
    let hi0 = if cap.lt(&max_input) {
        cap
    } else {
        max_input
    };
    let mut lo = U256::from_u64(10000000000000000);
    let mut hi = hi0;
    let mut bx = U256::zero();
    let mut bp = U256::zero();
    let mut k: u64 = 0;
    proof {
        lemma_path_amount_zero(pools@, path@, 0);
    }
    loop
        invariant
            two@ == 2,
            one@ == 1,
            k <= 20,
            path@.len() == pools@.len() + 1,
            hi0@ <= max_arb_input_wei(),
            hi@ <= hi0@,
            lo@ <= hi0@ + 1 || lo@ == min_arb_input_wei(),
            bp@ == spec_path_profit(pools@, path@, bx@),
            spec_optimal_arb_amount(pools@, path@) == spec_arb_search(pools@, path@, lo@, hi@,
                bx@, bp@, (20 - k) as nat),
        ensures
            (bx@, bp@) == spec_optimal_arb_amount(pools@, path@),
            bp@ == spec_path_profit(pools@, path@, bx@),
        decreases 21 - k,
    {
        if k >= 20 {
            break;
        }
        if !lo.le(&hi) {
            break;
        }
        let ghost lo_old: nat = lo@;
        let ghost hi_old: nat = hi@;
        let ghost bx_old: nat = bx@;
        let ghost bp_old: nat = bp@;
        let ghost fuel_old: nat = (20 - k) as nat;
        let sum = lo.add_sat(&hi);
        proof {
            assert(lo@ + hi@ <= u256_max());
        }
        let (mid, _) = sum.divrem(&two);
        proof {
            vstd::arithmetic::div_mod::lemma_div_is_ordered((2 * lo@) as int, (lo@ + hi@) as int,
                2);
            vstd::arithmetic::div_mod::lemma_div_is_ordered((lo@ + hi@) as int, (2 * hi@) as int,
                2);
            assert(lo@ <= mid@ <= hi@);
        }
        let p = path_profit(pools, path, &mid);
        if p.gt(&bp) {
            bx = mid;
            bp = p;
        }
        if !p.is_zero() {
            lo = mid.add_sat(&one);
        } else if mid.is_zero() {
            proof {
                assert(spec_arb_search(pools@, path@, lo_old, hi_old, bx_old, bp_old, fuel_old)
                    == (bx@, bp@));
            }
            break;
        } else {
            hi = mid.sub_sat(&one);
        }
        k = k + 1;
        proof {
            assert(spec_arb_search(pools@, path@, lo_old, hi_old, bx_old, bp_old, fuel_old)
                == spec_arb_search(pools@, path@, lo@, hi@, bx@, bp@, (fuel_old - 1) as nat));
        }
    }
    (bx, bp)
}

/// The reserves a hop trades against, input side first.
pub open spec fn spec_hop_reserves(pools: Seq<PoolInfo>, path: Seq<Addr>, i: int) -> (nat, nat) {
    let p = pools[i];
    if path[i]@ == p.token0@ {
        (p.reserve0@, p.reserve1@)
    } else {
        (p.reserve1@, p.reserve0@)
    }
}

/// Along any route, a hop's output never exceeds the reserve it draws from,
/// whatever amount enters the hop.
pub proof fn lemma_route_hop_output_bounded(pools: Seq<PoolInfo>, path: Seq<Addr>, a: nat,
    i: int)
    requires
        0 <= i < pools.len(),
    ensures
        spec_amount_out(a, spec_hop_reserves(pools, path, i).0, spec_hop_reserves(pools, path,
            i).1, pools[i].fee_bps as nat) <= spec_hop_reserves(pools, path, i).1,
{
    let rs = spec_hop_reserves(pools, path, i);
    crate::amm::lemma_amount_out_le_reserve(a, rs.0, rs.1, pools[i].fee_bps as nat);
}

/// Along any route, a hop leaves the product of its pool's reserves no
/// smaller, for inputs on which none of the 256-bit intermediates saturates.
pub proof fn lemma_route_hop_product(pools: Seq<PoolInfo>, path: Seq<Addr>, a: nat, i: int)
    requires
        0 <= i < pools.len(),
        spec_hop_reserves(pools, path, i).0 > 0,
        spec_hop_reserves(pools, path, i).1 > 0,
        pools[i].fee_bps <= 10000,
        spec_hop_reserves(pools, path, i).0 * 10000 + a * (10000 - pools[i].fee_bps)
            <= u256_max(),
        a * (10000 - pools[i].fee_bps) * spec_hop_reserves(pools, path, i).1 <= u256_max(),
    ensures
        ({
            let rs = spec_hop_reserves(pools, path, i);
            let out = spec_amount_out(a, rs.0, rs.1, pools[i].fee_bps as nat);
            (rs.0 + a) * (rs.1 - out) >= rs.0 * rs.1
        }),
{
    let rs = spec_hop_reserves(pools, path, i);
    crate::amm::lemma_constant_product(a, rs.0, rs.1, pools[i].fee_bps as nat);
}

/// Whether a route of this shape is a candidate cycle: closed, one more
/// token than pools, and two to five hops.
pub open spec fn spec_cycle_shape(pools: Seq<PoolInfo>, path: Seq<Addr>) -> bool {
    &&& path.len() == pools.len() + 1
    &&& 2 <= pools.len() <= 5
    &&& path[0]@ == path[path.len() - 1]@
}

/// Whether the route is accepted: a candidate cycle whose optimally sized
/// profit clears the floor and strictly exceeds the pessimistic gas cost of
/// `300000 * hops * base_fee`.
pub open spec fn spec_arb_accepted(pools: Seq<PoolInfo>, path: Seq<Addr>, base_fee: nat,
    min_profit: nat) -> bool {
    let best = spec_optimal_arb_amount(pools, path);
    &&& spec_cycle_shape(pools, path)
    &&& best.1 >= min_profit
    &&& best.1 > arb_gas_per_hop() * pools.len() * base_fee
}

/// Evaluate a candidate route and either reject it or produce the full,
/// well-formed arbitrage plan.
pub fn plan_arbitrage(pools: Vec<PoolInfo>, path: Vec<Addr>, base_fee: &U256, min_profit: &U256)
    -> (r: Option<ArbitrageDetails>)
    ensures
        r is Some <==> spec_arb_accepted(pools@, path@, base_fee@, min_profit@),
        r matches Some(d) ==> {
            let best = spec_optimal_arb_amount(pools@, path@);
            &&& d.wf()
            &&& d.pools@ == pools@
            &&& d.path@ == path@
            &&& d.amount_in@ == best.0
            &&& d.expected_profit@ == best.1
            &&& d.expected_profit@ >= min_profit@
            &&& d.gas_estimate@ == arb_gas_per_hop() * pools@.len()
            &&& d.expected_profit@ > d.gas_estimate@ * base_fee@
        },
{
    if pools.len() < 2 || pools.len() > 5 {
        return None;
    }
    if path.len() != pools.len() + 1 {
        return None;
    }
    if !path[0].eq_addr(&path[path.len() - 1]) {
        return None;
    }
    let (amount, profit) = optimize_arb_amount(&pools, &path);
    if profit.lt(min_profit) {
        return None;
    }
    let gas_units: u64 = 300000 * (pools.len() as u64);
    let gas_estimate = U256::from_u64(gas_units);
    let gas_cost = gas_estimate.mul_sat(base_fee);
    if !profit.gt(&gas_cost) {
        proof {
            assert(profit@ <= sat_mul(gas_estimate@, base_fee@));
            assert(profit@ <= gas_estimate@ * base_fee@);
        }
        return None;
    }
    proof {
        assert(profit@ > gas_estimate@ * base_fee@);
    }
    Some(ArbitrageDetails { path, pools, amount_in: amount, expected_profit: profit, gas_estimate })
}

/// The quoted price of a pool: output-token reserve scaled by 10^18 over
/// input-token reserve.
pub open spec fn spec_pool_price(p: &PoolInfo) -> nat {
    div0(sat_mul(p.reserve0@, 1000000000000000000), p.reserve1@)
}

pub fn pool_price(p: &PoolInfo) -> (r: U256)
    ensures
        r@ == spec_pool_price(p),
{
    p.reserve0.mul_u64_sat(1000000000000000000).div_or_zero(&p.reserve1)
}

/// The spread between two quotes in basis points of the lower quote.
pub open spec fn spec_spread_bps(buy: nat, sell: nat) -> nat {
    if sell > buy {
        div0(sat_mul((sell - buy) as nat, 10000), buy)
    } else {
        0
    }
}

pub fn spread_bps(buy: &U256, sell: &U256) -> (r: U256)
    ensures
        r@ == spec_spread_bps(buy@, sell@),
{
    if sell.gt(buy) {
        sell.sub_sat(buy).mul_u64_sat(10000).div_or_zero(buy)
    } else {
        U256::zero()
    }
}

/// A two-hop cross-venue plan for one ordered pair of pools: the pair
/// qualifies when the sell quote stands at least 30 basis points over the
/// buy quote, and the cycle buy-then-sell must then pass `plan_arbitrage`.
pub open spec fn spec_cross_pair_accepted(buy: &PoolInfo, sell: &PoolInfo, weth: Addr,
    token: Addr, base_fee: nat, min_profit: nat) -> bool {
    &&& spec_spread_bps(spec_pool_price(buy), spec_pool_price(sell)) > 30
    &&& spec_arb_accepted(seq![*buy, *sell], seq![weth, token, weth], base_fee, min_profit)
}

pub fn plan_cross_pair(buy: &PoolInfo, sell: &PoolInfo, weth: Addr, token: Addr, base_fee: &U256,
    min_profit: &U256) -> (r: Option<ArbitrageDetails>)
    ensures
        r is Some <==> spec_cross_pair_accepted(buy, sell, weth, token, base_fee@, min_profit@),
        r matches Some(d) ==> d.wf() && d.pools@ == seq![*buy, *sell] && d.path@ == seq![weth,
            token, weth] && d.expected_profit@ == spec_optimal_arb_amount(seq![*buy, *sell],
            seq![weth, token, weth]).1 && d.expected_profit@ >= min_profit@,
{
    let pb = pool_price(buy);
    let ps = pool_price(sell);
    let spread = spread_bps(&pb, &ps);
    let thirty = U256::from_u64(30);
    if !spread.gt(&thirty) {
        return None;
    }
    let mut pools: Vec<PoolInfo> = Vec::new();
    pools.push(*buy);
    pools.push(*sell);
    let mut path: Vec<Addr> = Vec::new();
    path.push(weth);
    path.push(token);
    path.push(weth);
    proof {
        assert(pools@ =~= seq![*buy, *sell]);
        assert(path@ =~= seq![weth, token, weth]);
    }
    plan_arbitrage(pools, path, base_fee, min_profit)
}

/// Search every ordered pair of venue pools for the same token pair and
/// return the best accepted two-hop plan, if any pair qualifies. `None`
/// means no ordered pair is accepted; a result is accepted for some pair
/// and at least as profitable as every accepted pair.
pub fn find_cross_dex_arbitrage(cands: &Vec<PoolInfo>, weth: Addr, token: Addr, base_fee: &U256,
    min_profit: &U256) -> (r: Option<ArbitrageDetails>)
    ensures
        r is None ==> forall|a: int, b: int|
            0 <= a < cands@.len() && 0 <= b < cands@.len() && a != b ==> !(
            #[trigger] spec_cross_pair_accepted(&cands@[a], &cands@[b], weth, token, base_fee@,
                min_profit@)),
        r matches Some(d) ==> {
            &&& d.wf()
            &&& d.expected_profit@ >= min_profit@
            &&& d.path@ == seq![weth, token, weth]
            &&& exists|a: int, b: int|
                0 <= a < cands@.len() && 0 <= b < cands@.len() && a != b
                    && #[trigger] spec_cross_pair_accepted(&cands@[a], &cands@[b], weth, token,
                    base_fee@, min_profit@) && d.pools@ == seq![cands@[a], cands@[b]]
                    && d.expected_profit@ == spec_optimal_arb_amount(seq![cands@[a],
                    cands@[b]], seq![weth, token, weth]).1
            &&& forall|a: int, b: int|
                0 <= a < cands@.len() && 0 <= b < cands@.len() && a != b
                    && #[trigger] spec_cross_pair_accepted(&cands@[a], &cands@[b], weth, token,
                    base_fee@, min_profit@) ==> spec_optimal_arb_amount(seq![cands@[a],
                    cands@[b]], seq![weth, token, weth]).1 <= d.expected_profit@
        },
{
    let n = cands.len();
    let mut best: Option<ArbitrageDetails> = None;
    let mut i: usize = 0;
    while i < n
        invariant
            n == cands@.len(),
            i <= n,
            best is None ==> forall|a: int, b: int|
                0 <= a < i && 0 <= b < n && a != b ==> !(#[trigger] spec_cross_pair_accepted(
                &cands@[a], &cands@[b], weth, token, base_fee@, min_profit@)),
            best matches Some(d) ==> {
                &&& d.wf()
                &&& d.expected_profit@ >= min_profit@
                &&& d.path@ == seq![weth, token, weth]
                &&& exists|a: int, b: int|
                    0 <= a < n && 0 <= b < n && a != b && #[trigger] spec_cross_pair_accepted(
                        &cands@[a], &cands@[b], weth, token, base_fee@, min_profit@)
                        && d.pools@ == seq![cands@[a], cands@[b]] && d.expected_profit@
                        == spec_optimal_arb_amount(seq![cands@[a], cands@[b]], seq![weth,
                        token, weth]).1
                &&& forall|a: int, b: int|
                    0 <= a < i && 0 <= b < n && a != b && #[trigger] spec_cross_pair_accepted(
                        &cands@[a], &cands@[b], weth, token, base_fee@, min_profit@)
                        ==> spec_optimal_arb_amount(seq![cands@[a], cands@[b]], seq![weth,
                        token, weth]).1 <= d.expected_profit@
            },
        decreases n - i,
    {
        let mut j: usize = 0;
        while j < n
            invariant
                n == cands@.len(),
                i < n,
                j <= n,
                best is None ==> forall|a: int, b: int|
                    0 <= a < n && 0 <= b < n && a != b && (a < i || (a == i && b < j)) ==> !(
                    #[trigger] spec_cross_pair_accepted(&cands@[a], &cands@[b], weth, token,
                    base_fee@, min_profit@)),
                best matches Some(d) ==> {
                    &&& d.wf()
                    &&& d.expected_profit@ >= min_profit@
                    &&& d.path@ == seq![weth, token, weth]
                    &&& exists|a: int, b: int|
                        0 <= a < n && 0 <= b < n && a != b && #[trigger] spec_cross_pair_accepted(
                            &cands@[a], &cands@[b], weth, token, base_fee@, min_profit@)
                            && d.pools@ == seq![cands@[a], cands@[b]] && d.expected_profit@
                            == spec_optimal_arb_amount(seq![cands@[a], cands@[b]], seq![weth,
                            token, weth]).1
                    &&& forall|a: int, b: int|
                        0 <= a < n && 0 <= b < n && a != b && (a < i || (a == i && b < j))
                            && #[trigger] spec_cross_pair_accepted(&cands@[a], &cands@[b], weth,
                            token, base_fee@, min_profit@) ==> spec_optimal_arb_amount(
                            seq![cands@[a], cands@[b]], seq![weth, token, weth]).1
                            <= d.expected_profit@
                },
            decreases n - j,
        {
            if j != i {
                let cand = plan_cross_pair(&cands[i], &cands[j], weth, token, base_fee,
                    min_profit);
                match cand {
                    None => {},
                    Some(d) => {
                        let replace = match &best {
                            None => true,
                            Some(b) => d.expected_profit.gt(&b.expected_profit),
                        };
                        if replace {
                            best = Some(d);
                        }
                    },
                }
            }
            j = j + 1;
        }
        i = i + 1;
    }
    best
}

} // verus!
