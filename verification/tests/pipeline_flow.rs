use mev_template::auxiliary::{creates_imbalance, find_jit_opportunity, is_liquidation};
use mev_template::bundle::{arb_gas_price, build_sandwich_bundle, plan_arb_transaction};
use mev_template::dedup::DedupSet;
use mev_template::engine::{
    analyze_swap_tx, candidate_paths, rank_opportunities, submission_confirmed, take_top,
    ArbSampler,
};
use mev_template::relay::{parse_relay_response, RelayOutcome};
use mev_template::simulator::{keep_candidate, simulate_arbitrage, simulate_sandwich,
    DryRunOutcome};
use mev_template::types::{
    Addr, ArbitrageDetails, DexType, MEVOpportunity, PendingTx, PoolInfo, StrategyType, TxHash,
    ranks_before,
};
use mev_template::u256::U256;

fn n(v: u128) -> U256 {
    U256::from_u128(v)
}

fn eth(v: u128) -> U256 {
    n(v * 1_000_000_000_000_000_000)
}

fn gwei(v: u128) -> U256 {
    n(v * 1_000_000_000)
}

fn addr(tag: u32) -> Addr {
    Addr { hi: 0, lo: tag as u128 }
}

fn hash(tag: u128) -> TxHash {
    TxHash { hi: 0, lo: tag }
}

fn push_word(d: &mut Vec<u8>, v: u128) {
    let mut w = [0u8; 32];
    w[16..32].copy_from_slice(&v.to_be_bytes());
    d.extend_from_slice(&w);
}

fn swap_calldata(amount_in: u128, token_in: u128, token_out: u128) -> Vec<u8> {
    let mut d = vec![0x18, 0xcb, 0xaf, 0xe5];
    push_word(&mut d, amount_in);
    push_word(&mut d, 0);
    push_word(&mut d, 0xa0);
    push_word(&mut d, 42);
    push_word(&mut d, 1_700_000_000);
    push_word(&mut d, 2);
    push_word(&mut d, token_in);
    push_word(&mut d, token_out);
    d
}

fn victim(value: U256, gas_price: Option<U256>, input: Vec<u8>, tag: u128) -> PendingTx {
    PendingTx {
        hash: hash(tag),
        from: addr(77),
        to: Some(addr(88)),
        value,
        gas: n(300_000),
        gas_price,
        nonce: 0,
        input,
    }
}

fn big_pool() -> PoolInfo {
    PoolInfo {
        address: addr(200),
        token0: addr(4),
        token1: addr(5),
        reserve0: eth(1_000),
        reserve1: eth(2_000),
        fee_bps: 30,
        dex_type: DexType::UniswapV2,
    }
}

#[test]
fn dedup_admits_each_hash_once() {
    let mut set = DedupSet::new(100);
    assert!(set.insert_if_absent(hash(1)));
    assert!(!set.insert_if_absent(hash(1)));
    assert!(set.insert_if_absent(hash(2)));
    assert!(!set.insert_if_absent(hash(2)));
    assert!(!set.insert_if_absent(hash(1)));
}

#[test]
fn dedup_evicts_oldest_when_full() {
    let mut set = DedupSet::new(2);
    assert!(set.insert_if_absent(hash(1)));
    assert!(set.insert_if_absent(hash(2)));
    assert!(set.insert_if_absent(hash(3))); // evicts 1
    assert!(set.contains(&hash(2)));
    assert!(set.contains(&hash(3)));
    assert!(!set.contains(&hash(1)));
    assert!(set.insert_if_absent(hash(1)));
}

#[test]
fn below_threshold_victim_ignored() {
    // 0.001 ETH of value with valid swap calldata: no opportunity.
    let tx = victim(n(1_000_000_000_000_000), Some(gwei(100)), swap_calldata(
        10_000_000_000_000_000_000, 4, 5), 1);
    let r = analyze_swap_tx(&tx, &big_pool(), 1000, &gwei(1), &n(50_000_000_000_000_000),
        &eth(50));
    assert!(r.is_none());
}

fn eth_for_tokens_calldata() -> Vec<u8> {
    let mut d = vec![0x7f, 0xf3, 0x6a, 0xb5];
    push_word(&mut d, 0); // amountOutMin
    push_word(&mut d, 0x80); // path offset
    push_word(&mut d, 42); // recipient
    push_word(&mut d, 1_700_000_000); // deadline
    push_word(&mut d, 2); // path length
    push_word(&mut d, 4); // wrapped native token
    push_word(&mut d, 5); // target token
    d
}

#[test]
fn below_threshold_native_swap_ignored() {
    // 0.001 ETH sent through swapExactETHForTokens: valid calldata, but the
    // victim is too small to attack.
    let tx = victim(n(1_000_000_000_000_000), Some(gwei(100)), eth_for_tokens_calldata(), 6);
    let r = analyze_swap_tx(&tx, &big_pool(), 1000, &gwei(1), &n(50_000_000_000_000_000),
        &eth(500));
    assert!(r.is_none());
}

#[test]
fn empty_calldata_yields_nothing() {
    let tx = victim(eth(1), Some(gwei(100)), Vec::new(), 2);
    let r = analyze_swap_tx(&tx, &big_pool(), 1000, &gwei(1), &n(50_000_000_000_000_000),
        &eth(50));
    assert!(r.is_none());
}

#[test]
fn out_of_range_gas_price_yields_nothing() {
    let tx = victim(eth(1), Some(n(0)), swap_calldata(10_000_000_000_000_000_000, 4, 5), 3);
    let r = analyze_swap_tx(&tx, &big_pool(), 1000, &gwei(1), &n(50_000_000_000_000_000),
        &eth(50));
    assert!(r.is_none());
    let tx2 = victim(eth(1), Some(gwei(600)), swap_calldata(10_000_000_000_000_000_000, 4, 5), 4);
    let r2 = analyze_swap_tx(&tx2, &big_pool(), 1000, &gwei(1), &n(50_000_000_000_000_000),
        &eth(50));
    assert!(r2.is_none());
}

#[test]
fn profitable_victim_yields_full_opportunity() {
    let tx = victim(eth(1), Some(gwei(100)), swap_calldata(100_000_000_000_000_000_000, 4, 5),
        5);
    let r = analyze_swap_tx(&tx, &big_pool(), 1000, &gwei(1), &n(50_000_000_000_000_000),
        &eth(50));
    let o = r.expect("profitable sandwich expected");
    assert_eq!(o.expiry_block, 1001);
    assert!(o.priority <= 10);
    match &o.strategy {
        StrategyType::Sandwich(d) => {
            assert!(d.frontrun_gas_price.gt(&d.victim_gas_price));
            assert!(d.backrun_gas_price.lt(&d.victim_gas_price));
            let bundle = build_sandwich_bundle(d, addr(1), tx.from, vec![1], vec![2], vec![3],
                1000);
            assert_eq!(bundle.txs.len(), 3);
            assert!(!bundle.txs[0].can_revert);
            assert!(bundle.txs[1].can_revert);
            assert!(!bundle.txs[2].can_revert);
            assert_eq!(bundle.block_number, 1001);
        },
        other => panic!("expected a sandwich, got {:?}", other),
    }
}

fn opportunity(profit: u128, gas: u128, priority: u8, expiry: u64, tag: u128) -> MEVOpportunity {
    MEVOpportunity {
        id: vec![b'o'],
        strategy: StrategyType::Arbitrage(ArbitrageDetails {
            path: vec![addr(1), addr(2), addr(1)],
            pools: vec![big_pool(), big_pool()],
            amount_in: n(tag),
            expected_profit: n(profit),
            gas_estimate: n(600_000),
        }),
        estimated_profit: n(profit),
        gas_cost: n(gas),
        priority,
        expiry_block: expiry,
    }
}

#[test]
fn ranking_prefers_net_profit_then_priority_then_expiry() {
    let a = opportunity(100, 10, 5, 10, 1); // net 90
    let b = opportunity(120, 50, 5, 10, 2); // net 70
    let c = opportunity(100, 30, 9, 10, 3); // net 70, higher priority
    let d = opportunity(100, 30, 9, 8, 4); // net 70, same priority, earlier expiry
    assert!(ranks_before(&a, &b));
    assert!(ranks_before(&c, &b));
    assert!(ranks_before(&d, &c));
    let ranked = rank_opportunities(vec![b, c, d, a]);
    assert_eq!(ranked.len(), 4);
    assert_eq!(ranked[0].estimated_profit, n(100));
    assert_eq!(ranked[0].gas_cost, n(10));
    assert_eq!(ranked[1].expiry_block, 8);
    assert_eq!(ranked[2].priority, 9);
    assert_eq!(ranked[3].estimated_profit, n(120));
    let top = take_top(ranked, 3);
    assert_eq!(top.len(), 3);
}

#[test]
fn sampler_admits_one_in_a_hundred() {
    let mut s = ArbSampler::new();
    let mut admitted = 0;
    for _ in 0..200 {
        if s.tick() {
            admitted += 1;
        }
    }
    assert_eq!(admitted, 2);
}

#[test]
fn relay_rejection_does_not_stall_pipeline() {
    // The relay refuses the bundle; the opportunity is dropped and the next
    // transaction is processed normally.
    let response = br#"{"error":{"code":-32000,"message":"nope"}}"#.to_vec();
    let outcome = parse_relay_response(&response);
    assert!(matches!(outcome, RelayOutcome::Rejected { code: -32000, .. }));
    assert!(!submission_confirmed(&outcome));
    let mut set = DedupSet::new(10);
    assert!(set.insert_if_absent(hash(41)));
    // Next incoming transaction is admitted as usual.
    assert!(set.insert_if_absent(hash(42)));
}

#[test]
fn simulation_composes_and_rejects() {
    let ok = DryRunOutcome { success: true, gas_used: n(100_000), revert_reason: None };
    let bad = DryRunOutcome {
        success: false,
        gas_used: n(50_000),
        revert_reason: Some(b"reverted".to_vec()),
    };
    // All legs pass: profit is delta minus gas at 50 gwei.
    let r = simulate_sandwich(&ok, &ok, &ok, &eth(1), &gwei(50));
    assert!(r.success);
    assert_eq!(r.gas_used, n(200_000));
    // 1 ETH minus 200000 * 50 gwei = 0.99 ETH.
    assert_eq!(r.profit, n(990_000_000_000_000_000));
    assert!(keep_candidate(&r));
    // A failing backrun rejects with its reason.
    let r2 = simulate_sandwich(&ok, &ok, &bad, &eth(1), &gwei(50));
    assert!(!r2.success);
    assert!(!keep_candidate(&r2));
    assert_eq!(r2.revert_reason, Some(b"reverted".to_vec()));
    // An arbitrage that reverts is dropped.
    let r3 = simulate_arbitrage(&bad, &eth(1), &gwei(50));
    assert!(!r3.success);
    assert!(!keep_candidate(&r3));
    // Zero net profit is dropped too.
    let r4 = simulate_arbitrage(&ok, &n(0), &gwei(50));
    assert!(r4.success);
    assert!(!keep_candidate(&r4));
}

#[test]
fn arb_gas_price_floor_and_target() {
    // Plenty of profit: eighty percent of profit per gas wins.
    let r = arb_gas_price(&eth(1), &n(400_000), &gwei(30));
    // (1e18 / 4e5) * 80 / 100 = 2e12
    assert_eq!(r, n(2_000_000_000_000));
    // Thin profit: the base fee plus two gwei floor wins.
    let r2 = arb_gas_price(&n(1_000_000), &n(400_000), &gwei(30));
    assert_eq!(r2, gwei(32));
}

#[test]
fn candidate_routes_are_closed() {
    let routes = candidate_paths(addr(9), addr(1), addr(2), addr(3));
    assert_eq!(routes.len(), 6);
    for r in &routes {
        assert!(r.len() >= 4 && r.len() <= 6);
        assert_eq!(r[0], addr(1));
        assert_eq!(r[r.len() - 1], addr(1));
    }
}

#[test]
fn arb_transaction_plan_fields() {
    let weth = addr(1);
    let details = ArbitrageDetails {
        path: vec![weth, addr(2), weth],
        pools: vec![big_pool(), big_pool()],
        amount_in: eth(3),
        expected_profit: eth(1),
        gas_estimate: n(600_000),
    };
    let plan = plan_arb_transaction(&details, weth, &gwei(30));
    assert_eq!(plan.to, big_pool().address);
    // The route starts at the wrapped token, so the input rides as value.
    assert_eq!(plan.value, eth(3));
    assert_eq!(plan.gas_limit, n(600_000));
    assert_eq!(plan.gas_price, arb_gas_price(&eth(1), &n(600_000), &gwei(30)));
    // A route in the token domain carries no native value.
    let token_route = ArbitrageDetails {
        path: vec![addr(2), addr(3), addr(2)],
        pools: vec![big_pool(), big_pool()],
        amount_in: eth(3),
        expected_profit: eth(1),
        gas_estimate: n(600_000),
    };
    let plan2 = plan_arb_transaction(&token_route, weth, &gwei(30));
    assert!(plan2.value.is_zero());
}

#[test]
fn auxiliary_screens() {
    let big = victim(eth(50), Some(gwei(50)), Vec::new(), 50);
    let jit = find_jit_opportunity(&big).expect("large swap");
    assert_eq!(jit.pool, addr(88));
    assert_eq!(jit.liquidity_amount, eth(25));
    // 25 ETH * 3 / 1000 = 0.075 ETH of fees, over twice the assumed gas.
    assert_eq!(jit.expected_fees, n(75_000_000_000_000_000));
    let small = victim(eth(1), Some(gwei(50)), Vec::new(), 51);
    assert!(find_jit_opportunity(&small).is_none());
    let liq = victim(eth(1), Some(gwei(50)), vec![0x96, 0xcd, 0x4d, 0xdb, 0x00], 52);
    assert!(is_liquidation(&liq));
    let not_liq = victim(eth(1), Some(gwei(50)), vec![0x96, 0xcd, 0x4d, 0xdc, 0x00], 53);
    assert!(!is_liquidation(&not_liq));
    assert!(creates_imbalance(&victim(eth(11), None, Vec::new(), 54)));
    assert!(!creates_imbalance(&victim(eth(10), None, Vec::new(), 55)));
}
