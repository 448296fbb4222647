use mev_template::arbitrage::{
    eval_path, find_cross_dex_arbitrage, optimize_arb_amount, plan_arbitrage, plan_cross_pair,
    pool_price, spread_bps,
};
use mev_template::types::{Addr, DexType, PoolInfo};
use mev_template::u256::U256;

fn n(v: u128) -> U256 {
    U256::from_u128(v)
}

fn eth(v: u128) -> U256 {
    n(v * 1_000_000_000_000_000_000)
}

fn addr(tag: u32) -> Addr {
    Addr { hi: 0, lo: tag as u128 }
}

fn pool(a: u32, t0: u32, t1: u32, r0: U256, r1: U256, dex: DexType) -> PoolInfo {
    PoolInfo {
        address: addr(a),
        token0: addr(t0),
        token1: addr(t1),
        reserve0: r0,
        reserve1: r1,
        fee_bps: 30,
        dex_type: dex,
    }
}

#[test]
fn eval_path_single_hop_exact() {
    // One hop entering on token0: same figure as the kernel.
    let pools = vec![pool(100, 1, 2, n(1_000_000), n(1_000_000), DexType::UniswapV2)];
    let path = vec![addr(1), addr(2)];
    let out = eval_path(&pools, &path, &n(1000));
    assert_eq!(out, n(996));
}

#[test]
fn eval_path_respects_direction() {
    // Entering on token1 uses the reserves the other way round.
    let pools = vec![pool(100, 1, 2, n(2_000_000), n(1_000_000), DexType::UniswapV2)];
    let path = vec![addr(2), addr(1)];
    let out = eval_path(&pools, &path, &n(1000));
    // out = floor(1000*9970*2000000/(1000000*10000+1000*9970)) = 1992
    assert_eq!(out, n(1992));
}

/// Three pools with rates 1.00, 1.01, 1.00: a profitable triangle.
fn triangle() -> (Vec<PoolInfo>, Vec<Addr>) {
    let w = addr(1);
    let t = addr(2);
    let s = addr(3);
    let pools = vec![
        pool(100, 1, 2, eth(1_000_000), eth(1_000_000), DexType::UniswapV2),
        pool(101, 2, 3, eth(1_000_000), eth(1_010_000), DexType::UniswapV2),
        pool(102, 1, 3, eth(1_000_000), eth(1_000_000), DexType::UniswapV2),
    ];
    let path = vec![w, t, s, w];
    (pools, path)
}

#[test]
fn detects_triangular_arbitrage() {
    let (pools, path) = triangle();
    let (amount, profit) = optimize_arb_amount(&pools, &path);
    assert!(!amount.is_zero());
    assert!(!profit.is_zero());
    let planned = plan_arbitrage(pools, path, &n(30_000_000_000), &n(50_000_000_000_000_000));
    let d = planned.expect("profitable cycle expected");
    // The accepted plan is a closed route with one more token than pools.
    assert_eq!(d.path.len(), d.pools.len() + 1);
    assert_eq!(d.path[0], d.path[d.path.len() - 1]);
    assert!(d.expected_profit.ge(&n(50_000_000_000_000_000)));
}

#[test]
fn rejects_open_route() {
    let (pools, mut path) = triangle();
    path[3] = addr(9);
    assert!(plan_arbitrage(pools, path, &n(30_000_000_000), &n(0)).is_none());
}

#[test]
fn rejects_single_hop_route() {
    let pools = vec![pool(100, 1, 2, eth(10), eth(10), DexType::UniswapV2)];
    let path = vec![addr(1), addr(1)];
    assert!(plan_arbitrage(pools, path, &n(30_000_000_000), &n(0)).is_none());
}

#[test]
fn balanced_triangle_is_unprofitable() {
    // All rates 1.00: the fees eat every cycle.
    let pools = vec![
        pool(100, 1, 2, eth(1_000_000), eth(1_000_000), DexType::UniswapV2),
        pool(101, 2, 3, eth(1_000_000), eth(1_000_000), DexType::UniswapV2),
        pool(102, 1, 3, eth(1_000_000), eth(1_000_000), DexType::UniswapV2),
    ];
    let path = vec![addr(1), addr(2), addr(3), addr(1)];
    assert!(plan_arbitrage(pools, path, &n(30_000_000_000), &n(50_000_000_000_000_000))
        .is_none());
}

#[test]
fn pool_price_and_spread() {
    let a = pool(100, 1, 2, eth(2_000_000), eth(1_000_000), DexType::UniswapV2);
    let b = pool(101, 1, 2, eth(2_020_000), eth(1_000_000), DexType::SushiSwap);
    let pa = pool_price(&a);
    let pb = pool_price(&b);
    assert_eq!(pa, eth(2));
    // Spread of one percent equals one hundred basis points.
    assert_eq!(spread_bps(&pa, &pb), n(100));
}

#[test]
fn cross_venue_pair_with_wide_spread_accepted() {
    // Buy where the token is cheap, sell where it is dear: 100 bps apart.
    let buy = pool(100, 1, 2, eth(1_000_000), eth(1_000_000), DexType::UniswapV2);
    let sell = pool(101, 1, 2, eth(1_010_000), eth(1_000_000), DexType::SushiSwap);
    let planned = plan_cross_pair(&buy, &sell, addr(1), addr(2), &n(30_000_000_000),
        &n(50_000_000_000_000_000));
    let d = planned.expect("spread wide enough");
    assert_eq!(d.pools.len(), 2);
    assert_eq!(d.path.len(), 3);
    assert_eq!(d.path[0], d.path[2]);
}

#[test]
fn cross_venue_pair_with_thin_spread_rejected() {
    // Ten basis points of spread cannot clear thirty basis points of fees.
    let buy = pool(100, 1, 2, eth(1_000_000), eth(1_000_000), DexType::UniswapV2);
    let sell = pool(101, 1, 2, eth(1_001_000), eth(1_000_000), DexType::SushiSwap);
    let planned = plan_cross_pair(&buy, &sell, addr(1), addr(2), &n(30_000_000_000),
        &n(50_000_000_000_000_000));
    assert!(planned.is_none());
}

#[test]
fn cross_venue_search_picks_a_qualified_pair() {
    let flat = pool(100, 1, 2, eth(1_000_000), eth(1_000_000), DexType::UniswapV2);
    let rich = pool(101, 1, 2, eth(1_010_000), eth(1_000_000), DexType::SushiSwap);
    let cands = vec![flat, rich];
    let found = find_cross_dex_arbitrage(&cands, addr(1), addr(2), &n(30_000_000_000),
        &n(50_000_000_000_000_000));
    let d = found.expect("qualified pair");
    // The route is the wrapped-token round trip over the accepted pair.
    assert_eq!(d.path, vec![addr(1), addr(2), addr(1)]);
    assert_eq!(d.pools.len(), 2);
    assert_eq!(d.pools[0].address, flat.address);
    assert_eq!(d.pools[1].address, rich.address);
    let none = find_cross_dex_arbitrage(&vec![flat], addr(1), addr(2), &n(30_000_000_000),
        &n(50_000_000_000_000_000));
    assert!(none.is_none());
}
