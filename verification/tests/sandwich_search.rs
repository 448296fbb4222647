use mev_template::sandwich::{
    best_frontrun, optimize_frontrun_bisect, optimize_frontrun_newton, plan_sandwich,
    sandwich_gas_prices, sandwich_profit, victim_ok,
};
use mev_template::types::{Addr, PendingTx, TxHash};
use mev_template::u256::U256;

fn n(v: u128) -> U256 {
    U256::from_u128(v)
}

fn eth(v: u128) -> U256 {
    n(v * 1_000_000_000_000_000_000)
}

fn gwei(v: u128) -> U256 {
    n(v * 1_000_000_000)
}

fn addr(tag: u32) -> Addr {
    Addr { hi: tag, lo: tag as u128 }
}

/// A screened victim: enough value, sane gas price, real recipient.
fn victim(value: U256, gas_price: Option<U256>, input: Vec<u8>) -> PendingTx {
    PendingTx {
        hash: TxHash { hi: 7, lo: 9 },
        from: addr(1),
        to: Some(addr(2)),
        value,
        gas: n(300_000),
        gas_price,
        nonce: 0,
        input,
    }
}

fn push_word(d: &mut Vec<u8>, v: u128) {
    let mut w = [0u8; 32];
    w[16..32].copy_from_slice(&v.to_be_bytes());
    d.extend_from_slice(&w);
}

/// Calldata for swapExactETHForTokens(amountOutMin, path, to, deadline)
/// with a two-token path.
fn eth_for_tokens_calldata() -> Vec<u8> {
    let mut d = vec![0x7f, 0xf3, 0x6a, 0xb5];
    push_word(&mut d, 0); // amountOutMin
    push_word(&mut d, 0x80); // offset of the path array
    push_word(&mut d, 3); // recipient
    push_word(&mut d, 9_999_999_999); // deadline
    push_word(&mut d, 2); // path length
    push_word(&mut d, 0x1111); // path[0]
    push_word(&mut d, 0x2222); // path[1]
    d
}

#[test]
fn screening_accepts_reasonable_victim() {
    let tx = victim(eth(1), Some(gwei(100)), vec![]);
    assert!(victim_ok(&tx));
}

#[test]
fn screening_rejects_low_value() {
    let tx = victim(n(1_000_000_000_000_000), Some(gwei(100)), vec![]);
    assert!(!victim_ok(&tx));
}

#[test]
fn screening_rejects_zero_gas_price() {
    let tx = victim(eth(1), Some(n(0)), vec![]);
    assert!(!victim_ok(&tx));
}

#[test]
fn screening_rejects_excessive_gas_price() {
    let tx = victim(eth(1), Some(gwei(501)), vec![]);
    assert!(!victim_ok(&tx));
}

#[test]
fn screening_rejects_contract_creation() {
    let mut tx = victim(eth(1), Some(gwei(100)), vec![]);
    tx.to = None;
    assert!(!victim_ok(&tx));
}

#[test]
fn gas_prices_bracket_the_victim() {
    let (front, back) = sandwich_gas_prices(&gwei(100));
    assert_eq!(front, gwei(102));
    assert_eq!(back, gwei(98));
}

#[test]
fn gas_prices_halve_tiny_victim() {
    let (front, back) = sandwich_gas_prices(&gwei(1));
    assert_eq!(front, gwei(3));
    assert_eq!(back, n(500_000_000));
}

#[test]
fn profitable_sandwich_found() {
    // A 1000 ETH pool with a 100 ETH victim: the optimizer finds a frontrun
    // inside (0, r_in/5] with profit well over 0.05 ETH.
    let r_in = eth(1_000);
    let r_out = eth(2_000);
    let (x, p) = best_frontrun(&eth(100), &r_in, &r_out, 30, &n(0), &eth(500));
    assert!(!x.is_zero());
    let (cap, _) = r_in.divrem(&U256::from_u64(5));
    assert!(x.le(&cap));
    assert!(p.gt(&n(50_000_000_000_000_000)));
}

#[test]
fn unprofitable_victim_rejected() {
    // Same pool, tiny victim amount: profit stays below the floor.
    let r_in = eth(1_000_000);
    let r_out = eth(2_000_000);
    let tx = victim(eth(1), Some(gwei(100)), vec![]);
    let planned = plan_sandwich(&tx, &n(1_000_000_000_000_000), &n(0), addr(9), addr(4), addr(5),
        &r_in, &r_out, 30, &n(0), &n(50_000_000_000_000_000), &eth(50));
    assert!(planned.is_none());
}

#[test]
fn accepted_plan_is_well_formed() {
    let r_in = eth(1_000);
    let r_out = eth(2_000);
    let tx = victim(eth(1), Some(gwei(100)), vec![]);
    let planned = plan_sandwich(&tx, &eth(100), &n(0), addr(9), addr(4), addr(5), &r_in, &r_out,
        30, &gwei(1), &n(50_000_000_000_000_000), &eth(500));
    let (d, p) = planned.expect("profitable sandwich expected");
    assert!(p.gt(&n(50_000_000_000_000_000)));
    // Gas price ordering: frontrun over victim over backrun.
    assert!(d.frontrun_gas_price.gt(&d.victim_gas_price));
    assert!(d.backrun_gas_price.lt(&d.victim_gas_price));
    // The frontrun stays within a fifth of the pool.
    let (cap, _) = r_in.divrem(&U256::from_u64(5));
    assert!(d.frontrun_amount.le(&cap));
    // The backrun budget carries the two-percent cushion.
    let (expected_back, _) = d.frontrun_amount.mul_u64_sat(98).divrem(&U256::from_u64(100));
    assert_eq!(d.backrun_amount, expected_back);
    assert!(d.price_impact_ppm <= 1_000_000);
}

#[test]
fn optimizer_is_deterministic() {
    let r_in = eth(1_000_000);
    let r_out = eth(2_000_000);
    let a = optimize_frontrun_bisect(&eth(10), &r_in, &r_out, 30, &n(0));
    let b = optimize_frontrun_bisect(&eth(10), &r_in, &r_out, 30, &n(0));
    assert_eq!(a.0, b.0);
    assert_eq!(a.1, b.1);
    let c = optimize_frontrun_newton(&eth(10), &r_in, &r_out, 30, &eth(50));
    let d = optimize_frontrun_newton(&eth(10), &r_in, &r_out, 30, &eth(50));
    assert_eq!(c.0, d.0);
    assert_eq!(c.1, d.1);
}

#[test]
fn zero_reserves_zero_profit() {
    let (_, p) = optimize_frontrun_bisect(&eth(10), &n(0), &eth(2), 30, &n(0));
    assert!(p.is_zero());
    let (_, p2) = optimize_frontrun_newton(&eth(10), &eth(2), &n(0), 30, &eth(50));
    assert!(p2.is_zero());
    let tx = victim(eth(1), Some(gwei(100)), vec![]);
    let planned = plan_sandwich(&tx, &eth(10), &n(0), addr(9), addr(4), addr(5), &n(0), &eth(2),
        30, &n(0), &n(50_000_000_000_000_000), &eth(50));
    assert!(planned.is_none());
}

#[test]
fn profit_composition_matches_three_hops() {
    // A losing frontrun on a balanced pool yields zero (saturating) profit.
    let p = sandwich_profit(&eth(1), &n(0), &eth(100), &eth(100), 30);
    assert!(p.is_zero());
}

#[test]
fn calldata_helper_decodes() {
    // The helper calldata drives the decoder end to end.
    let d = eth_for_tokens_calldata();
    let decoded = mev_template::calldata::decode_swap(&d).expect("decodes");
    assert_eq!(decoded.path.len(), 2);
}
