use mev_template::amm::swap;
use mev_template::u256::U256;

fn n(v: u128) -> U256 {
    U256::from_u128(v)
}

#[test]
fn constant_product_exact_output() {
    // out = floor(1000 * 9970 * 10^6 / (10^6 * 10000 + 1000 * 9970)) = 996
    let (out, new_in, new_out) = swap(&n(1000), &n(1_000_000), &n(1_000_000), 30);
    assert_eq!(out, n(996));
    assert_eq!(new_in, n(1_001_000));
    assert_eq!(new_out, n(999_004));
}

#[test]
fn zero_input_gives_zero_output() {
    let (out, new_in, new_out) = swap(&n(0), &n(1_000_000), &n(2_000_000), 30);
    assert!(out.is_zero());
    assert_eq!(new_in, n(1_000_000));
    assert_eq!(new_out, n(2_000_000));
}

#[test]
fn zero_reserves_give_zero_output() {
    let (out, _, _) = swap(&n(1000), &n(0), &n(2_000_000), 30);
    assert!(out.is_zero());
    let (out2, _, _) = swap(&n(1000), &n(1_000_000), &n(0), 30);
    assert!(out2.is_zero());
}

#[test]
fn output_never_exceeds_reserve() {
    // Enormous input against a small pool drains at most the reserve.
    let (out, _, new_out) = swap(&n(10_000_000_000_000_000_000_000), &n(1_000), &n(2_000), 30);
    assert!(out.le(&n(2_000)));
    assert!(!new_out.gt(&n(2_000)));
}

#[test]
fn reserve_product_never_decreases() {
    // The fee stays in the pool: after a hop the reserve product grew.
    let r_in = n(1_000_000);
    let r_out = n(2_000_000);
    let (_, new_in, new_out) = swap(&n(12_345), &r_in, &r_out, 30);
    let before = r_in.mul_sat(&r_out);
    let after = new_in.mul_sat(&new_out);
    assert!(after.ge(&before));
}

#[test]
fn fee_free_swap_matches_formula() {
    // out = floor(500 * 10000 * 10^6 / (10^6 * 10000 + 500 * 10000)) = 499
    let (out, _, _) = swap(&n(500), &n(1_000_000), &n(1_000_000), 0);
    assert_eq!(out, n(499));
}

#[test]
fn full_fee_swallows_everything() {
    let (out, _, _) = swap(&n(500), &n(1_000_000), &n(1_000_000), 10000);
    assert!(out.is_zero());
}
