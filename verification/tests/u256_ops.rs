use mev_template::u256::U256;

fn n(v: u128) -> U256 {
    U256::from_u128(v)
}

#[test]
fn add_small() {
    let a = n(5);
    let b = n(7);
    let r = a.add_sat(&b);
    assert_eq!(r, n(12));
}

#[test]
fn add_saturates_at_max() {
    let max = U256::max_value();
    let one = U256::from_u64(1);
    let r = max.add_sat(&one);
    assert_eq!(r, U256::max_value());
}

#[test]
fn sub_clamps_to_zero() {
    let a = n(3);
    let b = n(5);
    let r = a.sub_sat(&b);
    assert!(r.is_zero());
    let r2 = b.sub_sat(&a);
    assert_eq!(r2, n(2));
}

#[test]
fn mul_exact_and_saturating() {
    let a = n(1_000_000_000_000);
    let b = n(1_000_000);
    let r = a.mul_sat(&b);
    assert_eq!(r, n(1_000_000_000_000_000_000));
    let max = U256::max_value();
    let r2 = max.mul_sat(&n(2));
    assert_eq!(r2, U256::max_value());
}

#[test]
fn mul_u64_sat_matches() {
    let a = n(123_456_789);
    let r = a.mul_u64_sat(1000);
    assert_eq!(r, n(123_456_789_000));
}

#[test]
fn divrem_exact() {
    let a = n(1_000_000_007);
    let d = n(10_000);
    let (q, r) = a.divrem(&d);
    assert_eq!(q, n(100_000));
    assert_eq!(r, n(7));
}

#[test]
fn divrem_large_divisor() {
    let a = n(5);
    let d = n(1_000_000_000_000_000_000_000_000_000);
    let (q, r) = a.divrem(&d);
    assert!(q.is_zero());
    assert_eq!(r, n(5));
}

#[test]
fn div_by_zero_yields_zero() {
    let a = n(12345);
    let z = U256::zero();
    let r = a.div_or_zero(&z);
    assert!(r.is_zero());
}

#[test]
fn divrem_on_wide_value() {
    // (2^128 + 3) / 2 == 2^127 + 1 remainder 1
    let two_128_plus_3 = U256 { l0: 3, l1: 0, l2: 1, l3: 0 };
    let (q, r) = two_128_plus_3.divrem(&U256::from_u64(2));
    assert_eq!(q, U256 { l0: 1, l1: 0x8000_0000_0000_0000, l2: 0, l3: 0 });
    assert_eq!(r, n(1));
}

#[test]
fn comparisons() {
    let a = n(10);
    let b = n(20);
    assert!(a.lt(&b));
    assert!(b.gt(&a));
    assert!(a.le(&a));
    assert!(a.ge(&a));
    assert!(!b.le(&a));
    let wide = U256 { l0: 0, l1: 0, l2: 0, l3: 1 };
    assert!(b.lt(&wide));
}

#[test]
fn mul_across_limb_boundaries() {
    // (2^64 - 1)^2 == 2^128 - 2^65 + 1
    let a = n(u64::MAX as u128);
    let r = a.mul_sat(&a);
    let expected = (u128::from(u64::MAX)) * (u128::from(u64::MAX));
    assert_eq!(r, n(expected));
    // (2^128 - 1) * (2^128 - 1) fills all four limbs.
    let b = n(u128::MAX);
    let wide = b.mul_sat(&b);
    assert_eq!(wide, U256 { l0: 1, l1: 0, l2: 0xffff_ffff_ffff_fffe, l3: 0xffff_ffff_ffff_ffff });
}
