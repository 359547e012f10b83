use memshark::uint::U256;

#[test]
fn u256_compares_by_numeric_value() {
    let small = U256([u64::MAX, u64::MAX, u64::MAX, 0]);
    let big = U256([0, 0, 0, 1]);
    assert!(small.is_less_than(&big));
    assert!(!big.is_less_than(&small));
    assert!(!big.is_less_than(&big));
    assert!(big.is_equal(&U256([0, 0, 0, 1])));
    assert!(!small.is_equal(&big));
    let a = U256([5, 7, 0, 0]);
    let b = U256([6, 6, 0, 0]);
    assert!(b.is_less_than(&a));
    assert!(U256::zero().is_less_than(&U256::from_u64(1)));
    assert!(U256::from_u64(42).is_equal(&U256([42, 0, 0, 0])));
}
