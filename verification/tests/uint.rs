use evm_types::U256;
use std::cmp::Ordering;

#[test]
fn words_and_values() {
    let v = U256::from_u128(0x0123_4567_89ab_cdef_fedc_ba98_7654_3210);
    assert_eq!(v, U256(0xfedc_ba98_7654_3210, 0x0123_4567_89ab_cdef, 0, 0));
    assert_eq!(v.low_u64(), 0xfedc_ba98_7654_3210);
    assert_eq!(v.low_u128(), 0x0123_4567_89ab_cdef_fedc_ba98_7654_3210);
    assert_eq!(U256::from_usize(7), U256::from_u64(7));
    assert!(U256::zero().is_zero());
    assert!(!U256::one().is_zero());
    assert_eq!(U256::default(), U256::zero());
}

#[test]
fn complement_and_order() {
    assert_eq!(U256::zero().not(), U256::max_value());
    assert_eq!(U256(1, 0, 0, 0).not(), U256(u64::MAX - 1, u64::MAX, u64::MAX, u64::MAX));
    assert!(U256(u64::MAX, 0, 0, 0).lt(&U256(0, 1, 0, 0)));
    assert!(!U256(0, 0, 0, 1).lt(&U256(u64::MAX, u64::MAX, u64::MAX, 0)));
    assert_eq!(U256(0, 0, 0, 1).cmp(&U256(0, 0, 0, 1)), Ordering::Equal);
    assert_eq!(U256(0, 0, 2, 0).cmp(&U256(0, 0, 1, 0)), Ordering::Greater);
}
