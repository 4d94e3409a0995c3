use evm_types::{Sign, I256, U256};

fn make(v: i128) -> I256 {
    I256::from(v)
}

#[test]
fn constants_hold_their_values() {
    assert_eq!(I256::zero(), make(0));
    assert_eq!(I256::one(), make(1));
    assert_eq!(I256::minus_one(), make(-1));
    assert_eq!(
        I256::max_value().into_raw(),
        U256(u64::MAX, u64::MAX, u64::MAX, 0x7fff_ffff_ffff_ffff)
    );
    assert_eq!(I256::min_value().into_raw(), U256(0, 0, 0, 0x8000_0000_0000_0000));
    assert_eq!(I256::minus_one().into_raw(), U256::max_value());
}

#[test]
fn raw_round_trip() {
    let raw = U256(1, 2, 3, 0x8000_0000_0000_0004);
    assert_eq!(I256::from_raw(raw).into_raw(), raw);
    assert!(I256::from_raw(raw).is_negative());
    assert_eq!(I256::from_raw(U256::from_u64(7)), make(7));
}

#[test]
fn sign_and_abs() {
    assert_eq!(make(-5).sign(), Sign::Negative);
    assert_eq!(make(0).sign(), Sign::Positive);
    assert_eq!(make(-5).into_sign_and_abs(), (Sign::Negative, U256::from_u64(5)));
    assert_eq!(make(5).into_sign_and_abs(), (Sign::Positive, U256::from_u64(5)));
    assert_eq!(
        I256::min_value().into_sign_and_abs(),
        (Sign::Negative, U256(0, 0, 0, 0x8000_0000_0000_0000))
    );
    assert_eq!(I256::checked_from_sign_and_abs(Sign::Negative, U256::from_u64(5)), Some(make(-5)));
    assert_eq!(I256::checked_from_sign_and_abs(Sign::Positive, U256::from_u64(5)), Some(make(5)));
    // A negative zero is zero, which fits.
    assert_eq!(I256::checked_from_sign_and_abs(Sign::Negative, U256::zero()), Some(make(0)));
    assert_eq!(I256::overflowing_from_sign_and_abs(Sign::Negative, U256::zero()), (make(0), false));
    assert_eq!(
        I256::checked_from_sign_and_abs(Sign::Negative, U256(1, 0, 0, 0x8000_0000_0000_0000)),
        None
    );
    assert_eq!(
        I256::overflowing_from_sign_and_abs(Sign::Positive, U256(0, 0, 0, 0x8000_0000_0000_0000)),
        (I256::min_value(), true)
    );
    assert_eq!(
        I256::checked_from_sign_and_abs(Sign::Negative, U256(0, 0, 0, 0x8000_0000_0000_0000)),
        Some(I256::min_value())
    );
    assert_eq!(make(-5).unsigned_abs(), U256::from_u64(5));
    assert_eq!(make(-5).twos_complement(), U256::from_u64(5));
    assert_eq!(make(5).twos_complement(), U256::from_u64(5));
}

#[test]
fn sign_and_abs_round_trip() {
    for v in [make(0), make(1), make(-1), make(12345), make(-98765), I256::max_value(), I256::min_value()] {
        let (sign, abs) = v.into_sign_and_abs();
        assert_eq!(I256::checked_from_sign_and_abs(sign, abs), Some(v));
    }
}

#[test]
fn predicates_and_signum() {
    assert!(make(3).is_positive() && !make(3).is_negative() && !make(3).is_zero());
    assert!(make(-3).is_negative() && !make(-3).is_positive());
    assert!(make(0).is_zero() && !make(0).is_positive() && !make(0).is_negative());
    assert_eq!(make(-7).signum(), make(-1));
    assert_eq!(make(0).signum(), make(0));
    assert_eq!(I256::max_value().signum(), make(1));
}

#[test]
fn absolute_value() {
    assert_eq!(make(-5).abs(), make(5));
    assert_eq!(make(5).abs(), make(5));
    assert_eq!(I256::min_value().overflowing_abs(), (I256::min_value(), true));
    assert_eq!(I256::min_value().checked_abs(), None);
    assert_eq!(I256::min_value().saturating_abs(), I256::max_value());
    assert_eq!(I256::min_value().wrapping_abs(), I256::min_value());
    assert_eq!(make(-9).checked_abs(), Some(make(9)));
    assert_eq!(
        I256::min_value().unsigned_abs(),
        U256(0, 0, 0, 0x8000_0000_0000_0000)
    );
}

#[test]
fn negation() {
    assert_eq!(make(5).overflowing_neg(), (make(-5), false));
    assert_eq!(make(0).overflowing_neg(), (make(0), false));
    assert_eq!(I256::min_value().overflowing_neg(), (I256::min_value(), true));
    assert_eq!(I256::min_value().checked_neg(), None);
    assert_eq!(I256::min_value().saturating_neg(), I256::max_value());
    assert_eq!(I256::max_value().checked_neg(), Some(I256::min_value().wrapping_add(make(1))));
    assert_eq!(I256::min_value().wrapping_neg().wrapping_neg(), I256::min_value());
    assert_eq!(make(42).wrapping_neg().wrapping_neg(), make(42));
}

#[test]
fn addition() {
    assert_eq!(make(2).overflowing_add(make(3)), (make(5), false));
    assert_eq!(make(-2).overflowing_add(make(-3)), (make(-5), false));
    assert_eq!(I256::max_value().overflowing_add(make(1)), (I256::min_value(), true));
    assert_eq!(I256::min_value().overflowing_add(make(-1)), (I256::max_value(), true));
    assert_eq!(I256::max_value().checked_add(make(1)), None);
    assert_eq!(I256::max_value().checked_add(make(-1)), Some(I256::max_value().wrapping_sub(make(1))));
    assert_eq!(I256::max_value().saturating_add(make(1)), I256::max_value());
    assert_eq!(I256::min_value().saturating_add(make(-1)), I256::min_value());
    assert_eq!(I256::max_value().wrapping_add(make(1)), I256::min_value());
    assert_eq!(I256::max_value().overflowing_add(I256::min_value()), (make(-1), false));
}

#[test]
fn subtraction() {
    assert_eq!(make(2).overflowing_sub(make(3)), (make(-1), false));
    assert_eq!(I256::min_value().overflowing_sub(make(1)), (I256::max_value(), true));
    assert_eq!(I256::max_value().overflowing_sub(make(-1)), (I256::min_value(), true));
    assert_eq!(make(0).checked_sub(I256::min_value()), None);
    assert_eq!(make(-1).checked_sub(I256::min_value()), Some(I256::max_value()));
    assert_eq!(I256::min_value().saturating_sub(make(1)), I256::min_value());
    assert_eq!(I256::max_value().saturating_sub(make(-1)), I256::max_value());
    assert_eq!(I256::min_value().wrapping_sub(make(1)), I256::max_value());
}

#[test]
fn add_then_sub_gives_back() {
    let a = I256::max_value().wrapping_sub(make(17));
    let b = make(1000);
    assert_eq!(a.wrapping_add(b).wrapping_sub(b), a);
}

#[test]
fn multiplication() {
    assert_eq!(make(3).overflowing_mul(make(-4)), (make(-12), false));
    assert_eq!(make(-3).overflowing_mul(make(-4)), (make(12), false));
    assert_eq!(make(0).overflowing_mul(make(-4)), (make(0), false));
    assert_eq!(I256::max_value().overflowing_mul(make(2)), (make(-2), true));
    assert_eq!(I256::min_value().overflowing_mul(make(-1)), (I256::min_value(), true));
    assert_eq!(I256::min_value().overflowing_mul(make(1)), (I256::min_value(), false));
    assert_eq!(I256::min_value().checked_mul(make(-1)), None);
    assert_eq!(make(7).checked_mul(make(6)), Some(make(42)));
    assert_eq!(I256::max_value().saturating_mul(make(2)), I256::max_value());
    assert_eq!(I256::min_value().saturating_mul(make(2)), I256::min_value());
    assert_eq!(I256::min_value().saturating_mul(make(-1)), I256::max_value());
    assert_eq!(I256::max_value().saturating_mul(make(-2)), I256::min_value());
    assert_eq!(I256::max_value().wrapping_mul(make(2)), make(-2));
}

#[test]
fn division() {
    assert_eq!(make(-7).overflowing_div(make(2)), (make(-3), false));
    assert_eq!(make(7).overflowing_div(make(-2)), (make(-3), false));
    assert_eq!(make(-7).overflowing_div(make(-2)), (make(3), false));
    assert_eq!(make(-1).overflowing_div(make(5)), (make(0), false));
    assert_eq!(I256::min_value().overflowing_div(make(-1)), (I256::min_value(), true));
    assert_eq!(make(5).checked_div(make(0)), None);
    assert_eq!(I256::min_value().checked_div(make(-1)), None);
    assert_eq!(I256::min_value().checked_div(make(2)), Some(I256::min_value().asr(1)));
    assert_eq!(I256::min_value().saturating_div(make(-1)), I256::max_value());
    assert_eq!(I256::min_value().wrapping_div(make(-1)), I256::min_value());
}

#[test]
fn remainder() {
    assert_eq!(make(-7).overflowing_rem(make(2)), (make(-1), false));
    assert_eq!(make(7).overflowing_rem(make(-2)), (make(1), false));
    assert_eq!(make(-7).overflowing_rem(make(-2)), (make(-1), false));
    assert_eq!(I256::min_value().overflowing_rem(make(-1)), (make(0), true));
    assert_eq!(make(5).checked_rem(make(0)), None);
    assert_eq!(I256::min_value().checked_rem(make(-1)), None);
    assert_eq!(make(17).checked_rem(make(5)), Some(make(2)));
    assert_eq!(I256::min_value().wrapping_rem(make(-1)), make(0));
    assert_eq!(I256::min_value().wrapping_rem(make(3)), make(-2));
}

#[test]
fn euclidean_division() {
    assert_eq!(make(-7).div_euclid(make(4)), make(-2));
    assert_eq!(make(-7).rem_euclid(make(4)), make(1));
    assert_eq!(make(7).div_euclid(make(-4)), make(-1));
    assert_eq!(make(7).rem_euclid(make(-4)), make(3));
    assert_eq!(make(-7).div_euclid(make(-4)), make(2));
    assert_eq!(make(-7).rem_euclid(make(-4)), make(1));
    assert_eq!(make(8).div_euclid(make(4)), make(2));
    assert_eq!(make(-8).rem_euclid(make(4)), make(0));
    assert_eq!(I256::min_value().overflowing_div_euclid(make(-1)), (I256::min_value(), true));
    assert_eq!(I256::min_value().checked_div_euclid(make(-1)), None);
    assert_eq!(make(3).checked_div_euclid(make(0)), None);
    assert_eq!(I256::min_value().wrapping_div_euclid(make(-1)), I256::min_value());
    assert_eq!(I256::min_value().overflowing_rem_euclid(make(-1)), (make(0), true));
    assert_eq!(I256::min_value().wrapping_rem_euclid(make(-1)), make(0));
    assert_eq!(I256::min_value().checked_rem_euclid(make(-1)), None);
    assert_eq!(make(-7).checked_rem_euclid(make(3)), Some(make(2)));
}

#[test]
fn euclidean_identity() {
    for a in [-9i128, -8, -1, 0, 1, 7, 13] {
        for b in [-4i128, -3, -1, 1, 2, 5] {
            let (x, y) = (make(a), make(b));
            let q = x.div_euclid(y);
            let r = x.rem_euclid(y);
            assert_eq!(y.wrapping_mul(q).wrapping_add(r), x);
            assert!(!r.is_negative());
            assert!(r < y.abs());
        }
    }
}

#[test]
fn powers() {
    assert_eq!(make(-2).pow(3), make(-8));
    assert_eq!(make(-2).pow(4), make(16));
    assert_eq!(make(7).pow(0), make(1));
    assert_eq!(make(0).pow(5), make(0));
    assert_eq!(make(2).overflowing_pow(255), (I256::min_value(), true));
    assert_eq!(make(-2).overflowing_pow(255), (I256::min_value(), false));
    assert_eq!(make(2).checked_pow(255), None);
    assert_eq!(make(2).checked_pow(254), Some(make(1).wrapping_shl(254)));
    assert_eq!(make(2).saturating_pow(255), I256::max_value());
    assert_eq!(make(-2).saturating_pow(257), I256::min_value());
    assert_eq!(make(-2).saturating_pow(258), I256::max_value());
    assert_eq!(make(2).wrapping_pow(256), make(0));
    assert_eq!(make(3).wrapping_pow(5), make(243));
}

#[test]
fn powers_of_ten() {
    assert_eq!(I256::exp10(0), make(1));
    assert_eq!(I256::exp10(18), I256::from(1_000_000_000_000_000_000u64));
    assert_eq!(I256::exp10(38), I256::from(100_000_000_000_000_000_000_000_000_000_000_000_000u128));
}

#[test]
fn sum_of_a_slice() {
    assert_eq!(I256::sum(&[make(1), make(2), make(3)]), make(6));
    assert_eq!(I256::sum(&[make(-7), make(2)]), make(-5));
    assert_eq!(I256::sum(&[]), make(0));
    assert_eq!(I256::sum(&[I256::max_value(), make(-1)]), I256::max_value() - I256::one());
}

#[test]
fn product_of_a_slice() {
    assert_eq!(I256::product(&[make(-2), make(3)]), make(-6));
    assert_eq!(I256::product(&[make(-2), make(-3), make(4)]), make(24));
    assert_eq!(I256::product(&[]), make(1));
    assert_eq!(I256::product(&[make(5), make(0), make(9)]), make(0));
}
