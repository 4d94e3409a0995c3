use evm_types::{Sign, I256, U256};

fn val(v: i128) -> I256 {
    I256::from(v)
}

#[test]
fn raw_word_comes_back() {
    for raw in [U256::zero(), U256::max_value(), U256(0, 0, 0, 0x8000_0000_0000_0000), U256(5, 6, 7, 8)] {
        assert_eq!(I256::from_raw(raw).into_raw(), raw);
    }
}

#[test]
fn negation_undoes_itself() {
    for v in [I256::min_value(), I256::max_value(), val(0), val(-3), val(3)] {
        assert_eq!(v.wrapping_neg().wrapping_neg(), v);
    }
}

#[test]
fn subtraction_undoes_addition() {
    let values = [I256::min_value(), I256::max_value(), val(0), val(-3), val(3)];
    for a in values {
        for b in values {
            assert_eq!(a.wrapping_add(b).wrapping_sub(b), a);
        }
    }
}

#[test]
fn truncated_division_identity() {
    for a in [-9i128, -8, -1, 0, 1, 7, 13] {
        for b in [-4i128, -3, -1, 1, 2, 5] {
            let (x, y) = (val(a), val(b));
            let q = x.checked_div(y).unwrap();
            let r = x.checked_rem(y).unwrap();
            assert_eq!(y.wrapping_mul(q).wrapping_add(r), x);
            assert!(r.is_zero() || r.is_negative() == x.is_negative());
        }
    }
}

#[test]
fn asr_agrees_with_shr_for_nonnegative() {
    for v in [val(0), val(1), val(12345), I256::max_value()] {
        for k in [0usize, 1, 7, 64, 200, 254, 255, 300] {
            assert_eq!(v.asr(k), v.wrapping_shr(k));
        }
    }
}

#[test]
fn least_bits_hold_the_value() {
    for v in [-129i128, -128, -2, -1, 0, 1, 2, 127, 128, 1000] {
        let x = val(v);
        let n = x.bits();
        if n == 0 {
            assert!(x.is_zero());
        } else {
            // The value fits in `n` bits and not in `n - 1`.
            assert_eq!(x.asl(256 - n as usize).is_some(), true);
            let lo = -(1i128 << (n - 1));
            let hi = 1i128 << (n - 1);
            assert!(lo <= v && v < hi);
            if n > 1 {
                let lo = -(1i128 << (n - 2));
                let hi = 1i128 << (n - 2);
                assert!(!(lo <= v && v < hi));
            } else {
                assert_eq!(v, -1);
            }
        }
    }
}

#[test]
fn bit_counts_add_up() {
    for v in [val(0), val(-1), val(77), I256::min_value()] {
        assert_eq!(v.count_ones() + v.count_zeros(), 256);
    }
}

#[test]
fn saturating_is_exact_in_range() {
    assert_eq!(val(5).saturating_add(val(6)), val(11));
    assert_eq!(val(5).saturating_mul(val(-6)), val(-30));
    assert_eq!(val(5).saturating_sub(val(6)), val(-1));
}

#[test]
fn small_integers_round_trip() {
    for v in [i64::MIN, -1, 0, 1, i64::MAX] {
        assert_eq!(i64::try_from(I256::from(v)), Ok(v));
    }
    for v in [0u64, 1, u64::MAX] {
        assert_eq!(u64::try_from(I256::from(v)), Ok(v));
    }
    for v in [i8::MIN, 0, i8::MAX] {
        assert_eq!(i8::try_from(I256::from(v)), Ok(v));
    }
    for v in [i128::MIN, i128::MAX] {
        assert_eq!(i128::try_from(I256::from(v)), Ok(v));
    }
}

#[test]
fn sign_of_a_power() {
    assert_eq!(val(-3).pow(3).sign(), Sign::Negative);
    assert_eq!(val(-3).pow(2).sign(), Sign::Positive);
    assert_eq!(val(-3).wrapping_pow(201).sign(), Sign::Negative);
}
