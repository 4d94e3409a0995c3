use evm_types::{Sign, TryFromBigIntError, I256, U256};
use std::cmp::Ordering;

fn num(v: i128) -> I256 {
    I256::from(v)
}

#[test]
fn shift_left() {
    assert_eq!(num(1).overflowing_shl(255), (I256::min_value(), false));
    assert_eq!(num(1).overflowing_shl(256), (num(0), true));
    assert_eq!(num(3).checked_shl(4), Some(num(48)));
    assert_eq!(num(3).checked_shl(300), None);
    assert_eq!(num(-1).wrapping_shl(1), num(-2));
    assert_eq!(num(5).wrapping_shl(0), num(5));
}

#[test]
fn shift_right_is_logical() {
    assert_eq!(I256::min_value().overflowing_shr(255), (num(1), false));
    assert_eq!(num(-1).overflowing_shr(256), (num(0), true));
    assert_eq!(num(-1).wrapping_shr(200).into_raw(), U256(0xff_ffff_ffff_ffff, 0, 0, 0));
    assert_eq!(num(48).checked_shr(4), Some(num(3)));
    assert_eq!(num(48).checked_shr(256), None);
}

#[test]
fn arithmetic_shift_right() {
    assert_eq!(num(-5).asr(1), num(-3));
    assert_eq!(num(5).asr(1), num(2));
    assert_eq!(num(-8).asr(2), num(-2));
    assert_eq!(num(-9).asr(2), num(-3));
    assert_eq!(num(-1).asr(300), num(-1));
    assert_eq!(num(7).asr(255), num(0));
    assert_eq!(num(-7).asr(255), num(-1));
    assert_eq!(num(-7).asr(0), num(-7));
    assert_eq!(I256::min_value().asr(254), num(-2));
    assert_eq!(I256::min_value().asr(255), num(-1));
    assert_eq!(I256::max_value().asr(254), num(1));
}

#[test]
fn arithmetic_shift_left() {
    assert_eq!(num(1).asl(254), Some(num(1).wrapping_shl(254)));
    assert_eq!(num(1).asl(255), None);
    assert_eq!(num(-1).asl(255), Some(I256::min_value()));
    assert_eq!(num(9).asl(0), Some(num(9)));
    assert_eq!(num(1).asl(256), Some(num(0)));
    assert_eq!(num(-3).asl(2), Some(num(-12)));
}

#[test]
fn bit_counts() {
    assert_eq!(num(-1).count_ones(), 256);
    assert_eq!(num(-1).count_zeros(), 0);
    assert_eq!(num(0).count_ones(), 0);
    assert_eq!(num(0).count_zeros(), 256);
    assert_eq!(num(5).count_ones(), 2);
    assert_eq!(I256::min_value().count_ones(), 1);
    assert_eq!(num(1).leading_zeros(), 255);
    assert_eq!(num(-1).leading_zeros(), 0);
    assert_eq!(num(0).leading_zeros(), 256);
    assert_eq!(num(8).trailing_zeros(), 3);
    assert_eq!(num(0).trailing_zeros(), 256);
    assert_eq!(I256::min_value().trailing_zeros(), 255);
}

#[test]
fn least_bits() {
    assert_eq!(num(0).bits(), 0);
    assert_eq!(num(1).bits(), 2);
    assert_eq!(num(-1).bits(), 1);
    assert_eq!(num(127).bits(), 8);
    assert_eq!(num(128).bits(), 9);
    assert_eq!(num(-128).bits(), 8);
    assert_eq!(num(-129).bits(), 9);
    assert_eq!(num(-2).bits(), 2);
    assert_eq!(I256::max_value().bits(), 256);
    assert_eq!(I256::min_value().bits(), 256);
}

#[test]
fn bits_and_bytes() {
    assert!(num(-1).bit(255));
    assert!(!num(5).bit(1));
    assert!(num(5).bit(2));
    assert_eq!(num(0x1234).byte(1), 0x12);
    assert_eq!(num(0x1234).byte(0), 0x34);
    assert_eq!(num(-1).byte(31), 0xff);
}

#[test]
fn endian_bytes() {
    let mut big = [0u8; 32];
    num(0x0102).to_big_endian(&mut big);
    assert_eq!(big[30], 0x01);
    assert_eq!(big[31], 0x02);
    assert!(big[..30].iter().all(|b| *b == 0));
    let mut little = [0u8; 32];
    num(0x0102).to_little_endian(&mut little);
    assert_eq!(little[0], 0x02);
    assert_eq!(little[1], 0x01);
    assert!(little[2..].iter().all(|b| *b == 0));
    let mut all = [0u8; 32];
    num(-1).to_little_endian(&mut all);
    assert_eq!(all, [0xffu8; 32]);
}

#[test]
fn text() {
    assert_eq!(num(-123).to_string(), "-123");
    assert_eq!(num(0).to_string(), "0");
    assert_eq!(num(5).fmt_decimal(true), "+5");
    assert_eq!(num(-5).fmt_decimal(true), "-5");
    assert_eq!(num(255).fmt_lower_hex(false), "ff");
    assert_eq!(num(-255).fmt_upper_hex(false), "-FF");
    assert_eq!(num(0).fmt_lower_hex(false), "0");
    assert_eq!(
        I256::min_value().to_string(),
        "-57896044618658097711785492504343953926634992332820282019728792003956564819968"
    );
    assert_eq!(
        I256::max_value().to_string(),
        "57896044618658097711785492504343953926634992332820282019728792003956564819967"
    );
    assert_eq!(Sign::Positive.fmt_str(false), "");
    assert_eq!(Sign::Positive.fmt_str(true), "+");
    assert_eq!(Sign::Negative.fmt_str(false), "-");
}

#[test]
fn sign_helpers() {
    assert!(Sign::Positive.is_positive() && !Sign::Positive.is_negative());
    assert!(Sign::Negative.is_negative() && !Sign::Negative.is_positive());
    assert_eq!(Sign::Positive.as_char(), '+');
    assert_eq!(Sign::Negative.as_char(), '-');
    assert_eq!(Sign::from_signum64(-1), Sign::Negative);
    assert_eq!(Sign::from_signum64(0), Sign::Positive);
    assert_eq!(Sign::from_signum64(1), Sign::Positive);
}

#[test]
fn conversions_in() {
    assert_eq!(I256::from(-1i8), num(-1));
    assert_eq!(I256::from(i8::MIN).to_string(), "-128");
    assert_eq!(I256::from(u8::MAX).to_string(), "255");
    assert_eq!(I256::from(i16::MIN).to_string(), "-32768");
    assert_eq!(I256::from(u32::MAX).to_string(), "4294967295");
    assert_eq!(I256::from(i64::MIN).to_string(), "-9223372036854775808");
    assert_eq!(I256::from(u64::MAX).to_string(), "18446744073709551615");
    assert_eq!(I256::from(isize::MIN).to_string(), isize::MIN.to_string());
    assert_eq!(I256::from(usize::MAX).to_string(), usize::MAX.to_string());
    assert_eq!(I256::from(i128::MIN).to_string(), i128::MIN.to_string());
    assert_eq!(I256::from(u128::MAX).to_string(), u128::MAX.to_string());
}

#[test]
fn conversions_out() {
    assert_eq!(u8::try_from(num(255)), Ok(255u8));
    assert_eq!(u8::try_from(num(256)), Err(TryFromBigIntError));
    assert_eq!(u8::try_from(num(-1)), Err(TryFromBigIntError));
    assert_eq!(i8::try_from(num(-128)), Ok(-128i8));
    assert_eq!(i8::try_from(num(-129)), Err(TryFromBigIntError));
    assert_eq!(i8::try_from(num(127)), Ok(127i8));
    assert_eq!(i8::try_from(num(128)), Err(TryFromBigIntError));
    assert_eq!(u16::try_from(num(65535)), Ok(65535u16));
    assert_eq!(i32::try_from(num(-5)), Ok(-5i32));
    assert_eq!(u64::try_from(I256::from(u64::MAX)), Ok(u64::MAX));
    assert_eq!(i64::try_from(I256::from(i64::MIN)), Ok(i64::MIN));
    assert_eq!(usize::try_from(num(7)), Ok(7usize));
    assert_eq!(isize::try_from(num(-7)), Ok(-7isize));
    assert_eq!(u128::try_from(I256::from(u128::MAX)), Ok(u128::MAX));
    assert_eq!(i128::try_from(I256::from(i128::MIN)), Ok(i128::MIN));
    assert_eq!(i128::try_from(I256::from(u128::MAX)), Err(TryFromBigIntError));
    assert_eq!(u128::try_from(I256::max_value()), Err(TryFromBigIntError));
}

#[test]
fn conversions_unsigned_word() {
    assert_eq!(I256::try_from(U256::from_u64(9)), Ok(num(9)));
    assert_eq!(I256::try_from(U256(0, 0, 0, 0x8000_0000_0000_0000)), Err(TryFromBigIntError));
    assert_eq!(U256::try_from(num(9)), Ok(U256::from_u64(9)));
    assert_eq!(U256::try_from(num(-9)), Err(TryFromBigIntError));
}

#[test]
fn low_bits_and_checked_casts() {
    assert_eq!(num(-1).low_u8(), 255);
    assert_eq!(num(255).low_i8(), -1);
    assert_eq!(num(0x1_0005).low_u16(), 5);
    assert_eq!(num(-2).low_u32(), u32::MAX - 1);
    assert_eq!(num(-2).low_i64(), -2);
    assert_eq!(num(-2).low_u64(), u64::MAX - 1);
    assert_eq!(num(-3).low_usize(), usize::MAX - 2);
    assert_eq!(num(-3).low_isize(), -3);
    assert_eq!(num(-3).low_u128(), u128::MAX - 2);
    assert_eq!(num(-3).low_i128(), -3);
    assert_eq!(num(200).as_u8(), 200);
    assert_eq!(num(-100).as_i8(), -100);
    assert_eq!(num(40000).as_u16(), 40000);
    assert_eq!(num(-40000).as_i32(), -40000);
    assert_eq!(num(5).as_u32(), 5);
    assert_eq!(num(-20000).as_i16(), -20000);
    assert_eq!(num(5).as_u64(), 5);
    assert_eq!(num(-5).as_i64(), -5);
    assert_eq!(num(5).as_usize(), 5);
    assert_eq!(num(-5).as_isize(), -5);
    assert_eq!(num(5).as_u128(), 5);
    assert_eq!(num(-5).as_i128(), -5);
}

#[test]
fn ordering() {
    let values = [I256::min_value(), num(-2), num(-1), num(0), num(1), num(2), I256::max_value()];
    for (a, x) in values.iter().enumerate() {
        for (b, y) in values.iter().enumerate() {
            assert_eq!(x.cmp(y), a.cmp(&b));
            assert_eq!(x.partial_cmp(y), Some(a.cmp(&b)));
            assert_eq!(x < y, a < b);
            assert_eq!(x.saturating_sub(*y).signum().cmp(&num(0)), a.cmp(&b));
        }
    }
    assert_eq!(U256::from_u64(3).cmp(&U256(0, 1, 0, 0)), Ordering::Less);
}

#[test]
fn operators() {
    assert_eq!(num(2) + num(3), num(5));
    assert_eq!(num(2) - num(3), num(-1));
    assert_eq!(num(-4) * num(3), num(-12));
    assert_eq!(num(-7) / num(2), num(-3));
    assert_eq!(num(-7) % num(2), num(-1));
    assert_eq!(-num(5), num(-5));
    assert_eq!(!num(0), num(-1));
    assert_eq!(!num(5), num(-6));
    assert_eq!(num(0b1100) & num(0b1010), num(0b1000));
    assert_eq!(num(0b1100) | num(0b1010), num(0b1110));
    assert_eq!(num(0b1100) ^ num(0b1010), num(0b0110));
    assert_eq!(num(-1) & num(5), num(5));
    assert_eq!(num(1) << 4u8, num(16));
    assert_eq!(num(1) << 4i64, num(16));
    assert_eq!(num(1) << -1i32, num(0));
    assert_eq!(num(16) >> 4usize, num(1));
    assert_eq!(num(-1) >> 255u32, num(1));
    assert_eq!(num(-1) >> 256u16, num(0));
}

#[test]
fn assignment_operators() {
    let mut x = num(10);
    x += num(5);
    assert_eq!(x, num(15));
    x -= num(20);
    assert_eq!(x, num(-5));
    x *= num(-3);
    assert_eq!(x, num(15));
    x &= num(6);
    assert_eq!(x, num(6));
    x |= num(9);
    assert_eq!(x, num(15));
    x ^= num(5);
    assert_eq!(x, num(10));
    x <<= 2u8;
    assert_eq!(x, num(40));
    x >>= 3usize;
    assert_eq!(x, num(5));
    let mut y = I256::max_value();
    y += num(1);
    assert_eq!(y, I256::min_value());
}

#[test]
fn bit_counts_of_mixed_words() {
    let v = I256::from_raw(U256(0xff, 0, 1, 0x8000_0000_0000_0000));
    assert_eq!(v.count_ones(), 10);
    assert_eq!(v.count_zeros(), 246);
}
