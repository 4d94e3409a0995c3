use crate::i256::{
    signum,
    lemma_from_int, lemma_view_fits, lemma_view_injective, lemma_wrap_fits, raw_of, twos_complement,
    I256,
};
use crate::sign::{Sign, TryFromBigIntError};
use crate::uint::{
    base1, base2, half_modulus, lemma_from_nat, lemma_value_injective, lemma_word_powers, modulus, U256,
};
use vstd::arithmetic::div_mod::*;
use vstd::arithmetic::power::pow;
use vstd::prelude::*;

verus! {

/// `n` read as a two's complement number of `m` values (`m` a power of two): its
/// remainder modulo `m`, less `m` when that is in the upper half.
pub open spec fn wrap_bits(n: int, m: int) -> int {
    let w = n % m;
    if 2 * w < m {
        w
    } else {
        w - m
    }
}

/// The low bits of the word of an `I256` are those of its value: for a modulus `m` that
/// divides 2^256, the word and the value agree modulo `m`, and a value that fits in `m`
/// values is read back from them.
pub proof fn lemma_low_bits(x: I256, m: int, k: int)
    requires
        m > 0,
        k > 0,
        m * k == modulus(),
    ensures
        (x.raw() as int) % m == x@ % m,
        0 <= x@ < m ==> (x.raw() as int) % m == x@,
        -m <= 2 * x@ < m ==> wrap_bits(x.raw() as int, m) == x@,
{
    lemma_view_fits(x);
    let c: int = if x@ < 0 {
        1
    } else {
        0
    };
    assert(x.raw() == x@ + (c * k) * m) by (nonlinear_arith)
        requires
            x.raw() == x@ + c * modulus(),
            m * k == modulus(),
    ;
    lemma_mod_multiples_vanish(c * k, x@, m);
    assert((c * k) * m + x@ == m * (c * k) + x@) by (nonlinear_arith);
    if -m <= 2 * x@ && 2 * x@ < m {
        if x@ < 0 {
            lemma_fundamental_div_mod_converse(x@, m, -1, x@ + m);
        } else {
            lemma_fundamental_div_mod_converse(x@, m, 0, x@);
        }
    }
    if 0 <= x@ < m {
        lemma_fundamental_div_mod_converse(x@, m, 0, x@);
    }
}

/// The powers of two that the primitive integer types span divide 2^256.
proof fn lemma_type_moduli()
    ensures
        0x100int * 0x100000000000000000000000000000000000000000000000000000000000000int
            == modulus(),
        0x10000int * 0x1000000000000000000000000000000000000000000000000000000000000int
            == modulus(),
        0x100000000int * 0x100000000000000000000000000000000000000000000000000000000int
            == modulus(),
        0x10000000000000000int * 0x1000000000000000000000000000000000000000000000000int
            == modulus(),
        0x100000000000000000000000000000000int * 0x100000000000000000000000000000000int
            == modulus(),
{
}

impl From<u8> for I256 {
    fn from(value: u8) -> (r: I256) {
        let r = I256::from_raw(U256::from_u64(value as u64));
        proof {
            lemma_from_int(value as int);
            lemma_wrap_fits(value as int);
            lemma_view_injective(r, I256::from_int(value as int));
        }
        r
    }
}

impl vstd::std_specs::convert::FromSpecImpl<u8> for I256 {
    open spec fn obeys_from_spec() -> bool {
        true
    }

    open spec fn from_spec(v: u8) -> I256 {
        I256::from_int(v as int)
    }
}

impl From<i8> for I256 {
    fn from(value: i8) -> (r: I256) {
        let uint: u8 = value as u8;
        let raw = if value < 0 {
            assert(!uint == u8::MAX - uint) by (bit_vector);
            assert(value < 0 ==> uint as int == value + (u8::MAX as int) + 1) by (bit_vector)
                requires
                    uint == value as u8,
            ;
            let abs = (!uint).wrapping_add(1);
            twos_complement(U256::from_u64(abs as u64))
        } else {
            U256::from_u64(uint as u64)
        };
        let r = I256::from_raw(raw);
        proof {
            lemma_from_int(value as int);
            lemma_wrap_fits(value as int);
            lemma_view_injective(r, I256::from_int(value as int));
        }
        r
    }
}

impl vstd::std_specs::convert::FromSpecImpl<i8> for I256 {
    open spec fn obeys_from_spec() -> bool {
        true
    }

    open spec fn from_spec(v: i8) -> I256 {
        I256::from_int(v as int)
    }
}

impl TryFrom<I256> for u8 {
    type Error = TryFromBigIntError;

    fn try_from(value: I256) -> (r: Result<u8, TryFromBigIntError>) {
        proof {
            lemma_from_int(u8::MAX as int);
            lemma_wrap_fits(u8::MAX as int);
        }
        if value.is_negative() || value > I256::from(u8::MAX) {
            return Err(TryFromBigIntError);
        }
        Ok(value.low_u8())
    }
}

impl vstd::std_specs::convert::TryFromSpecImpl<I256> for u8 {
    open spec fn obeys_try_from_spec() -> bool {
        true
    }

    open spec fn try_from_spec(v: I256) -> Result<u8, TryFromBigIntError> {
        if 0 <= v@ <= u8::MAX {
            Ok(v@ as u8)
        } else {
            Err(TryFromBigIntError)
        }
    }
}

impl TryFrom<I256> for i8 {
    type Error = TryFromBigIntError;

    fn try_from(value: I256) -> (r: Result<i8, TryFromBigIntError>) {
        proof {
            lemma_from_int(i8::MIN as int);
            lemma_wrap_fits(i8::MIN as int);
            lemma_from_int(i8::MAX as int);
            lemma_wrap_fits(i8::MAX as int);
        }
        if value < I256::from(i8::MIN) || value > I256::from(i8::MAX) {
            return Err(TryFromBigIntError);
        }
        Ok(value.low_i8())
    }
}

impl vstd::std_specs::convert::TryFromSpecImpl<I256> for i8 {
    open spec fn obeys_try_from_spec() -> bool {
        true
    }

    open spec fn try_from_spec(v: I256) -> Result<i8, TryFromBigIntError> {
        if i8::MIN <= v@ <= i8::MAX {
            Ok(v@ as i8)
        } else {
            Err(TryFromBigIntError)
        }
    }
}

impl From<u16> for I256 {
    fn from(value: u16) -> (r: I256) {
        let r = I256::from_raw(U256::from_u64(value as u64));
        proof {
            lemma_from_int(value as int);
            lemma_wrap_fits(value as int);
            lemma_view_injective(r, I256::from_int(value as int));
        }
        r
    }
}

impl vstd::std_specs::convert::FromSpecImpl<u16> for I256 {
    open spec fn obeys_from_spec() -> bool {
        true
    }

    open spec fn from_spec(v: u16) -> I256 {
        I256::from_int(v as int)
    }
}

impl From<i16> for I256 {
    fn from(value: i16) -> (r: I256) {
        let uint: u16 = value as u16;
        let raw = if value < 0 {
            assert(!uint == u16::MAX - uint) by (bit_vector);
            assert(value < 0 ==> uint as int == value + (u16::MAX as int) + 1) by (bit_vector)
                requires
                    uint == value as u16,
            ;
            let abs = (!uint).wrapping_add(1);
            twos_complement(U256::from_u64(abs as u64))
        } else {
            U256::from_u64(uint as u64)
        };
        let r = I256::from_raw(raw);
        proof {
            lemma_from_int(value as int);
            lemma_wrap_fits(value as int);
            lemma_view_injective(r, I256::from_int(value as int));
        }
        r
    }
}

impl vstd::std_specs::convert::FromSpecImpl<i16> for I256 {
    open spec fn obeys_from_spec() -> bool {
        true
    }

    open spec fn from_spec(v: i16) -> I256 {
        I256::from_int(v as int)
    }
}

impl TryFrom<I256> for u16 {
    type Error = TryFromBigIntError;

    fn try_from(value: I256) -> (r: Result<u16, TryFromBigIntError>) {
        proof {
            lemma_from_int(u16::MAX as int);
            lemma_wrap_fits(u16::MAX as int);
        }
        if value.is_negative() || value > I256::from(u16::MAX) {
            return Err(TryFromBigIntError);
        }
        Ok(value.low_u16())
    }
}

impl vstd::std_specs::convert::TryFromSpecImpl<I256> for u16 {
    open spec fn obeys_try_from_spec() -> bool {
        true
    }

    open spec fn try_from_spec(v: I256) -> Result<u16, TryFromBigIntError> {
        if 0 <= v@ <= u16::MAX {
            Ok(v@ as u16)
        } else {
            Err(TryFromBigIntError)
        }
    }
}

impl TryFrom<I256> for i16 {
    type Error = TryFromBigIntError;

    fn try_from(value: I256) -> (r: Result<i16, TryFromBigIntError>) {
        proof {
            lemma_from_int(i16::MIN as int);
            lemma_wrap_fits(i16::MIN as int);
            lemma_from_int(i16::MAX as int);
            lemma_wrap_fits(i16::MAX as int);
        }
        if value < I256::from(i16::MIN) || value > I256::from(i16::MAX) {
            return Err(TryFromBigIntError);
        }
        Ok(value.low_i16())
    }
}

impl vstd::std_specs::convert::TryFromSpecImpl<I256> for i16 {
    open spec fn obeys_try_from_spec() -> bool {
        true
    }

    open spec fn try_from_spec(v: I256) -> Result<i16, TryFromBigIntError> {
        if i16::MIN <= v@ <= i16::MAX {
            Ok(v@ as i16)
        } else {
            Err(TryFromBigIntError)
        }
    }
}

impl From<u32> for I256 {
    fn from(value: u32) -> (r: I256) {
        let r = I256::from_raw(U256::from_u64(value as u64));
        proof {
            lemma_from_int(value as int);
            lemma_wrap_fits(value as int);
            lemma_view_injective(r, I256::from_int(value as int));
        }
        r
    }
}

impl vstd::std_specs::convert::FromSpecImpl<u32> for I256 {
    open spec fn obeys_from_spec() -> bool {
        true
    }

    open spec fn from_spec(v: u32) -> I256 {
        I256::from_int(v as int)
    }
}

impl From<i32> for I256 {
    fn from(value: i32) -> (r: I256) {
        let uint: u32 = value as u32;
        let raw = if value < 0 {
            assert(!uint == u32::MAX - uint) by (bit_vector);
            assert(value < 0 ==> uint as int == value + (u32::MAX as int) + 1) by (bit_vector)
                requires
                    uint == value as u32,
            ;
            let abs = (!uint).wrapping_add(1);
            twos_complement(U256::from_u64(abs as u64))
        } else {
            U256::from_u64(uint as u64)
        };
        let r = I256::from_raw(raw);
        proof {
            lemma_from_int(value as int);
            lemma_wrap_fits(value as int);
            lemma_view_injective(r, I256::from_int(value as int));
        }
        r
    }
}

impl vstd::std_specs::convert::FromSpecImpl<i32> for I256 {
    open spec fn obeys_from_spec() -> bool {
        true
    }

    open spec fn from_spec(v: i32) -> I256 {
        I256::from_int(v as int)
    }
}

impl TryFrom<I256> for u32 {
    type Error = TryFromBigIntError;

    fn try_from(value: I256) -> (r: Result<u32, TryFromBigIntError>) {
        proof {
            lemma_from_int(u32::MAX as int);
            lemma_wrap_fits(u32::MAX as int);
        }
        if value.is_negative() || value > I256::from(u32::MAX) {
            return Err(TryFromBigIntError);
        }
        Ok(value.low_u32())
    }
}

impl vstd::std_specs::convert::TryFromSpecImpl<I256> for u32 {
    open spec fn obeys_try_from_spec() -> bool {
        true
    }

    open spec fn try_from_spec(v: I256) -> Result<u32, TryFromBigIntError> {
        if 0 <= v@ <= u32::MAX {
            Ok(v@ as u32)
        } else {
            Err(TryFromBigIntError)
        }
    }
}

impl TryFrom<I256> for i32 {
    type Error = TryFromBigIntError;

    fn try_from(value: I256) -> (r: Result<i32, TryFromBigIntError>) {
        proof {
            lemma_from_int(i32::MIN as int);
            lemma_wrap_fits(i32::MIN as int);
            lemma_from_int(i32::MAX as int);
            lemma_wrap_fits(i32::MAX as int);
        }
        if value < I256::from(i32::MIN) || value > I256::from(i32::MAX) {
            return Err(TryFromBigIntError);
        }
        Ok(value.low_i32())
    }
}

impl vstd::std_specs::convert::TryFromSpecImpl<I256> for i32 {
    open spec fn obeys_try_from_spec() -> bool {
        true
    }

    open spec fn try_from_spec(v: I256) -> Result<i32, TryFromBigIntError> {
        if i32::MIN <= v@ <= i32::MAX {
            Ok(v@ as i32)
        } else {
            Err(TryFromBigIntError)
        }
    }
}

impl From<u64> for I256 {
    fn from(value: u64) -> (r: I256) {
        let r = I256::from_raw(U256::from_u64(value));
        proof {
            lemma_from_int(value as int);
            lemma_wrap_fits(value as int);
            lemma_view_injective(r, I256::from_int(value as int));
        }
        r
    }
}

impl vstd::std_specs::convert::FromSpecImpl<u64> for I256 {
    open spec fn obeys_from_spec() -> bool {
        true
    }

    open spec fn from_spec(v: u64) -> I256 {
        I256::from_int(v as int)
    }
}

impl From<i64> for I256 {
    fn from(value: i64) -> (r: I256) {
        let uint: u64 = value as u64;
        let raw = if value < 0 {
            assert(!uint == u64::MAX - uint) by (bit_vector);
            assert(value < 0 ==> uint as int == value + (u64::MAX as int) + 1) by (bit_vector)
                requires
                    uint == value as u64,
            ;
            let abs = (!uint).wrapping_add(1);
            twos_complement(U256::from_u64(abs))
        } else {
            U256::from_u64(uint)
        };
        let r = I256::from_raw(raw);
        proof {
            lemma_from_int(value as int);
            lemma_wrap_fits(value as int);
            lemma_view_injective(r, I256::from_int(value as int));
        }
        r
    }
}

impl vstd::std_specs::convert::FromSpecImpl<i64> for I256 {
    open spec fn obeys_from_spec() -> bool {
        true
    }

    open spec fn from_spec(v: i64) -> I256 {
        I256::from_int(v as int)
    }
}

impl TryFrom<I256> for u64 {
    type Error = TryFromBigIntError;

    fn try_from(value: I256) -> (r: Result<u64, TryFromBigIntError>) {
        proof {
            lemma_from_int(u64::MAX as int);
            lemma_wrap_fits(u64::MAX as int);
        }
        if value.is_negative() || value > I256::from(u64::MAX) {
            return Err(TryFromBigIntError);
        }
        Ok(value.low_u64())
    }
}

impl vstd::std_specs::convert::TryFromSpecImpl<I256> for u64 {
    open spec fn obeys_try_from_spec() -> bool {
        true
    }

    open spec fn try_from_spec(v: I256) -> Result<u64, TryFromBigIntError> {
        if 0 <= v@ <= u64::MAX {
            Ok(v@ as u64)
        } else {
            Err(TryFromBigIntError)
        }
    }
}

impl TryFrom<I256> for i64 {
    type Error = TryFromBigIntError;

    fn try_from(value: I256) -> (r: Result<i64, TryFromBigIntError>) {
        proof {
            lemma_from_int(i64::MIN as int);
            lemma_wrap_fits(i64::MIN as int);
            lemma_from_int(i64::MAX as int);
            lemma_wrap_fits(i64::MAX as int);
        }
        if value < I256::from(i64::MIN) || value > I256::from(i64::MAX) {
            return Err(TryFromBigIntError);
        }
        Ok(value.low_i64())
    }
}

impl vstd::std_specs::convert::TryFromSpecImpl<I256> for i64 {
    open spec fn obeys_try_from_spec() -> bool {
        true
    }

    open spec fn try_from_spec(v: I256) -> Result<i64, TryFromBigIntError> {
        if i64::MIN <= v@ <= i64::MAX {
            Ok(v@ as i64)
        } else {
            Err(TryFromBigIntError)
        }
    }
}

impl From<usize> for I256 {
    fn from(value: usize) -> (r: I256) {
        let r = I256::from_raw(U256::from_usize(value));
        proof {
            lemma_from_int(value as int);
            lemma_wrap_fits(value as int);
            lemma_view_injective(r, I256::from_int(value as int));
        }
        r
    }
}

impl vstd::std_specs::convert::FromSpecImpl<usize> for I256 {
    open spec fn obeys_from_spec() -> bool {
        true
    }

    open spec fn from_spec(v: usize) -> I256 {
        I256::from_int(v as int)
    }
}

impl From<isize> for I256 {
    fn from(value: isize) -> (r: I256) {
        let uint: usize = value as usize;
        let raw = if value < 0 {
            assert(usize::BITS == 64 ==> (!0usize) as int == 0xffff_ffff_ffff_ffffint) by (bit_vector);
            assert(usize::BITS == 32 ==> (!0usize) as int == 0xffff_ffffint) by (bit_vector);
            assert(usize::BITS == 64 ==> usize::MAX == 0xffff_ffff_ffff_ffff);
            assert(usize::BITS == 32 ==> usize::MAX == 0xffff_ffff);
            assert(!uint == (!0usize) - uint) by (bit_vector);
            assert(value < 0 ==> uint as int == value + ((!0usize) as int) + 1) by (bit_vector)
                requires
                    uint == value as usize,
            ;
            let abs = (!uint).wrapping_add(1);
            twos_complement(U256::from_usize(abs))
        } else {
            U256::from_usize(uint)
        };
        let r = I256::from_raw(raw);
        proof {
            lemma_from_int(value as int);
            lemma_wrap_fits(value as int);
            lemma_view_injective(r, I256::from_int(value as int));
        }
        r
    }
}

impl vstd::std_specs::convert::FromSpecImpl<isize> for I256 {
    open spec fn obeys_from_spec() -> bool {
        true
    }

    open spec fn from_spec(v: isize) -> I256 {
        I256::from_int(v as int)
    }
}

impl TryFrom<I256> for usize {
    type Error = TryFromBigIntError;

    fn try_from(value: I256) -> (r: Result<usize, TryFromBigIntError>) {
        proof {
            lemma_from_int(usize::MAX as int);
            lemma_wrap_fits(usize::MAX as int);
        }
        if value.is_negative() || value > I256::from(usize::MAX) {
            return Err(TryFromBigIntError);
        }
        proof {
            lemma_view_fits(value);
            lemma_small_mod(value.raw(), usize::MAX as nat + 1);
        }
        Ok(value.low_usize())
    }
}

impl vstd::std_specs::convert::TryFromSpecImpl<I256> for usize {
    open spec fn obeys_try_from_spec() -> bool {
        true
    }

    open spec fn try_from_spec(v: I256) -> Result<usize, TryFromBigIntError> {
        if 0 <= v@ <= usize::MAX {
            Ok(v@ as usize)
        } else {
            Err(TryFromBigIntError)
        }
    }
}

impl TryFrom<I256> for isize {
    type Error = TryFromBigIntError;

    fn try_from(value: I256) -> (r: Result<isize, TryFromBigIntError>) {
        proof {
            lemma_from_int(isize::MIN as int);
            lemma_wrap_fits(isize::MIN as int);
            lemma_from_int(isize::MAX as int);
            lemma_wrap_fits(isize::MAX as int);
        }
        if value < I256::from(isize::MIN) || value > I256::from(isize::MAX) {
            return Err(TryFromBigIntError);
        }
        proof {
            assert(usize::BITS == 64 ==> usize::MAX == 0xffff_ffff_ffff_ffff);
            assert(usize::BITS == 32 ==> usize::MAX == 0xffff_ffff);
            assert(usize::BITS == 64 ==> isize::MIN == -0x8000_0000_0000_0000);
            assert(usize::BITS == 32 ==> isize::MIN == -0x8000_0000);
            assert(usize::BITS == 64 ==> isize::MAX == 0x7fff_ffff_ffff_ffff);
            assert(usize::BITS == 32 ==> isize::MAX == 0x7fff_ffff);
            lemma_type_moduli();
            if usize::BITS == 32 {
                lemma_low_bits(
                    value,
                    usize::MAX as int + 1,
                    0x100000000000000000000000000000000000000000000000000000000int,
                );
            } else {
                lemma_low_bits(
                    value,
                    usize::MAX as int + 1,
                    0x1000000000000000000000000000000000000000000000000int,
                );
            }
        }
        Ok(value.low_isize())
    }
}

impl vstd::std_specs::convert::TryFromSpecImpl<I256> for isize {
    open spec fn obeys_try_from_spec() -> bool {
        true
    }

    open spec fn try_from_spec(v: I256) -> Result<isize, TryFromBigIntError> {
        if isize::MIN <= v@ <= isize::MAX {
            Ok(v@ as isize)
        } else {
            Err(TryFromBigIntError)
        }
    }
}

impl From<u128> for I256 {
    fn from(value: u128) -> (r: I256) {
        let r = I256::from_raw(U256::from_u128(value));
        proof {
            lemma_from_int(value as int);
            lemma_wrap_fits(value as int);
            lemma_view_injective(r, I256::from_int(value as int));
        }
        r
    }
}

impl vstd::std_specs::convert::FromSpecImpl<u128> for I256 {
    open spec fn obeys_from_spec() -> bool {
        true
    }

    open spec fn from_spec(v: u128) -> I256 {
        I256::from_int(v as int)
    }
}

impl From<i128> for I256 {
    fn from(value: i128) -> (r: I256) {
        let uint: u128 = value as u128;
        let raw = if value < 0 {
            assert(!uint == u128::MAX - uint) by (bit_vector);
            assert(value < 0 ==> uint as int == value + (u128::MAX as int) + 1) by (bit_vector)
                requires
                    uint == value as u128,
            ;
            let abs = (!uint).wrapping_add(1);
            twos_complement(U256::from_u128(abs))
        } else {
            U256::from_u128(uint)
        };
        let r = I256::from_raw(raw);
        proof {
            lemma_from_int(value as int);
            lemma_wrap_fits(value as int);
            lemma_view_injective(r, I256::from_int(value as int));
        }
        r
    }
}

impl vstd::std_specs::convert::FromSpecImpl<i128> for I256 {
    open spec fn obeys_from_spec() -> bool {
        true
    }

    open spec fn from_spec(v: i128) -> I256 {
        I256::from_int(v as int)
    }
}

impl TryFrom<I256> for u128 {
    type Error = TryFromBigIntError;

    fn try_from(value: I256) -> (r: Result<u128, TryFromBigIntError>) {
        proof {
            lemma_from_int(u128::MAX as int);
            lemma_wrap_fits(u128::MAX as int);
        }
        if value.is_negative() || value > I256::from(u128::MAX) {
            return Err(TryFromBigIntError);
        }
        Ok(value.low_u128())
    }
}

impl vstd::std_specs::convert::TryFromSpecImpl<I256> for u128 {
    open spec fn obeys_try_from_spec() -> bool {
        true
    }

    open spec fn try_from_spec(v: I256) -> Result<u128, TryFromBigIntError> {
        if 0 <= v@ <= u128::MAX {
            Ok(v@ as u128)
        } else {
            Err(TryFromBigIntError)
        }
    }
}

impl TryFrom<I256> for i128 {
    type Error = TryFromBigIntError;

    fn try_from(value: I256) -> (r: Result<i128, TryFromBigIntError>) {
        proof {
            lemma_from_int(i128::MIN as int);
            lemma_wrap_fits(i128::MIN as int);
            lemma_from_int(i128::MAX as int);
            lemma_wrap_fits(i128::MAX as int);
        }
        if value < I256::from(i128::MIN) || value > I256::from(i128::MAX) {
            return Err(TryFromBigIntError);
        }
        Ok(value.low_i128())
    }
}

impl vstd::std_specs::convert::TryFromSpecImpl<I256> for i128 {
    open spec fn obeys_try_from_spec() -> bool {
        true
    }

    open spec fn try_from_spec(v: I256) -> Result<i128, TryFromBigIntError> {
        if i128::MIN <= v@ <= i128::MAX {
            Ok(v@ as i128)
        } else {
            Err(TryFromBigIntError)
        }
    }
}

impl I256 {
    /// The low bits of the word as `u8`.
    pub fn low_u8(&self) -> (r: u8)
        ensures
            r == (self.raw() as int) % 0x100int,
    {
        let w = self.into_raw().low_u64();
        assert((w as u8) as int == (w as int) % 0x100int) by (bit_vector);
        proof {
            lemma_word_powers();
            lemma_type_moduli();
            lemma_mod_mod(self.raw() as int, 0x100int, 0x10000000000000000int / 0x100int);
            lemma_low_bits(*self, 0x100int, (modulus() as int) / 0x100int);
        }
        w as u8
    }

    /// The low bits of the word as `i8`, read in two's complement.
    pub fn low_i8(&self) -> (r: i8)
        ensures
            r == wrap_bits(self.raw() as int, 0x100int),
    {
        let w = self.into_raw().low_u64();
        assert((w as i8) as int == wrap_bits(w as int, 0x100int)) by (bit_vector);
        proof {
            lemma_word_powers();
            lemma_type_moduli();
            lemma_mod_mod(self.raw() as int, 0x100int, 0x10000000000000000int / 0x100int);
            lemma_low_bits(*self, 0x100int, (modulus() as int) / 0x100int);
        }
        w as i8
    }

    /// Conversion to `u8`. It panics where the value is out of the range of `u8`,
    /// which `requires` leaves out.
    pub fn as_u8(&self) -> (r: u8)
        requires
            0 <= self@ <= u8::MAX,
        ensures
            r == self@,
    {
        <u8 as TryFrom<I256>>::try_from(*self).unwrap()
    }

    /// Conversion to `i8`. It panics where the value is out of the range of `i8`,
    /// which `requires` leaves out.
    pub fn as_i8(&self) -> (r: i8)
        requires
            i8::MIN <= self@ <= i8::MAX,
        ensures
            r == self@,
    {
        <i8 as TryFrom<I256>>::try_from(*self).unwrap()
    }

    /// The low bits of the word as `u16`.
    pub fn low_u16(&self) -> (r: u16)
        ensures
            r == (self.raw() as int) % 0x10000int,
    {
        let w = self.into_raw().low_u64();
        assert((w as u16) as int == (w as int) % 0x10000int) by (bit_vector);
        proof {
            lemma_word_powers();
            lemma_type_moduli();
            lemma_mod_mod(self.raw() as int, 0x10000int, 0x10000000000000000int / 0x10000int);
            lemma_low_bits(*self, 0x10000int, (modulus() as int) / 0x10000int);
        }
        w as u16
    }

    /// The low bits of the word as `i16`, read in two's complement.
    pub fn low_i16(&self) -> (r: i16)
        ensures
            r == wrap_bits(self.raw() as int, 0x10000int),
    {
        let w = self.into_raw().low_u64();
        assert((w as i16) as int == wrap_bits(w as int, 0x10000int)) by (bit_vector);
        proof {
            lemma_word_powers();
            lemma_type_moduli();
            lemma_mod_mod(self.raw() as int, 0x10000int, 0x10000000000000000int / 0x10000int);
            lemma_low_bits(*self, 0x10000int, (modulus() as int) / 0x10000int);
        }
        w as i16
    }

    /// Conversion to `u16`. It panics where the value is out of the range of `u16`,
    /// which `requires` leaves out.
    pub fn as_u16(&self) -> (r: u16)
        requires
            0 <= self@ <= u16::MAX,
        ensures
            r == self@,
    {
        <u16 as TryFrom<I256>>::try_from(*self).unwrap()
    }

    /// Conversion to `i16`. It panics where the value is out of the range of `i16`,
    /// which `requires` leaves out.
    pub fn as_i16(&self) -> (r: i16)
        requires
            i16::MIN <= self@ <= i16::MAX,
        ensures
            r == self@,
    {
        <i16 as TryFrom<I256>>::try_from(*self).unwrap()
    }

    /// The low bits of the word as `u32`.
    pub fn low_u32(&self) -> (r: u32)
        ensures
            r == (self.raw() as int) % 0x100000000int,
    {
        let w = self.into_raw().low_u64();
        assert((w as u32) as int == (w as int) % 0x100000000int) by (bit_vector);
        proof {
            lemma_word_powers();
            lemma_type_moduli();
            lemma_mod_mod(self.raw() as int, 0x100000000int, 0x10000000000000000int / 0x100000000int);
            lemma_low_bits(*self, 0x100000000int, (modulus() as int) / 0x100000000int);
        }
        w as u32
    }

    /// The low bits of the word as `i32`, read in two's complement.
    pub fn low_i32(&self) -> (r: i32)
        ensures
            r == wrap_bits(self.raw() as int, 0x100000000int),
    {
        let w = self.into_raw().low_u64();
        assert((w as i32) as int == wrap_bits(w as int, 0x100000000int)) by (bit_vector);
        proof {
            lemma_word_powers();
            lemma_type_moduli();
            lemma_mod_mod(self.raw() as int, 0x100000000int, 0x10000000000000000int / 0x100000000int);
            lemma_low_bits(*self, 0x100000000int, (modulus() as int) / 0x100000000int);
        }
        w as i32
    }

    /// Conversion to `u32`. It panics where the value is out of the range of `u32`,
    /// which `requires` leaves out.
    pub fn as_u32(&self) -> (r: u32)
        requires
            0 <= self@ <= u32::MAX,
        ensures
            r == self@,
    {
        <u32 as TryFrom<I256>>::try_from(*self).unwrap()
    }

    /// Conversion to `i32`. It panics where the value is out of the range of `i32`,
    /// which `requires` leaves out.
    pub fn as_i32(&self) -> (r: i32)
        requires
            i32::MIN <= self@ <= i32::MAX,
        ensures
            r == self@,
    {
        <i32 as TryFrom<I256>>::try_from(*self).unwrap()
    }

    /// The low bits of the word as `u64`.
    pub fn low_u64(&self) -> (r: u64)
        ensures
            r == (self.raw() as int) % 0x10000000000000000int,
    {
        let w = self.into_raw().low_u64();
        assert((w as u64) as int == (w as int) % 0x10000000000000000int) by (bit_vector);
        proof {
            lemma_word_powers();
            lemma_type_moduli();
            lemma_mod_mod(self.raw() as int, 0x10000000000000000int, 0x10000000000000000int / 0x10000000000000000int);
            lemma_low_bits(*self, 0x10000000000000000int, (modulus() as int) / 0x10000000000000000int);
        }
        w as u64
    }

    /// The low bits of the word as `i64`, read in two's complement.
    pub fn low_i64(&self) -> (r: i64)
        ensures
            r == wrap_bits(self.raw() as int, 0x10000000000000000int),
    {
        let w = self.into_raw().low_u64();
        assert((w as i64) as int == wrap_bits(w as int, 0x10000000000000000int)) by (bit_vector);
        proof {
            lemma_word_powers();
            lemma_type_moduli();
            lemma_mod_mod(self.raw() as int, 0x10000000000000000int, 0x10000000000000000int / 0x10000000000000000int);
            lemma_low_bits(*self, 0x10000000000000000int, (modulus() as int) / 0x10000000000000000int);
        }
        w as i64
    }

    /// Conversion to `u64`. It panics where the value is out of the range of `u64`,
    /// which `requires` leaves out.
    pub fn as_u64(&self) -> (r: u64)
        requires
            0 <= self@ <= u64::MAX,
        ensures
            r == self@,
    {
        <u64 as TryFrom<I256>>::try_from(*self).unwrap()
    }

    /// Conversion to `i64`. It panics where the value is out of the range of `i64`,
    /// which `requires` leaves out.
    pub fn as_i64(&self) -> (r: i64)
        requires
            i64::MIN <= self@ <= i64::MAX,
        ensures
            r == self@,
    {
        <i64 as TryFrom<I256>>::try_from(*self).unwrap()
    }

    /// The low bits of the word as `usize`.
    pub fn low_usize(&self) -> (r: usize)
        ensures
            r == (self.raw() as int) % (usize::MAX as int + 1),
    {
        let w = self.into_raw().low_u64();
        assert(usize::BITS == 64 ==> (w as usize) as int == (w as int) % 0x10000000000000000int) by (bit_vector);
        assert(usize::BITS == 32 ==> (w as usize) as int == (w as int) % 0x100000000int) by (bit_vector);
        assert(usize::BITS == 64 ==> usize::MAX == 0xffff_ffff_ffff_ffff);
        assert(usize::BITS == 32 ==> usize::MAX == 0xffff_ffff);
        proof {
            lemma_word_powers();
            lemma_type_moduli();
            assert(usize::BITS == 64 ==> usize::MAX == 0xffff_ffff_ffff_ffff);
            assert(usize::BITS == 32 ==> usize::MAX == 0xffff_ffff);
            if usize::BITS == 32 {
                lemma_mod_mod(self.raw() as int, 0x100000000int, 0x100000000int);
                lemma_low_bits(
                    *self,
                    (usize::MAX as int + 1),
                    0x100000000000000000000000000000000000000000000000000000000int,
                );
            } else {
                lemma_mod_mod(self.raw() as int, 0x10000000000000000int, 1);
                lemma_low_bits(*self, (usize::MAX as int + 1), 0x1000000000000000000000000000000000000000000000000int);
            }
        }
        w as usize
    }

    /// The low bits of the word as `isize`, read in two's complement.
    pub fn low_isize(&self) -> (r: isize)
        ensures
            r == wrap_bits(self.raw() as int, (usize::MAX as int + 1)),
    {
        let w = self.into_raw().low_u64();
        assert(usize::BITS == 64 ==> (w as isize) as int == wrap_bits(w as int, 0x10000000000000000int)) by (bit_vector);
        assert(usize::BITS == 32 ==> (w as isize) as int == wrap_bits(w as int, 0x100000000int)) by (bit_vector);
        assert(usize::BITS == 64 ==> usize::MAX == 0xffff_ffff_ffff_ffff);
        assert(usize::BITS == 32 ==> usize::MAX == 0xffff_ffff);
        proof {
            lemma_word_powers();
            lemma_type_moduli();
            assert(usize::BITS == 64 ==> usize::MAX == 0xffff_ffff_ffff_ffff);
            assert(usize::BITS == 32 ==> usize::MAX == 0xffff_ffff);
            if usize::BITS == 32 {
                lemma_mod_mod(self.raw() as int, 0x100000000int, 0x100000000int);
                lemma_low_bits(
                    *self,
                    (usize::MAX as int + 1),
                    0x100000000000000000000000000000000000000000000000000000000int,
                );
            } else {
                lemma_mod_mod(self.raw() as int, 0x10000000000000000int, 1);
                lemma_low_bits(*self, (usize::MAX as int + 1), 0x1000000000000000000000000000000000000000000000000int);
            }
        }
        w as isize
    }

    /// Conversion to `usize`. It panics where the value is out of the range of `usize`,
    /// which `requires` leaves out.
    pub fn as_usize(&self) -> (r: usize)
        requires
            0 <= self@ <= usize::MAX,
        ensures
            r == self@,
    {
        <usize as TryFrom<I256>>::try_from(*self).unwrap()
    }

    /// Conversion to `isize`. It panics where the value is out of the range of `isize`,
    /// which `requires` leaves out.
    pub fn as_isize(&self) -> (r: isize)
        requires
            isize::MIN <= self@ <= isize::MAX,
        ensures
            r == self@,
    {
        <isize as TryFrom<I256>>::try_from(*self).unwrap()
    }

    /// The low bits of the word as `u128`.
    pub fn low_u128(&self) -> (r: u128)
        ensures
            r == (self.raw() as int) % 0x100000000000000000000000000000000int,
    {
        let w = self.into_raw().low_u128();
        assert((w as u128) as int == (w as int) % 0x100000000000000000000000000000000int) by (bit_vector);
        proof {
            lemma_word_powers();
            lemma_type_moduli();
            lemma_low_bits(*self, 0x100000000000000000000000000000000int, 0x100000000000000000000000000000000int);
        }
        w as u128
    }

    /// The low bits of the word as `i128`, read in two's complement.
    pub fn low_i128(&self) -> (r: i128)
        ensures
            r == wrap_bits(self.raw() as int, 0x100000000000000000000000000000000int),
    {
        let w = self.into_raw().low_u128();
        assert((w as i128) as int == wrap_bits(w as int, 0x100000000000000000000000000000000int)) by (bit_vector);
        proof {
            lemma_word_powers();
            lemma_type_moduli();
            lemma_low_bits(*self, 0x100000000000000000000000000000000int, 0x100000000000000000000000000000000int);
        }
        w as i128
    }

    /// Conversion to `u128`. It panics where the value is out of the range of `u128`,
    /// which `requires` leaves out.
    pub fn as_u128(&self) -> (r: u128)
        requires
            0 <= self@ <= u128::MAX,
        ensures
            r == self@,
    {
        <u128 as TryFrom<I256>>::try_from(*self).unwrap()
    }

    /// Conversion to `i128`. It panics where the value is out of the range of `i128`,
    /// which `requires` leaves out.
    pub fn as_i128(&self) -> (r: i128)
        requires
            i128::MIN <= self@ <= i128::MAX,
        ensures
            r == self@,
    {
        <i128 as TryFrom<I256>>::try_from(*self).unwrap()
    }
}

impl TryFrom<U256> for I256 {
    type Error = TryFromBigIntError;

    fn try_from(from: U256) -> (r: Result<I256, TryFromBigIntError>) {
        let value = I256::from_raw(from);
        proof {
            if from@ < half_modulus() {
                lemma_from_int(from@ as int);
                lemma_wrap_fits(from@ as int);
                lemma_view_injective(value, I256::from_int(from@ as int));
            }
        }
        match value.sign() {
            Sign::Positive => Ok(value),
            Sign::Negative => Err(TryFromBigIntError),
        }
    }
}

impl vstd::std_specs::convert::TryFromSpecImpl<U256> for I256 {
    open spec fn obeys_try_from_spec() -> bool {
        true
    }

    open spec fn try_from_spec(v: U256) -> Result<I256, TryFromBigIntError> {
        if v@ < half_modulus() {
            Ok(I256::from_int(v@ as int))
        } else {
            Err(TryFromBigIntError)
        }
    }
}

impl TryFrom<I256> for U256 {
    type Error = TryFromBigIntError;

    fn try_from(value: I256) -> (r: Result<U256, TryFromBigIntError>) {
        match value.sign() {
            Sign::Positive => {
                let raw = value.into_raw();
                proof {
                    lemma_view_fits(value);
                    lemma_from_nat(value@ as nat);
                    lemma_value_injective(raw, U256::from_nat(value@ as nat));
                }
                Ok(raw)
            },
            Sign::Negative => Err(TryFromBigIntError),
        }
    }
}

impl vstd::std_specs::convert::TryFromSpecImpl<I256> for U256 {
    open spec fn obeys_try_from_spec() -> bool {
        true
    }

    open spec fn try_from_spec(v: I256) -> Result<U256, TryFromBigIntError> {
        if v@ >= 0 {
            Ok(U256::from_nat(v@ as nat))
        } else {
            Err(TryFromBigIntError)
        }
    }
}

impl I256 {
    /// Ten to the power `n`. It panics where that does not fit in the type, which
    /// `requires` leaves out.
    pub fn exp10(n: usize) -> (r: I256)
        requires
            pow(10, n as nat) < half_modulus(),
        ensures
            r@ == pow(10, n as nat),
    {
        let r = I256::try_from(U256::exp10(n)).expect("overflow");
        proof {
            lemma_from_int(pow(10, n as nat));
            lemma_wrap_fits(pow(10, n as nat));
        }
        r
    }

    /// -1, 0 or 1 as `self` is negative, zero or positive.
    pub fn signum(self) -> (r: I256)
        ensures
            r@ == signum(self@),
    {
        let r: I256 = self.signum64().into();
        proof {
            lemma_from_int(signum(self@));
            lemma_wrap_fits(signum(self@));
        }
        r
    }
}

/// Reading the low bits in two's complement: for a positive modulus `m`, `wrap_bits(n, m)`
/// is congruent to `n` modulo `m` and lies in the signed range of `m` values, from `-m/2`
/// up to below `m/2` (so `low_i8` and the like keep the low bits of the word).
pub proof fn law_wrap_bits(n: int, m: int)
    requires
        m > 0,
    ensures
        (wrap_bits(n, m) - n) % m == 0,
        -m <= 2 * wrap_bits(n, m) < m,
{
    lemma_fundamental_div_mod(n, m);
    lemma_mod_bound(n, m);
    let w = n % m;
    let q = n / m;
    if 2 * w < m {
        assert(wrap_bits(n, m) - n == (-q) * m) by (nonlinear_arith)
            requires
                n == m * q + w,
                wrap_bits(n, m) == w,
        ;
        lemma_mod_multiples_basic(-q, m);
    } else {
        assert(wrap_bits(n, m) - n == (-q - 1) * m) by (nonlinear_arith)
            requires
                n == m * q + w,
                wrap_bits(n, m) == w - m,
        ;
        lemma_mod_multiples_basic(-q - 1, m);
    }
}

/// Converting a `u8` into `I256` gives its value and converting back gives the same
/// `u8`; converting an `I256` into `u8` succeeds exactly for the values a `u8` holds, and
/// what it gives converts back into the `I256` it came from.
pub proof fn law_u8_round_trip(v: u8, x: I256)
    ensures
        <I256 as vstd::std_specs::convert::FromSpec<u8>>::from_spec(v)@ == v,
        <u8 as vstd::std_specs::convert::TryFromSpec<I256>>::try_from_spec(<I256 as vstd::std_specs::convert::FromSpec<u8>>::from_spec(v)) == Ok::<u8, TryFromBigIntError>(v),
        <u8 as vstd::std_specs::convert::TryFromSpec<I256>>::try_from_spec(x) is Ok <==> u8::MIN <= x@ <= u8::MAX,
        <u8 as vstd::std_specs::convert::TryFromSpec<I256>>::try_from_spec(x) is Ok ==> <I256 as vstd::std_specs::convert::FromSpec<u8>>::from_spec(<u8 as vstd::std_specs::convert::TryFromSpec<I256>>::try_from_spec(x).unwrap()) == x,
{
    lemma_from_int(v as int);
    lemma_wrap_fits(v as int);
    lemma_view_fits(x);
    if u8::MIN <= x@ <= u8::MAX {
        lemma_from_int(x@);
        lemma_wrap_fits(x@);
        lemma_view_injective(I256::from_int(x@), x);
    }
}

/// Converting a `i8` into `I256` gives its value and converting back gives the same
/// `i8`; converting an `I256` into `i8` succeeds exactly for the values a `i8` holds, and
/// what it gives converts back into the `I256` it came from.
pub proof fn law_i8_round_trip(v: i8, x: I256)
    ensures
        <I256 as vstd::std_specs::convert::FromSpec<i8>>::from_spec(v)@ == v,
        <i8 as vstd::std_specs::convert::TryFromSpec<I256>>::try_from_spec(<I256 as vstd::std_specs::convert::FromSpec<i8>>::from_spec(v)) == Ok::<i8, TryFromBigIntError>(v),
        <i8 as vstd::std_specs::convert::TryFromSpec<I256>>::try_from_spec(x) is Ok <==> i8::MIN <= x@ <= i8::MAX,
        <i8 as vstd::std_specs::convert::TryFromSpec<I256>>::try_from_spec(x) is Ok ==> <I256 as vstd::std_specs::convert::FromSpec<i8>>::from_spec(<i8 as vstd::std_specs::convert::TryFromSpec<I256>>::try_from_spec(x).unwrap()) == x,
{
    lemma_from_int(v as int);
    lemma_wrap_fits(v as int);
    lemma_view_fits(x);
    if i8::MIN <= x@ <= i8::MAX {
        lemma_from_int(x@);
        lemma_wrap_fits(x@);
        lemma_view_injective(I256::from_int(x@), x);
    }
}

/// Converting a `u16` into `I256` gives its value and converting back gives the same
/// `u16`; converting an `I256` into `u16` succeeds exactly for the values a `u16` holds, and
/// what it gives converts back into the `I256` it came from.
pub proof fn law_u16_round_trip(v: u16, x: I256)
    ensures
        <I256 as vstd::std_specs::convert::FromSpec<u16>>::from_spec(v)@ == v,
        <u16 as vstd::std_specs::convert::TryFromSpec<I256>>::try_from_spec(<I256 as vstd::std_specs::convert::FromSpec<u16>>::from_spec(v)) == Ok::<u16, TryFromBigIntError>(v),
        <u16 as vstd::std_specs::convert::TryFromSpec<I256>>::try_from_spec(x) is Ok <==> u16::MIN <= x@ <= u16::MAX,
        <u16 as vstd::std_specs::convert::TryFromSpec<I256>>::try_from_spec(x) is Ok ==> <I256 as vstd::std_specs::convert::FromSpec<u16>>::from_spec(<u16 as vstd::std_specs::convert::TryFromSpec<I256>>::try_from_spec(x).unwrap()) == x,
{
    lemma_from_int(v as int);
    lemma_wrap_fits(v as int);
    lemma_view_fits(x);
    if u16::MIN <= x@ <= u16::MAX {
        lemma_from_int(x@);
        lemma_wrap_fits(x@);
        lemma_view_injective(I256::from_int(x@), x);
    }
}

/// Converting a `i16` into `I256` gives its value and converting back gives the same
/// `i16`; converting an `I256` into `i16` succeeds exactly for the values a `i16` holds, and
/// what it gives converts back into the `I256` it came from.
pub proof fn law_i16_round_trip(v: i16, x: I256)
    ensures
        <I256 as vstd::std_specs::convert::FromSpec<i16>>::from_spec(v)@ == v,
        <i16 as vstd::std_specs::convert::TryFromSpec<I256>>::try_from_spec(<I256 as vstd::std_specs::convert::FromSpec<i16>>::from_spec(v)) == Ok::<i16, TryFromBigIntError>(v),
        <i16 as vstd::std_specs::convert::TryFromSpec<I256>>::try_from_spec(x) is Ok <==> i16::MIN <= x@ <= i16::MAX,
        <i16 as vstd::std_specs::convert::TryFromSpec<I256>>::try_from_spec(x) is Ok ==> <I256 as vstd::std_specs::convert::FromSpec<i16>>::from_spec(<i16 as vstd::std_specs::convert::TryFromSpec<I256>>::try_from_spec(x).unwrap()) == x,
{
    lemma_from_int(v as int);
    lemma_wrap_fits(v as int);
    lemma_view_fits(x);
    if i16::MIN <= x@ <= i16::MAX {
        lemma_from_int(x@);
        lemma_wrap_fits(x@);
        lemma_view_injective(I256::from_int(x@), x);
    }
}

/// Converting a `u32` into `I256` gives its value and converting back gives the same
/// `u32`; converting an `I256` into `u32` succeeds exactly for the values a `u32` holds, and
/// what it gives converts back into the `I256` it came from.
pub proof fn law_u32_round_trip(v: u32, x: I256)
    ensures
        <I256 as vstd::std_specs::convert::FromSpec<u32>>::from_spec(v)@ == v,
        <u32 as vstd::std_specs::convert::TryFromSpec<I256>>::try_from_spec(<I256 as vstd::std_specs::convert::FromSpec<u32>>::from_spec(v)) == Ok::<u32, TryFromBigIntError>(v),
        <u32 as vstd::std_specs::convert::TryFromSpec<I256>>::try_from_spec(x) is Ok <==> u32::MIN <= x@ <= u32::MAX,
        <u32 as vstd::std_specs::convert::TryFromSpec<I256>>::try_from_spec(x) is Ok ==> <I256 as vstd::std_specs::convert::FromSpec<u32>>::from_spec(<u32 as vstd::std_specs::convert::TryFromSpec<I256>>::try_from_spec(x).unwrap()) == x,
{
    lemma_from_int(v as int);
    lemma_wrap_fits(v as int);
    lemma_view_fits(x);
    if u32::MIN <= x@ <= u32::MAX {
        lemma_from_int(x@);
        lemma_wrap_fits(x@);
        lemma_view_injective(I256::from_int(x@), x);
    }
}

/// Converting a `i32` into `I256` gives its value and converting back gives the same
/// `i32`; converting an `I256` into `i32` succeeds exactly for the values a `i32` holds, and
/// what it gives converts back into the `I256` it came from.
pub proof fn law_i32_round_trip(v: i32, x: I256)
    ensures
        <I256 as vstd::std_specs::convert::FromSpec<i32>>::from_spec(v)@ == v,
        <i32 as vstd::std_specs::convert::TryFromSpec<I256>>::try_from_spec(<I256 as vstd::std_specs::convert::FromSpec<i32>>::from_spec(v)) == Ok::<i32, TryFromBigIntError>(v),
        <i32 as vstd::std_specs::convert::TryFromSpec<I256>>::try_from_spec(x) is Ok <==> i32::MIN <= x@ <= i32::MAX,
        <i32 as vstd::std_specs::convert::TryFromSpec<I256>>::try_from_spec(x) is Ok ==> <I256 as vstd::std_specs::convert::FromSpec<i32>>::from_spec(<i32 as vstd::std_specs::convert::TryFromSpec<I256>>::try_from_spec(x).unwrap()) == x,
{
    lemma_from_int(v as int);
    lemma_wrap_fits(v as int);
    lemma_view_fits(x);
    if i32::MIN <= x@ <= i32::MAX {
        lemma_from_int(x@);
        lemma_wrap_fits(x@);
        lemma_view_injective(I256::from_int(x@), x);
    }
}

/// Converting a `u64` into `I256` gives its value and converting back gives the same
/// `u64`; converting an `I256` into `u64` succeeds exactly for the values a `u64` holds, and
/// what it gives converts back into the `I256` it came from.
pub proof fn law_u64_round_trip(v: u64, x: I256)
    ensures
        <I256 as vstd::std_specs::convert::FromSpec<u64>>::from_spec(v)@ == v,
        <u64 as vstd::std_specs::convert::TryFromSpec<I256>>::try_from_spec(<I256 as vstd::std_specs::convert::FromSpec<u64>>::from_spec(v)) == Ok::<u64, TryFromBigIntError>(v),
        <u64 as vstd::std_specs::convert::TryFromSpec<I256>>::try_from_spec(x) is Ok <==> u64::MIN <= x@ <= u64::MAX,
        <u64 as vstd::std_specs::convert::TryFromSpec<I256>>::try_from_spec(x) is Ok ==> <I256 as vstd::std_specs::convert::FromSpec<u64>>::from_spec(<u64 as vstd::std_specs::convert::TryFromSpec<I256>>::try_from_spec(x).unwrap()) == x,
{
    lemma_from_int(v as int);
    lemma_wrap_fits(v as int);
    lemma_view_fits(x);
    if u64::MIN <= x@ <= u64::MAX {
        lemma_from_int(x@);
        lemma_wrap_fits(x@);
        lemma_view_injective(I256::from_int(x@), x);
    }
}

/// Converting a `i64` into `I256` gives its value and converting back gives the same
/// `i64`; converting an `I256` into `i64` succeeds exactly for the values a `i64` holds, and
/// what it gives converts back into the `I256` it came from.
pub proof fn law_i64_round_trip(v: i64, x: I256)
    ensures
        <I256 as vstd::std_specs::convert::FromSpec<i64>>::from_spec(v)@ == v,
        <i64 as vstd::std_specs::convert::TryFromSpec<I256>>::try_from_spec(<I256 as vstd::std_specs::convert::FromSpec<i64>>::from_spec(v)) == Ok::<i64, TryFromBigIntError>(v),
        <i64 as vstd::std_specs::convert::TryFromSpec<I256>>::try_from_spec(x) is Ok <==> i64::MIN <= x@ <= i64::MAX,
        <i64 as vstd::std_specs::convert::TryFromSpec<I256>>::try_from_spec(x) is Ok ==> <I256 as vstd::std_specs::convert::FromSpec<i64>>::from_spec(<i64 as vstd::std_specs::convert::TryFromSpec<I256>>::try_from_spec(x).unwrap()) == x,
{
    lemma_from_int(v as int);
    lemma_wrap_fits(v as int);
    lemma_view_fits(x);
    if i64::MIN <= x@ <= i64::MAX {
        lemma_from_int(x@);
        lemma_wrap_fits(x@);
        lemma_view_injective(I256::from_int(x@), x);
    }
}

/// Converting a `usize` into `I256` gives its value and converting back gives the same
/// `usize`; converting an `I256` into `usize` succeeds exactly for the values a `usize` holds, and
/// what it gives converts back into the `I256` it came from.
pub proof fn law_usize_round_trip(v: usize, x: I256)
    ensures
        <I256 as vstd::std_specs::convert::FromSpec<usize>>::from_spec(v)@ == v,
        <usize as vstd::std_specs::convert::TryFromSpec<I256>>::try_from_spec(<I256 as vstd::std_specs::convert::FromSpec<usize>>::from_spec(v)) == Ok::<usize, TryFromBigIntError>(v),
        <usize as vstd::std_specs::convert::TryFromSpec<I256>>::try_from_spec(x) is Ok <==> usize::MIN <= x@ <= usize::MAX,
        <usize as vstd::std_specs::convert::TryFromSpec<I256>>::try_from_spec(x) is Ok ==> <I256 as vstd::std_specs::convert::FromSpec<usize>>::from_spec(<usize as vstd::std_specs::convert::TryFromSpec<I256>>::try_from_spec(x).unwrap()) == x,
{
    lemma_from_int(v as int);
    lemma_wrap_fits(v as int);
    lemma_view_fits(x);
    if usize::MIN <= x@ <= usize::MAX {
        lemma_from_int(x@);
        lemma_wrap_fits(x@);
        lemma_view_injective(I256::from_int(x@), x);
    }
}

/// Converting a `isize` into `I256` gives its value and converting back gives the same
/// `isize`; converting an `I256` into `isize` succeeds exactly for the values a `isize` holds, and
/// what it gives converts back into the `I256` it came from.
pub proof fn law_isize_round_trip(v: isize, x: I256)
    ensures
        <I256 as vstd::std_specs::convert::FromSpec<isize>>::from_spec(v)@ == v,
        <isize as vstd::std_specs::convert::TryFromSpec<I256>>::try_from_spec(<I256 as vstd::std_specs::convert::FromSpec<isize>>::from_spec(v)) == Ok::<isize, TryFromBigIntError>(v),
        <isize as vstd::std_specs::convert::TryFromSpec<I256>>::try_from_spec(x) is Ok <==> isize::MIN <= x@ <= isize::MAX,
        <isize as vstd::std_specs::convert::TryFromSpec<I256>>::try_from_spec(x) is Ok ==> <I256 as vstd::std_specs::convert::FromSpec<isize>>::from_spec(<isize as vstd::std_specs::convert::TryFromSpec<I256>>::try_from_spec(x).unwrap()) == x,
{
    lemma_from_int(v as int);
    lemma_wrap_fits(v as int);
    lemma_view_fits(x);
    if isize::MIN <= x@ <= isize::MAX {
        lemma_from_int(x@);
        lemma_wrap_fits(x@);
        lemma_view_injective(I256::from_int(x@), x);
    }
}

/// Converting a `u128` into `I256` gives its value and converting back gives the same
/// `u128`; converting an `I256` into `u128` succeeds exactly for the values a `u128` holds, and
/// what it gives converts back into the `I256` it came from.
pub proof fn law_u128_round_trip(v: u128, x: I256)
    ensures
        <I256 as vstd::std_specs::convert::FromSpec<u128>>::from_spec(v)@ == v,
        <u128 as vstd::std_specs::convert::TryFromSpec<I256>>::try_from_spec(<I256 as vstd::std_specs::convert::FromSpec<u128>>::from_spec(v)) == Ok::<u128, TryFromBigIntError>(v),
        <u128 as vstd::std_specs::convert::TryFromSpec<I256>>::try_from_spec(x) is Ok <==> u128::MIN <= x@ <= u128::MAX,
        <u128 as vstd::std_specs::convert::TryFromSpec<I256>>::try_from_spec(x) is Ok ==> <I256 as vstd::std_specs::convert::FromSpec<u128>>::from_spec(<u128 as vstd::std_specs::convert::TryFromSpec<I256>>::try_from_spec(x).unwrap()) == x,
{
    lemma_from_int(v as int);
    lemma_wrap_fits(v as int);
    lemma_view_fits(x);
    if u128::MIN <= x@ <= u128::MAX {
        lemma_from_int(x@);
        lemma_wrap_fits(x@);
        lemma_view_injective(I256::from_int(x@), x);
    }
}

/// Converting a `i128` into `I256` gives its value and converting back gives the same
/// `i128`; converting an `I256` into `i128` succeeds exactly for the values a `i128` holds, and
/// what it gives converts back into the `I256` it came from.
pub proof fn law_i128_round_trip(v: i128, x: I256)
    ensures
        <I256 as vstd::std_specs::convert::FromSpec<i128>>::from_spec(v)@ == v,
        <i128 as vstd::std_specs::convert::TryFromSpec<I256>>::try_from_spec(<I256 as vstd::std_specs::convert::FromSpec<i128>>::from_spec(v)) == Ok::<i128, TryFromBigIntError>(v),
        <i128 as vstd::std_specs::convert::TryFromSpec<I256>>::try_from_spec(x) is Ok <==> i128::MIN <= x@ <= i128::MAX,
        <i128 as vstd::std_specs::convert::TryFromSpec<I256>>::try_from_spec(x) is Ok ==> <I256 as vstd::std_specs::convert::FromSpec<i128>>::from_spec(<i128 as vstd::std_specs::convert::TryFromSpec<I256>>::try_from_spec(x).unwrap()) == x,
{
    lemma_from_int(v as int);
    lemma_wrap_fits(v as int);
    lemma_view_fits(x);
    if i128::MIN <= x@ <= i128::MAX {
        lemma_from_int(x@);
        lemma_wrap_fits(x@);
        lemma_view_injective(I256::from_int(x@), x);
    }
}

/// Converting a `U256` into `I256` succeeds exactly below 2^255 and keeps the value;
/// converting an `I256` into `U256` succeeds exactly for the values that are not negative,
/// keeps the value, and converts back into the `I256` it came from.
pub proof fn law_u256_round_trip(u: U256, x: I256)
    ensures
        <I256 as vstd::std_specs::convert::TryFromSpec<U256>>::try_from_spec(u) is Ok <==> u@ < half_modulus(),
        <I256 as vstd::std_specs::convert::TryFromSpec<U256>>::try_from_spec(u) is Ok
            ==> <I256 as vstd::std_specs::convert::TryFromSpec<U256>>::try_from_spec(u).unwrap()@ == u@,
        <U256 as vstd::std_specs::convert::TryFromSpec<I256>>::try_from_spec(x) is Ok <==> x@ >= 0,
        <U256 as vstd::std_specs::convert::TryFromSpec<I256>>::try_from_spec(x) is Ok
            ==> <U256 as vstd::std_specs::convert::TryFromSpec<I256>>::try_from_spec(x).unwrap()@ == x@,
        <U256 as vstd::std_specs::convert::TryFromSpec<I256>>::try_from_spec(x) is Ok
            ==> <I256 as vstd::std_specs::convert::TryFromSpec<U256>>::try_from_spec(
            <U256 as vstd::std_specs::convert::TryFromSpec<I256>>::try_from_spec(x).unwrap(),
        ) == Ok::<I256, TryFromBigIntError>(x),
{
    lemma_view_fits(x);
    if u@ < half_modulus() {
        lemma_from_int(u@ as int);
        lemma_wrap_fits(u@ as int);
    }
    if x@ >= 0 {
        lemma_from_nat(x@ as nat);
        lemma_from_int(x@);
        lemma_wrap_fits(x@);
        lemma_view_injective(I256::from_int(x@), x);
    }
}

} // verus!
