//! The operations that the library takes from `sp_core::U256` (the `U256` of
//! `primitive_types`, built by the `uint` crate). Each is a trusted item: its contract
//! is believed, not proved.
use crate::uint::{
    bit_and, bit_length, bit_or, bit_xor, decimal_digits, hex_digits, modulus, nth_bit, nth_byte, trailing_zero_bits, U256,
};
use vstd::arithmetic::power::pow;
use vstd::arithmetic::power2::pow2;
use vstd::prelude::*;

verus! {

impl U256 {
    /// `U256::overflowing_add`: the sum modulo 2^256, with a flag that says whether the
    /// sum reached 2^256.
    #[verifier::external_body]
    pub(crate) fn overflowing_add(self, other: U256) -> (r: (U256, bool))
        ensures
            r.0@ == (self@ + other@) % modulus(),
            r.1 == (self@ + other@ >= modulus()),
    {
        let a = sp_core::U256([self.0, self.1, self.2, self.3]);
        let b = sp_core::U256([other.0, other.1, other.2, other.3]);
        let (v, o) = a.overflowing_add(b);
        (U256(v.0[0], v.0[1], v.0[2], v.0[3]), o)
    }

    /// `U256::overflowing_sub`: the difference modulo 2^256, with a flag that says whether
    /// `other` was larger than `self`.
    #[verifier::external_body]
    pub(crate) fn overflowing_sub(self, other: U256) -> (r: (U256, bool))
        ensures
            r.0@ == (self@ - other@) % (modulus() as int),
            r.1 == (self@ < other@),
    {
        let a = sp_core::U256([self.0, self.1, self.2, self.3]);
        let b = sp_core::U256([other.0, other.1, other.2, other.3]);
        let (v, o) = a.overflowing_sub(b);
        (U256(v.0[0], v.0[1], v.0[2], v.0[3]), o)
    }

    /// `U256::overflowing_mul`: the product modulo 2^256, with a flag that says whether
    /// the product reached 2^256.
    #[verifier::external_body]
    pub(crate) fn overflowing_mul(self, other: U256) -> (r: (U256, bool))
        ensures
            r.0@ == (self@ * other@) % modulus(),
            r.1 == (self@ * other@ >= modulus()),
    {
        let a = sp_core::U256([self.0, self.1, self.2, self.3]);
        let b = sp_core::U256([other.0, other.1, other.2, other.3]);
        let (v, o) = a.overflowing_mul(b);
        (U256(v.0[0], v.0[1], v.0[2], v.0[3]), o)
    }

    /// `U256 / U256` (`Div`, through `div_mod`): the quotient rounded down. It panics on
    /// a zero divisor, which `requires` leaves out.
    #[verifier::external_body]
    pub(crate) fn div(self, other: U256) -> (r: U256)
        requires
            other@ != 0,
        ensures
            r@ == self@ / other@,
    {
        let a = sp_core::U256([self.0, self.1, self.2, self.3]);
        let b = sp_core::U256([other.0, other.1, other.2, other.3]);
        let v = a / b;
        U256(v.0[0], v.0[1], v.0[2], v.0[3])
    }

    /// `U256::pow`: `self` to the power `exp`. It panics when the power does not fit in
    /// 256 bits, which `requires` leaves out.
    #[verifier::external_body]
    pub(crate) fn pow(self, exp: U256) -> (r: U256)
        requires
            pow(self@ as int, exp@) < modulus(),
        ensures
            r@ == pow(self@ as int, exp@),
    {
        let a = sp_core::U256([self.0, self.1, self.2, self.3]);
        let e = sp_core::U256([exp.0, exp.1, exp.2, exp.3]);
        let v = a.pow(e);
        U256(v.0[0], v.0[1], v.0[2], v.0[3])
    }

    /// `U256::overflowing_pow` with an exponent converted from `u32`: the power modulo
    /// 2^256, with a flag that says whether the power reached 2^256.
    #[verifier::external_body]
    pub(crate) fn overflowing_pow(self, exp: u32) -> (r: (U256, bool))
        ensures
            r.0@ == pow(self@ as int, exp as nat) % (modulus() as int),
            r.1 == (pow(self@ as int, exp as nat) >= modulus()),
    {
        let a = sp_core::U256([self.0, self.1, self.2, self.3]);
        let (v, o) = a.overflowing_pow(sp_core::U256::from(exp));
        (U256(v.0[0], v.0[1], v.0[2], v.0[3]), o)
    }

    /// `U256::exp10`: ten to the power `n`. It panics when that does not fit in 256 bits,
    /// which `requires` leaves out.
    #[verifier::external_body]
    pub(crate) fn exp10(n: usize) -> (r: U256)
        requires
            pow(10, n as nat) < modulus(),
        ensures
            r@ == pow(10, n as nat),
    {
        let v = sp_core::U256::exp10(n);
        U256(v.0[0], v.0[1], v.0[2], v.0[3])
    }

    /// `U256::bits`: the number of bits needed to write the value.
    #[verifier::external_body]
    pub(crate) fn bits(&self) -> (r: usize)
        ensures
            r == bit_length(self@),
    {
        sp_core::U256([self.0, self.1, self.2, self.3]).bits()
    }

    /// `U256::leading_zeros`: the zero bits above the highest one bit, out of 256.
    #[verifier::external_body]
    pub(crate) fn leading_zeros(&self) -> (r: u32)
        ensures
            r == 256 - bit_length(self@),
    {
        sp_core::U256([self.0, self.1, self.2, self.3]).leading_zeros()
    }

    /// `U256::trailing_zeros`: the zero bits below the lowest one bit; 256 for zero.
    #[verifier::external_body]
    pub(crate) fn trailing_zeros(&self) -> (r: u32)
        ensures
            r == (if self@ == 0 {
                256
            } else {
                trailing_zero_bits(self@)
            }),
    {
        sp_core::U256([self.0, self.1, self.2, self.3]).trailing_zeros()
    }

    /// `U256::bit`: bit `index`. It panics for an index past 255, which `requires`
    /// leaves out.
    #[verifier::external_body]
    pub(crate) fn bit(&self, index: usize) -> (r: bool)
        requires
            index < 256,
        ensures
            r == nth_bit(self@, index as nat),
    {
        sp_core::U256([self.0, self.1, self.2, self.3]).bit(index)
    }

    /// `U256::byte`: byte `index`, counting from the least significant. It panics for an
    /// index past 31, which `requires` leaves out.
    #[verifier::external_body]
    pub(crate) fn byte(&self, index: usize) -> (r: u8)
        requires
            index < 32,
        ensures
            r == nth_byte(self@, index as nat),
    {
        sp_core::U256([self.0, self.1, self.2, self.3]).byte(index)
    }

    /// `U256 << usize`: the value times 2^shift, modulo 2^256.
    #[verifier::external_body]
    pub(crate) fn shl(self, shift: usize) -> (r: U256)
        ensures
            r@ == (self@ * pow2(shift as nat)) % modulus(),
    {
        let v = sp_core::U256([self.0, self.1, self.2, self.3]) << shift;
        U256(v.0[0], v.0[1], v.0[2], v.0[3])
    }

    /// `U256 >> usize`: the value divided by 2^shift, rounded down.
    #[verifier::external_body]
    pub(crate) fn shr(self, shift: usize) -> (r: U256)
        ensures
            r@ == self@ / pow2(shift as nat),
    {
        let v = sp_core::U256([self.0, self.1, self.2, self.3]) >> shift;
        U256(v.0[0], v.0[1], v.0[2], v.0[3])
    }

    /// `U256 & U256`: bitwise and.
    #[verifier::external_body]
    pub(crate) fn bitand(self, other: U256) -> (r: U256)
        ensures
            r@ == bit_and(self@, other@),
    {
        let a = sp_core::U256([self.0, self.1, self.2, self.3]);
        let v = a & sp_core::U256([other.0, other.1, other.2, other.3]);
        U256(v.0[0], v.0[1], v.0[2], v.0[3])
    }

    /// `U256 | U256`: bitwise or.
    #[verifier::external_body]
    pub(crate) fn bitor(self, other: U256) -> (r: U256)
        ensures
            r@ == bit_or(self@, other@),
    {
        let a = sp_core::U256([self.0, self.1, self.2, self.3]);
        let v = a | sp_core::U256([other.0, other.1, other.2, other.3]);
        U256(v.0[0], v.0[1], v.0[2], v.0[3])
    }

    /// `U256 ^ U256`: bitwise exclusive or.
    #[verifier::external_body]
    pub(crate) fn bitxor(self, other: U256) -> (r: U256)
        ensures
            r@ == bit_xor(self@, other@),
    {
        let a = sp_core::U256([self.0, self.1, self.2, self.3]);
        let v = a ^ sp_core::U256([other.0, other.1, other.2, other.3]);
        U256(v.0[0], v.0[1], v.0[2], v.0[3])
    }

    /// `U256::to_big_endian`: writes the 32 bytes of the value, most significant first.
    /// It checks the length only in debug builds; `requires` asks for exactly 32 bytes.
    #[verifier::external_body]
    pub(crate) fn to_big_endian(&self, bytes: &mut [u8])
        requires
            old(bytes)@.len() == 32,
        ensures
            final(bytes)@.len() == 32,
            forall|i: int| 0 <= i < 32 ==> final(bytes)@[i] == nth_byte(self@, (31 - i) as nat),
    {
        sp_core::U256([self.0, self.1, self.2, self.3]).to_big_endian(bytes)
    }

    /// `U256::to_little_endian`: writes the 32 bytes of the value, least significant first.
    /// It checks the length only in debug builds; `requires` asks for exactly 32 bytes.
    #[verifier::external_body]
    pub(crate) fn to_little_endian(&self, bytes: &mut [u8])
        requires
            old(bytes)@.len() == 32,
        ensures
            final(bytes)@.len() == 32,
            forall|i: int| 0 <= i < 32 ==> final(bytes)@[i] == nth_byte(self@, i as nat),
    {
        sp_core::U256([self.0, self.1, self.2, self.3]).to_little_endian(bytes)
    }

    /// `Display` for `U256` (through `format!`): the decimal digits of the value, without
    /// leading zeros.
    #[verifier::external_body]
    pub(crate) fn to_decimal(&self) -> (r: String)
        ensures
            r@ == decimal_digits(self@),
    {
        format!("{}", sp_core::U256([self.0, self.1, self.2, self.3]))
    }

    /// `LowerHex` for `U256` (through `format!`): the lower-case hexadecimal digits of the
    /// value, without leading zeros.
    #[verifier::external_body]
    pub(crate) fn to_lower_hex(&self) -> (r: String)
        ensures
            r@ == hex_digits(self@, false),
    {
        format!("{:x}", sp_core::U256([self.0, self.1, self.2, self.3]))
    }

    /// `UpperHex` for `U256` (through `format!`): the upper-case hexadecimal digits of the
    /// value, without leading zeros.
    #[verifier::external_body]
    pub(crate) fn to_upper_hex(&self) -> (r: String)
        ensures
            r@ == hex_digits(self@, true),
    {
        format!("{:X}", sp_core::U256([self.0, self.1, self.2, self.3]))
    }
}

} // verus!
