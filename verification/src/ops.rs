use crate::i256::{
    div_trunc, fits, i256_min, lemma_div_trunc, lemma_from_int, lemma_view_fits, lemma_view_injective,
    lemma_wrap_fits, rem_trunc, shl_value, signed, wrap, I256,
};
use crate::i256::{abs, lemma_mod_window, lemma_raw_bound, lemma_raw_of_bound, lemma_raw_of_congruent};
use crate::laws::law_shl_multiplies;
use crate::uint::{bit_and, bit_or, bit_xor, law_bitwise_bits, lemma_bitwise_bound, lemma_word_powers, modulus, nth_bit};
use vstd::arithmetic::div_mod::*;
use vstd::arithmetic::power2::*;
use vstd::std_specs::ops::{AddSpec, BitAndSpec, BitOrSpec, BitXorSpec, DivSpec, MulSpec, NegSpec, NotSpec, RemSpec, ShlSpec, ShrSpec, SubSpec};
use vstd::prelude::*;

verus! {

/// The value of an operation whose overflow debug builds reject: the wrapped result, on
/// inputs that do not overflow.
fn handle_overflow(result: (I256, bool)) -> (r: I256)
    requires
        !result.1,
    ensures
        r == result.0,
{
    result.0
}

/// The `I256` that a computed value in range stands for is that value.
proof fn lemma_result_is(r: I256, x: int)
    requires
        r@ == x,
        fits(x),
    ensures
        r == I256::from_int(x),
{
    lemma_from_int(x);
    lemma_wrap_fits(x);
    lemma_view_injective(r, I256::from_int(x));
}

impl core::ops::Add for I256 {
    type Output = I256;

    fn add(self, rhs: I256) -> (r: I256) {
        let r = handle_overflow(self.overflowing_add(rhs));
        proof {
            lemma_result_is(r, self@ + rhs@);
        }
        r
    }
}

impl vstd::std_specs::ops::AddSpecImpl for I256 {
    open spec fn obeys_add_spec() -> bool {
        true
    }

    open spec fn add_req(self, rhs: I256) -> bool {
        fits(self@ + rhs@)
    }

    open spec fn add_spec(self, rhs: I256) -> I256 {
        I256::from_int(self@ + rhs@)
    }
}

impl core::ops::Sub for I256 {
    type Output = I256;

    fn sub(self, rhs: I256) -> (r: I256) {
        let r = handle_overflow(self.overflowing_sub(rhs));
        proof {
            lemma_result_is(r, self@ - rhs@);
        }
        r
    }
}

impl vstd::std_specs::ops::SubSpecImpl for I256 {
    open spec fn obeys_sub_spec() -> bool {
        true
    }

    open spec fn sub_req(self, rhs: I256) -> bool {
        fits(self@ - rhs@)
    }

    open spec fn sub_spec(self, rhs: I256) -> I256 {
        I256::from_int(self@ - rhs@)
    }
}

impl core::ops::Mul for I256 {
    type Output = I256;

    fn mul(self, rhs: I256) -> (r: I256) {
        let r = handle_overflow(self.overflowing_mul(rhs));
        proof {
            lemma_result_is(r, self@ * rhs@);
        }
        r
    }
}

impl vstd::std_specs::ops::MulSpecImpl for I256 {
    open spec fn obeys_mul_spec() -> bool {
        true
    }

    open spec fn mul_req(self, rhs: I256) -> bool {
        fits(self@ * rhs@)
    }

    open spec fn mul_spec(self, rhs: I256) -> I256 {
        I256::from_int(self@ * rhs@)
    }
}

impl core::ops::Div for I256 {
    type Output = I256;

    fn div(self, rhs: I256) -> (r: I256) {
        let r = handle_overflow(self.overflowing_div(rhs));
        proof {
            lemma_view_fits(self);
            lemma_div_trunc(self@, rhs@);
            lemma_wrap_fits(div_trunc(self@, rhs@));
            lemma_result_is(r, div_trunc(self@, rhs@));
        }
        r
    }
}

impl vstd::std_specs::ops::DivSpecImpl for I256 {
    open spec fn obeys_div_spec() -> bool {
        true
    }

    open spec fn div_req(self, rhs: I256) -> bool {
        rhs@ != 0 && !(self@ == i256_min() && rhs@ == -1)
    }

    open spec fn div_spec(self, rhs: I256) -> I256 {
        I256::from_int(div_trunc(self@, rhs@))
    }
}

impl core::ops::Rem for I256 {
    type Output = I256;

    fn rem(self, rhs: I256) -> (r: I256) {
        let r = handle_overflow(self.overflowing_rem(rhs));
        proof {
            lemma_view_fits(r);
            lemma_result_is(r, rem_trunc(self@, rhs@));
        }
        r
    }
}

impl vstd::std_specs::ops::RemSpecImpl for I256 {
    open spec fn obeys_rem_spec() -> bool {
        true
    }

    open spec fn rem_req(self, rhs: I256) -> bool {
        rhs@ != 0 && !(self@ == i256_min() && rhs@ == -1)
    }

    open spec fn rem_spec(self, rhs: I256) -> I256 {
        I256::from_int(rem_trunc(self@, rhs@))
    }
}

impl core::ops::BitAnd for I256 {
    type Output = I256;

    fn bitand(self, rhs: I256) -> (r: I256) {
        let r = I256::from_raw(self.into_raw().bitand(rhs.into_raw()));
        proof {
            lemma_view_fits(r);
            lemma_result_is(r, r@);
        }
        r
    }
}

impl vstd::std_specs::ops::BitAndSpecImpl for I256 {
    open spec fn obeys_bitand_spec() -> bool {
        true
    }

    open spec fn bitand_req(self, rhs: I256) -> bool {
        true
    }

    open spec fn bitand_spec(self, rhs: I256) -> I256 {
        I256::from_int(signed(bit_and(self.raw(), rhs.raw())))
    }
}

impl core::ops::BitOr for I256 {
    type Output = I256;

    fn bitor(self, rhs: I256) -> (r: I256) {
        let r = I256::from_raw(self.into_raw().bitor(rhs.into_raw()));
        proof {
            lemma_view_fits(r);
            lemma_result_is(r, r@);
        }
        r
    }
}

impl vstd::std_specs::ops::BitOrSpecImpl for I256 {
    open spec fn obeys_bitor_spec() -> bool {
        true
    }

    open spec fn bitor_req(self, rhs: I256) -> bool {
        true
    }

    open spec fn bitor_spec(self, rhs: I256) -> I256 {
        I256::from_int(signed(bit_or(self.raw(), rhs.raw())))
    }
}

impl core::ops::BitXor for I256 {
    type Output = I256;

    fn bitxor(self, rhs: I256) -> (r: I256) {
        let r = I256::from_raw(self.into_raw().bitxor(rhs.into_raw()));
        proof {
            lemma_view_fits(r);
            lemma_result_is(r, r@);
        }
        r
    }
}

impl vstd::std_specs::ops::BitXorSpecImpl for I256 {
    open spec fn obeys_bitxor_spec() -> bool {
        true
    }

    open spec fn bitxor_req(self, rhs: I256) -> bool {
        true
    }

    open spec fn bitxor_spec(self, rhs: I256) -> I256 {
        I256::from_int(signed(bit_xor(self.raw(), rhs.raw())))
    }
}

impl core::ops::Neg for I256 {
    type Output = I256;

    fn neg(self) -> (r: I256) {
        let r = handle_overflow(self.overflowing_neg());
        proof {
            lemma_view_fits(self);
            lemma_wrap_fits(-self@);
            lemma_result_is(r, -self@);
        }
        r
    }
}

impl vstd::std_specs::ops::NegSpecImpl for I256 {
    open spec fn obeys_neg_spec() -> bool {
        true
    }

    open spec fn neg_req(self) -> bool {
        self@ != i256_min()
    }

    open spec fn neg_spec(self) -> I256 {
        I256::from_int(-self@)
    }
}

impl core::ops::Not for I256 {
    type Output = I256;

    fn not(self) -> (r: I256) {
        let r = I256::from_raw(self.into_raw().not());
        proof {
            lemma_view_fits(self);
            lemma_result_is(r, -self@ - 1);
        }
        r
    }
}

impl vstd::std_specs::ops::NotSpecImpl for I256 {
    open spec fn obeys_not_spec() -> bool {
        true
    }

    open spec fn not_req(self) -> bool {
        true
    }

    open spec fn not_spec(self) -> I256 {
        I256::from_int(-self@ - 1)
    }
}

impl core::ops::Shl<i8> for I256 {
    type Output = I256;

    fn shl(self, rhs: i8) -> (r: I256) {
        let r = self.wrapping_shl(rhs as usize);
        proof {
            lemma_view_fits(r);
            lemma_result_is(r, r@);
        }
        r
    }
}

impl vstd::std_specs::ops::ShlSpecImpl<i8> for I256 {
    open spec fn obeys_shl_spec() -> bool {
        true
    }

    open spec fn shl_req(self, rhs: i8) -> bool {
        true
    }

    open spec fn shl_spec(self, rhs: i8) -> I256 {
        I256::from_int(shl_value(self@, (rhs as usize) as nat))
    }
}

impl core::ops::Shr<i8> for I256 {
    type Output = I256;

    fn shr(self, rhs: i8) -> (r: I256) {
        let r = self.wrapping_shr(rhs as usize);
        proof {
            lemma_view_fits(r);
            lemma_result_is(r, r@);
        }
        r
    }
}

impl vstd::std_specs::ops::ShrSpecImpl<i8> for I256 {
    open spec fn obeys_shr_spec() -> bool {
        true
    }

    open spec fn shr_req(self, rhs: i8) -> bool {
        true
    }

    open spec fn shr_spec(self, rhs: i8) -> I256 {
        I256::from_int(signed(self.raw() / pow2((rhs as usize) as nat)))
    }
}

impl core::ops::Shl<u8> for I256 {
    type Output = I256;

    fn shl(self, rhs: u8) -> (r: I256) {
        let r = self.wrapping_shl(rhs as usize);
        proof {
            lemma_view_fits(r);
            lemma_result_is(r, r@);
        }
        r
    }
}

impl vstd::std_specs::ops::ShlSpecImpl<u8> for I256 {
    open spec fn obeys_shl_spec() -> bool {
        true
    }

    open spec fn shl_req(self, rhs: u8) -> bool {
        true
    }

    open spec fn shl_spec(self, rhs: u8) -> I256 {
        I256::from_int(shl_value(self@, (rhs as usize) as nat))
    }
}

impl core::ops::Shr<u8> for I256 {
    type Output = I256;

    fn shr(self, rhs: u8) -> (r: I256) {
        let r = self.wrapping_shr(rhs as usize);
        proof {
            lemma_view_fits(r);
            lemma_result_is(r, r@);
        }
        r
    }
}

impl vstd::std_specs::ops::ShrSpecImpl<u8> for I256 {
    open spec fn obeys_shr_spec() -> bool {
        true
    }

    open spec fn shr_req(self, rhs: u8) -> bool {
        true
    }

    open spec fn shr_spec(self, rhs: u8) -> I256 {
        I256::from_int(signed(self.raw() / pow2((rhs as usize) as nat)))
    }
}

impl core::ops::Shl<i16> for I256 {
    type Output = I256;

    fn shl(self, rhs: i16) -> (r: I256) {
        let r = self.wrapping_shl(rhs as usize);
        proof {
            lemma_view_fits(r);
            lemma_result_is(r, r@);
        }
        r
    }
}

impl vstd::std_specs::ops::ShlSpecImpl<i16> for I256 {
    open spec fn obeys_shl_spec() -> bool {
        true
    }

    open spec fn shl_req(self, rhs: i16) -> bool {
        true
    }

    open spec fn shl_spec(self, rhs: i16) -> I256 {
        I256::from_int(shl_value(self@, (rhs as usize) as nat))
    }
}

impl core::ops::Shr<i16> for I256 {
    type Output = I256;

    fn shr(self, rhs: i16) -> (r: I256) {
        let r = self.wrapping_shr(rhs as usize);
        proof {
            lemma_view_fits(r);
            lemma_result_is(r, r@);
        }
        r
    }
}

impl vstd::std_specs::ops::ShrSpecImpl<i16> for I256 {
    open spec fn obeys_shr_spec() -> bool {
        true
    }

    open spec fn shr_req(self, rhs: i16) -> bool {
        true
    }

    open spec fn shr_spec(self, rhs: i16) -> I256 {
        I256::from_int(signed(self.raw() / pow2((rhs as usize) as nat)))
    }
}

impl core::ops::Shl<u16> for I256 {
    type Output = I256;

    fn shl(self, rhs: u16) -> (r: I256) {
        let r = self.wrapping_shl(rhs as usize);
        proof {
            lemma_view_fits(r);
            lemma_result_is(r, r@);
        }
        r
    }
}

impl vstd::std_specs::ops::ShlSpecImpl<u16> for I256 {
    open spec fn obeys_shl_spec() -> bool {
        true
    }

    open spec fn shl_req(self, rhs: u16) -> bool {
        true
    }

    open spec fn shl_spec(self, rhs: u16) -> I256 {
        I256::from_int(shl_value(self@, (rhs as usize) as nat))
    }
}

impl core::ops::Shr<u16> for I256 {
    type Output = I256;

    fn shr(self, rhs: u16) -> (r: I256) {
        let r = self.wrapping_shr(rhs as usize);
        proof {
            lemma_view_fits(r);
            lemma_result_is(r, r@);
        }
        r
    }
}

impl vstd::std_specs::ops::ShrSpecImpl<u16> for I256 {
    open spec fn obeys_shr_spec() -> bool {
        true
    }

    open spec fn shr_req(self, rhs: u16) -> bool {
        true
    }

    open spec fn shr_spec(self, rhs: u16) -> I256 {
        I256::from_int(signed(self.raw() / pow2((rhs as usize) as nat)))
    }
}

impl core::ops::Shl<i32> for I256 {
    type Output = I256;

    fn shl(self, rhs: i32) -> (r: I256) {
        let r = self.wrapping_shl(rhs as usize);
        proof {
            lemma_view_fits(r);
            lemma_result_is(r, r@);
        }
        r
    }
}

impl vstd::std_specs::ops::ShlSpecImpl<i32> for I256 {
    open spec fn obeys_shl_spec() -> bool {
        true
    }

    open spec fn shl_req(self, rhs: i32) -> bool {
        true
    }

    open spec fn shl_spec(self, rhs: i32) -> I256 {
        I256::from_int(shl_value(self@, (rhs as usize) as nat))
    }
}

impl core::ops::Shr<i32> for I256 {
    type Output = I256;

    fn shr(self, rhs: i32) -> (r: I256) {
        let r = self.wrapping_shr(rhs as usize);
        proof {
            lemma_view_fits(r);
            lemma_result_is(r, r@);
        }
        r
    }
}

impl vstd::std_specs::ops::ShrSpecImpl<i32> for I256 {
    open spec fn obeys_shr_spec() -> bool {
        true
    }

    open spec fn shr_req(self, rhs: i32) -> bool {
        true
    }

    open spec fn shr_spec(self, rhs: i32) -> I256 {
        I256::from_int(signed(self.raw() / pow2((rhs as usize) as nat)))
    }
}

impl core::ops::Shl<u32> for I256 {
    type Output = I256;

    fn shl(self, rhs: u32) -> (r: I256) {
        let r = self.wrapping_shl(rhs as usize);
        proof {
            lemma_view_fits(r);
            lemma_result_is(r, r@);
        }
        r
    }
}

impl vstd::std_specs::ops::ShlSpecImpl<u32> for I256 {
    open spec fn obeys_shl_spec() -> bool {
        true
    }

    open spec fn shl_req(self, rhs: u32) -> bool {
        true
    }

    open spec fn shl_spec(self, rhs: u32) -> I256 {
        I256::from_int(shl_value(self@, (rhs as usize) as nat))
    }
}

impl core::ops::Shr<u32> for I256 {
    type Output = I256;

    fn shr(self, rhs: u32) -> (r: I256) {
        let r = self.wrapping_shr(rhs as usize);
        proof {
            lemma_view_fits(r);
            lemma_result_is(r, r@);
        }
        r
    }
}

impl vstd::std_specs::ops::ShrSpecImpl<u32> for I256 {
    open spec fn obeys_shr_spec() -> bool {
        true
    }

    open spec fn shr_req(self, rhs: u32) -> bool {
        true
    }

    open spec fn shr_spec(self, rhs: u32) -> I256 {
        I256::from_int(signed(self.raw() / pow2((rhs as usize) as nat)))
    }
}

impl core::ops::Shl<i64> for I256 {
    type Output = I256;

    fn shl(self, rhs: i64) -> (r: I256) {
        let r = self.wrapping_shl(rhs as usize);
        proof {
            lemma_view_fits(r);
            lemma_result_is(r, r@);
        }
        r
    }
}

impl vstd::std_specs::ops::ShlSpecImpl<i64> for I256 {
    open spec fn obeys_shl_spec() -> bool {
        true
    }

    open spec fn shl_req(self, rhs: i64) -> bool {
        true
    }

    open spec fn shl_spec(self, rhs: i64) -> I256 {
        I256::from_int(shl_value(self@, (rhs as usize) as nat))
    }
}

impl core::ops::Shr<i64> for I256 {
    type Output = I256;

    fn shr(self, rhs: i64) -> (r: I256) {
        let r = self.wrapping_shr(rhs as usize);
        proof {
            lemma_view_fits(r);
            lemma_result_is(r, r@);
        }
        r
    }
}

impl vstd::std_specs::ops::ShrSpecImpl<i64> for I256 {
    open spec fn obeys_shr_spec() -> bool {
        true
    }

    open spec fn shr_req(self, rhs: i64) -> bool {
        true
    }

    open spec fn shr_spec(self, rhs: i64) -> I256 {
        I256::from_int(signed(self.raw() / pow2((rhs as usize) as nat)))
    }
}

impl core::ops::Shl<u64> for I256 {
    type Output = I256;

    fn shl(self, rhs: u64) -> (r: I256) {
        let r = self.wrapping_shl(rhs as usize);
        proof {
            lemma_view_fits(r);
            lemma_result_is(r, r@);
        }
        r
    }
}

impl vstd::std_specs::ops::ShlSpecImpl<u64> for I256 {
    open spec fn obeys_shl_spec() -> bool {
        true
    }

    open spec fn shl_req(self, rhs: u64) -> bool {
        true
    }

    open spec fn shl_spec(self, rhs: u64) -> I256 {
        I256::from_int(shl_value(self@, (rhs as usize) as nat))
    }
}

impl core::ops::Shr<u64> for I256 {
    type Output = I256;

    fn shr(self, rhs: u64) -> (r: I256) {
        let r = self.wrapping_shr(rhs as usize);
        proof {
            lemma_view_fits(r);
            lemma_result_is(r, r@);
        }
        r
    }
}

impl vstd::std_specs::ops::ShrSpecImpl<u64> for I256 {
    open spec fn obeys_shr_spec() -> bool {
        true
    }

    open spec fn shr_req(self, rhs: u64) -> bool {
        true
    }

    open spec fn shr_spec(self, rhs: u64) -> I256 {
        I256::from_int(signed(self.raw() / pow2((rhs as usize) as nat)))
    }
}

impl core::ops::Shl<isize> for I256 {
    type Output = I256;

    fn shl(self, rhs: isize) -> (r: I256) {
        let r = self.wrapping_shl(rhs as usize);
        proof {
            lemma_view_fits(r);
            lemma_result_is(r, r@);
        }
        r
    }
}

impl vstd::std_specs::ops::ShlSpecImpl<isize> for I256 {
    open spec fn obeys_shl_spec() -> bool {
        true
    }

    open spec fn shl_req(self, rhs: isize) -> bool {
        true
    }

    open spec fn shl_spec(self, rhs: isize) -> I256 {
        I256::from_int(shl_value(self@, (rhs as usize) as nat))
    }
}

impl core::ops::Shr<isize> for I256 {
    type Output = I256;

    fn shr(self, rhs: isize) -> (r: I256) {
        let r = self.wrapping_shr(rhs as usize);
        proof {
            lemma_view_fits(r);
            lemma_result_is(r, r@);
        }
        r
    }
}

impl vstd::std_specs::ops::ShrSpecImpl<isize> for I256 {
    open spec fn obeys_shr_spec() -> bool {
        true
    }

    open spec fn shr_req(self, rhs: isize) -> bool {
        true
    }

    open spec fn shr_spec(self, rhs: isize) -> I256 {
        I256::from_int(signed(self.raw() / pow2((rhs as usize) as nat)))
    }
}

impl core::ops::Shl<usize> for I256 {
    type Output = I256;

    fn shl(self, rhs: usize) -> (r: I256) {
        let r = self.wrapping_shl(rhs as usize);
        proof {
            lemma_view_fits(r);
            lemma_result_is(r, r@);
        }
        r
    }
}

impl vstd::std_specs::ops::ShlSpecImpl<usize> for I256 {
    open spec fn obeys_shl_spec() -> bool {
        true
    }

    open spec fn shl_req(self, rhs: usize) -> bool {
        true
    }

    open spec fn shl_spec(self, rhs: usize) -> I256 {
        I256::from_int(shl_value(self@, (rhs as usize) as nat))
    }
}

impl core::ops::Shr<usize> for I256 {
    type Output = I256;

    fn shr(self, rhs: usize) -> (r: I256) {
        let r = self.wrapping_shr(rhs as usize);
        proof {
            lemma_view_fits(r);
            lemma_result_is(r, r@);
        }
        r
    }
}

impl vstd::std_specs::ops::ShrSpecImpl<usize> for I256 {
    open spec fn obeys_shr_spec() -> bool {
        true
    }

    open spec fn shr_req(self, rhs: usize) -> bool {
        true
    }

    open spec fn shr_spec(self, rhs: usize) -> I256 {
        I256::from_int(signed(self.raw() / pow2((rhs as usize) as nat)))
    }
}

impl core::ops::AddAssign for I256 {
    /// Wraps around where the operation overflows.
    fn add_assign(&mut self, rhs: I256)
        ensures
            final(self)@ == wrap(old(self)@ + rhs@),
    {
        *self = self.wrapping_add(rhs);
    }
}

impl core::ops::SubAssign for I256 {
    /// Wraps around where the operation overflows.
    fn sub_assign(&mut self, rhs: I256)
        ensures
            final(self)@ == wrap(old(self)@ - rhs@),
    {
        *self = self.wrapping_sub(rhs);
    }
}

impl core::ops::MulAssign for I256 {
    /// Wraps around where the operation overflows.
    fn mul_assign(&mut self, rhs: I256)
        ensures
            final(self)@ == wrap(old(self)@ * rhs@),
    {
        *self = self.wrapping_mul(rhs);
    }
}

impl core::ops::BitAndAssign for I256 {
    fn bitand_assign(&mut self, rhs: I256)
        ensures
            final(self).raw() == bit_and(old(self).raw(), rhs.raw()),
    {
        *self = I256::from_raw(self.into_raw().bitand(rhs.into_raw()));
    }
}

impl core::ops::BitOrAssign for I256 {
    fn bitor_assign(&mut self, rhs: I256)
        ensures
            final(self).raw() == bit_or(old(self).raw(), rhs.raw()),
    {
        *self = I256::from_raw(self.into_raw().bitor(rhs.into_raw()));
    }
}

impl core::ops::BitXorAssign for I256 {
    fn bitxor_assign(&mut self, rhs: I256)
        ensures
            final(self).raw() == bit_xor(old(self).raw(), rhs.raw()),
    {
        *self = I256::from_raw(self.into_raw().bitxor(rhs.into_raw()));
    }
}

impl core::ops::ShlAssign<i8> for I256 {
    fn shl_assign(&mut self, rhs: i8)
        ensures
            final(self)@ == shl_value(old(self)@, (rhs as usize) as nat),
    {
        *self = self.wrapping_shl(rhs as usize);
    }
}

impl core::ops::ShrAssign<i8> for I256 {
    fn shr_assign(&mut self, rhs: i8)
        ensures
            final(self).raw() == old(self).raw() / pow2((rhs as usize) as nat),
    {
        *self = self.wrapping_shr(rhs as usize);
    }
}

impl core::ops::ShlAssign<u8> for I256 {
    fn shl_assign(&mut self, rhs: u8)
        ensures
            final(self)@ == shl_value(old(self)@, (rhs as usize) as nat),
    {
        *self = self.wrapping_shl(rhs as usize);
    }
}

impl core::ops::ShrAssign<u8> for I256 {
    fn shr_assign(&mut self, rhs: u8)
        ensures
            final(self).raw() == old(self).raw() / pow2((rhs as usize) as nat),
    {
        *self = self.wrapping_shr(rhs as usize);
    }
}

impl core::ops::ShlAssign<i16> for I256 {
    fn shl_assign(&mut self, rhs: i16)
        ensures
            final(self)@ == shl_value(old(self)@, (rhs as usize) as nat),
    {
        *self = self.wrapping_shl(rhs as usize);
    }
}

impl core::ops::ShrAssign<i16> for I256 {
    fn shr_assign(&mut self, rhs: i16)
        ensures
            final(self).raw() == old(self).raw() / pow2((rhs as usize) as nat),
    {
        *self = self.wrapping_shr(rhs as usize);
    }
}

impl core::ops::ShlAssign<u16> for I256 {
    fn shl_assign(&mut self, rhs: u16)
        ensures
            final(self)@ == shl_value(old(self)@, (rhs as usize) as nat),
    {
        *self = self.wrapping_shl(rhs as usize);
    }
}

impl core::ops::ShrAssign<u16> for I256 {
    fn shr_assign(&mut self, rhs: u16)
        ensures
            final(self).raw() == old(self).raw() / pow2((rhs as usize) as nat),
    {
        *self = self.wrapping_shr(rhs as usize);
    }
}

impl core::ops::ShlAssign<i32> for I256 {
    fn shl_assign(&mut self, rhs: i32)
        ensures
            final(self)@ == shl_value(old(self)@, (rhs as usize) as nat),
    {
        *self = self.wrapping_shl(rhs as usize);
    }
}

impl core::ops::ShrAssign<i32> for I256 {
    fn shr_assign(&mut self, rhs: i32)
        ensures
            final(self).raw() == old(self).raw() / pow2((rhs as usize) as nat),
    {
        *self = self.wrapping_shr(rhs as usize);
    }
}

impl core::ops::ShlAssign<u32> for I256 {
    fn shl_assign(&mut self, rhs: u32)
        ensures
            final(self)@ == shl_value(old(self)@, (rhs as usize) as nat),
    {
        *self = self.wrapping_shl(rhs as usize);
    }
}

impl core::ops::ShrAssign<u32> for I256 {
    fn shr_assign(&mut self, rhs: u32)
        ensures
            final(self).raw() == old(self).raw() / pow2((rhs as usize) as nat),
    {
        *self = self.wrapping_shr(rhs as usize);
    }
}

impl core::ops::ShlAssign<i64> for I256 {
    fn shl_assign(&mut self, rhs: i64)
        ensures
            final(self)@ == shl_value(old(self)@, (rhs as usize) as nat),
    {
        *self = self.wrapping_shl(rhs as usize);
    }
}

impl core::ops::ShrAssign<i64> for I256 {
    fn shr_assign(&mut self, rhs: i64)
        ensures
            final(self).raw() == old(self).raw() / pow2((rhs as usize) as nat),
    {
        *self = self.wrapping_shr(rhs as usize);
    }
}

impl core::ops::ShlAssign<u64> for I256 {
    fn shl_assign(&mut self, rhs: u64)
        ensures
            final(self)@ == shl_value(old(self)@, (rhs as usize) as nat),
    {
        *self = self.wrapping_shl(rhs as usize);
    }
}

impl core::ops::ShrAssign<u64> for I256 {
    fn shr_assign(&mut self, rhs: u64)
        ensures
            final(self).raw() == old(self).raw() / pow2((rhs as usize) as nat),
    {
        *self = self.wrapping_shr(rhs as usize);
    }
}

impl core::ops::ShlAssign<isize> for I256 {
    fn shl_assign(&mut self, rhs: isize)
        ensures
            final(self)@ == shl_value(old(self)@, (rhs as usize) as nat),
    {
        *self = self.wrapping_shl(rhs as usize);
    }
}

impl core::ops::ShrAssign<isize> for I256 {
    fn shr_assign(&mut self, rhs: isize)
        ensures
            final(self).raw() == old(self).raw() / pow2((rhs as usize) as nat),
    {
        *self = self.wrapping_shr(rhs as usize);
    }
}

impl core::ops::ShlAssign<usize> for I256 {
    fn shl_assign(&mut self, rhs: usize)
        ensures
            final(self)@ == shl_value(old(self)@, (rhs as usize) as nat),
    {
        *self = self.wrapping_shl(rhs as usize);
    }
}

impl core::ops::ShrAssign<usize> for I256 {
    fn shr_assign(&mut self, rhs: usize)
        ensures
            final(self).raw() == old(self).raw() / pow2((rhs as usize) as nat),
    {
        *self = self.wrapping_shr(rhs as usize);
    }
}

/// The sum of the values of a sequence of `I256`.
pub open spec fn sum_of(s: Seq<I256>) -> int
    decreases s.len(),
{
    if s.len() == 0 {
        0
    } else {
        sum_of(s.drop_last()) + s.last()@
    }
}

/// The product of the values of a sequence of `I256`.
pub open spec fn product_of(s: Seq<I256>) -> int
    decreases s.len(),
{
    if s.len() == 0 {
        1
    } else {
        product_of(s.drop_last()) * s.last()@
    }
}

impl I256 {
    /// The sum of `values`, added up from the first with `+`. Debug builds panic where a
    /// partial sum overflows, so `requires` leaves that out.
    pub fn sum(values: &[I256]) -> (r: I256)
        requires
            forall|k: int| 0 <= k <= values@.len() ==> fits(#[trigger] sum_of(values@.take(k))),
        ensures
            r@ == sum_of(values@),
    {
        let mut acc = I256::zero();
        let n = values.len();
        proof {
            assert(values@.take(0) =~= Seq::<I256>::empty());
        }
        for i in 0..n
            invariant
                n == values@.len(),
                forall|k: int| 0 <= k <= values@.len() ==> fits(#[trigger] sum_of(values@.take(k))),
                acc@ == sum_of(values@.take(i as int)),
        {
            proof {
                assert(values@.take(i + 1).drop_last() =~= values@.take(i as int));
                assert(fits(sum_of(values@.take(i + 1))));
            }
            acc = acc + values[i];
            proof {
                lemma_from_int(sum_of(values@.take(i + 1)));
                lemma_wrap_fits(sum_of(values@.take(i + 1)));
            }
        }
        proof {
            assert(values@.take(n as int) =~= values@);
        }
        acc
    }

    /// The product of `values`, multiplied up from the first with `*`. Debug builds panic
    /// where a partial product overflows, so `requires` leaves that out.
    pub fn product(values: &[I256]) -> (r: I256)
        requires
            forall|k: int|
                0 <= k <= values@.len() ==> fits(#[trigger] product_of(values@.take(k))),
        ensures
            r@ == product_of(values@),
    {
        let mut acc = I256::one();
        let n = values.len();
        proof {
            assert(values@.take(0) =~= Seq::<I256>::empty());
        }
        for i in 0..n
            invariant
                n == values@.len(),
                forall|k: int|
                    0 <= k <= values@.len() ==> fits(#[trigger] product_of(values@.take(k))),
                acc@ == product_of(values@.take(i as int)),
        {
            proof {
                assert(values@.take(i + 1).drop_last() =~= values@.take(i as int));
                assert(fits(product_of(values@.take(i + 1))));
            }
            acc = acc * values[i];
            proof {
                lemma_from_int(product_of(values@.take(i + 1)));
                lemma_wrap_fits(product_of(values@.take(i + 1)));
            }
        }
        proof {
            assert(values@.take(n as int) =~= values@);
        }
        acc
    }
}

/// The word of `x << n`, for the shift amount `n` that an operator hands on, is the word
/// of `x` times 2^n modulo 2^256.
proof fn lemma_shl_word(x: I256, n: nat)
    ensures
        I256::from_int(shl_value(x@, n)).raw() == (x.raw() * pow2(n)) % modulus(),
{
    lemma_from_int(shl_value(x@, n));
    law_shl_multiplies(x, n);
}

/// The word of the logical `x >> n` is the word of `x` divided by 2^n.
proof fn lemma_shr_word(x: I256, n: nat)
    ensures
        I256::from_int(signed(x.raw() / pow2(n))).raw() == x.raw() / pow2(n),
{
    lemma_raw_bound(x);
    lemma_pow2_pos(n);
    lemma_div_is_ordered_by_denominator(x.raw() as int, 1, pow2(n) as int);
    lemma_div_basics(x.raw() as int);
    lemma_from_int(signed(x.raw() / pow2(n)));
    lemma_mod_window(signed(x.raw() / pow2(n)));
}

/// A shift of 256 bits or more leaves no bit: both shifts give the word zero.
proof fn lemma_shift_past_width(x: I256, n: nat)
    requires
        n >= 256,
    ensures
        I256::from_int(shl_value(x@, n)).raw() == 0,
        I256::from_int(signed(x.raw() / pow2(n))).raw() == 0,
{
    lemma_shl_word(x, n);
    law_shl_multiplies(x, n);
    lemma_from_int(shl_value(x@, n));
    lemma_mod_window(0);
    lemma_shr_word(x, n);
    lemma_raw_bound(x);
    lemma_word_powers();
    if n > 256 {
        lemma_pow2_strictly_increases(256, n);
    }
    lemma_basic_div(x.raw() as int, pow2(n) as int);
}

/// The shift operators, for every type of shift amount: `x << k` has the word of `x`
/// times 2^k modulo 2^256 (so `1 << k` is 2^k below 255), and `x >> k` has the word of `x`
/// divided by 2^k, a logical shift that does not copy the sign bit; a negative amount
/// shifts every bit out. (An amount is handed on as a `usize`, so the statement is made
/// for the amounts that every `usize` holds.)
pub proof fn law_shift_operators(x: I256)
    ensures
        forall|k: i8| 0 <= k <= u32::MAX ==> #[trigger] x.shl_spec(k).raw() == (x.raw() * pow2(k as nat)) % modulus(),
        forall|k: i8| 0 <= k <= u32::MAX ==> #[trigger] x.shr_spec(k).raw() == x.raw() / pow2(k as nat),
        forall|k: u8| k <= u32::MAX ==> #[trigger] x.shl_spec(k).raw() == (x.raw() * pow2(k as nat)) % modulus(),
        forall|k: u8| k <= u32::MAX ==> #[trigger] x.shr_spec(k).raw() == x.raw() / pow2(k as nat),
        forall|k: i16| 0 <= k <= u32::MAX ==> #[trigger] x.shl_spec(k).raw() == (x.raw() * pow2(k as nat)) % modulus(),
        forall|k: i16| 0 <= k <= u32::MAX ==> #[trigger] x.shr_spec(k).raw() == x.raw() / pow2(k as nat),
        forall|k: u16| k <= u32::MAX ==> #[trigger] x.shl_spec(k).raw() == (x.raw() * pow2(k as nat)) % modulus(),
        forall|k: u16| k <= u32::MAX ==> #[trigger] x.shr_spec(k).raw() == x.raw() / pow2(k as nat),
        forall|k: i32| 0 <= k <= u32::MAX ==> #[trigger] x.shl_spec(k).raw() == (x.raw() * pow2(k as nat)) % modulus(),
        forall|k: i32| 0 <= k <= u32::MAX ==> #[trigger] x.shr_spec(k).raw() == x.raw() / pow2(k as nat),
        forall|k: u32| k <= u32::MAX ==> #[trigger] x.shl_spec(k).raw() == (x.raw() * pow2(k as nat)) % modulus(),
        forall|k: u32| k <= u32::MAX ==> #[trigger] x.shr_spec(k).raw() == x.raw() / pow2(k as nat),
        forall|k: i64| 0 <= k <= u32::MAX ==> #[trigger] x.shl_spec(k).raw() == (x.raw() * pow2(k as nat)) % modulus(),
        forall|k: i64| 0 <= k <= u32::MAX ==> #[trigger] x.shr_spec(k).raw() == x.raw() / pow2(k as nat),
        forall|k: u64| k <= u32::MAX ==> #[trigger] x.shl_spec(k).raw() == (x.raw() * pow2(k as nat)) % modulus(),
        forall|k: u64| k <= u32::MAX ==> #[trigger] x.shr_spec(k).raw() == x.raw() / pow2(k as nat),
        forall|k: isize| 0 <= k <= u32::MAX ==> #[trigger] x.shl_spec(k).raw() == (x.raw() * pow2(k as nat)) % modulus(),
        forall|k: isize| 0 <= k <= u32::MAX ==> #[trigger] x.shr_spec(k).raw() == x.raw() / pow2(k as nat),
        forall|k: usize| k <= u32::MAX ==> #[trigger] x.shl_spec(k).raw() == (x.raw() * pow2(k as nat)) % modulus(),
        forall|k: usize| k <= u32::MAX ==> #[trigger] x.shr_spec(k).raw() == x.raw() / pow2(k as nat),
        forall|k: i8| i32::MIN <= k < 0 ==> #[trigger] x.shl_spec(k).raw() == 0 && x.shr_spec(k).raw() == 0,
        forall|k: i16| i32::MIN <= k < 0 ==> #[trigger] x.shl_spec(k).raw() == 0 && x.shr_spec(k).raw() == 0,
        forall|k: i32| i32::MIN <= k < 0 ==> #[trigger] x.shl_spec(k).raw() == 0 && x.shr_spec(k).raw() == 0,
        forall|k: i64| i32::MIN <= k < 0 ==> #[trigger] x.shl_spec(k).raw() == 0 && x.shr_spec(k).raw() == 0,
        forall|k: isize| i32::MIN <= k < 0 ==> #[trigger] x.shl_spec(k).raw() == 0 && x.shr_spec(k).raw() == 0,
{
    assert forall|k: i8| 0 <= k <= u32::MAX implies #[trigger] x.shl_spec(k).raw() == (x.raw() * pow2(k as nat)) % modulus() by {
        assert((k as usize) as nat == k as nat);
        lemma_shl_word(x, k as nat);
    }
    assert forall|k: i8| 0 <= k <= u32::MAX implies #[trigger] x.shr_spec(k).raw() == x.raw() / pow2(k as nat) by {
        assert((k as usize) as nat == k as nat);
        lemma_shr_word(x, k as nat);
    }
    assert forall|k: u8| k <= u32::MAX implies #[trigger] x.shl_spec(k).raw() == (x.raw() * pow2(k as nat)) % modulus() by {
        assert((k as usize) as nat == k as nat);
        lemma_shl_word(x, k as nat);
    }
    assert forall|k: u8| k <= u32::MAX implies #[trigger] x.shr_spec(k).raw() == x.raw() / pow2(k as nat) by {
        assert((k as usize) as nat == k as nat);
        lemma_shr_word(x, k as nat);
    }
    assert forall|k: i16| 0 <= k <= u32::MAX implies #[trigger] x.shl_spec(k).raw() == (x.raw() * pow2(k as nat)) % modulus() by {
        assert((k as usize) as nat == k as nat);
        lemma_shl_word(x, k as nat);
    }
    assert forall|k: i16| 0 <= k <= u32::MAX implies #[trigger] x.shr_spec(k).raw() == x.raw() / pow2(k as nat) by {
        assert((k as usize) as nat == k as nat);
        lemma_shr_word(x, k as nat);
    }
    assert forall|k: u16| k <= u32::MAX implies #[trigger] x.shl_spec(k).raw() == (x.raw() * pow2(k as nat)) % modulus() by {
        assert((k as usize) as nat == k as nat);
        lemma_shl_word(x, k as nat);
    }
    assert forall|k: u16| k <= u32::MAX implies #[trigger] x.shr_spec(k).raw() == x.raw() / pow2(k as nat) by {
        assert((k as usize) as nat == k as nat);
        lemma_shr_word(x, k as nat);
    }
    assert forall|k: i32| 0 <= k <= u32::MAX implies #[trigger] x.shl_spec(k).raw() == (x.raw() * pow2(k as nat)) % modulus() by {
        assert((k as usize) as nat == k as nat);
        lemma_shl_word(x, k as nat);
    }
    assert forall|k: i32| 0 <= k <= u32::MAX implies #[trigger] x.shr_spec(k).raw() == x.raw() / pow2(k as nat) by {
        assert((k as usize) as nat == k as nat);
        lemma_shr_word(x, k as nat);
    }
    assert forall|k: u32| k <= u32::MAX implies #[trigger] x.shl_spec(k).raw() == (x.raw() * pow2(k as nat)) % modulus() by {
        assert((k as usize) as nat == k as nat);
        lemma_shl_word(x, k as nat);
    }
    assert forall|k: u32| k <= u32::MAX implies #[trigger] x.shr_spec(k).raw() == x.raw() / pow2(k as nat) by {
        assert((k as usize) as nat == k as nat);
        lemma_shr_word(x, k as nat);
    }
    assert forall|k: i64| 0 <= k <= u32::MAX implies #[trigger] x.shl_spec(k).raw() == (x.raw() * pow2(k as nat)) % modulus() by {
        assert((k as usize) as nat == k as nat);
        lemma_shl_word(x, k as nat);
    }
    assert forall|k: i64| 0 <= k <= u32::MAX implies #[trigger] x.shr_spec(k).raw() == x.raw() / pow2(k as nat) by {
        assert((k as usize) as nat == k as nat);
        lemma_shr_word(x, k as nat);
    }
    assert forall|k: u64| k <= u32::MAX implies #[trigger] x.shl_spec(k).raw() == (x.raw() * pow2(k as nat)) % modulus() by {
        assert((k as usize) as nat == k as nat);
        lemma_shl_word(x, k as nat);
    }
    assert forall|k: u64| k <= u32::MAX implies #[trigger] x.shr_spec(k).raw() == x.raw() / pow2(k as nat) by {
        assert((k as usize) as nat == k as nat);
        lemma_shr_word(x, k as nat);
    }
    assert forall|k: isize| 0 <= k <= u32::MAX implies #[trigger] x.shl_spec(k).raw() == (x.raw() * pow2(k as nat)) % modulus() by {
        assert((k as usize) as nat == k as nat);
        lemma_shl_word(x, k as nat);
    }
    assert forall|k: isize| 0 <= k <= u32::MAX implies #[trigger] x.shr_spec(k).raw() == x.raw() / pow2(k as nat) by {
        assert((k as usize) as nat == k as nat);
        lemma_shr_word(x, k as nat);
    }
    assert forall|k: usize| k <= u32::MAX implies #[trigger] x.shl_spec(k).raw() == (x.raw() * pow2(k as nat)) % modulus() by {
        assert((k as usize) as nat == k as nat);
        lemma_shl_word(x, k as nat);
    }
    assert forall|k: usize| k <= u32::MAX implies #[trigger] x.shr_spec(k).raw() == x.raw() / pow2(k as nat) by {
        assert((k as usize) as nat == k as nat);
        lemma_shr_word(x, k as nat);
    }
    assert forall|k: i8| i32::MIN <= k < 0 implies #[trigger] x.shl_spec(k).raw() == 0 && x.shr_spec(k).raw() == 0 by {
        assert(i32::MIN <= k < 0 ==> (k as usize) >= 256usize) by (bit_vector);
        lemma_shift_past_width(x, (k as usize) as nat);
    }
    assert forall|k: i16| i32::MIN <= k < 0 implies #[trigger] x.shl_spec(k).raw() == 0 && x.shr_spec(k).raw() == 0 by {
        assert(i32::MIN <= k < 0 ==> (k as usize) >= 256usize) by (bit_vector);
        lemma_shift_past_width(x, (k as usize) as nat);
    }
    assert forall|k: i32| i32::MIN <= k < 0 implies #[trigger] x.shl_spec(k).raw() == 0 && x.shr_spec(k).raw() == 0 by {
        assert(i32::MIN <= k < 0 ==> (k as usize) >= 256usize) by (bit_vector);
        lemma_shift_past_width(x, (k as usize) as nat);
    }
    assert forall|k: i64| i32::MIN <= k < 0 implies #[trigger] x.shl_spec(k).raw() == 0 && x.shr_spec(k).raw() == 0 by {
        assert(i32::MIN <= k < 0 ==> (k as usize) >= 256usize) by (bit_vector);
        lemma_shift_past_width(x, (k as usize) as nat);
    }
    assert forall|k: isize| i32::MIN <= k < 0 implies #[trigger] x.shl_spec(k).raw() == 0 && x.shr_spec(k).raw() == 0 by {
        assert(i32::MIN <= k < 0 ==> (k as usize) >= 256usize) by (bit_vector);
        lemma_shift_past_width(x, (k as usize) as nat);
    }
}

/// The arithmetic operators on the words: `a + b`, `a - b`, `a * b` and `-a` agree with
/// the sum, difference, product and negation of the words modulo 2^256, and give the exact
/// result wherever it fits (where it does not, the operator panics); `!a` flips every bit
/// of the word; `a / b` and `a % b` round towards zero, with `a == b * (a / b) + a % b`,
/// the remainder smaller than the divisor and of the sign of `a`.
pub proof fn law_arithmetic_operators(a: I256, b: I256)
    ensures
        a.add_spec(b).raw() == (a.raw() + b.raw()) % modulus(),
        fits(a@ + b@) ==> a.add_spec(b)@ == a@ + b@,
        (a.sub_spec(b).raw() + b.raw()) % modulus() == a.raw(),
        fits(a@ - b@) ==> a.sub_spec(b)@ == a@ - b@,
        a.mul_spec(b).raw() == (a.raw() * b.raw()) % modulus(),
        fits(a@ * b@) ==> a.mul_spec(b)@ == a@ * b@,
        (a.neg_spec().raw() + a.raw()) % modulus() == 0,
        a@ != i256_min() ==> a.neg_spec()@ == -a@,
        a.not_spec().raw() + a.raw() == modulus() - 1,
        a.div_req(b) ==> a@ == b@ * a.div_spec(b)@ + a.rem_spec(b)@,
        a.div_req(b) ==> abs(a.rem_spec(b)@) < abs(b@),
        a.div_req(b) ==> a.rem_spec(b)@ == 0 || (a.rem_spec(b)@ < 0) == (a@ < 0),
{
    let m = modulus() as int;
    lemma_view_fits(a);
    lemma_view_fits(b);
    lemma_raw_bound(a);
    lemma_raw_bound(b);
    let ca: int = a.raw() - a@;
    let cb: int = b.raw() - b@;
    assert(ca == 0 || ca == m);
    assert(cb == 0 || cb == m);
    // sum
    lemma_from_int(a@ + b@);
    lemma_raw_of_congruent((a.raw() + b.raw()) as int, a@ + b@, (ca + cb) / m);
    if fits(a@ + b@) {
        lemma_wrap_fits(a@ + b@);
    }
    // difference
    lemma_from_int(a@ - b@);
    lemma_raw_of_bound(a@ - b@);
    let d = a.sub_spec(b).raw();
    lemma_raw_of_congruent(a@ - b@, (a.raw() - b.raw()) as int, -(ca - cb) / m);
    lemma_fundamental_div_mod(a.raw() - b.raw(), m);
    lemma_mod_multiples_vanish(-((a.raw() - b.raw()) / m), (d + b.raw()) as int, m);
    lemma_mod_window((d + b.raw()) as int);
    if fits(a@ - b@) {
        lemma_wrap_fits(a@ - b@);
    }
    // product
    lemma_from_int(a@ * b@);
    assert(a.raw() * b.raw() == a@ * b@ + (ca * b.raw() + a@ * cb) ) by (nonlinear_arith)
        requires
            a.raw() == a@ + ca,
            b.raw() == b@ + cb,
    ;
    let k: int = (ca / m) * b.raw() + a@ * (cb / m);
    assert(ca * b.raw() + a@ * cb == k * m) by (nonlinear_arith)
        requires
            ca == 0 || ca == m,
            cb == 0 || cb == m,
            k == (ca / m) * b.raw() + a@ * (cb / m),
            m > 0,
    ;
    lemma_raw_of_congruent((a.raw() * b.raw()) as int, a@ * b@, k);
    if fits(a@ * b@) {
        lemma_wrap_fits(a@ * b@);
    }
    // negation
    lemma_from_int(-a@);
    lemma_raw_of_bound(-a@);
    lemma_mod_window(-a@);
    lemma_mod_window(a@);
    if a@ != i256_min() {
        lemma_wrap_fits(-a@);
    }
    lemma_mod_window((a.neg_spec().raw() + a.raw()) as int);
    // complement
    lemma_from_int(-a@ - 1);
    lemma_mod_window(-a@ - 1);
    // division
    if a.div_req(b) {
        lemma_div_trunc(a@, b@);
        lemma_wrap_fits(div_trunc(a@, b@));
        lemma_from_int(div_trunc(a@, b@));
        lemma_view_fits(I256::from_int(rem_trunc(a@, b@)));
        lemma_from_int(rem_trunc(a@, b@));
        lemma_wrap_fits(rem_trunc(a@, b@));
    }
}

/// The bitwise operators act on the words, bit by bit: bit `i` of the word of `a & b` is
/// set exactly when it is set in the words of both, of `a | b` when in either, and of
/// `a ^ b` when in exactly one.
pub proof fn law_bitwise_operators(a: I256, b: I256, i: nat)
    ensures
        a.bitand_spec(b).raw() == bit_and(a.raw(), b.raw()),
        a.bitor_spec(b).raw() == bit_or(a.raw(), b.raw()),
        a.bitxor_spec(b).raw() == bit_xor(a.raw(), b.raw()),
        nth_bit(a.bitand_spec(b).raw(), i) == (nth_bit(a.raw(), i) && nth_bit(b.raw(), i)),
        nth_bit(a.bitor_spec(b).raw(), i) == (nth_bit(a.raw(), i) || nth_bit(b.raw(), i)),
        nth_bit(a.bitxor_spec(b).raw(), i) == (nth_bit(a.raw(), i) != nth_bit(b.raw(), i)),
{
    lemma_raw_bound(a);
    lemma_raw_bound(b);
    lemma_word_powers();
    lemma_bitwise_bound(a.raw(), b.raw(), 256);
    lemma_word_of_signed(bit_and(a.raw(), b.raw()));
    lemma_word_of_signed(bit_or(a.raw(), b.raw()));
    lemma_word_of_signed(bit_xor(a.raw(), b.raw()));
    law_bitwise_bits(a.raw(), b.raw(), i);
}

/// A word read as a signed value and stored again is the same word.
proof fn lemma_word_of_signed(u: nat)
    requires
        u < modulus(),
    ensures
        I256::from_int(signed(u)).raw() == u,
{
    lemma_from_int(signed(u));
    lemma_mod_window(signed(u));
}

} // verus!
