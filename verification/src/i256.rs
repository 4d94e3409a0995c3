use crate::sign::Sign;
use crate::uint::{
    base1, base2, base3, bit_length, bit_or, half_modulus, lemma_bit_or_split, lemma_bit_length_bound, lemma_bit_length_pow2, lemma_from_nat, lemma_popcount_full, lemma_popcount_words,
    lemma_trailing_zeros_of, lemma_trailing_zeros_split, lemma_value_injective,
    lemma_word_powers, modulus, nth_bit, nth_byte, popcount, trailing_zero_bits, word_count_ones, word_count_zeros, U256,
};
use vstd::arithmetic::div_mod::*;
use vstd::arithmetic::power::*;
use vstd::arithmetic::power2::*;
use vstd::prelude::*;

verus! {

/// Little-endian 256-bit signed integer in two's complement.
///
/// Right shift (`>>`) on `I256` is a logical shift of the bits; the arithmetic shifts are
/// [`I256::asr`] and [`I256::asl`].
#[derive(Clone, Copy, Debug, PartialEq, Eq, Structural, Hash)]
pub struct I256(U256);

/// The value that a 256-bit word stands for when read in two's complement.
pub open spec fn signed(u: nat) -> int {
    if u < half_modulus() {
        u as int
    } else {
        u - modulus()
    }
}

/// The 256-bit word that holds `x` modulo 2^256.
pub open spec fn raw_of(x: int) -> nat {
    (x % (modulus() as int)) as nat
}

/// `x` wrapped around into the range of `I256`.
pub open spec fn wrap(x: int) -> int {
    signed(raw_of(x))
}

/// The least value of `I256`, -2^255.
pub open spec fn i256_min() -> int {
    -(half_modulus() as int)
}

/// The greatest value of `I256`, 2^255 - 1.
pub open spec fn i256_max() -> int {
    half_modulus() - 1
}

/// Whether `x` is a value of `I256`.
pub open spec fn fits(x: int) -> bool {
    i256_min() <= x <= i256_max()
}

/// `x` clamped into the range of `I256`.
pub open spec fn saturate(x: int) -> int {
    if x < i256_min() {
        i256_min()
    } else if x > i256_max() {
        i256_max()
    } else {
        x
    }
}

/// The absolute value of `x`.
pub open spec fn abs(x: int) -> nat {
    if x < 0 {
        (-x) as nat
    } else {
        x as nat
    }
}

/// `magnitude` with the sign `sign` in front of it.
pub open spec fn apply_sign(sign: Sign, magnitude: nat) -> int {
    match sign {
        Sign::Positive => magnitude as int,
        Sign::Negative => -magnitude,
    }
}

/// The sign of `x`: negative below zero, positive otherwise.
pub open spec fn sign_of(x: int) -> Sign {
    if x < 0 {
        Sign::Negative
    } else {
        Sign::Positive
    }
}

/// -1, 0 or 1 as `x` is negative, zero or positive.
pub open spec fn signum(x: int) -> int {
    if x < 0 {
        -1
    } else if x == 0 {
        0
    } else {
        1
    }
}

/// The value of `x << k` on `I256`: `x * 2^k` wrapped, and zero for a shift of 256 bits
/// or more.
pub open spec fn shl_value(x: int, k: nat) -> int {
    if k >= 256 {
        0
    } else {
        wrap(x * pow2(k))
    }
}

/// The least number of bits that hold `x` in two's complement: the bits of `|x|` and
/// one more for the sign, except that zero takes none and a negative power of two takes
/// no extra bit.
pub open spec fn signed_bit_length(x: int) -> nat {
    if x == 0 {
        0
    } else if x < 0 && pow2((bit_length(abs(x)) - 1) as nat) == abs(x) {
        bit_length(abs(x))
    } else {
        bit_length(abs(x)) + 1
    }
}

/// Division rounded towards zero, as Rust's integer division does.
pub open spec fn div_trunc(a: int, b: int) -> int {
    let q = (abs(a) / abs(b)) as int;
    if (a < 0) == (b < 0) {
        q
    } else {
        -q
    }
}

/// The remainder that goes with [`div_trunc`]; it has the sign of `a`.
pub open spec fn rem_trunc(a: int, b: int) -> int {
    a - b * div_trunc(a, b)
}

impl Default for I256 {
    fn default() -> (r: I256)
        ensures
            r@ == 0,
    {
        I256::zero()
    }
}

impl View for I256 {
    type V = int;

    open spec fn view(&self) -> int {
        signed(self.raw())
    }
}

impl I256 {
    /// The 256-bit word that holds the value.
    pub closed spec fn raw(&self) -> nat {
        self.0@
    }
}

/// The word of every `I256` lies below 2^256.
pub proof fn lemma_raw_bound(x: I256)
    ensures
        x.raw() < modulus(),
{
}

/// Every `I256` stands for a value in its range, held in its word modulo 2^256.
pub proof fn lemma_view_fits(x: I256)
    ensures
        fits(x@),
        raw_of(x@) == x.raw(),
{
    lemma_mod_window(x@);
}

/// Two `I256` with the same value are the same.
pub proof fn lemma_view_injective(a: I256, b: I256)
    requires
        a@ == b@,
    ensures
        a == b,
{
    lemma_value_injective(a.0, b.0);
}

/// `x` modulo 2^256 for `x` within one modulus of the word range.
pub proof fn lemma_mod_window(x: int)
    requires
        -(modulus() as int) <= x < 2 * modulus(),
    ensures
        x % (modulus() as int) == (if x < 0 {
            x + modulus()
        } else if x < modulus() {
            x
        } else {
            x - modulus()
        }),
{
    let m = modulus() as int;
    if x < 0 {
        lemma_fundamental_div_mod_converse(x, m, -1, x + m);
    } else if x < m {
        lemma_fundamental_div_mod_converse(x, m, 0, x);
    } else {
        lemma_fundamental_div_mod_converse(x, m, 1, x - m);
    }
}

/// Numbers that differ by a multiple of 2^256 are held in the same word.
pub proof fn lemma_raw_of_congruent(x: int, y: int, k: int)
    requires
        x == y + k * modulus(),
    ensures
        raw_of(x) == raw_of(y),
{
    let m = modulus() as int;
    lemma_mod_multiples_vanish(k, y, m);
    assert(k * m + y == m * k + y) by (nonlinear_arith);
}

/// A value in range is held in the word `raw_of` gives, and read back from it.
pub proof fn lemma_wrap_fits(x: int)
    requires
        fits(x),
    ensures
        wrap(x) == x,
        raw_of(x) < modulus(),
{
    lemma_mod_window(x);
}

/// `wrap` depends only on the value modulo 2^256.
pub proof fn lemma_wrap_congruent(x: int, y: int, k: int)
    requires
        x == y + k * modulus(),
    ensures
        wrap(x) == wrap(y),
{
    lemma_raw_of_congruent(x, y, k);
}

/// The word that holds `x` is the remainder of `x`, so it lies below 2^256.
pub proof fn lemma_raw_of_bound(x: int)
    ensures
        raw_of(x) < modulus(),
        fits(wrap(x)),
{
    lemma_mod_bound(x, modulus() as int);
}

/// Two's complement of a 256-bit word: 2^256 - u, modulo 2^256.
pub(crate) fn twos_complement(u: U256) -> (r: U256)
    ensures
        r@ == (modulus() - u@) % (modulus() as int),
{
    let (v, _) = u.not().overflowing_add(U256::one());
    v
}

impl I256 {
    /// Zero (additive identity) of this type.
    pub fn zero() -> (r: I256)
        ensures
            r@ == 0,
    {
        I256(U256::zero())
    }

    /// One (multiplicative identity) of this type.
    pub fn one() -> (r: I256)
        ensures
            r@ == 1,
    {
        I256(U256::one())
    }

    /// Minus one of this type.
    pub fn minus_one() -> (r: I256)
        ensures
            r@ == -1,
    {
        I256(U256::max_value())
    }

    /// The maximum value which can be inhabited by this type.
    pub fn max_value() -> (r: I256)
        ensures
            r@ == i256_max(),
    {
        I256(U256(u64::MAX, u64::MAX, u64::MAX, 0x7fff_ffff_ffff_ffff))
    }

    /// The minimum value which can be inhabited by this type.
    pub fn min_value() -> (r: I256)
        ensures
            r@ == i256_min(),
    {
        I256(U256(0, 0, 0, 0x8000_0000_0000_0000))
    }

    /// Coerces an unsigned integer into a signed one; a word of 2^255 or more reads as
    /// a negative value.
    pub fn from_raw(raw: U256) -> (r: I256)
        ensures
            r.raw() == raw@,
            r@ == signed(raw@),
    {
        I256(raw)
    }

    /// The word of the integer: the value itself, or for a negative value the two's
    /// complement of its absolute value.
    pub fn into_raw(self) -> (r: U256)
        ensures
            r@ == self.raw(),
            r@ == raw_of(self@),
    {
        proof {
            lemma_view_fits(self);
        }
        self.0
    }

    /// Returns the sign of self.
    pub fn sign(self) -> (r: Sign)
        ensures
            r == sign_of(self@),
    {
        let most_significant_word = self.0.3;
        let top = most_significant_word & 0x8000_0000_0000_0000u64;
        assert((top == 0) == (most_significant_word < 0x8000_0000_0000_0000u64)) by (bit_vector)
            requires
                top == most_significant_word & 0x8000_0000_0000_0000u64,
        ;
        if top == 0 {
            Sign::Positive
        } else {
            Sign::Negative
        }
    }

    /// Creates an `I256` from a sign and an absolute value, with a flag that says whether
    /// the conversion overflowed, that is whether the signed value is out of range.
    pub fn overflowing_from_sign_and_abs(sign: Sign, abs: U256) -> (r: (I256, bool))
        ensures
            r.0@ == wrap(apply_sign(sign, abs@)),
            r.1 == !fits(apply_sign(sign, abs@)),
    {
        let value = I256(
            match sign {
                Sign::Positive => abs,
                Sign::Negative => twos_complement(abs),
            },
        );
        proof {
            let m = modulus() as int;
            if sign is Positive {
                lemma_mod_window(abs@ as int);
            } else {
                lemma_mod_window(m - abs@);
                lemma_mod_window(-abs@);
            }
        }
        let value_sign = value.sign();
        (value, value_sign != sign && !value.is_zero())
    }

    /// Creates an `I256` from a sign and an absolute value; `None` where that overflows.
    pub fn checked_from_sign_and_abs(sign: Sign, abs: U256) -> (r: Option<I256>)
        ensures
            r is None <==> !fits(apply_sign(sign, abs@)),
            r matches Some(v) ==> v@ == apply_sign(sign, abs@),
    {
        let (result, overflow) = Self::overflowing_from_sign_and_abs(sign, abs);
        if overflow {
            None
        } else {
            proof {
                lemma_wrap_fits(apply_sign(sign, abs@));
            }
            Some(result)
        }
    }

    /// Splits an `I256` into its sign and absolute value.
    pub fn into_sign_and_abs(self) -> (r: (Sign, U256))
        ensures
            r.0 == sign_of(self@),
            r.1@ == abs(self@),
    {
        let sign = self.sign();
        let abs = match sign {
            Sign::Positive => self.0,
            Sign::Negative => twos_complement(self.0),
        };
        proof {
            let m = modulus() as int;
            lemma_mod_window(m - self.raw());
        }
        (sign, abs)
    }

    /// Whether `self` is zero.
    pub fn is_zero(self) -> (r: bool)
        ensures
            r == (self@ == 0),
    {
        self.0.is_zero()
    }

    /// -1, 0 or 1 as `self` is negative, zero or positive.
    pub(crate) fn signum64(self) -> (r: i64)
        ensures
            r == signum(self@),
    {
        match self.sign() {
            Sign::Positive => if self.is_zero() {
                0
            } else {
                1
            },
            Sign::Negative => -1,
        }
    }

    /// Returns `true` if `self` is positive and `false` if it is zero or negative.
    pub fn is_positive(self) -> (r: bool)
        ensures
            r == (self@ > 0),
    {
        self.signum64() > 0
    }

    /// Returns `true` if `self` is negative and `false` if it is zero or positive.
    pub fn is_negative(self) -> (r: bool)
        ensures
            r == (self@ < 0),
    {
        self.signum64() < 0
    }

    /// The absolute value of `self` as an unsigned integer, without wrapping or panicking.
    pub fn unsigned_abs(self) -> (r: U256)
        ensures
            r@ == abs(self@),
    {
        self.into_sign_and_abs().1
    }

    /// Whether `self` is the minimum value.
    fn is_min(self) -> (r: bool)
        ensures
            r == (self@ == i256_min()),
    {
        let min = Self::min_value();
        proof {
            if self@ == i256_min() {
                lemma_view_injective(self, min);
            }
        }
        self == min
    }

    /// Whether `self` is minus one.
    fn is_minus_one(self) -> (r: bool)
        ensures
            r == (self@ == -1),
    {
        let m1 = Self::minus_one();
        proof {
            if self@ == -1 {
                lemma_view_injective(self, m1);
            }
        }
        self == m1
    }
}

// absolute value and negation
impl I256 {
    /// The absolute value of `self`, with a flag that says whether it overflowed: the
    /// minimum value has no positive counterpart and comes back unchanged with the flag set.
    pub fn overflowing_abs(self) -> (r: (I256, bool))
        ensures
            r.0@ == wrap(abs(self@) as int),
            r.1 == (self@ == i256_min()),
    {
        if self.is_min() {
            proof {
                lemma_mod_window(half_modulus() as int);
            }
            (self, true)
        } else {
            proof {
                lemma_view_fits(self);
                lemma_wrap_fits(abs(self@) as int);
            }
            (I256(self.unsigned_abs()), false)
        }
    }

    /// The absolute value of `self`. On the minimum value it overflows: debug builds
    /// panic there, so it is left out.
    pub fn abs(self) -> (r: I256)
        requires
            self@ != i256_min(),
        ensures
            r@ == abs(self@),
    {
        proof {
            lemma_view_fits(self);
            lemma_wrap_fits(abs(self@) as int);
        }
        self.overflowing_abs().0
    }

    /// Checked absolute value: `None` for the minimum value.
    pub fn checked_abs(self) -> (r: Option<I256>)
        ensures
            r is None <==> self@ == i256_min(),
            r matches Some(v) ==> v@ == abs(self@),
    {
        proof {
            lemma_view_fits(self);
            if self@ != i256_min() {
                lemma_wrap_fits(abs(self@) as int);
            }
        }
        match self.overflowing_abs() {
            (value, false) => Some(value),
            _ => None,
        }
    }

    /// Saturating absolute value: the maximum value for the minimum value.
    pub fn saturating_abs(self) -> (r: I256)
        ensures
            r@ == saturate(abs(self@) as int),
    {
        proof {
            lemma_view_fits(self);
            if self@ != i256_min() {
                lemma_wrap_fits(abs(self@) as int);
            }
        }
        match self.overflowing_abs() {
            (value, false) => value,
            _ => Self::max_value(),
        }
    }

    /// Wrapping absolute value: the minimum value for the minimum value.
    pub fn wrapping_abs(self) -> (r: I256)
        ensures
            r@ == wrap(abs(self@) as int),
    {
        self.overflowing_abs().0
    }

    /// The negation of `self`, with a flag that says whether it overflowed: the minimum
    /// value comes back unchanged with the flag set.
    pub fn overflowing_neg(self) -> (r: (I256, bool))
        ensures
            r.0@ == wrap(-self@),
            r.1 == (self@ == i256_min()),
    {
        if self.is_min() {
            proof {
                lemma_mod_window(half_modulus() as int);
            }
            (self, true)
        } else {
            proof {
                lemma_view_fits(self);
                lemma_mod_window(modulus() - self.raw());
                lemma_mod_window(-self@);
            }
            (I256(twos_complement(self.0)), false)
        }
    }

    /// Checked negation: `None` for the minimum value.
    pub fn checked_neg(self) -> (r: Option<I256>)
        ensures
            r is None <==> self@ == i256_min(),
            r matches Some(v) ==> v@ == -self@,
    {
        proof {
            lemma_view_fits(self);
            if self@ != i256_min() {
                lemma_wrap_fits(-self@);
            }
        }
        match self.overflowing_neg() {
            (value, false) => Some(value),
            _ => None,
        }
    }

    /// Saturating negation: the maximum value for the minimum value.
    pub fn saturating_neg(self) -> (r: I256)
        ensures
            r@ == saturate(-self@),
    {
        proof {
            lemma_view_fits(self);
            if self@ != i256_min() {
                lemma_wrap_fits(-self@);
            }
        }
        match self.overflowing_neg() {
            (value, false) => value,
            _ => Self::max_value(),
        }
    }

    /// Wrapping negation: the minimum value for the minimum value.
    pub fn wrapping_neg(self) -> (r: I256)
        ensures
            r@ == wrap(-self@),
    {
        self.overflowing_neg().0
    }
}

// addition and subtraction
impl I256 {
    /// `self + rhs`, wrapped around on overflow, with a flag that says whether it
    /// overflowed.
    pub fn overflowing_add(self, rhs: I256) -> (r: (I256, bool))
        ensures
            r.0@ == wrap(self@ + rhs@),
            r.1 == !fits(self@ + rhs@),
    {
        let (unsigned, _) = self.0.overflowing_add(rhs.0);
        let result = I256(unsigned);
        proof {
            lemma_view_fits(self);
            lemma_view_fits(rhs);
            lemma_mod_window((self.raw() + rhs.raw()) as int);
            lemma_mod_window(self@ + rhs@);
        }
        let (a, b, c) = (self.sign(), rhs.sign(), result.sign());
        let overflow = (a == Sign::Positive && b == Sign::Positive && c == Sign::Negative) || (a
            == Sign::Negative && b == Sign::Negative && c == Sign::Positive);
        (result, overflow)
    }

    /// Checked addition: `None` where the sum overflows.
    pub fn checked_add(self, rhs: I256) -> (r: Option<I256>)
        ensures
            r is None <==> !fits(self@ + rhs@),
            r matches Some(v) ==> v@ == self@ + rhs@,
    {
        proof {
            if fits(self@ + rhs@) {
                lemma_wrap_fits(self@ + rhs@);
            }
        }
        match self.overflowing_add(rhs) {
            (value, false) => Some(value),
            _ => None,
        }
    }

    /// Saturating addition: the sum clamped to the range of the type.
    pub fn saturating_add(self, rhs: I256) -> (r: I256)
        ensures
            r@ == saturate(self@ + rhs@),
    {
        let (result, overflow) = self.overflowing_add(rhs);
        proof {
            lemma_view_fits(self);
            lemma_view_fits(rhs);
            lemma_mod_window(self@ + rhs@);
        }
        if overflow {
            match result.sign() {
                Sign::Positive => Self::min_value(),
                Sign::Negative => Self::max_value(),
            }
        } else {
            result
        }
    }

    /// Wrapping addition: the sum modulo 2^256.
    pub fn wrapping_add(self, rhs: I256) -> (r: I256)
        ensures
            r@ == wrap(self@ + rhs@),
    {
        self.overflowing_add(rhs).0
    }

    /// `self - rhs`, wrapped around on overflow, with a flag that says whether it
    /// overflowed.
    pub fn overflowing_sub(self, rhs: I256) -> (r: (I256, bool))
        ensures
            r.0@ == wrap(self@ - rhs@),
            r.1 == !fits(self@ - rhs@),
    {
        let (unsigned, _) = self.0.overflowing_sub(rhs.0);
        let result = I256(unsigned);
        proof {
            lemma_view_fits(self);
            lemma_view_fits(rhs);
            lemma_mod_window(self.raw() - rhs.raw());
            lemma_mod_window(self@ - rhs@);
        }
        let (a, b, c) = (self.sign(), rhs.sign(), result.sign());
        let overflow = (a == Sign::Positive && b == Sign::Negative && c == Sign::Negative) || (a
            == Sign::Negative && b == Sign::Positive && c == Sign::Positive);
        (result, overflow)
    }

    /// Checked subtraction: `None` where the difference overflows.
    pub fn checked_sub(self, rhs: I256) -> (r: Option<I256>)
        ensures
            r is None <==> !fits(self@ - rhs@),
            r matches Some(v) ==> v@ == self@ - rhs@,
    {
        proof {
            if fits(self@ - rhs@) {
                lemma_wrap_fits(self@ - rhs@);
            }
        }
        match self.overflowing_sub(rhs) {
            (value, false) => Some(value),
            _ => None,
        }
    }

    /// Saturating subtraction: the difference clamped to the range of the type.
    pub fn saturating_sub(self, rhs: I256) -> (r: I256)
        ensures
            r@ == saturate(self@ - rhs@),
    {
        let (result, overflow) = self.overflowing_sub(rhs);
        proof {
            lemma_view_fits(self);
            lemma_view_fits(rhs);
            lemma_mod_window(self@ - rhs@);
        }
        if overflow {
            match result.sign() {
                Sign::Positive => Self::min_value(),
                Sign::Negative => Self::max_value(),
            }
        } else {
            result
        }
    }

    /// Wrapping subtraction: the difference modulo 2^256.
    pub fn wrapping_sub(self, rhs: I256) -> (r: I256)
        ensures
            r@ == wrap(self@ - rhs@),
    {
        self.overflowing_sub(rhs).0
    }
}

/// The product of two integers has the product of their signs and of their sizes.
pub proof fn lemma_mul_signs(a: int, b: int)
    ensures
        abs(a * b) == abs(a) * abs(b),
        signum(a) * signum(b) == signum(a * b),
        -1 <= signum(a) * signum(b) <= 1,
{
    let x = abs(a) as int;
    let y = abs(b) as int;
    let p = a * b;
    assert(x * y >= 0 && (p == x * y || p == -(x * y)) && (p < 0 <==> ((a < 0 && b > 0) || (a > 0
        && b < 0))) && (p == 0 <==> (a == 0 || b == 0))) by (nonlinear_arith)
        requires
            x == (if a < 0 {
                -a
            } else {
                a
            }),
            y == (if b < 0 {
                -b
            } else {
                b
            }),
            p == a * b,
    ;
    assert(abs(a) * abs(b) == x * y);
    if a < 0 {
        if b < 0 {
            assert(signum(a) == -1 && signum(b) == -1);
            assert(signum(a) * signum(b) == (-1) * (-1));
        } else if b == 0 {
            assert(signum(a) * signum(b) == 0);
        } else {
            assert(signum(a) * signum(b) == -1);
        }
    } else if a == 0 {
        assert(signum(a) * signum(b) == 0);
    } else {
        if b < 0 {
            assert(signum(a) * signum(b) == -1);
        } else if b == 0 {
            assert(signum(a) * signum(b) == 0);
        } else {
            assert(signum(a) * signum(b) == 1);
        }
    }
}

/// A magnitude may be taken modulo 2^256 before its sign is put in front: the wrapped
/// result is the same.
pub proof fn lemma_wrap_apply_sign_mod(sign: Sign, p: nat)
    ensures
        wrap(apply_sign(sign, (p % modulus()) as nat)) == wrap(apply_sign(sign, p)),
{
    let m = modulus() as int;
    lemma_fundamental_div_mod(p as int, m);
    lemma_mod_bound(p as int, m);
    let q = p as int / m;
    if sign is Positive {
        lemma_wrap_congruent(p as int, (p % modulus()) as int, q);
    } else {
        assert(-(p as int) == -((p % modulus()) as int) + (-q) * m) by (nonlinear_arith)
            requires
                p == m * q + p % modulus(),
        ;
        lemma_wrap_congruent(-(p as int), -((p % modulus()) as int), -q);
    }
}

/// Division rounded towards zero gives a quotient no larger than the dividend, a product
/// `b * q` between zero and `a`, and a remainder smaller than `b` with the sign of `a`.
pub proof fn lemma_div_trunc(a: int, b: int)
    requires
        b != 0,
    ensures
        abs(div_trunc(a, b)) <= abs(a),
        abs(b) > 1 ==> abs(div_trunc(a, b)) * 2 <= abs(a),
        abs(div_trunc(a, b)) == abs(a) / abs(b),
        a >= 0 ==> 0 <= b * div_trunc(a, b) <= a && 0 <= rem_trunc(a, b) < abs(b),
        a < 0 ==> a <= b * div_trunc(a, b) <= 0 && -abs(b) < rem_trunc(a, b) <= 0,
{
    let x = abs(a) as int;
    let y = abs(b) as int;
    let q = x / y;
    let r = x % y;
    lemma_fundamental_div_mod(x, y);
    lemma_mod_bound(x, y);
    lemma_div_pos_is_pos(x, y);
    assert(q <= y * q) by (nonlinear_arith)
        requires
            y >= 1,
            q >= 0,
    ;
    if y > 1 {
        assert(2 * q <= y * q) by (nonlinear_arith)
            requires
                y >= 2,
                q >= 0,
        ;
    }
    let t = div_trunc(a, b);
    assert(b * t == (if a < 0 {
        -(y * q)
    } else {
        y * q
    })) by (nonlinear_arith)
        requires
            b != 0,
            y == abs(b),
            t == (if (a < 0) == (b < 0) {
                q
            } else {
                -q
            }),
    ;
}

/// Euclidean division is unique: a quotient and a remainder in `[0, |b|)` that add up to
/// `a` are the ones that `/` and `%` give.
pub proof fn lemma_euclid_unique(a: int, b: int, q: int, r: int)
    requires
        b != 0,
        a == b * q + r,
        0 <= r < abs(b),
    ensures
        a / b == q,
        a % b == r,
{
    if b > 0 {
        assert(a == q * b + r) by (nonlinear_arith)
            requires
                a == b * q + r,
        ;
        lemma_fundamental_div_mod_converse(a, b, q, r);
    } else {
        assert(a / b == q && a % b == r) by (nonlinear_arith)
            requires
                b < 0,
                a == b * q + r,
                0 <= r < -b,
        ;
    }
}

/// Moving the quotient by one moves the remainder by the divisor.
proof fn lemma_shift_quotient(a: int, b: int, t: int)
    ensures
        b * (t - 1) + (a - b * t + b) == a,
        b * (t + 1) + (a - b * t - b) == a,
{
    assert(b * (t - 1) == b * t - b && b * (t + 1) == b * t + b) by (nonlinear_arith);
}

/// The power of an integer has the size of the power of its size, and is negative just
/// when a negative base is raised to an odd exponent.
pub proof fn lemma_pow_signs(a: int, e: nat)
    ensures
        pow(abs(a) as int, e) >= 0,
        pow(a, e) == (if a < 0 && e % 2 == 1 {
            -pow(abs(a) as int, e)
        } else {
            pow(abs(a) as int, e)
        }),
        (pow(abs(a) as int, e) == 0) == (a == 0 && e > 0),
    decreases e,
{
    reveal(pow);
    if e > 0 {
        lemma_pow_signs(a, (e - 1) as nat);
        let p = pow(abs(a) as int, (e - 1) as nat);
        let x = abs(a) as int;
        assert(pow(a, e) == a * pow(a, (e - 1) as nat));
        assert(pow(x, e) == x * p);
        if a < 0 {
            assert(a * p == -(x * p) && a * (-p) == x * p) by (nonlinear_arith)
                requires
                    x == -a,
            ;
        }
        assert(x * p >= 0 && ((x * p == 0) == (x == 0 || p == 0))) by (nonlinear_arith)
            requires
                x >= 0,
                p >= 0,
        ;
    }
}

// multiplication, division and remainder
impl I256 {
    /// `self * rhs`, wrapped around on overflow, with a flag that says whether it
    /// overflowed.
    pub fn overflowing_mul(self, rhs: I256) -> (r: (I256, bool))
        ensures
            r.0@ == wrap(self@ * rhs@),
            r.1 == !fits(self@ * rhs@),
    {
        proof {
            lemma_mul_signs(self@, rhs@);
        }
        let sign = Sign::from_signum64(self.signum64() * rhs.signum64());
        let (unsigned, overflow_mul) = self.unsigned_abs().overflowing_mul(rhs.unsigned_abs());
        let (result, overflow_conv) = Self::overflowing_from_sign_and_abs(sign, unsigned);
        proof {
            let p = abs(self@ * rhs@);
            lemma_wrap_apply_sign_mod(sign, p);
            assert(apply_sign(sign, p) == self@ * rhs@);
            if p < modulus() {
                lemma_small_mod(p, modulus());
            }
        }
        (result, overflow_mul || overflow_conv)
    }

    /// Checked multiplication: `None` where the product overflows.
    pub fn checked_mul(self, rhs: I256) -> (r: Option<I256>)
        ensures
            r is None <==> !fits(self@ * rhs@),
            r matches Some(v) ==> v@ == self@ * rhs@,
    {
        proof {
            if fits(self@ * rhs@) {
                lemma_wrap_fits(self@ * rhs@);
            }
        }
        match self.overflowing_mul(rhs) {
            (value, false) => Some(value),
            _ => None,
        }
    }

    /// Saturating multiplication: the product clamped to the range of the type.
    pub fn saturating_mul(self, rhs: I256) -> (r: I256)
        ensures
            r@ == saturate(self@ * rhs@),
    {
        proof {
            lemma_mul_signs(self@, rhs@);
        }
        let (result, overflow) = self.overflowing_mul(rhs);
        if overflow {
            match Sign::from_signum64(self.signum64() * rhs.signum64()) {
                Sign::Positive => Self::max_value(),
                Sign::Negative => Self::min_value(),
            }
        } else {
            proof {
                lemma_wrap_fits(self@ * rhs@);
            }
            result
        }
    }

    /// Wrapping multiplication: the product modulo 2^256.
    pub fn wrapping_mul(self, rhs: I256) -> (r: I256)
        ensures
            r@ == wrap(self@ * rhs@),
    {
        self.overflowing_mul(rhs).0
    }

    /// `self / rhs` rounded towards zero, with a flag that says whether it overflowed;
    /// only the minimum value divided by minus one does, and gives the minimum value.
    /// It panics on a zero divisor, which `requires` leaves out.
    pub fn overflowing_div(self, rhs: I256) -> (r: (I256, bool))
        requires
            rhs@ != 0,
        ensures
            r.0@ == wrap(div_trunc(self@, rhs@)),
            r.1 == (self@ == i256_min() && rhs@ == -1),
    {
        let sa = self.signum64();
        let sb = rhs.signum64();
        let quotient = sa / sb;
        assert(quotient == sa * sb) by (nonlinear_arith)
            requires
                quotient == sa / sb,
                sb == 1 || sb == -1,
        ;
        let sign = Sign::from_signum64(quotient);
        let unsigned = self.unsigned_abs().div(rhs.unsigned_abs());
        let (result, overflow_conv) = Self::overflowing_from_sign_and_abs(sign, unsigned);
        proof {
            lemma_view_fits(self);
            lemma_div_trunc(self@, rhs@);
            let q = div_trunc(self@, rhs@);
            assert(apply_sign(sign, unsigned@) == q);
            lemma_wrap_fits(0);
            lemma_div_basics(abs(self@) as int);
            lemma_mod_window(half_modulus() as int);
        }
        (result, overflow_conv && !result.is_zero())
    }

    /// Checked division: `None` for a zero divisor or where the quotient overflows.
    pub fn checked_div(self, rhs: I256) -> (r: Option<I256>)
        ensures
            r is None <==> (rhs@ == 0 || (self@ == i256_min() && rhs@ == -1)),
            r matches Some(v) ==> v@ == div_trunc(self@, rhs@),
    {
        if rhs.is_zero() || (self.is_min() && rhs.is_minus_one()) {
            None
        } else {
            proof {
                lemma_view_fits(self);
                lemma_div_trunc(self@, rhs@);
                lemma_wrap_fits(div_trunc(self@, rhs@));
            }
            Some(self.overflowing_div(rhs).0)
        }
    }

    /// Saturating division: the quotient clamped to the range of the type. It panics on a
    /// zero divisor, which `requires` leaves out.
    pub fn saturating_div(self, rhs: I256) -> (r: I256)
        requires
            rhs@ != 0,
        ensures
            r@ == saturate(div_trunc(self@, rhs@)),
    {
        proof {
            if self@ == i256_min() && rhs@ == -1 {
                lemma_div_basics(half_modulus() as int);
                assert(abs(self@) == half_modulus() && abs(rhs@) == 1);
                assert(div_trunc(self@, rhs@) == half_modulus());
            }
            lemma_view_fits(self);
            lemma_div_trunc(self@, rhs@);
            if !(self@ == i256_min() && rhs@ == -1) {
                lemma_wrap_fits(div_trunc(self@, rhs@));
            }
        }
        match self.overflowing_div(rhs) {
            (value, false) => value,
            _ => Self::max_value(),
        }
    }

    /// Wrapping division: the quotient modulo 2^256. It panics on a zero divisor, which
    /// `requires` leaves out.
    pub fn wrapping_div(self, rhs: I256) -> (r: I256)
        requires
            rhs@ != 0,
        ensures
            r@ == wrap(div_trunc(self@, rhs@)),
    {
        self.overflowing_div(rhs).0
    }

    /// The remainder of `self / rhs`, with the sign of `self`, and a flag that says whether
    /// the division overflowed (the minimum value divided by minus one, whose remainder is
    /// zero). It panics on a zero divisor, which `requires` leaves out.
    pub fn overflowing_rem(self, rhs: I256) -> (r: (I256, bool))
        requires
            rhs@ != 0,
        ensures
            r.0@ == rem_trunc(self@, rhs@),
            r.1 == (self@ == i256_min() && rhs@ == -1),
    {
        if self.is_min() && rhs.is_minus_one() {
            proof {
                lemma_div_basics(half_modulus() as int);
                assert(abs(self@) == half_modulus() && abs(rhs@) == 1);
                let q = div_trunc(self@, rhs@);
                assert(q == half_modulus());
                assert(rhs@ * q == -q) by (nonlinear_arith)
                    requires
                        rhs@ == -1,
                ;
            }
            (Self::zero(), true)
        } else {
            proof {
                lemma_view_fits(self);
                lemma_view_fits(rhs);
                lemma_div_trunc(self@, rhs@);
                let q = div_trunc(self@, rhs@);
                lemma_wrap_fits(q);
                assert(q * rhs@ == rhs@ * q) by (nonlinear_arith);
                lemma_wrap_fits(q * rhs@);
                lemma_wrap_fits(self@ - q * rhs@);
            }
            let div_res = self.wrapping_div(rhs);
            let product = div_res.wrapping_mul(rhs);
            assert(product@ == rhs@ * div_trunc(self@, rhs@));
            let rem = self.wrapping_sub(product);
            assert(rem@ == rem_trunc(self@, rhs@));
            (rem, false)
        }
    }

    /// Checked remainder: `None` for a zero divisor or where the division overflows.
    pub fn checked_rem(self, rhs: I256) -> (r: Option<I256>)
        ensures
            r is None <==> (rhs@ == 0 || (self@ == i256_min() && rhs@ == -1)),
            r matches Some(v) ==> v@ == rem_trunc(self@, rhs@),
    {
        if rhs.is_zero() || (self.is_min() && rhs.is_minus_one()) {
            None
        } else {
            Some(self.overflowing_rem(rhs).0)
        }
    }

    /// Wrapping remainder: zero for the minimum value divided by minus one. It panics on a
    /// zero divisor, which `requires` leaves out.
    pub fn wrapping_rem(self, rhs: I256) -> (r: I256)
        requires
            rhs@ != 0,
        ensures
            r@ == rem_trunc(self@, rhs@),
    {
        self.overflowing_rem(rhs).0
    }
}

// Euclidean division and powers
impl I256 {
    /// The quotient of Euclidean division: the `q` with `self = q * rhs + r` and
    /// `0 <= r < |rhs|`. It panics on a zero divisor and where the quotient overflows
    /// (the minimum value divided by minus one), which `requires` leaves out.
    pub fn div_euclid(self, rhs: I256) -> (r: I256)
        requires
            rhs@ != 0,
            !(self@ == i256_min() && rhs@ == -1),
        ensures
            r@ == self@ / rhs@,
    {
        proof {
            lemma_view_fits(self);
            lemma_view_fits(rhs);
            lemma_div_trunc(self@, rhs@);
            lemma_wrap_fits(div_trunc(self@, rhs@));
        }
        let q = self.wrapping_div(rhs);
        let rem = self.wrapping_rem(rhs);
        let ghost a = self@;
        let ghost b = rhs@;
        let ghost t = div_trunc(a, b);
        let ghost rt = rem_trunc(a, b);
        if rem.is_negative() {
            if rhs.is_positive() {
                proof {
                    lemma_wrap_fits(t - 1);
                    lemma_shift_quotient(a, b, t);
                    lemma_euclid_unique(a, b, t - 1, rt + b);
                }
                q.wrapping_sub(Self::one())
            } else {
                proof {
                    lemma_wrap_fits(t + 1);
                    lemma_shift_quotient(a, b, t);
                    lemma_euclid_unique(a, b, t + 1, rt - b);
                }
                q.wrapping_add(Self::one())
            }
        } else {
            proof {
                lemma_euclid_unique(a, b, t, rt);
            }
            q
        }
    }

    /// Euclidean quotient with a flag that says whether it overflowed; only the minimum
    /// value divided by minus one does, and gives the minimum value. It panics on a zero
    /// divisor, which `requires` leaves out.
    pub fn overflowing_div_euclid(self, rhs: I256) -> (r: (I256, bool))
        requires
            rhs@ != 0,
        ensures
            r.0@ == wrap(self@ / rhs@),
            r.1 == (self@ == i256_min() && rhs@ == -1),
    {
        if self.is_min() && rhs.is_minus_one() {
            proof {
                lemma_euclid_unique(self@, rhs@, half_modulus() as int, 0);
                lemma_mod_window(half_modulus() as int);
            }
            (self, true)
        } else {
            let q = self.div_euclid(rhs);
            proof {
                lemma_view_fits(q);
                lemma_wrap_fits(q@);
            }
            (q, false)
        }
    }

    /// Checked Euclidean quotient: `None` for a zero divisor or where it overflows.
    pub fn checked_div_euclid(self, rhs: I256) -> (r: Option<I256>)
        ensures
            r is None <==> (rhs@ == 0 || (self@ == i256_min() && rhs@ == -1)),
            r matches Some(v) ==> v@ == self@ / rhs@,
    {
        if rhs.is_zero() || (self.is_min() && rhs.is_minus_one()) {
            None
        } else {
            Some(self.div_euclid(rhs))
        }
    }

    /// Wrapping Euclidean quotient: the minimum value for the minimum value divided by
    /// minus one. It panics on a zero divisor, which `requires` leaves out.
    pub fn wrapping_div_euclid(self, rhs: I256) -> (r: I256)
        requires
            rhs@ != 0,
        ensures
            r@ == wrap(self@ / rhs@),
    {
        self.overflowing_div_euclid(rhs).0
    }

    /// The least nonnegative remainder of `self` modulo `rhs`: `0 <= r < |rhs|`. It panics
    /// on a zero divisor and where the division overflows (the minimum value divided by
    /// minus one), which `requires` leaves out.
    pub fn rem_euclid(self, rhs: I256) -> (r: I256)
        requires
            rhs@ != 0,
            !(self@ == i256_min() && rhs@ == -1),
        ensures
            r@ == self@ % rhs@,
    {
        proof {
            lemma_view_fits(self);
            lemma_view_fits(rhs);
            lemma_div_trunc(self@, rhs@);
        }
        let rem = self.wrapping_rem(rhs);
        let ghost a = self@;
        let ghost b = rhs@;
        let ghost t = div_trunc(a, b);
        let ghost rt = rem_trunc(a, b);
        if rem.is_negative() {
            if rhs.is_negative() {
                proof {
                    lemma_wrap_fits(rt - b);
                    lemma_shift_quotient(a, b, t);
                    lemma_euclid_unique(a, b, t + 1, rt - b);
                }
                rem.wrapping_sub(rhs)
            } else {
                proof {
                    lemma_wrap_fits(rt + b);
                    lemma_shift_quotient(a, b, t);
                    lemma_euclid_unique(a, b, t - 1, rt + b);
                }
                rem.wrapping_add(rhs)
            }
        } else {
            proof {
                lemma_euclid_unique(a, b, t, rt);
            }
            rem
        }
    }

    /// Euclidean remainder with a flag that says whether the division overflowed (the
    /// minimum value divided by minus one, whose remainder is zero). It panics on a zero
    /// divisor, which `requires` leaves out.
    pub fn overflowing_rem_euclid(self, rhs: I256) -> (r: (I256, bool))
        requires
            rhs@ != 0,
        ensures
            r.0@ == self@ % rhs@,
            r.1 == (self@ == i256_min() && rhs@ == -1),
    {
        if self.is_min() && rhs.is_minus_one() {
            proof {
                lemma_euclid_unique(self@, rhs@, half_modulus() as int, 0);
            }
            (Self::zero(), true)
        } else {
            (self.rem_euclid(rhs), false)
        }
    }

    /// Wrapping Euclidean remainder: zero for the minimum value divided by minus one. It
    /// panics on a zero divisor, which `requires` leaves out.
    pub fn wrapping_rem_euclid(self, rhs: I256) -> (r: I256)
        requires
            rhs@ != 0,
        ensures
            r@ == self@ % rhs@,
    {
        self.overflowing_rem_euclid(rhs).0
    }

    /// Checked Euclidean remainder: `None` for a zero divisor or where the division
    /// overflows.
    pub fn checked_rem_euclid(self, rhs: I256) -> (r: Option<I256>)
        ensures
            r is None <==> (rhs@ == 0 || (self@ == i256_min() && rhs@ == -1)),
            r matches Some(v) ==> v@ == self@ % rhs@,
    {
        if rhs.is_zero() || (self.is_min() && rhs.is_minus_one()) {
            None
        } else {
            Some(self.rem_euclid(rhs))
        }
    }

    /// The sign of `self` to the power `exp`: negative just when a negative number is
    /// raised to an odd power. It does not compute the power itself.
    fn pow_sign(self, exp: u32) -> (r: Sign)
        ensures
            r == (if exp % 2 == 1 && self@ < 0 {
                Sign::Negative
            } else {
                Sign::Positive
            }),
    {
        let is_exp_odd = exp % 2 != 0;
        if is_exp_odd && self.is_negative() {
            Sign::Negative
        } else {
            Sign::Positive
        }
    }

    /// `self` to the power `exp`, wrapped around on overflow, with a flag that says whether
    /// it overflowed.
    pub fn overflowing_pow(self, exp: u32) -> (r: (I256, bool))
        ensures
            r.0@ == wrap(pow(self@, exp as nat)),
            r.1 == !fits(pow(self@, exp as nat)),
    {
        let sign = self.pow_sign(exp);
        let (unsigned, overflow_pow) = self.unsigned_abs().overflowing_pow(exp);
        let (result, overflow_conv) = Self::overflowing_from_sign_and_abs(sign, unsigned);
        proof {
            lemma_pow_signs(self@, exp as nat);
            let p = pow(abs(self@) as int, exp as nat);
            lemma_wrap_apply_sign_mod(sign, p as nat);
            assert(apply_sign(sign, p as nat) == pow(self@, exp as nat));
            if p < modulus() {
                lemma_small_mod(p as nat, modulus());
            }
        }
        (result, overflow_pow || overflow_conv)
    }

    /// `self` to the power `exp`. Debug builds panic where the power overflows, so that is
    /// left out.
    pub fn pow(self, exp: u32) -> (r: I256)
        requires
            fits(pow(self@, exp as nat)),
        ensures
            r@ == pow(self@, exp as nat),
    {
        proof {
            lemma_wrap_fits(pow(self@, exp as nat));
        }
        self.overflowing_pow(exp).0
    }

    /// Checked power: `None` where the power overflows.
    pub fn checked_pow(self, exp: u32) -> (r: Option<I256>)
        ensures
            r is None <==> !fits(pow(self@, exp as nat)),
            r matches Some(v) ==> v@ == pow(self@, exp as nat),
    {
        let (result, overflow) = self.overflowing_pow(exp);
        if overflow {
            None
        } else {
            proof {
                lemma_wrap_fits(pow(self@, exp as nat));
            }
            Some(result)
        }
    }

    /// Saturating power: the power clamped to the range of the type.
    pub fn saturating_pow(self, exp: u32) -> (r: I256)
        ensures
            r@ == saturate(pow(self@, exp as nat)),
    {
        proof {
            lemma_pow_signs(self@, exp as nat);
        }
        let (result, overflow) = self.overflowing_pow(exp);
        if overflow {
            match self.pow_sign(exp) {
                Sign::Positive => Self::max_value(),
                Sign::Negative => Self::min_value(),
            }
        } else {
            proof {
                lemma_wrap_fits(pow(self@, exp as nat));
            }
            result
        }
    }

    /// Wrapping power: the power modulo 2^256.
    pub fn wrapping_pow(self, exp: u32) -> (r: I256)
        ensures
            r@ == wrap(pow(self@, exp as nat)),
    {
        self.overflowing_pow(exp).0
    }
}

/// Shifting the word of a value left shifts the value left, modulo 2^256.
proof fn lemma_shl_wrap(x: I256, k: nat)
    ensures
        wrap((x.raw() * pow2(k)) as int) == wrap(x@ * pow2(k)),
{
    let m = modulus() as int;
    let c: int = if x.raw() < half_modulus() {
        0
    } else {
        1
    };
    assert(x.raw() * pow2(k) == x@ * pow2(k) + (c * pow2(k)) * m) by (nonlinear_arith)
        requires
            x.raw() == x@ + c * m,
    ;
    lemma_wrap_congruent((x.raw() * pow2(k)) as int, x@ * pow2(k), c * pow2(k));
}

/// The mask that the arithmetic right shift ors into a negative value: 2^256 - 2^j.
proof fn lemma_asr_mask(j: nat)
    requires
        1 <= j <= 254,
    ensures
        pow(2, j) == pow2(j),
        pow2(j) < half_modulus(),
        pow(2, j) < modulus(),
{
    lemma_pow2(j);
    lemma_word_powers();
    lemma_pow2_strictly_increases(j, 255);
}

/// Or-ing the mask 2^256 - 2^j into a value `x` with `2^j <= x < 2^(j+1)` gives
/// `2^256 - 2^(j+1) + x`.
proof fn lemma_asr_or(x: nat, j: nat)
    requires
        1 <= j <= 254,
        pow2(j) <= x < pow2(j + 1),
    ensures
        bit_or(x, (modulus() - pow2(j)) as nat) == modulus() - pow2(j + 1) + x,
{
    let p = pow2(j);
    let top = pow2((256 - j) as nat);
    lemma_word_powers();
    lemma_pow2_adds((256 - j) as nat, j);
    lemma_pow2_unfold(j + 1);
    lemma_pow2_unfold((256 - j) as nat);
    lemma_pow2_pos((255 - j) as nat);
    let c = (top - 1) as nat;
    assert(c * p == modulus() - p) by (nonlinear_arith)
        requires
            c == top - 1,
            top * p == modulus(),
    ;
    assert(x == (x - p) as nat + 1 * p);
    lemma_bit_or_split((x - p) as nat, 1, c, j);
    assert(c % 2 == 1);
    assert(bit_or(1, c) == c) by {
        assert(bit_or(1nat / 2, c / 2) == c / 2);
    }
}

/// The arithmetic shift right of a negative value by 1 to 254 bits: its word shifted
/// right, with the vacated top bits set, reads as the value divided by 2^k, rounded down.
proof fn lemma_asr_negative(a: int, u: nat, k: nat)
    requires
        1 <= k <= 254,
        u == a + modulus(),
        half_modulus() <= u < modulus(),
    ensures
        signed(bit_or(u / pow2(k), (modulus() - pow2((255 - k) as nat)) as nat)) == a / (pow2(
            k,
        ) as int),
{
    let j = (255 - k) as nat;
    lemma_word_powers();
    lemma_pow2_pos(k);
    lemma_pow2_adds(j, k);
    lemma_pow2_adds(j + 1, k);
    lemma_fundamental_div_mod(u as int, pow2(k) as int);
    lemma_mod_bound(u as int, pow2(k) as int);
    let x = u as int / pow2(k) as int;
    let rem = u as int % pow2(k) as int;
    assert(pow2(j) <= x < pow2(j + 1)) by (nonlinear_arith)
        requires
            u == pow2(k) * x + rem,
            0 <= rem < pow2(k),
            half_modulus() <= u < modulus(),
            half_modulus() == pow2(j) * pow2(k),
            modulus() == pow2(j + 1) * pow2(k),
            pow2(k) > 0,
    ;
    lemma_asr_or(x as nat, j);
    lemma_pow2_strictly_increases(j + 1, 256);
    lemma_pow2_strictly_increases(j, 255);
    lemma_pow2_unfold(j + 1);
    assert(u / pow2(k) == x);
    let v = bit_or(u / pow2(k), (modulus() - pow2(j)) as nat);
    assert(v == modulus() - pow2(j + 1) + x);
    assert(v >= half_modulus());
    assert(signed(v) == x - pow2(j + 1));
    let q = x - pow2(j + 1);
    assert(a == pow2(k) * q + rem) by (nonlinear_arith)
        requires
            a == u - modulus(),
            u == pow2(k) * x + rem,
            q == x - pow2(j + 1),
            modulus() == pow2(j + 1) * pow2(k),
    ;
    lemma_fundamental_div_mod_converse(a, pow2(k) as int, q, rem);
}

// shifts
impl I256 {
    /// `self << rhs`, with a flag that says whether the shift was 256 bits or more (the
    /// result is then zero).
    pub fn overflowing_shl(self, rhs: usize) -> (r: (I256, bool))
        ensures
            r.0@ == shl_value(self@, rhs as nat),
            r.1 == (rhs >= 256),
    {
        if rhs >= 256 {
            (Self::zero(), true)
        } else {
            proof {
                lemma_shl_wrap(self, rhs as nat);
                lemma_word_powers();
            }
            (Self(self.0.shl(rhs)), false)
        }
    }

    /// Checked shift left: `None` for a shift of 256 bits or more.
    pub fn checked_shl(self, rhs: usize) -> (r: Option<I256>)
        ensures
            r is None <==> rhs >= 256,
            r matches Some(v) ==> v@ == shl_value(self@, rhs as nat),
    {
        match self.overflowing_shl(rhs) {
            (value, false) => Some(value),
            _ => None,
        }
    }

    /// Wrapping shift left: zero for a shift of 256 bits or more.
    pub fn wrapping_shl(self, rhs: usize) -> (r: I256)
        ensures
            r@ == shl_value(self@, rhs as nat),
    {
        self.overflowing_shl(rhs).0
    }

    /// Logical `self >> rhs` on the word, with a flag that says whether the shift was 256
    /// bits or more (the result is then zero).
    pub fn overflowing_shr(self, rhs: usize) -> (r: (I256, bool))
        ensures
            r.0.raw() == self.raw() / pow2(rhs as nat),
            r.1 == (rhs >= 256),
    {
        if rhs >= 256 {
            proof {
                lemma_word_powers();
                if rhs > 256 {
                    lemma_pow2_strictly_increases(256, rhs as nat);
                }
                lemma_basic_div(self.raw() as int, pow2(rhs as nat) as int);
            }
            (Self::zero(), true)
        } else {
            (Self(self.0.shr(rhs)), false)
        }
    }

    /// Checked logical shift right: `None` for a shift of 256 bits or more.
    pub fn checked_shr(self, rhs: usize) -> (r: Option<I256>)
        ensures
            r is None <==> rhs >= 256,
            r matches Some(v) ==> v.raw() == self.raw() / pow2(rhs as nat),
    {
        match self.overflowing_shr(rhs) {
            (value, false) => Some(value),
            _ => None,
        }
    }

    /// Wrapping logical shift right: zero for a shift of 256 bits or more.
    pub fn wrapping_shr(self, rhs: usize) -> (r: I256)
        ensures
            r.raw() == self.raw() / pow2(rhs as nat),
    {
        self.overflowing_shr(rhs).0
    }

    /// Arithmetic shift right: `self / 2^rhs` rounded down, which keeps the sign.
    pub fn asr(self, rhs: usize) -> (r: I256)
        ensures
            r@ == self@ / (pow2(rhs as nat) as int),
    {
        proof {
            lemma_view_fits(self);
            lemma_word_powers();
            lemma_pow2_pos(rhs as nat);
        }
        if rhs == 0 {
            proof {
                lemma2_to64();
                lemma_div_basics(self@);
            }
            self
        } else if rhs <= 254 {
            match self.sign() {
                Sign::Positive => {
                    let r = self.wrapping_shr(rhs);
                    proof {
                        lemma_div_nonincreasing(self@, pow2(rhs as nat) as int);
                        assert(self.raw() == self@);
                        assert(r.raw() == self@ / (pow2(rhs as nat) as int));
                    }
                    r
                },
                Sign::Negative => {
                    let j: usize = 255 - rhs;
                    proof {
                        lemma_asr_mask(j as nat);
                    }
                    let two = U256::from_u64(2);
                    let exponent = U256::from_usize(j);
                    let power = two.pow(exponent);
                    assert(power@ == pow2(j as nat));
                    let (low_bits, _) = power.overflowing_sub(U256::one());
                    let bitwise_or = Self::from_raw(low_bits.not());
                    let shifted = self.wrapping_shr(rhs);
                    let r = Self::from_raw(shifted.into_raw().bitor(bitwise_or.into_raw()));
                    proof {
                        lemma_pow2_pos(j as nat);
                        lemma_mod_window(pow2(j as nat) - 1);
                        assert(low_bits@ == pow2(j as nat) - 1);
                        assert(bitwise_or.raw() == modulus() - pow2(j as nat));
                        assert(self.raw() == self@ + modulus());
                        assert(j as nat == (255 - rhs) as nat);
                        lemma_asr_negative(self@, self.raw(), rhs as nat);
                    }
                    r
                },
            }
        } else {
            proof {
                if rhs > 255 {
                    lemma_pow2_strictly_increases(255, rhs as nat);
                }
            }
            match self.sign() {
                Sign::Positive => {
                    proof {
                        lemma_basic_div(self@, pow2(rhs as nat) as int);
                    }
                    Self::zero()
                },
                Sign::Negative => {
                    proof {
                        lemma_fundamental_div_mod_converse(
                            self@,
                            pow2(rhs as nat) as int,
                            -1,
                            self@ + pow2(rhs as nat),
                        );
                    }
                    Self::minus_one()
                },
            }
        }
    }

    /// Arithmetic shift left: `self << rhs`, or `None` where the shift changes the sign
    /// (the most significant bit). A shift by zero gives `self` back.
    pub fn asl(self, rhs: usize) -> (r: Option<I256>)
        ensures
            r is None <==> (rhs > 0 && (shl_value(self@, rhs as nat) < 0) != (self@ < 0)),
            r matches Some(v) ==> v@ == shl_value(self@, rhs as nat),
    {
        proof {
            lemma_view_fits(self);
            lemma2_to64();
            lemma_wrap_fits(self@);
        }
        if rhs == 0 {
            Some(self)
        } else {
            let result = self.wrapping_shl(rhs);
            if result.sign() != self.sign() {
                None
            } else {
                Some(result)
            }
        }
    }

    /// The two's complement reading of `self`: its absolute value as an unsigned integer.
    pub fn twos_complement(self) -> (r: U256)
        ensures
            r@ == abs(self@),
    {
        let abs = self.into_raw();
        proof {
            lemma_mod_window(modulus() - self.raw());
        }
        match self.sign() {
            Sign::Positive => abs,
            Sign::Negative => twos_complement(abs),
        }
    }
}

// bits and bytes
impl I256 {
    /// Whether bit `index` of the word is set. It panics for an index past 255, which
    /// `requires` leaves out.
    pub fn bit(&self, index: usize) -> (r: bool)
        requires
            index < 256,
        ensures
            r == nth_bit(self.raw(), index as nat),
    {
        self.0.bit(index)
    }

    /// Byte `index` of the word, counting from the least significant. It panics for an
    /// index past 31, which `requires` leaves out.
    pub fn byte(&self, index: usize) -> (r: u8)
        requires
            index < 32,
        ensures
            r == nth_byte(self.raw(), index as nat),
    {
        self.0.byte(index)
    }

    /// The number of ones in the binary representation of `self`.
    pub fn count_ones(&self) -> (r: u32)
        ensures
            r == popcount(self.raw()),
    {
        proof {
            lemma_popcount_words(self.0);
        }
        word_count_ones(self.0.0) + word_count_ones(self.0.1) + word_count_ones(self.0.2)
            + word_count_ones(self.0.3)
    }

    /// The number of zeros in the binary representation of `self`.
    pub fn count_zeros(&self) -> (r: u32)
        ensures
            r == 256 - popcount(self.raw()),
    {
        proof {
            lemma_popcount_words(self.0);
        }
        word_count_zeros(self.0.0) + word_count_zeros(self.0.1) + word_count_zeros(self.0.2)
            + word_count_zeros(self.0.3)
    }

    /// The number of leading zeros in the binary representation of `self`.
    pub fn leading_zeros(&self) -> (r: u32)
        ensures
            r == 256 - bit_length(self.raw()),
    {
        self.0.leading_zeros()
    }

    /// The number of trailing zeros in the binary representation of `self`; 256 for zero.
    pub fn trailing_zeros(&self) -> (r: u32)
        ensures
            r == (if self.raw() == 0 {
                256
            } else {
                trailing_zero_bits(self.raw())
            }),
    {
        self.0.trailing_zeros()
    }

    /// Writes the 32 bytes of the word into `bytes`, most significant first. Debug builds
    /// panic unless `bytes` holds exactly 32 bytes, so `requires` asks for that.
    pub fn to_big_endian(&self, bytes: &mut [u8])
        requires
            old(bytes)@.len() == 32,
        ensures
            final(bytes)@.len() == 32,
            forall|i: int|
                0 <= i < 32 ==> final(bytes)@[i] == nth_byte(self.raw(), (31 - i) as nat),
    {
        self.0.to_big_endian(bytes)
    }

    /// Writes the 32 bytes of the word into `bytes`, least significant first. Debug builds
    /// panic unless `bytes` holds exactly 32 bytes, so `requires` asks for that.
    pub fn to_little_endian(&self, bytes: &mut [u8])
        requires
            old(bytes)@.len() == 32,
        ensures
            final(bytes)@.len() == 32,
            forall|i: int| 0 <= i < 32 ==> final(bytes)@[i] == nth_byte(self.raw(), i as nat),
    {
        self.0.to_little_endian(bytes)
    }
}

impl I256 {
    /// The `I256` whose value is `x` wrapped around into range.
    pub closed spec fn from_int(x: int) -> I256 {
        I256(U256::from_nat(raw_of(x)))
    }
}

/// The `I256` built from an integer stands for that integer wrapped into range.
pub proof fn lemma_from_int(x: int)
    ensures
        I256::from_int(x)@ == wrap(x),
        I256::from_int(x).raw() == raw_of(x),
{
    lemma_raw_of_bound(x);
    lemma_from_nat(raw_of(x));
}

/// All the zero bits of a word are trailing ones just when the word stands for zero or for
/// a negative power of two.
proof fn lemma_zeros_all_trailing(x: I256)
    ensures
        ((256 - popcount(x.raw())) == (if x.raw() == 0 {
            256
        } else {
            trailing_zero_bits(x.raw())
        })) == (x@ == 0 || (x@ < 0 && pow2((bit_length(abs(x@)) - 1) as nat) == abs(x@))),
{
    let raw = x.raw();
    lemma_view_fits(x);
    lemma_word_powers();
    if raw == 0 {
        assert(popcount(0) == 0);
    } else {
        let t = trailing_zero_bits(raw);
        lemma_trailing_zeros_split(raw);
        let o = raw / pow2(t);
        lemma_pow2_pos(t);
        if t >= 256 {
            if t > 256 {
                lemma_pow2_strictly_increases(256, t);
            }
            assert(pow2(t) * o >= pow2(t)) by (nonlinear_arith)
                requires
                    o >= 1,
                    pow2(t) > 0,
            ;
            assert(false);
        }
        let k = (256 - t) as nat;
        lemma_pow2_adds(t, k);
        assert(o < pow2(k)) by (nonlinear_arith)
            requires
                raw == pow2(t) * o,
                raw < modulus(),
                modulus() == pow2(t) * pow2(k),
                pow2(t) > 0,
        ;
        lemma_popcount_full(o, k);
        assert((o == pow2(k) - 1) == (raw == modulus() - pow2(t))) by (nonlinear_arith)
            requires
                raw == pow2(t) * o,
                modulus() == pow2(t) * pow2(k),
                pow2(t) > 0,
        ;
        if t < 255 {
            lemma_pow2_strictly_increases(t, 255);
        }
        if x@ < 0 {
            let a = abs(x@);
            let l = bit_length(a);
            if raw == modulus() - pow2(t) {
                lemma_bit_length_pow2(t);
            } else if pow2((l - 1) as nat) == a {
                let s = (l - 1) as nat;
                if s > 255 {
                    lemma_pow2_strictly_increases(255, s);
                }
                let m = (256 - s) as nat;
                lemma_pow2_adds(s, m);
                lemma_pow2_unfold(m);
                lemma_pow2_pos((m - 1) as nat);
                let odd = (pow2(m) - 1) as nat;
                assert(raw == pow2(s) * odd) by (nonlinear_arith)
                    requires
                        raw == modulus() - pow2(s),
                        modulus() == pow2(s) * pow2(m),
                        odd == pow2(m) - 1,
                ;
                lemma_trailing_zeros_of(s, odd);
            }
        }
    }
}

impl I256 {
    /// The least number of bits that hold `self` in two's complement.
    pub fn bits(&self) -> (r: u32)
        ensures
            r == signed_bit_length(self@),
    {
        let unsigned = self.unsigned_abs();
        let unsigned_bits = unsigned.bits();
        proof {
            lemma_view_fits(*self);
            lemma_zeros_all_trailing(*self);
            lemma_word_powers();
            assert(abs(self@) < modulus());
            lemma_bit_length_bound(abs(self@), 256);
        }
        let bits = if self.count_zeros() == self.trailing_zeros() {
            unsigned_bits
        } else {
            unsigned_bits + 1
        };
        bits as u32
    }
}

} // verus!
