//! Properties that hold across the operations of the library.
use crate::i256::{
    abs, apply_sign, div_trunc, fits, i256_max, i256_min, lemma_div_trunc, lemma_mod_window,
    lemma_raw_of_bound, lemma_raw_of_congruent, lemma_view_fits, lemma_wrap_fits, raw_of,
    rem_trunc, saturate, sign_of, signed, signed_bit_length, wrap, I256,
};
use crate::call_input::{bytes_ref_view, bytes_view, unique_input_of, Bytes, CallInput};
use crate::i256::{lemma_raw_bound, shl_value};
use crate::ops::{product_of, sum_of};
use vstd::std_specs::cmp::PartialEqSpec;
use vstd::std_specs::convert::FromSpec;
use crate::sign::Sign;
use crate::uint::{bit_length, half_modulus, lemma_bit_length_pow2, lemma_word_powers, modulus, U256};
use vstd::arithmetic::div_mod::*;
use vstd::arithmetic::mul::*;
use vstd::arithmetic::power2::*;
use vstd::prelude::*;

verus! {

/// Whether `x` can be written in `n` bits of two's complement.
pub open spec fn fits_in_bits(x: int, n: nat) -> bool {
    if n == 0 {
        x == 0
    } else {
        -pow2((n - 1) as nat) <= x < pow2((n - 1) as nat)
    }
}

/// Reading a word as a signed value and storing that value gives the same word back:
/// `I256::from_raw(u).into_raw() == u`.
pub proof fn law_raw_round_trip(u: U256)
    ensures
        raw_of(signed(u@)) == u@,
{
    lemma_mod_window(signed(u@));
}

/// Splitting a value into sign and absolute value and putting them back together gives the
/// value, without overflow: `I256::checked_from_sign_and_abs` of `into_sign_and_abs(x)` is
/// `Some(x)`.
pub proof fn law_sign_abs_round_trip(x: I256)
    ensures
        apply_sign(sign_of(x@), abs(x@)) == x@,
        fits(apply_sign(sign_of(x@), abs(x@))),
{
    lemma_view_fits(x);
}

/// Wrapping negation undoes itself, the minimum value included.
pub proof fn law_neg_involution(x: I256)
    ensures
        wrap(-wrap(-x@)) == x@,
{
    lemma_view_fits(x);
    if x@ == i256_min() {
        lemma_mod_window(half_modulus() as int);
    } else {
        lemma_wrap_fits(-x@);
        lemma_wrap_fits(x@);
    }
}

/// Wrapping subtraction undoes wrapping addition.
pub proof fn law_add_sub_inverse(a: I256, b: I256)
    ensures
        wrap(wrap(a@ + b@) - b@) == a@,
{
    lemma_view_fits(a);
    lemma_view_fits(b);
    lemma_mod_window(a@ + b@);
    let s = wrap(a@ + b@);
    lemma_mod_window(s - b@);
    lemma_wrap_fits(a@);
}

/// Euclidean division: `self == rhs * q + r` with `0 <= r < |rhs|`, where `q` is what
/// `div_euclid` gives and `r` what `rem_euclid` gives; the quotient fits except for the
/// minimum value divided by minus one.
pub proof fn law_euclid(a: I256, b: I256)
    requires
        b@ != 0,
    ensures
        a@ == b@ * (a@ / b@) + a@ % b@,
        0 <= a@ % b@ < abs(b@),
        !(a@ == i256_min() && b@ == -1) ==> fits(a@ / b@),
{
    lemma_view_fits(a);
    lemma_view_fits(b);
    assert(a@ == b@ * (a@ / b@) + a@ % b@ && 0 <= a@ % b@ < abs(b@)) by (nonlinear_arith)
        requires
            b@ != 0,
    ;
    if !(a@ == i256_min() && b@ == -1) {
        lemma_div_trunc(a@, b@);
        let t = div_trunc(a@, b@);
        let q = a@ / b@;
        assert(q == t || q == t - 1 || q == t + 1) by (nonlinear_arith)
            requires
                a@ == b@ * q + a@ % b@,
                0 <= a@ % b@ < abs(b@),
                a@ >= 0 ==> 0 <= a@ - b@ * t < abs(b@),
                a@ < 0 ==> -abs(b@) < a@ - b@ * t <= 0,
                b@ != 0,
        ;
        if b@ == 1 {
            assert(q == a@) by (nonlinear_arith)
                requires
                    a@ == b@ * q + a@ % b@,
                    0 <= a@ % b@ < abs(b@),
                    b@ == 1,
            ;
        } else if b@ == -1 {
            assert(q == -a@) by (nonlinear_arith)
                requires
                    a@ == b@ * q + a@ % b@,
                    0 <= a@ % b@ < abs(b@),
                    b@ == -1,
            ;
        } else {
            assert(abs(t) * 2 <= abs(a@));
        }
    }
}

/// Division rounded towards zero: `self == rhs * (self / rhs) + self % rhs`, where the
/// remainder is smaller than the divisor and has the sign of `self`.
pub proof fn law_trunc_division(a: I256, b: I256)
    requires
        b@ != 0,
    ensures
        a@ == b@ * div_trunc(a@, b@) + rem_trunc(a@, b@),
        abs(rem_trunc(a@, b@)) < abs(b@),
        rem_trunc(a@, b@) == 0 || (rem_trunc(a@, b@) < 0) == (a@ < 0),
{
    lemma_div_trunc(a@, b@);
}

/// For a value that is not negative, the arithmetic shift right is the logical one.
pub proof fn law_asr_nonnegative(x: I256, k: nat)
    requires
        x@ >= 0,
    ensures
        signed(x.raw() / pow2(k)) == x@ / (pow2(k) as int),
{
    lemma_view_fits(x);
    lemma_pow2_pos(k);
    lemma_div_nonincreasing(x@, pow2(k) as int);
}

/// `bit_length(a) = L` places a positive `a` between 2^(L-1) and 2^L.
proof fn lemma_bit_length_range(a: nat)
    requires
        a > 0,
    ensures
        pow2((bit_length(a) - 1) as nat) <= a < pow2(bit_length(a)),
    decreases a,
{
    if a == 1 {
        lemma2_to64();
        assert(bit_length(1) == 1 + bit_length(0));
    } else {
        lemma_bit_length_range(a / 2);
        let l = bit_length(a / 2);
        assert(bit_length(a) == l + 1);
        assert(l >= 1);
        lemma_pow2_unfold(l);
        lemma_pow2_unfold(l + 1);
        assert(pow2((l - 1) as nat) <= a / 2 < pow2(l));
    }
}

/// The bits that `bits` counts hold the value, and one fewer would not.
pub proof fn law_bits_least(x: I256)
    ensures
        fits_in_bits(x@, signed_bit_length(x@)),
        signed_bit_length(x@) > 0 ==> !fits_in_bits(x@, (signed_bit_length(x@) - 1) as nat),
{
    if x@ != 0 {
        let a = abs(x@);
        lemma_bit_length_range(a);
        let l = bit_length(a);
        lemma_pow2_unfold(l);
        if l >= 2 {
            lemma_pow2_unfold((l - 1) as nat);
        }
        lemma2_to64();
    }
}

/// A value has at most 256 one bits, so `count_zeros`, which is 256 less `count_ones`,
/// is not negative and the two add up to 256.
pub proof fn law_bit_counts(x: I256)
    ensures
        crate::uint::popcount(x.raw()) <= 256,
        crate::uint::popcount(x.raw()) + (256 - crate::uint::popcount(x.raw())) == 256,
{
    lemma_word_powers();
    crate::i256::lemma_raw_bound(x);
    crate::uint::lemma_popcount_bound(x.raw(), 256);
}

/// Saturating arithmetic gives the exact result wherever it fits, and the nearest bound
/// otherwise.
pub proof fn law_saturate(x: int)
    ensures
        fits(x) ==> saturate(x) == x,
        x > i256_max() ==> saturate(x) == i256_max(),
        x < i256_min() ==> saturate(x) == i256_min(),
        fits(saturate(x)),
{
}

/// Wrapping arithmetic agrees with the exact result modulo 2^256, and with the exact
/// result itself wherever it fits.
pub proof fn law_wrap(x: int)
    ensures
        fits(wrap(x)),
        raw_of(wrap(x)) == raw_of(x),
        fits(x) ==> wrap(x) == x,
{
    lemma_raw_of_bound(x);
    lemma_mod_window(wrap(x));
    if fits(x) {
        lemma_wrap_fits(x);
    }
}

/// Shifting left by `k` multiplies by 2^k modulo 2^256: the word of `x << k` is the word
/// of `x` times 2^k, modulo 2^256, for every shift (256 bits or more give zero), and the
/// result is a value of `I256` congruent to `x * 2^k`.
pub proof fn law_shl_multiplies(x: I256, k: nat)
    ensures
        raw_of(shl_value(x@, k)) == (x.raw() * pow2(k)) % modulus(),
        fits(shl_value(x@, k)),
        k < 256 ==> (shl_value(x@, k) - x@ * pow2(k)) % (modulus() as int) == 0,
{
    let m = modulus() as int;
    let p = pow2(k);
    lemma_view_fits(x);
    lemma_raw_bound(x);
    lemma_word_powers();
    lemma_pow2_pos(k);
    if k >= 256 {
        lemma_pow2_adds(256, (k - 256) as nat);
        let q = pow2((k - 256) as nat);
        assert(x.raw() * p == (x.raw() * q) * m) by (nonlinear_arith)
            requires
                p == m * q,
        ;
        lemma_mod_multiples_basic((x.raw() * q) as int, m);
        assert(raw_of(0) == 0);
    } else {
        let c: int = if x.raw() < half_modulus() {
            0
        } else {
            1
        };
        assert(x.raw() == x@ + c * m);
        assert(x.raw() * p == x@ * p + (c * p) * m) by (nonlinear_arith)
            requires
                x.raw() == x@ + c * m,
        ;
        lemma_raw_of_congruent((x.raw() * p) as int, x@ * p, c * p);
        lemma_raw_of_bound(x@ * p);
        lemma_mod_window(wrap(x@ * p));
        lemma_raw_of_congruent(wrap(x@ * p), x@ * p, (wrap(x@ * p) - x@ * p) / m);
        assert(raw_of(wrap(x@ * p)) == raw_of(x@ * p)) by {
            law_wrap(x@ * p);
        }
        assert((wrap(x@ * p) - x@ * p) % m == 0) by {
            lemma_fundamental_div_mod(x@ * p, m);
            assert(wrap(x@ * p) == signed(raw_of(x@ * p)));
            let r = raw_of(x@ * p);
            let d = if r < half_modulus() {
                0int
            } else {
                -1int
            };
            assert(wrap(x@ * p) == r + d * m);
            assert(wrap(x@ * p) - x@ * p == (d - (x@ * p) / m) * m);
            lemma_mod_multiples_basic(d - (x@ * p) / m, m);
        }
    }
}

/// A sum grows by each value added to it: the sum of nothing is zero, the sum of `s`
/// followed by `x` is the sum of `s` plus `x`, and the sum of two sequences one after the
/// other is the sum of their sums. So `I256::sum` gives the total of all the values,
/// whatever they are and wherever they repeat.
pub proof fn law_sum_appends(s: Seq<I256>, t: Seq<I256>, x: I256)
    ensures
        sum_of(Seq::<I256>::empty()) == 0,
        sum_of(s.push(x)) == sum_of(s) + x@,
        sum_of(s + t) == sum_of(s) + sum_of(t),
    decreases t.len(),
{
    assert(s.push(x).drop_last() =~= s);
    if t.len() > 0 {
        law_sum_appends(s, t.drop_last(), x);
        assert((s + t).drop_last() =~= s + t.drop_last());
    } else {
        assert(s + t =~= s);
    }
}

/// A product grows by each factor multiplied into it: the product of nothing is one, the
/// product of `s` followed by `x` is the product of `s` times `x`, and the product of two
/// sequences one after the other is the product of their products. So `I256::product`
/// gives the product of all the values, a factor of one or minus one included.
pub proof fn law_product_appends(s: Seq<I256>, t: Seq<I256>, x: I256)
    ensures
        product_of(Seq::<I256>::empty()) == 1,
        product_of(s.push(x)) == product_of(s) * x@,
        product_of(s + t) == product_of(s) * product_of(t),
    decreases t.len(),
{
    assert(s.push(x).drop_last() =~= s);
    if t.len() > 0 {
        law_product_appends(s, t.drop_last(), x);
        assert((s + t).drop_last() =~= s + t.drop_last());
        lemma_mul_is_associative(product_of(s), product_of(t.drop_last()), t.last()@);
    } else {
        assert(s + t =~= s);
    }
}

/// The call data of a `CallInput`: a field that is set alone is returned with its bytes
/// unchanged, whatever they are; two fields that are set are refused exactly where their
/// bytes differ, and give those bytes where they agree; no field gives no data.
pub proof fn law_unique_input(c: CallInput)
    ensures
        c.input is Some && c.data is None ==> unique_input_of(
            bytes_view(c.input),
            bytes_view(c.data),
        ) == Some(Some(c.input.unwrap()@)),
        c.input is None && c.data is Some ==> unique_input_of(
            bytes_view(c.input),
            bytes_view(c.data),
        ) == Some(Some(c.data.unwrap()@)),
        c.input is None && c.data is None ==> unique_input_of(
            bytes_view(c.input),
            bytes_view(c.data),
        ) == Some(None::<Seq<u8>>),
        c.input is Some && c.data is Some ==> ((unique_input_of(
            bytes_view(c.input),
            bytes_view(c.data),
        ) is None) <==> c.input.unwrap()@ != c.data.unwrap()@),
        c.input is Some && c.data is Some && c.input.unwrap()@ == c.data.unwrap()@
            ==> unique_input_of(bytes_view(c.input), bytes_view(c.data)) == Some(
            Some(c.input.unwrap()@),
        ),
{
}

/// A borrowed field is read as the bytes it holds.
pub proof fn law_bytes_ref_view(b: &Bytes)
    ensures
        bytes_ref_view(Some(b)) == Some(b.0@),
        bytes_ref_view(None::<&Bytes>) == None::<Seq<u8>>,
{
}

/// The bit counts of a word: zero has no one bit and 2^k has one; the one bits of a number
/// below 2^k and of a number placed above it add up (so `count_ones` counts each one bit
/// once). A positive number takes `bit_length` bits, the least L with the number below
/// 2^L (so `leading_zeros` is 256 less that), and it is 2^t times an odd number, t its
/// trailing zeros.
pub proof fn law_bit_counting(a: nat, b: nat, k: nat, n: nat)
    ensures
        crate::uint::popcount(0) == 0,
        crate::uint::popcount(pow2(k)) == 1,
        a < pow2(k) ==> crate::uint::popcount(a + pow2(k) * b) == crate::uint::popcount(a)
            + crate::uint::popcount(b),
        bit_length(0) == 0,
        n > 0 ==> pow2((bit_length(n) - 1) as nat) <= n < pow2(bit_length(n)),
        n > 0 ==> n % pow2(crate::uint::trailing_zero_bits(n)) == 0,
        n > 0 ==> (n / pow2(crate::uint::trailing_zero_bits(n))) % 2 == 1,
{
    lemma2_to64();
    lemma_pow2_pos(k);
    crate::uint::lemma_popcount_split(0, 1, k);
    assert(crate::uint::popcount(1) == 1 + crate::uint::popcount(0));
    assert(0 + pow2(k) * 1 == pow2(k));
    if a < pow2(k) {
        crate::uint::lemma_popcount_split(a, b, k);
    }
    if n > 0 {
        lemma_bit_length_range(n);
        crate::uint::lemma_trailing_zeros_split(n);
        let t = crate::uint::trailing_zero_bits(n);
        lemma_pow2_pos(t);
        lemma_mod_multiples_basic((n / pow2(t)) as int, pow2(t) as int);
        assert(n == (n / pow2(t)) * pow2(t)) by (nonlinear_arith)
            requires
                n == pow2(t) * (n / pow2(t)),
        ;
    }
}

/// The sign and the size of a number: the sign is negative exactly below zero; the absolute
/// value is the number or its negation and never negative; `signum` times the absolute
/// value is the number, and it is -1, 0 or 1; a sign put in front of a magnitude negates
/// it exactly when the sign is negative.
pub proof fn law_sign_and_size(x: int, n: nat)
    ensures
        sign_of(x) == Sign::Negative <==> x < 0,
        abs(x) >= 0 && (abs(x) == x || abs(x) == -x),
        crate::i256::signum(x) * abs(x) == x,
        crate::i256::signum(x) == -1 || crate::i256::signum(x) == 0 || crate::i256::signum(x) == 1,
        x == 0 ==> crate::i256::signum(x) == 0,
        apply_sign(Sign::Positive, n) == n,
        apply_sign(Sign::Negative, n) == -n,
{
}

/// The text of a sign: a minus for a negative sign, a plus for a positive one where the
/// `+` flag is given, and nothing otherwise.
pub proof fn law_sign_text(plus: bool)
    ensures
        crate::sign::sign_text(Sign::Negative, plus) == seq!['-'],
        crate::sign::sign_text(Sign::Positive, true) == seq!['+'],
        crate::sign::sign_text(Sign::Positive, false) == Seq::<char>::empty(),
{
    reveal_strlit("-");
    reveal_strlit("+");
    reveal_strlit("");
}

/// Call inputs and their bytes: two `Bytes` are equal exactly when they hold the same
/// bytes, two call inputs exactly when both fields agree (both unset, or both set to the
/// same bytes); `Bytes` and `Option<Bytes>` become a call input with that `input` and no
/// `data`.
pub proof fn law_call_input_values(p: Bytes, q: Bytes, x: CallInput, y: CallInput, o: Option<Bytes>)
    ensures
        p.eq_spec(&q) <==> p.0@ == q.0@,
        x.eq_spec(&y) <==> ((x.input is None <==> y.input is None) && (x.data is None
            <==> y.data is None) && (x.input is Some ==> x.input.unwrap().0@
            == y.input.unwrap().0@) && (x.data is Some ==> x.data.unwrap().0@
            == y.data.unwrap().0@)),
        CallInput::from_spec(p).input == Some(p) && CallInput::from_spec(p).data is None,
        CallInput::from_spec(o).input == o && CallInput::from_spec(o).data is None,
{
}

/// Words and values: every number is held in a word below 2^256 that is congruent to it;
/// a word read in two's complement is a value of `I256` congruent to the word, negative
/// exactly when the top bit (2^255) is set; and the value of every `I256` is the reading
/// of its word.
pub proof fn law_word_and_value(n: int, u: nat, x: I256)
    ensures
        raw_of(n) < modulus(),
        (raw_of(n) - n) % (modulus() as int) == 0,
        u < modulus() ==> fits(signed(u)) && (signed(u) - u) % (modulus() as int) == 0,
        u < modulus() ==> (signed(u) < 0 <==> u >= half_modulus()),
        x@ == signed(x.raw()),
        x.raw() < modulus(),
{
    let m = modulus() as int;
    lemma_raw_of_bound(n);
    lemma_fundamental_div_mod(n, m);
    assert(raw_of(n) - n == (-(n / m)) * m) by (nonlinear_arith)
        requires
            n == m * (n / m) + n % m,
            raw_of(n) == n % m,
    ;
    lemma_mod_multiples_basic(-(n / m), m);
    lemma_mod_multiples_basic(0, m);
    lemma_mod_multiples_basic(-1, m);
    lemma_raw_bound(x);
}

} // verus!
