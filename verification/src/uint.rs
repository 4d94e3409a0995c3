use vstd::arithmetic::div_mod::*;
use vstd::arithmetic::power2::*;
use vstd::prelude::*;

verus! {

/// Unsigned 256-bit integer held as four 64-bit words, least significant word first.
#[derive(Clone, Copy, Debug, PartialEq, Eq, Structural, Hash)]
pub struct U256(pub u64, pub u64, pub u64, pub u64);

/// 2^64, the weight of the second word.
pub open spec fn base1() -> nat {
    0x10000000000000000nat
}

/// 2^128, the weight of the third word.
pub open spec fn base2() -> nat {
    0x100000000000000000000000000000000nat
}

/// 2^192, the weight of the fourth word.
pub open spec fn base3() -> nat {
    0x1000000000000000000000000000000000000000000000000nat
}

/// 2^255: the least value whose top bit is set.
pub open spec fn half_modulus() -> nat {
    0x8000000000000000000000000000000000000000000000000000000000000000nat
}

/// 2^256: the number of distinct 256-bit values.
pub open spec fn modulus() -> nat {
    0x10000000000000000000000000000000000000000000000000000000000000000nat
}

/// The number that four little-endian words stand for.
pub open spec fn words_value(w0: u64, w1: u64, w2: u64, w3: u64) -> nat {
    (w0 + w1 * base1() + w2 * base2() + w3 * base3()) as nat
}

impl View for U256 {
    type V = nat;

    open spec fn view(&self) -> nat {
        words_value(self.0, self.1, self.2, self.3)
    }
}

/// Bitwise and of two naturals.
pub open spec fn bit_and(a: nat, b: nat) -> nat
    decreases a,
{
    if a == 0 || b == 0 {
        0
    } else {
        bit_and(a / 2, b / 2) * 2 + (if a % 2 == 1 && b % 2 == 1 {
            1nat
        } else {
            0nat
        })
    }
}

/// Bitwise or of two naturals.
pub open spec fn bit_or(a: nat, b: nat) -> nat
    decreases a + b,
{
    if a == 0 {
        b
    } else if b == 0 {
        a
    } else {
        bit_or(a / 2, b / 2) * 2 + (if a % 2 == 1 || b % 2 == 1 {
            1nat
        } else {
            0nat
        })
    }
}

/// Bitwise exclusive or of two naturals.
pub open spec fn bit_xor(a: nat, b: nat) -> nat
    decreases a + b,
{
    if a == 0 {
        b
    } else if b == 0 {
        a
    } else {
        bit_xor(a / 2, b / 2) * 2 + (if a % 2 != b % 2 {
            1nat
        } else {
            0nat
        })
    }
}

/// The number of one bits in the binary representation of `n`.
pub open spec fn popcount(n: nat) -> nat
    decreases n,
{
    if n == 0 {
        0
    } else {
        n % 2 + popcount(n / 2)
    }
}

/// The number of bits needed to write `n` in binary (zero for zero).
pub open spec fn bit_length(n: nat) -> nat
    decreases n,
{
    if n == 0 {
        0
    } else {
        1 + bit_length(n / 2)
    }
}

/// The number of zero bits below the lowest one bit of a positive `n`.
pub open spec fn trailing_zero_bits(n: nat) -> nat
    decreases n,
{
    if n == 0 || n % 2 == 1 {
        0
    } else {
        1 + trailing_zero_bits(n / 2)
    }
}

/// The character of digit `d` (below 16): `0`-`9`, then `a`-`f` or `A`-`F`.
pub open spec fn digit_char(d: nat, upper: bool) -> char {
    if d < 10 {
        (48 + d) as char
    } else if upper {
        (55 + d) as char
    } else {
        (87 + d) as char
    }
}

/// The decimal digits of `n`, most significant first, without leading zeros ("0" for 0).
pub open spec fn decimal_digits(n: nat) -> Seq<char>
    decreases n,
{
    if n < 10 {
        seq![digit_char(n, false)]
    } else {
        decimal_digits(n / 10).push(digit_char(n % 10, false))
    }
}

/// The hexadecimal digits of `n`, most significant first, without leading zeros ("0" for 0).
pub open spec fn hex_digits(n: nat, upper: bool) -> Seq<char>
    decreases n,
{
    if n < 16 {
        seq![digit_char(n, upper)]
    } else {
        hex_digits(n / 16, upper).push(digit_char(n % 16, upper))
    }
}

/// Bit `i` of `n`.
pub open spec fn nth_bit(n: nat, i: nat) -> bool {
    (n / pow2(i)) % 2 == 1
}

/// Byte `i` of `n`, counting from the least significant.
pub open spec fn nth_byte(n: nat, i: nat) -> nat {
    (n / pow2(8 * i)) % 256
}

/// The powers of two that weigh the words of a 256-bit value.
pub proof fn lemma_word_powers()
    ensures
        pow2(64) == base1(),
        pow2(128) == base2(),
        pow2(192) == base3(),
        pow2(255) == half_modulus(),
        pow2(256) == modulus(),
{
    lemma2_to64();
    lemma2_to64_rest();
    lemma_pow2_adds(64, 64);
    lemma_pow2_adds(128, 64);
    lemma_pow2_adds(192, 63);
    lemma_pow2_adds(255, 1);
}

/// Two 256-bit integers with the same value are the same.
pub proof fn lemma_value_injective(a: U256, b: U256)
    requires
        a@ == b@,
    ensures
        a == b,
{
    assert(a.3 == b.3);
    assert(a.2 == b.2);
    assert(a.1 == b.1);
}

impl Default for U256 {
    fn default() -> (r: U256)
        ensures
            r@ == 0,
    {
        U256::zero()
    }
}

impl U256 {
    /// Zero.
    pub fn zero() -> (r: U256)
        ensures
            r@ == 0,
    {
        U256(0, 0, 0, 0)
    }

    /// One.
    pub fn one() -> (r: U256)
        ensures
            r@ == 1,
    {
        U256(1, 0, 0, 0)
    }

    /// The largest value, 2^256 - 1.
    pub fn max_value() -> (r: U256)
        ensures
            r@ == modulus() - 1,
    {
        U256(u64::MAX, u64::MAX, u64::MAX, u64::MAX)
    }

    /// The value of a 64-bit integer.
    pub fn from_u64(v: u64) -> (r: U256)
        ensures
            r@ == v,
    {
        U256(v, 0, 0, 0)
    }

    /// The value of a `usize`.
    pub fn from_usize(v: usize) -> (r: U256)
        ensures
            r@ == v,
    {
        U256(v as u64, 0, 0, 0)
    }

    /// The value of a 128-bit integer.
    pub fn from_u128(v: u128) -> (r: U256)
        ensures
            r@ == v,
    {
        let lo = v as u64;
        let hi = (v >> 64u128) as u64;
        assert(lo == v % 0x10000000000000000) by (bit_vector)
            requires
                lo == v as u64,
        ;
        assert(hi == v / 0x10000000000000000) by (bit_vector)
            requires
                hi == (v >> 64u128) as u64,
        ;
        U256(lo, hi, 0, 0)
    }

    /// The low 64 bits.
    pub fn low_u64(&self) -> (r: u64)
        ensures
            r == self@ % base1(),
    {
        proof {
            let q = self.1 + self.2 * base1() + self.3 * base2();
            assert(self@ == q * base1() + self.0) by (nonlinear_arith)
                requires
                    self@ == self.0 + self.1 * base1() + self.2 * base2() + self.3 * base3(),
                    q == self.1 + self.2 * base1() + self.3 * base2(),
                    base2() == base1() * base1(),
                    base3() == base2() * base1(),
            ;
            lemma_fundamental_div_mod_converse(self@ as int, base1() as int, q, self.0 as int);
        }
        self.0
    }

    /// The low 128 bits.
    pub fn low_u128(&self) -> (r: u128)
        ensures
            r == self@ % base2(),
    {
        let lo = self.0 as u128;
        let hi = self.1 as u128;
        let r = (hi << 64u128) | lo;
        assert(r == lo + hi * 0x10000000000000000) by (bit_vector)
            requires
                r == (hi << 64u128) | lo,
                lo < 0x10000000000000000,
                hi < 0x10000000000000000,
        ;
        proof {
            let q = self.2 + self.3 * base1();
            assert(self@ == q * base2() + r) by (nonlinear_arith)
                requires
                    self@ == self.0 + self.1 * base1() + self.2 * base2() + self.3 * base3(),
                    q == self.2 + self.3 * base1(),
                    r == self.0 + self.1 * base1(),
                    base3() == base2() * base1(),
            ;
            lemma_fundamental_div_mod_converse(self@ as int, base2() as int, q, r as int);
        }
        r
    }

    /// Whether this is zero.
    pub fn is_zero(&self) -> (r: bool)
        ensures
            r == (self@ == 0),
    {
        self.0 == 0 && self.1 == 0 && self.2 == 0 && self.3 == 0
    }

    /// Bitwise complement: 2^256 - 1 - self.
    pub fn not(self) -> (r: U256)
        ensures
            r@ == modulus() - 1 - self@,
    {
        let (a, b, c, d) = (self.0, self.1, self.2, self.3);
        assert(!a == 0xffff_ffff_ffff_ffffu64 - a) by (bit_vector);
        assert(!b == 0xffff_ffff_ffff_ffffu64 - b) by (bit_vector);
        assert(!c == 0xffff_ffff_ffff_ffffu64 - c) by (bit_vector);
        assert(!d == 0xffff_ffff_ffff_ffffu64 - d) by (bit_vector);
        U256(!a, !b, !c, !d)
    }

    /// Whether `self` is less than `other`.
    pub fn lt(&self, other: &U256) -> (r: bool)
        ensures
            r == (self@ < other@),
    {
        if self.3 != other.3 {
            self.3 < other.3
        } else if self.2 != other.2 {
            self.2 < other.2
        } else if self.1 != other.1 {
            self.1 < other.1
        } else {
            self.0 < other.0
        }
    }
}

/// The one bits of a number below 2^k and those of a number above it add up.
pub proof fn lemma_popcount_split(a: nat, b: nat, k: nat)
    requires
        a < pow2(k),
    ensures
        popcount(a + pow2(k) * b) == popcount(a) + popcount(b),
    decreases k,
{
    if k == 0 {
        lemma2_to64();
        assert(pow2(k) == 1);
        assert(a == 0 && a + pow2(k) * b == b) by (nonlinear_arith)
            requires
                pow2(k) == 1,
                a < pow2(k),
        ;
    } else {
        let h = pow2((k - 1) as nat);
        lemma_pow2_unfold(k);
        lemma_pow2_pos((k - 1) as nat);
        let x = a + pow2(k) * b;
        assert(x == a + 2 * (h * b)) by (nonlinear_arith)
            requires
                x == a + pow2(k) * b,
                pow2(k) == 2 * h,
        ;
        assert(h * b >= 0) by (nonlinear_arith)
            requires
                h > 0,
        ;
        if x != 0 {
            assert(x % 2 == a % 2 && x / 2 == a / 2 + h * b);
            lemma_popcount_split(a / 2, b, (k - 1) as nat);
            assert(popcount(x) == x % 2 + popcount(x / 2));
            assert(popcount(a) == a % 2 + popcount(a / 2)) by {
                if a == 0 {
                    assert(popcount(0) == 0);
                }
            }
        } else {
            assert(b == 0) by (nonlinear_arith)
                requires
                    a + 2 * (h * b) == 0,
                    h > 0,
            ;
        }
    }
}

/// A number below 2^k has at most k one bits.
pub proof fn lemma_popcount_bound(a: nat, k: nat)
    requires
        a < pow2(k),
    ensures
        popcount(a) <= k,
    decreases k,
{
    if k == 0 {
        lemma2_to64();
    } else if a != 0 {
        lemma_pow2_unfold(k);
        lemma_popcount_bound(a / 2, (k - 1) as nat);
    }
}

/// The one bits of a 256-bit value are those of its four words.
pub proof fn lemma_popcount_words(x: U256)
    ensures
        popcount(x@) == popcount(x.0 as nat) + popcount(x.1 as nat) + popcount(x.2 as nat)
            + popcount(x.3 as nat),
        popcount(x.0 as nat) <= 64,
        popcount(x.1 as nat) <= 64,
        popcount(x.2 as nat) <= 64,
        popcount(x.3 as nat) <= 64,
{
    lemma_word_powers();
    let b = base1();
    let hi2 = x.2 + b * x.3;
    let hi1 = x.1 + b * hi2;
    assert(x@ == x.0 + b * hi1) by (nonlinear_arith)
        requires
            x@ == x.0 + x.1 * b + x.2 * base2() + x.3 * base3(),
            base2() == b * b,
            base3() == b * b * b,
            hi2 == x.2 + b * x.3,
            hi1 == x.1 + b * hi2,
    ;
    lemma_popcount_split(x.2 as nat, x.3 as nat, 64);
    lemma_popcount_split(x.1 as nat, hi2 as nat, 64);
    lemma_popcount_split(x.0 as nat, hi1 as nat, 64);
    lemma_popcount_bound(x.0 as nat, 64);
    lemma_popcount_bound(x.1 as nat, 64);
    lemma_popcount_bound(x.2 as nat, 64);
    lemma_popcount_bound(x.3 as nat, 64);
}

/// Or-ing in a multiple of 2^j leaves the bits below 2^j alone and ors the bits above.
pub proof fn lemma_bit_or_split(a: nat, d: nat, c: nat, j: nat)
    requires
        a < pow2(j),
    ensures
        bit_or(a + d * pow2(j), c * pow2(j)) == a + bit_or(d, c) * pow2(j),
    decreases j,
{
    let p = pow2(j);
    let x = a + d * p;
    let y = c * p;
    if j == 0 {
        lemma2_to64();
    } else {
        let h = pow2((j - 1) as nat);
        lemma_pow2_unfold(j);
        lemma_pow2_pos((j - 1) as nat);
        assert(x == a + 2 * (d * h) && y == 2 * (c * h) && d * h >= 0 && c * h >= 0)
            by (nonlinear_arith)
            requires
                x == a + d * p,
                y == c * p,
                p == 2 * h,
                h > 0,
        ;
        if x == 0 {
            assert(d == 0) by (nonlinear_arith)
                requires
                    a + 2 * (d * h) == 0,
                    h > 0,
            ;
            assert(y == bit_or(d, c) * p) by (nonlinear_arith)
                requires
                    y == c * p,
                    bit_or(d, c) == c,
            ;
        } else if y == 0 {
            assert(c == 0) by (nonlinear_arith)
                requires
                    2 * (c * h) == 0,
                    h > 0,
            ;
        } else {
            assert(x % 2 == a % 2 && x / 2 == a / 2 + d * h);
            assert(y % 2 == 0 && y / 2 == c * h);
            lemma_bit_or_split(a / 2, d, c, (j - 1) as nat);
            if d == 0 || c == 0 {
                assert(bit_or(a / 2 + d * h, c * h) == a / 2 + bit_or(d, c) * h);
            }
            assert(bit_or(d, c) * p == 2 * (bit_or(d, c) * h)) by (nonlinear_arith)
                requires
                    p == 2 * h,
            ;
        }
    }
}

impl U256 {
    /// The 256-bit integer whose value is `n`, for `n` below 2^256.
    pub open spec fn from_nat(n: nat) -> U256 {
        U256(
            (n % base1()) as u64,
            ((n / base1()) % base1()) as u64,
            ((n / base2()) % base1()) as u64,
            (n / base3()) as u64,
        )
    }
}

/// The words that `from_nat` picks add up to the number they came from.
pub proof fn lemma_from_nat(n: nat)
    requires
        n < modulus(),
    ensures
        U256::from_nat(n)@ == n,
{
    let n = n as int;
    let b = base1() as int;
    lemma_word_powers();
    lemma_fundamental_div_mod(n, b);
    lemma_mod_bound(n, b);
    let n1 = n / b;
    lemma_fundamental_div_mod(n1, b);
    lemma_mod_bound(n1, b);
    let n2 = n1 / b;
    lemma_fundamental_div_mod(n2, b);
    lemma_mod_bound(n2, b);
    let n3 = n2 / b;
    lemma_div_pos_is_pos(n, b);
    lemma_div_pos_is_pos(n1, b);
    lemma_div_pos_is_pos(n2, b);
    lemma_div_denominator(n, b, b);
    lemma_div_denominator(n, b * b, b);
    assert(n3 < b) by (nonlinear_arith)
        requires
            n == b * (b * (b * n3 + n2 % b) + n1 % b) + n % b,
            0 <= n % b,
            0 <= n1 % b,
            0 <= n2 % b,
            n < modulus(),
            modulus() == b * b * b * b,
            b > 0,
    ;
    assert(n == n % b + (n1 % b) * b + (n2 % b) * (b * b) + n3 * (b * b * b)) by (nonlinear_arith)
        requires
            n == b * n1 + n % b,
            n1 == b * n2 + n1 % b,
            n2 == b * n3 + n2 % b,
    ;
}

/// A positive number is its trailing zeros times an odd number, which carries all of its
/// one bits.
pub proof fn lemma_trailing_zeros_split(n: nat)
    requires
        n > 0,
    ensures
        n == pow2(trailing_zero_bits(n)) * (n / pow2(trailing_zero_bits(n))),
        (n / pow2(trailing_zero_bits(n))) % 2 == 1,
        popcount(n) == popcount(n / pow2(trailing_zero_bits(n))),
    decreases n,
{
    let t = trailing_zero_bits(n);
    if n % 2 == 1 {
        lemma2_to64();
        assert(t == 0);
        lemma_div_basics(n as int);
    } else {
        let h = n / 2;
        lemma_trailing_zeros_split(h);
        let th = trailing_zero_bits(h);
        assert(t == th + 1);
        lemma_pow2_unfold(t);
        lemma_pow2_pos(th);
        let o = h / pow2(th);
        assert(n == 2 * h);
        assert(n == pow2(t) * o) by (nonlinear_arith)
            requires
                n == 2 * h,
                h == pow2(th) * o,
                pow2(t) == 2 * pow2(th),
        ;
        lemma_div_multiples_vanish(o as int, pow2(t) as int);
        assert(popcount(n) == popcount(h));
    }
}

/// Trailing zeros of `2^s` times an odd number: `s`.
pub proof fn lemma_trailing_zeros_of(s: nat, o: nat)
    requires
        o % 2 == 1,
    ensures
        trailing_zero_bits(pow2(s) * o) == s,
    decreases s,
{
    if s == 0 {
        lemma2_to64();
        assert(pow2(s) * o == o) by (nonlinear_arith)
            requires
                pow2(s) == 1,
        ;
    } else {
        lemma_pow2_unfold(s);
        lemma_pow2_pos((s - 1) as nat);
        let n = pow2(s) * o;
        let m = pow2((s - 1) as nat) * o;
        assert(n == 2 * m && m > 0) by (nonlinear_arith)
            requires
                n == pow2(s) * o,
                m == pow2((s - 1) as nat) * o,
                pow2(s) == 2 * pow2((s - 1) as nat),
                pow2((s - 1) as nat) > 0,
                o > 0,
        ;
        lemma_trailing_zeros_of((s - 1) as nat, o);
    }
}

/// A number below 2^k has k one bits just when it is 2^k - 1.
pub proof fn lemma_popcount_full(o: nat, k: nat)
    requires
        o < pow2(k),
    ensures
        (popcount(o) == k) == (o == pow2(k) - 1),
    decreases k,
{
    if k == 0 {
        lemma2_to64();
    } else {
        lemma_pow2_unfold(k);
        lemma_pow2_pos((k - 1) as nat);
        if o > 0 {
            lemma_popcount_full(o / 2, (k - 1) as nat);
            lemma_popcount_bound(o / 2, (k - 1) as nat);
        }
    }
}

/// 2^t takes t + 1 bits.
pub proof fn lemma_bit_length_pow2(t: nat)
    ensures
        bit_length(pow2(t)) == t + 1,
    decreases t,
{
    if t == 0 {
        lemma2_to64();
        assert(bit_length(1) == 1 + bit_length(0));
    } else {
        lemma_pow2_unfold(t);
        lemma_pow2_pos((t - 1) as nat);
        lemma_bit_length_pow2((t - 1) as nat);
        assert(pow2(t) / 2 == pow2((t - 1) as nat));
    }
}

/// A number below 2^k takes at most k bits.
pub proof fn lemma_bit_length_bound(n: nat, k: nat)
    requires
        n < pow2(k),
    ensures
        bit_length(n) <= k,
    decreases k,
{
    if k == 0 {
        lemma2_to64();
    } else if n != 0 {
        lemma_pow2_unfold(k);
        lemma_bit_length_bound(n / 2, (k - 1) as nat);
    }
}

/// The number that a digit character stands for: `0`-`9`, then `a`-`f` and `A`-`F` for ten
/// to fifteen (zero for any other character).
pub open spec fn char_digit(c: char) -> nat {
    let v = c as int;
    if 48 <= v <= 57 {
        (v - 48) as nat
    } else if 97 <= v <= 102 {
        (v - 87) as nat
    } else if 65 <= v <= 70 {
        (v - 55) as nat
    } else {
        0
    }
}

/// The number that a string of digits reads as in base `base`, most significant first.
pub open spec fn digits_value(s: Seq<char>, base: nat) -> nat
    decreases s.len(),
{
    if s.len() == 0 {
        0
    } else {
        digits_value(s.drop_last(), base) * base + char_digit(s.last())
    }
}

/// Whether `c` is a digit of base `base` (at most sixteen) written in the given case.
pub open spec fn is_digit_char(c: char, base: nat, upper: bool) -> bool {
    let v = c as int;
    ||| 48 <= v <= 57 && v - 48 < base
    ||| !upper && 97 <= v <= 102 && v - 87 < base
    ||| upper && 65 <= v <= 70 && v - 55 < base
}

/// A digit below sixteen is written as a digit character that reads back as it.
proof fn lemma_digit_char(d: nat, upper: bool, base: nat)
    requires
        d < base <= 16,
    ensures
        char_digit(digit_char(d, upper)) == d,
        is_digit_char(digit_char(d, upper), base, upper),
        (digit_char(d, upper) == '0') == (d == 0),
{
}

/// The text of a number in base ten or sixteen reads back as that number: its digits are
/// digits of the base, in the requested case for sixteen, they read as `n`, and the first
/// is not `0` unless the number is zero, which is written `0`.
pub proof fn law_digits(n: nat, upper: bool)
    ensures
        digits_value(decimal_digits(n), 10) == n,
        digits_value(hex_digits(n, upper), 16) == n,
        decimal_digits(n).len() >= 1,
        hex_digits(n, upper).len() >= 1,
        forall|i: int|
            0 <= i < decimal_digits(n).len() ==> is_digit_char(#[trigger] decimal_digits(n)[i], 10, false),
        forall|i: int|
            0 <= i < hex_digits(n, upper).len() ==> is_digit_char(#[trigger] hex_digits(n, upper)[i], 16, upper),
        (decimal_digits(n)[0] == '0') == (n == 0),
        (hex_digits(n, upper)[0] == '0') == (n == 0),
        n == 0 ==> decimal_digits(n) == seq!['0'] && hex_digits(n, upper) == seq!['0'],
    decreases n,
{
    if n < 10 {
        lemma_digit_char(n, false, 10);
        let s = decimal_digits(n);
        assert(s == seq![digit_char(n, false)]);
        assert(s.drop_last() =~= Seq::<char>::empty());
        assert(digits_value(s.drop_last(), 10) == 0);
        assert(digits_value(s, 10) == digits_value(s.drop_last(), 10) * 10 + char_digit(s.last()));
    } else {
        law_digits(n / 10, upper);
        lemma_digit_char(n % 10, false, 10);
        let t = decimal_digits(n / 10);
        let s = decimal_digits(n);
        assert(s == t.push(digit_char(n % 10, false)));
        assert(s.drop_last() =~= t);
        assert(digits_value(s, 10) == digits_value(t, 10) * 10 + char_digit(s.last()));
        lemma_fundamental_div_mod(n as int, 10);
        assert forall|i: int| 0 <= i < s.len() implies is_digit_char(#[trigger] s[i], 10, false) by {
            if i < t.len() {
                assert(s[i] == t[i]);
            }
        }
        assert(s[0] == t[0]);
    }
    if n < 16 {
        lemma_digit_char(n, upper, 16);
        let s = hex_digits(n, upper);
        assert(s == seq![digit_char(n, upper)]);
        assert(s.drop_last() =~= Seq::<char>::empty());
        assert(digits_value(s.drop_last(), 16) == 0);
        assert(digits_value(s, 16) == digits_value(s.drop_last(), 16) * 16 + char_digit(s.last()));
    } else {
        law_digits(n / 16, upper);
        lemma_digit_char(n % 16, upper, 16);
        let t = hex_digits(n / 16, upper);
        let s = hex_digits(n, upper);
        assert(s == t.push(digit_char(n % 16, upper)));
        assert(s.drop_last() =~= t);
        assert(digits_value(s, 16) == digits_value(t, 16) * 16 + char_digit(s.last()));
        lemma_fundamental_div_mod(n as int, 16);
        assert forall|i: int| 0 <= i < s.len() implies is_digit_char(#[trigger] s[i], 16, upper) by {
            if i < t.len() {
                assert(s[i] == t[i]);
            }
        }
        assert(s[0] == t[0]);
    }
}

/// Bit 0 of `n` is its parity, and bit `i + 1` of `n` is bit `i` of `n / 2`.
proof fn lemma_nth_bit_step(n: nat, i: nat)
    ensures
        nth_bit(n, 0) == (n % 2 == 1),
        nth_bit(n, i + 1) == nth_bit(n / 2, i),
        nth_bit(0, i) == false,
{
    lemma2_to64();
    lemma_pow2_unfold(i + 1);
    lemma_pow2_pos(i);
    lemma_div_denominator(n as int, 2, pow2(i) as int);
    assert(n / 1 == n);
    lemma_basic_div(0, pow2(i) as int);
}

/// `2 * c + d`, for a bit `d`, has parity `d` and half `c`.
proof fn lemma_halves(c: nat, d: nat)
    requires
        d < 2,
    ensures
        (c * 2 + d) % 2 == d,
        (c * 2 + d) / 2 == c,
{
    lemma_fundamental_div_mod_converse((c * 2 + d) as int, 2, c as int, d as int);
}

/// The bits of a number, one by one: bit 0 is its parity, bit `i + 1` is bit `i` of its
/// half, and zero has no bit set; byte `i` is below 256 and its bit `j` is bit `8i + j` of
/// the number (so `byte` and the byte order of `to_big_endian` / `to_little_endian` give
/// the bits of the word, eight at a time).
pub proof fn law_bits_and_bytes(n: nat, i: nat, j: nat)
    ensures
        nth_bit(n, 0) == (n % 2 == 1),
        nth_bit(n, i + 1) == nth_bit(n / 2, i),
        nth_bit(0, i) == false,
        nth_byte(n, i) < 256,
        j < 8 ==> nth_bit(nth_byte(n, i), j) == nth_bit(n, 8 * i + j),
{
    lemma_nth_bit_step(n, i);
    let w = pow2(8 * i);
    lemma_pow2_pos(8 * i);
    let x = n / w;
    lemma_mod_bound(x as int, 256);
    if j < 8 {
        let p = pow2(j);
        let q = pow2((8 - j) as nat);
        lemma_pow2_pos(j);
        lemma_pow2_pos((8 - j) as nat);
        lemma_pow2_adds(j, (8 - j) as nat);
        lemma2_to64();
        assert(p * q == 256);
        lemma_mod_breakdown(x as int, p as int, q as int);
        lemma_mod_bound(x as int, p as int);
        lemma_fundamental_div_mod_converse(
            (x % 256) as int,
            p as int,
            ((x / p) % q) as int,
            (x % p) as int,
        );
        assert((8 - j) as nat > 0);
        lemma_pow2_unfold((8 - j) as nat);
        lemma_mod_mod((x / p) as int, 2, (q / 2) as int);
        assert(2 * (q / 2) == q);
        lemma_pow2_adds(8 * i, j);
        lemma_div_denominator(n as int, w as int, p as int);
    }
}

/// The bitwise operations work bit by bit: bit `i` of `a & b` is set exactly when it is set
/// in both, of `a | b` when it is set in either, and of `a ^ b` when it is set in exactly
/// one of them.
pub proof fn law_bitwise_bits(a: nat, b: nat, i: nat)
    ensures
        nth_bit(bit_and(a, b), i) == (nth_bit(a, i) && nth_bit(b, i)),
        nth_bit(bit_or(a, b), i) == (nth_bit(a, i) || nth_bit(b, i)),
        nth_bit(bit_xor(a, b), i) == (nth_bit(a, i) != nth_bit(b, i)),
    decreases i,
{
    if i == 0 {
        lemma_nth_bit_step(a, 0);
        lemma_nth_bit_step(b, 0);
        lemma_nth_bit_step(bit_and(a, b), 0);
        lemma_nth_bit_step(bit_or(a, b), 0);
        lemma_nth_bit_step(bit_xor(a, b), 0);
        if a != 0 && b != 0 {
            lemma_halves(bit_and(a / 2, b / 2), (if a % 2 == 1 && b % 2 == 1 { 1nat } else { 0nat }));
            lemma_halves(bit_or(a / 2, b / 2), (if a % 2 == 1 || b % 2 == 1 { 1nat } else { 0nat }));
            lemma_halves(bit_xor(a / 2, b / 2), (if a % 2 != b % 2 { 1nat } else { 0nat }));
        }
    } else {
        let j = (i - 1) as nat;
        law_bitwise_bits(a / 2, b / 2, j);
        lemma_nth_bit_step(a, j);
        lemma_nth_bit_step(b, j);
        lemma_nth_bit_step(bit_and(a, b), j);
        lemma_nth_bit_step(bit_or(a, b), j);
        lemma_nth_bit_step(bit_xor(a, b), j);
        lemma_nth_bit_step(0, j);
        if a != 0 && b != 0 {
            lemma_halves(bit_and(a / 2, b / 2), (if a % 2 == 1 && b % 2 == 1 { 1nat } else { 0nat }));
            lemma_halves(bit_or(a / 2, b / 2), (if a % 2 == 1 || b % 2 == 1 { 1nat } else { 0nat }));
            lemma_halves(bit_xor(a / 2, b / 2), (if a % 2 != b % 2 { 1nat } else { 0nat }));
        } else {
            lemma_basic_div(0, 2);
        }
    }
}

/// The bitwise operations of two numbers below 2^k stay below 2^k.
pub proof fn lemma_bitwise_bound(a: nat, b: nat, k: nat)
    requires
        a < pow2(k),
        b < pow2(k),
    ensures
        bit_and(a, b) < pow2(k),
        bit_or(a, b) < pow2(k),
        bit_xor(a, b) < pow2(k),
    decreases k,
{
    lemma2_to64();
    if k > 0 && a != 0 && b != 0 {
        lemma_pow2_unfold(k);
        lemma_bitwise_bound(a / 2, b / 2, (k - 1) as nat);
    }
}

/// The number of one bits of a 64-bit word, taken off its low end one bit at a time.
pub(crate) fn word_count_ones(w: u64) -> (r: u32)
    ensures
        r == popcount(w as nat),
        r <= 64,
{
    proof {
        lemma2_to64();
        lemma_popcount_bound(w as nat, 64);
    }
    let mut rest: u64 = w;
    let mut count: u32 = 0;
    while rest > 0
        invariant
            count + popcount(rest as nat) == popcount(w as nat),
            popcount(w as nat) <= 64,
        decreases rest,
    {
        count = count + (rest % 2) as u32;
        rest = rest / 2;
    }
    count
}

/// The number of zero bits of a 64-bit word.
pub(crate) fn word_count_zeros(w: u64) -> (r: u32)
    ensures
        r == 64 - popcount(w as nat),
{
    64 - word_count_ones(w)
}

} // verus!
