use vstd::prelude::*;

verus! {

/// The error returned when a conversion to or from a 256-bit integer does not fit.
#[derive(Clone, Copy, Debug, PartialEq, Eq, Structural)]
pub struct TryFromBigIntError;

/// The sign of a 256-bit signed integer.
#[derive(Clone, Copy, Debug, PartialEq, Eq, Structural)]
pub enum Sign {
    /// Greater than or equal to zero.
    Positive,
    /// Less than zero.
    Negative,
}

/// The text that the sign is written as: "-" when negative; "+" when positive and the `+`
/// flag (`sign_plus`) is set; nothing otherwise.
pub open spec fn sign_text(sign: Sign, sign_plus: bool) -> Seq<char> {
    if sign is Negative {
        "-"@
    } else if sign_plus {
        "+"@
    } else {
        ""@
    }
}

impl Sign {
    /// Returns whether the sign is positive.
    pub fn is_positive(&self) -> (r: bool)
        ensures
            r == (*self is Positive),
    {
        match self {
            Sign::Positive => true,
            Sign::Negative => false,
        }
    }

    /// Returns whether the sign is negative.
    pub fn is_negative(&self) -> (r: bool)
        ensures
            r == (*self is Negative),
    {
        match self {
            Sign::Positive => false,
            Sign::Negative => true,
        }
    }

    /// Returns the sign character.
    pub fn as_char(&self) -> (r: char)
        ensures
            r == (if *self is Positive { '+' } else { '-' }),
    {
        match self {
            Sign::Positive => '+',
            Sign::Negative => '-',
        }
    }

    /// The sign whose signum is `signum`: zero and one are positive, minus one is negative.
    pub fn from_signum64(signum: i64) -> (r: Sign)
        requires
            -1 <= signum <= 1,
        ensures
            r == (if signum < 0 { Sign::Negative } else { Sign::Positive }),
    {
        if signum == -1 {
            Sign::Negative
        } else {
            Sign::Positive
        }
    }
}

impl Sign {
    /// The text that `Display` writes for the sign; `sign_plus` says whether the `+` flag
    /// was given.
    pub fn fmt_str(&self, sign_plus: bool) -> (r: &'static str)
        ensures
            r@ == sign_text(*self, sign_plus),
    {
        match (self, sign_plus) {
            (Sign::Positive, false) => "",
            (Sign::Positive, true) => "+",
            (Sign::Negative, _) => "-",
        }
    }
}

} // verus!
