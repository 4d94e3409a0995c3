use crate::i256::{abs, sign_of, I256};
use crate::sign::sign_text;
use crate::uint::{decimal_digits, hex_digits};
use vstd::prelude::*;

verus! {

impl I256 {
    /// The decimal text of `self`, as `Display` writes it: the sign (see [`Sign::fmt_str`];
    /// `sign_plus` says whether the `+` flag was given), then the digits of the absolute
    /// value.
    ///
    /// [`Sign::fmt_str`]: crate::sign::Sign::fmt_str
    pub fn fmt_decimal(&self, sign_plus: bool) -> (r: String)
        ensures
            r@ == sign_text(sign_of(self@), sign_plus) + decimal_digits(abs(self@)),
    {
        let (sign, abs) = self.into_sign_and_abs();
        let mut text = String::from_str(sign.fmt_str(sign_plus));
        let digits = abs.to_decimal();
        text.append(digits.as_str());
        text
    }

    /// The decimal text of `self`, as `Display` and `Debug` write it without flags.
    pub fn to_string(&self) -> (r: String)
        ensures
            r@ == sign_text(sign_of(self@), false) + decimal_digits(abs(self@)),
    {
        self.fmt_decimal(false)
    }

    /// The hexadecimal text of `self` in lower case, as `LowerHex` writes it: the sign,
    /// then the digits of the absolute value.
    pub fn fmt_lower_hex(&self, sign_plus: bool) -> (r: String)
        ensures
            r@ == sign_text(sign_of(self@), sign_plus) + hex_digits(abs(self@), false),
    {
        let (sign, abs) = self.into_sign_and_abs();
        let mut text = String::from_str(sign.fmt_str(sign_plus));
        let digits = abs.to_lower_hex();
        text.append(digits.as_str());
        text
    }

    /// The hexadecimal text of `self` in upper case, as `UpperHex` writes it: the sign,
    /// then the digits of the absolute value.
    pub fn fmt_upper_hex(&self, sign_plus: bool) -> (r: String)
        ensures
            r@ == sign_text(sign_of(self@), sign_plus) + hex_digits(abs(self@), true),
    {
        let (sign, abs) = self.into_sign_and_abs();
        let mut text = String::from_str(sign.fmt_str(sign_plus));
        let digits = abs.to_upper_hex();
        text.append(digits.as_str());
        text
    }
}

} // verus!
