use crate::i256::{lemma_view_fits, lemma_view_injective, saturate, I256};
use crate::sign::Sign;
use crate::uint::U256;
use core::cmp::Ordering;
use vstd::std_specs::cmp::PartialOrdSpec;
use vstd::prelude::*;

verus! {

/// How `a` compares with `b`.
pub open spec fn compare(a: int, b: int) -> Ordering {
    if a < b {
        Ordering::Less
    } else if a == b {
        Ordering::Equal
    } else {
        Ordering::Greater
    }
}

/// How `a` compares with `b`, for naturals.
pub open spec fn compare_nat(a: nat, b: nat) -> Ordering {
    if a < b {
        Ordering::Less
    } else if a == b {
        Ordering::Equal
    } else {
        Ordering::Greater
    }
}

impl U256 {
    /// How `self` compares with `other` as numbers.
    pub fn cmp(&self, other: &U256) -> (r: Ordering)
        ensures
            r == compare_nat(self@, other@),
    {
        if self.lt(other) {
            Ordering::Less
        } else if other.lt(self) {
            Ordering::Greater
        } else {
            Ordering::Equal
        }
    }
}

impl I256 {
    /// How `self` compares with `other` as signed numbers: negative values first, then
    /// by absolute value.
    pub fn cmp(&self, other: &I256) -> (r: Ordering)
        ensures
            r == compare(self@, other@),
    {
        let (this_sign, this) = self.into_sign_and_abs();
        let (other_sign, that) = other.into_sign_and_abs();
        match (this_sign, other_sign) {
            (Sign::Positive, Sign::Negative) => Ordering::Greater,
            (Sign::Negative, Sign::Positive) => Ordering::Less,
            (Sign::Positive, Sign::Positive) => this.cmp(&that),
            (Sign::Negative, Sign::Negative) => that.cmp(&this),
        }
    }
}

impl PartialOrd for I256 {
    fn partial_cmp(&self, other: &Self) -> (r: Option<Ordering>) {
        Some(self.cmp(other))
    }
}

impl vstd::std_specs::cmp::PartialOrdSpecImpl for I256 {
    open spec fn obeys_partial_cmp_spec() -> bool {
        true
    }

    open spec fn partial_cmp_spec(&self, other: &Self) -> Option<Ordering> {
        Some(compare(self@, other@))
    }
}

/// Comparing two values gives the sign of their saturating difference.
pub proof fn law_order_matches_saturating_sub(a: I256, b: I256)
    ensures
        compare(a@, b@) == compare(saturate(a@ - b@), 0),
{
    lemma_view_fits(a);
    lemma_view_fits(b);
}

/// Two values compare as equal just when they are the same value.
pub proof fn law_cmp_equal(a: I256, b: I256)
    ensures
        (compare(a@, b@) == Ordering::Equal) == (a == b),
{
    if a@ == b@ {
        lemma_view_injective(a, b);
    }
}

/// The order is the order of the values: it is total and turns around when the operands
/// are swapped.
pub proof fn law_order_antisymmetric(a: I256, b: I256)
    ensures
        compare(a@, b@) == Ordering::Less <==> compare(b@, a@) == Ordering::Greater,
        compare(a@, b@) == Ordering::Equal <==> compare(b@, a@) == Ordering::Equal,
{
}

/// The order is that of the numbers: a value comes before another exactly when it is
/// smaller, after it exactly when it is greater, for `I256` (signed, so every negative
/// value comes first), for its `partial_cmp` and `<`, and for `U256`.
pub proof fn law_order_is_numeric(a: I256, b: I256, u: U256, v: U256)
    ensures
        compare(a@, b@) == Ordering::Less <==> a@ < b@,
        compare(a@, b@) == Ordering::Greater <==> a@ > b@,
        compare(a@, b@) == Ordering::Equal <==> a@ == b@,
        a.partial_cmp_spec(&b) == Some(Ordering::Less) <==> a@ < b@,
        a.partial_cmp_spec(&b) == Some(Ordering::Greater) <==> a@ > b@,
        a.partial_cmp_spec(&b) == Some(Ordering::Equal) <==> a@ == b@,
        compare_nat(u@, v@) == Ordering::Less <==> u@ < v@,
        compare_nat(u@, v@) == Ordering::Greater <==> u@ > v@,
        compare_nat(u@, v@) == Ordering::Equal <==> u@ == v@,
{
}

} // verus!
