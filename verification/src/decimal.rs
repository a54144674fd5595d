//! Fixed-point decimals with 18 fractional digits.
//!
//! A `Decimal` holds its value as a count of atomics: the number it stands for is
//! `atomics / 10^18`. This is the representation of `cosmwasm_std::Decimal`; the
//! operations that only that crate computes (scaling from other precisions and
//! the 256-bit product) are delegated to it.
use vstd::prelude::*;

verus! {

/// `10^18`, the number of atomics in one unit.
pub const DECIMAL_FRACTIONAL: u128 = 1_000_000_000_000_000_000u128;

/// The number of fractional digits of a `Decimal`.
pub const DECIMAL_PLACES: u32 = 18u32;

/// A non-negative fixed-point number: `atomics / 10^18`.
#[derive(Clone, Copy, Debug, PartialEq, Eq, Structural)]
pub struct Decimal {
    pub atomics: u128,
}

/// The error of `Decimal::from_atomics` when the value does not fit.
#[derive(Clone, Copy, Debug, PartialEq, Eq, Structural)]
pub struct DecimalRangeExceeded;

/// `10^n`.
pub open spec fn pow10(n: nat) -> nat
    decreases n,
{
    if n == 0 {
        1
    } else {
        10 * pow10((n - 1) as nat)
    }
}

/// The atomics of `atomics / 10^decimal_places` at 18 places, when they fit.
pub open spec fn spec_from_atomics(atomics: u128, decimal_places: u32) -> Option<u128> {
    if decimal_places <= DECIMAL_PLACES {
        let v = atomics * pow10((DECIMAL_PLACES - decimal_places) as nat);
        if v <= u128::MAX {
            Some(v as u128)
        } else {
            None
        }
    } else {
        Some((atomics as nat / pow10((decimal_places - DECIMAL_PLACES) as nat)) as u128)
    }
}

/// The atomics of the product of two decimals, rounded down: `a * b / 10^18`.
pub open spec fn product_atomics(a: u128, b: u128) -> nat {
    (a as nat * b as nat) / (DECIMAL_FRACTIONAL as nat)
}

/// `a + b`, or `None` where the sum does not fit.
pub open spec fn spec_add(a: Decimal, b: Decimal) -> Option<Decimal> {
    if a.atomics + b.atomics <= u128::MAX {
        Some(Decimal { atomics: (a.atomics + b.atomics) as u128 })
    } else {
        None
    }
}

/// `a - b`, or `None` where `b > a`.
pub open spec fn spec_sub(a: Decimal, b: Decimal) -> Option<Decimal> {
    if b.atomics <= a.atomics {
        Some(Decimal { atomics: (a.atomics - b.atomics) as u128 })
    } else {
        None
    }
}

/// `a * b` rounded down to 18 places, or `None` where the product does not fit.
pub open spec fn spec_mul(a: Decimal, b: Decimal) -> Option<Decimal> {
    if product_atomics(a.atomics, b.atomics) <= u128::MAX {
        Some(Decimal { atomics: product_atomics(a.atomics, b.atomics) as u128 })
    } else {
        None
    }
}

pub open spec fn spec_zero() -> Decimal {
    Decimal { atomics: 0 }
}

pub open spec fn spec_one() -> Decimal {
    Decimal { atomics: DECIMAL_FRACTIONAL }
}

/// `10^18` is the value of `pow10(18)`.
pub proof fn lemma_pow10_18()
    ensures
        pow10(18) == DECIMAL_FRACTIONAL,
{
    reveal_with_fuel(pow10, 19);
}

/// `cosmwasm_std::Decimal::from_atomics`: builds `atomics / 10^decimal_places`.
/// Below 18 places the atomics are multiplied by `10^(18 - decimal_places)` and the
/// call fails with `DecimalRangeExceeded` when that product exceeds `u128::MAX`;
/// at 18 places they are taken as they are; above, they are divided (rounding
/// down) by `10^(decimal_places - 18)`, which gives 0 once that power exceeds
/// `u128::MAX`.
#[verifier::external_body]
fn cw_decimal_from_atomics(atomics: u128, decimal_places: u32) -> (r: Option<u128>)
    ensures
        r == spec_from_atomics(atomics, decimal_places),
{
    match cosmwasm_std::Decimal::from_atomics(atomics, decimal_places) {
        Ok(d) => Some(d.atomics().u128()),
        Err(_) => None,
    }
}

/// `cosmwasm_std::Decimal::checked_mul`: the full 256-bit product of the two
/// atomics, divided by `10^18` (rounding down), or an overflow error when that
/// quotient exceeds `u128::MAX`.
#[verifier::external_body]
fn cw_decimal_checked_mul(a: u128, b: u128) -> (r: Option<u128>)
    ensures
        product_atomics(a, b) <= u128::MAX ==> r == Some(product_atomics(a, b) as u128),
        product_atomics(a, b) > u128::MAX ==> r is None,
{
    match cosmwasm_std::Decimal::raw(a).checked_mul(cosmwasm_std::Decimal::raw(b)) {
        Ok(d) => Some(d.atomics().u128()),
        Err(_) => None,
    }
}

impl Decimal {
    /// The decimal `0`.
    pub fn zero() -> (r: Decimal)
        ensures
            r == spec_zero(),
    {
        Decimal { atomics: 0 }
    }

    /// The decimal `1`.
    pub fn one() -> (r: Decimal)
        ensures
            r == spec_one(),
    {
        Decimal { atomics: DECIMAL_FRACTIONAL }
    }

    /// The decimal with the given atomics, that is `value / 10^18`.
    pub fn raw(value: u128) -> (r: Decimal)
        ensures
            r.atomics == value,
    {
        Decimal { atomics: value }
    }

    /// The decimal `atomics / 10^decimal_places`; fails where it does not fit.
    pub fn from_atomics(atomics: u128, decimal_places: u32) -> (r: Result<Decimal, DecimalRangeExceeded>)
        ensures
            spec_from_atomics(atomics, decimal_places) matches Some(a) ==> r == Ok::<
                Decimal,
                DecimalRangeExceeded,
            >(Decimal { atomics: a }),
            spec_from_atomics(atomics, decimal_places) is None ==> r is Err,
    {
        match cw_decimal_from_atomics(atomics, decimal_places) {
            Some(a) => Ok(Decimal { atomics: a }),
            None => Err(DecimalRangeExceeded),
        }
    }

    /// The raw integer behind the decimal.
    pub fn atomics(&self) -> (r: u128)
        ensures
            r == self.atomics,
    {
        self.atomics
    }

    /// The number of fractional digits, always 18.
    pub fn decimal_places(&self) -> (r: u32)
        ensures
            r == DECIMAL_PLACES,
    {
        DECIMAL_PLACES
    }

    /// `self + other`, or `None` on overflow.
    pub fn checked_add(self, other: Decimal) -> (r: Option<Decimal>)
        ensures
            r == spec_add(self, other),
    {
        match self.atomics.checked_add(other.atomics) {
            Some(a) => Some(Decimal { atomics: a }),
            None => None,
        }
    }

    /// `self - other`, or `None` where `other > self`.
    pub fn checked_sub(self, other: Decimal) -> (r: Option<Decimal>)
        ensures
            r == spec_sub(self, other),
    {
        if other.atomics <= self.atomics {
            Some(Decimal { atomics: self.atomics - other.atomics })
        } else {
            None
        }
    }

    /// `self * other` rounded down to 18 places, or `None` on overflow.
    pub fn checked_mul(self, other: Decimal) -> (r: Option<Decimal>)
        ensures
            r == spec_mul(self, other),
    {
        match cw_decimal_checked_mul(self.atomics, other.atomics) {
            Some(a) => Some(Decimal { atomics: a }),
            None => None,
        }
    }
}

/// The product of decimals does not depend on the order of the factors.
pub proof fn lemma_mul_commutes(a: Decimal, b: Decimal)
    ensures
        spec_mul(a, b) == spec_mul(b, a),
{
    assert(a.atomics as nat * b.atomics as nat == b.atomics as nat * a.atomics as nat)
        by (nonlinear_arith);
}

} // verus!
