//! A fixed-point decimal with eighteen fractional digits, the unit in which
//! oracle prices and fee shares are kept. The value is carried as its atomic
//! count, so a price of `1.5` is `1_500_000_000_000_000_000` atomics.
//! Parsing and the widening ratio multiplication are delegated to the chain
//! runtime's arithmetic and trusted with exact contracts.
use vstd::prelude::*;

use crate::strutil::{count_char, first_index_of};

verus! {

/// Atomics per whole unit: ten to the eighteenth.
pub const DECIMAL_FRACTIONAL: u128 = 1_000_000_000_000_000_000;

/// Count of fractional digits a decimal carries.
pub const DECIMAL_PLACES: u32 = 18;

#[derive(Clone, Copy, Debug, PartialEq, Eq, Structural)]
pub struct Decimal(pub u128);

impl Decimal {
    pub fn zero() -> (r: Self)
        ensures
            r.0 == 0,
    {
        Decimal(0)
    }

    /// The fraction `x / 100`.
    pub fn percent(x: u64) -> (r: Self)
        ensures
            r.0 == x * 10_000_000_000_000_000u128,
    {
        Decimal((x as u128) * 10_000_000_000_000_000u128)
    }

    pub fn atomics(&self) -> (r: u128)
        ensures
            r == self.0,
    {
        self.0
    }

    pub fn is_zero(&self) -> (r: bool)
        ensures
            r == (self.0 == 0),
    {
        self.0 == 0
    }
}

pub open spec fn is_digit(c: char) -> bool {
    '0' <= c && c <= '9'
}

pub open spec fn all_digits(s: Seq<char>) -> bool {
    forall|i: int| 0 <= i < s.len() ==> is_digit(#[trigger] s[i])
}

/// The numeric value of a digit string, most significant digit first.
pub open spec fn digits_val(s: Seq<char>) -> nat
    decreases s.len(),
{
    if s.len() == 0 {
        0
    } else {
        (digits_val(s.drop_last()) * 10 + (s.last() as int - '0' as int)) as nat
    }
}

pub open spec fn pow10(n: nat) -> nat
    decreases n,
{
    if n == 0 {
        1
    } else {
        10 * pow10((n - 1) as nat)
    }
}

/// The atomics a plain decimal numeral denotes: an optional single dot
/// between a non-empty whole part and a non-empty fractional part of at
/// most eighteen digits, digits everywhere, and no step of the scaling
/// leaving the 128-bit range. Anything else denotes nothing.
pub open spec fn spec_plain_decimal(s: Seq<char>) -> Option<u128> {
    let dots = count_char(s, '.');
    if dots == 0 {
        spec_whole_atomics(s)
    } else if dots == 1 {
        let k = first_index_of(s, '.');
        let w = s.subrange(0, k);
        let f = s.subrange(k + 1, s.len() as int);
        if w.len() > 0 && f.len() > 0 && f.len() <= DECIMAL_PLACES && all_digits(w) && all_digits(
            f,
        ) {
            if digits_val(w) <= u128::MAX && digits_val(w) * (DECIMAL_FRACTIONAL as nat)
                <= u128::MAX && digits_val(w) * (DECIMAL_FRACTIONAL as nat) + digits_val(f) * pow10(
                (DECIMAL_PLACES - f.len()) as nat,
            ) <= u128::MAX {
                Some(
                    (digits_val(w) * (DECIMAL_FRACTIONAL as nat) + digits_val(f) * pow10(
                        (DECIMAL_PLACES - f.len()) as nat,
                    )) as u128,
                )
            } else {
                None
            }
        } else {
            None
        }
    } else {
        None
    }
}

pub open spec fn spec_whole_atomics(s: Seq<char>) -> Option<u128> {
    if s.len() > 0 && all_digits(s) && digits_val(s) <= u128::MAX && digits_val(s)
        * (DECIMAL_FRACTIONAL as nat) <= u128::MAX {
        Some((digits_val(s) * (DECIMAL_FRACTIONAL as nat)) as u128)
    } else {
        None
    }
}

/// The atomics the chain runtime's decimal parser reads from a string; a
/// function of the characters alone.
pub uninterp spec fn decimal_atomics_of(s: Seq<char>) -> Option<u128>;

/// Relies on `cosmwasm_std::Decimal::from_str` and `Decimal::atomics`: the
/// result depends on the characters alone, and on a plain numeral it is
/// exactly the scaled value, refused when it cannot be represented.
#[verifier::external_body]
pub(crate) fn parse_decimal_atomics(s: &str) -> (r: Option<u128>)
    ensures
        r == decimal_atomics_of(s@),
        spec_plain_decimal(s@) is Some ==> r == spec_plain_decimal(s@),
{
    match <cosmwasm_std::Decimal as core::str::FromStr>::from_str(s) {
        Ok(d) => Some(d.atomics().u128()),
        Err(_) => None,
    }
}

/// Relies on `cosmwasm_std::Uint128::checked_multiply_ratio`: the floored
/// ratio `a * numerator / denominator`, computed without intermediate
/// overflow and refused exactly when the result leaves the 128-bit range.
#[verifier::external_body]
pub(crate) fn mul_ratio_u128(a: u128, numerator: u128, denominator: u128) -> (r: Option<u128>)
    requires
        denominator != 0,
    ensures
        r == if (a as int) * (numerator as int) / (denominator as int) <= u128::MAX {
            Some(((a as int) * (numerator as int) / (denominator as int)) as u128)
        } else {
            None::<u128>
        },
{
    match cosmwasm_std::Uint128::new(a).checked_multiply_ratio(numerator, denominator) {
        Ok(v) => Some(v.u128()),
        Err(_) => None,
    }
}

/// The floored product of an amount and a decimal share.
pub open spec fn spec_mul_dec(amount: u128, atomics: u128) -> int {
    (amount as int) * (atomics as int) / (DECIMAL_FRACTIONAL as int)
}

/// Multiplies an amount by a decimal, flooring; refused exactly when the
/// product leaves the 128-bit range.
pub fn mul_dec(amount: u128, dec: Decimal) -> (r: Option<u128>)
    ensures
        r == if spec_mul_dec(amount, dec.0) <= u128::MAX {
            Some(spec_mul_dec(amount, dec.0) as u128)
        } else {
            None::<u128>
        },
{
    mul_ratio_u128(amount, dec.0, DECIMAL_FRACTIONAL)
}

} // verus!
