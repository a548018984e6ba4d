//! Fixed-point price amounts: eighteen fractional digits held as atomic
//! units, and the reading of decimal price strings.

use core::str::FromStr;

use vstd::prelude::*;

use crate::error::ContractError;

verus! {

/// Atomic price units per whole unit: prices carry eighteen fractional digits.
pub const PRICE_ATOMICS_PER_UNIT: u128 = 1_000_000_000_000_000_000;

/// Atomic price units per transferable payment unit: payments carry six
/// fractional digits, twelve fewer than prices.
pub const ATOMICS_PER_TRANSFER_UNIT: u128 = 1_000_000_000_000;

/// Ten to the `n`.
pub open spec fn pow10(n: nat) -> int
    decreases n,
{
    if n == 0 {
        1
    } else {
        10 * pow10((n - 1) as nat)
    }
}

/// Whether `c` is an ascii decimal digit.
pub open spec fn is_digit(c: char) -> bool {
    48 <= c as u32 <= 57
}

/// The number a sequence of decimal digits denotes, most significant first.
pub open spec fn digits_val(s: Seq<char>) -> int
    decreases s.len(),
{
    if s.len() == 0 {
        0
    } else {
        digits_val(s.drop_last()) * 10 + (s.last() as u32 - 48)
    }
}

/// Whether every character of `s` is a decimal digit.
pub open spec fn all_digits(s: Seq<char>) -> bool {
    forall|i: int| 0 <= i < s.len() ==> is_digit(#[trigger] s[i])
}

/// The value of an unsigned decimal numeral as `u128` reads one from a
/// string: an optional leading plus sign, then at least one digit, denoting
/// at most `u128::MAX`.
pub open spec fn spec_parse_u128(s: Seq<char>) -> Option<int> {
    let body = if s.len() > 0 && s[0] == '+' {
        s.drop_first()
    } else {
        s
    };
    if body.len() > 0 && all_digits(body) && digits_val(body) <= u128::MAX {
        Some(digits_val(body))
    } else {
        None
    }
}

/// The first position of a dot in `s`, or -1 when there is none.
pub open spec fn find_dot(s: Seq<char>) -> int
    decreases s.len(),
{
    if s.len() == 0 {
        -1
    } else if s[0] == '.' {
        0
    } else if find_dot(s.drop_first()) == -1 {
        -1
    } else {
        1 + find_dot(s.drop_first())
    }
}

/// The atomic-unit value of a decimal numeral: a whole part, optionally
/// followed by a dot and a fractional part of at most eighteen places, each
/// part an unsigned numeral with an optional leading plus sign (the sign
/// counting against the eighteen places). `None` where the numeral is
/// malformed or the value exceeds `u128::MAX` atomic units.
pub open spec fn spec_parse_decimal(s: Seq<char>) -> Option<u128> {
    let d = find_dot(s);
    if d == -1 {
        match spec_parse_u128(s) {
            Some(w) => if w * (PRICE_ATOMICS_PER_UNIT as int) <= u128::MAX {
                Some((w * (PRICE_ATOMICS_PER_UNIT as int)) as u128)
            } else {
                None
            },
            None => None,
        }
    } else {
        let whole = s.subrange(0, d);
        let frac = s.subrange(d + 1, s.len() as int);
        if find_dot(frac) != -1 {
            None
        } else {
            match (spec_parse_u128(whole), spec_parse_u128(frac)) {
                (Some(w), Some(f)) => if frac.len() <= 18 {
                    if w * (PRICE_ATOMICS_PER_UNIT as int) + f * pow10((18 - frac.len()) as nat)
                        <= u128::MAX {
                        Some(
                            (w * (PRICE_ATOMICS_PER_UNIT as int) + f * pow10(
                                (18 - frac.len()) as nat,
                            )) as u128,
                        )
                    } else {
                        None
                    }
                } else {
                    None
                },
                _ => None,
            }
        }
    }
}

/// A price: a fixed-point decimal with eighteen fractional digits, held as a
/// count of atomic units.
#[derive(Clone, Copy, Debug, PartialEq, Eq, Structural)]
pub struct FixedPointAmount {
    pub atomics: u128,
}

impl View for FixedPointAmount {
    type V = u128;

    open spec fn view(&self) -> u128 {
        self.atomics
    }
}

impl FixedPointAmount {
    /// The amount of `atomics` atomic units.
    pub fn from_atomics(atomics: u128) -> (r: FixedPointAmount)
        ensures
            r.atomics == atomics,
    {
        FixedPointAmount { atomics }
    }

    /// The platform's cut of a sale at this price: two percent, truncated.
    pub fn platform_fee(self) -> (r: FixedPointAmount)
        ensures
            r.atomics == self.atomics * 2 / 100,
            r.atomics <= self.atomics,
    {
        proof {
            let a = self.atomics as int;
            vstd::arithmetic::div_mod::lemma_fundamental_div_mod(a, 50);
            vstd::arithmetic::div_mod::lemma_mod_bound(a, 50);
            vstd::arithmetic::div_mod::lemma_fundamental_div_mod_converse(
                2 * a,
                100,
                a / 50,
                2 * (a % 50),
            );
        }
        FixedPointAmount { atomics: self.atomics / 50 }
    }

    /// Checked subtraction.
    pub fn checked_sub(self, other: FixedPointAmount) -> (r: Option<FixedPointAmount>)
        ensures
            match r {
                Some(v) => self.atomics >= other.atomics && v.atomics == self.atomics
                    - other.atomics,
                None => self.atomics < other.atomics,
            },
    {
        if self.atomics >= other.atomics {
            Some(FixedPointAmount { atomics: self.atomics - other.atomics })
        } else {
            None
        }
    }

}

/// Relies on `cosmwasm_std::Decimal::from_str` (and `Decimal::atomics`): a
/// decimal numeral with at most eighteen fractional digits, read into atomic
/// units of one quintillionth; `None` where the parse fails.
#[verifier::external_body]
fn decimal_atomics_of_str(s: &str) -> (r: Option<u128>)
    ensures
        r == spec_parse_decimal(s@),
{
    match cosmwasm_std::Decimal::from_str(s) {
        Ok(d) => Some(d.atomics().u128()),
        Err(_) => None,
    }
}

/// Reads a price string into a fixed-point amount; rejects anything that is
/// not a decimal numeral of at most eighteen fractional digits.
pub fn parse_price(price: &str) -> (r: Result<FixedPointAmount, ContractError>)
    ensures
        match spec_parse_decimal(price@) {
            Some(a) => r == Ok::<FixedPointAmount, ContractError>(FixedPointAmount { atomics: a }),
            None => r == Err::<FixedPointAmount, ContractError>(ContractError::InvalidPrice),
        },
{
    match decimal_atomics_of_str(price) {
        Some(a) => Ok(FixedPointAmount { atomics: a }),
        None => Err(ContractError::InvalidPrice),
    }
}

} // verus!
