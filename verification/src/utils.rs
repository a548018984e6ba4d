//! Shared pieces: royalty quotes, reading attached funds, conversion to
//! transferable payment units, and price-list parsing.

use vstd::prelude::*;

use crate::error::ContractError;
use crate::fixed::{FixedPointAmount, ATOMICS_PER_TRANSFER_UNIT};
use crate::msg::{Coin, CoinView, InstructionView, TransferInstruction};

verus! {

/// What the royalty-support capability of a collection answered.
#[derive(Debug)]
pub struct CheckRoyaltiesResponse {
    pub royalty_payments: bool,
}

/// What the royalty-quote capability of a collection answered, for one sale:
/// the recipient and the royalty in atomic price units. An empty recipient or
/// a zero amount counts as no royalty.
#[derive(Debug)]
pub struct RoyaltyInfoResponse {
    pub address: String,
    pub royalty_amount: u128,
}

/// The character sequence behind an optional owned string.
pub open spec fn opt_string_view(o: Option<String>) -> Option<Seq<char>> {
    match o {
        Some(s) => Some(s@),
        None => None,
    }
}

/// The royalty a quote effectively carries: none where the quote is absent,
/// its recipient empty, or its amount zero.
pub open spec fn spec_effective_royalty(q: Option<RoyaltyInfoResponse>) -> Option<
    (Seq<char>, u128),
> {
    match q {
        Some(ri) => if ri.address@.len() > 0 && ri.royalty_amount > 0 {
            Some((ri.address@, ri.royalty_amount))
        } else {
            None
        },
        None => None,
    }
}

/// The values of a sequence of attached coins.
pub open spec fn coins_view(s: Seq<Coin>) -> Seq<CoinView> {
    s.map_values(|c: Coin| c@)
}

/// The amount of the settlement denomination among attached funds: the
/// amount of the first coin denominated in it, or zero.
pub open spec fn spec_sent_usei(s: Seq<CoinView>) -> u128
    decreases s.len(),
{
    if s.len() == 0 {
        0
    } else if s[0].denom == "usei"@ {
        s[0].amount
    } else {
        spec_sent_usei(s.drop_first())
    }
}

proof fn lemma_sent_usei_skip(s: Seq<CoinView>, i: int)
    requires
        0 <= i <= s.len(),
        forall|j: int| 0 <= j < i ==> (#[trigger] s[j]).denom != "usei"@,
    ensures
        spec_sent_usei(s) == spec_sent_usei(s.skip(i)),
    decreases i,
{
    if i == 0 {
        assert(s.skip(0) =~= s);
    } else {
        assert(forall|j: int|
            0 <= j < i - 1 ==> (#[trigger] s.drop_first()[j]).denom != "usei"@);
        lemma_sent_usei_skip(s.drop_first(), i - 1);
        assert(s.drop_first().skip(i - 1) =~= s.skip(i));
    }
}

/// Reads the attached amount of the settlement denomination.
pub fn attached_usei(funds: &Vec<Coin>) -> (r: u128)
    ensures
        r == spec_sent_usei(coins_view(funds@)),
{
    let ghost s = coins_view(funds@);
    let n = funds.len();
    let mut i: usize = 0;
    while i < n
        invariant
            i <= n,
            n == s.len(),
            s == coins_view(funds@),
            forall|j: int| 0 <= j < i ==> (#[trigger] s[j]).denom != "usei"@,
        decreases n - i,
    {
        let c = &funds[i];
        if crate::order::str_eq(c.denom.as_str(), "usei") {
            proof {
                lemma_sent_usei_skip(s, i as int);
                assert(s.skip(i as int)[0] == s[i as int]);
            }
            return c.amount;
        }
        i += 1;
    }
    proof {
        lemma_sent_usei_skip(s, i as int);
        assert(s.skip(i as int).len() == 0);
    }
    0
}

/// The character sequences behind a sequence of owned strings.
pub open spec fn strings_view(s: Seq<String>) -> Seq<Seq<char>> {
    s.map_values(|x: String| x@)
}

/// The atomic-unit values of a price list, where every entry reads as a
/// decimal numeral; `None` where any entry does not.
pub open spec fn spec_parse_prices(s: Seq<Seq<char>>) -> Option<Seq<u128>> {
    if forall|i: int| 0 <= i < s.len() ==> crate::fixed::spec_parse_decimal(#[trigger] s[i]) is Some {
        Some(Seq::new(s.len(), |i: int| crate::fixed::spec_parse_decimal(s[i])->0))
    } else {
        None
    }
}

/// Reads a list of price strings; rejects the whole list where any entry does
/// not read as a decimal numeral.
pub fn parse_prices(prices: &Vec<String>) -> (r: Result<Vec<FixedPointAmount>, ContractError>)
    ensures
        match spec_parse_prices(strings_view(prices@)) {
            Some(ps) => r matches Ok(v) && crate::state::amounts_view(v@) == ps,
            None => r == Err::<Vec<FixedPointAmount>, ContractError>(ContractError::InvalidPrice),
        },
{
    let ghost s = strings_view(prices@);
    let n = prices.len();
    let mut out: Vec<FixedPointAmount> = Vec::new();
    let mut i: usize = 0;
    while i < n
        invariant
            i <= n,
            n == s.len(),
            s == strings_view(prices@),
            out@.len() == i,
            forall|j: int|
                0 <= j < i ==> crate::fixed::spec_parse_decimal(#[trigger] s[j]) is Some,
            forall|j: int|
                0 <= j < i ==> (#[trigger] out@[j])@ == crate::fixed::spec_parse_decimal(s[j])->0,
        decreases n - i,
    {
        let p = match crate::fixed::parse_price(prices[i].as_str()) {
            Ok(p) => p,
            Err(e) => {
                proof {
                    assert(crate::fixed::spec_parse_decimal(s[i as int]) is None);
                }
                return Err(e);
            },
        };
        out.push(p);
        i += 1;
    }
    proof {
        let ps = spec_parse_prices(s)->0;
        assert(crate::state::amounts_view(out@) =~= ps);
    }
    Ok(out)
}

/// The transferable payment units an amount of atomic price units is worth:
/// the twelve extra fractional digits are discarded by floor division.
pub open spec fn spec_transfer_units(a: u128) -> u128 {
    (a / ATOMICS_PER_TRANSFER_UNIT) as u128
}

/// Converts an amount to transferable payment units, as a checked division.
pub fn parse_decimal(decimal: FixedPointAmount) -> (r: Result<u128, ContractError>)
    ensures
        r == Ok::<u128, ContractError>(spec_transfer_units(decimal@)),
{
    let divisor: u128 = ATOMICS_PER_TRANSFER_UNIT;
    if divisor == 0 {
        Err(ContractError::ParseDecimal)
    } else {
        Ok(decimal.atomics / divisor)
    }
}

/// Appends the instruction paying the seller its remainder, in transferable
/// payment units, to an ordered instruction list.
pub fn add_transfer_sei_to_seller_msg_with_price_after_platform_fee(
    seller: String,
    price_after_platform_fee: u128,
    response: Vec<TransferInstruction>,
) -> (r: Vec<TransferInstruction>)
    ensures
        r@.len() == response@.len() + 1,
        forall|i: int| 0 <= i < response@.len() ==> r@[i] == response@[i],
        r@[r@.len() - 1]@ == (InstructionView::Value {
            recipient: seller@,
            amount: price_after_platform_fee,
        }),
{
    let mut out = response;
    out.push(TransferInstruction::Value { recipient: seller, amount: price_after_platform_fee });
    out
}

} // verus!
