//! The fee splitter: divides one sale price into platform fee, royalty and
//! seller remainder, and emits the ordered settlement instructions.

use vstd::prelude::*;

use crate::error::ContractError;
use crate::fixed::FixedPointAmount;
use crate::msg::{InstructionView, TransferInstruction};
use crate::state::PLATFORM_FEE_RECEIVER;
use crate::utils::{
    parse_decimal, spec_effective_royalty, spec_transfer_units, RoyaltyInfoResponse,
};

verus! {

/// How one sale price is divided: the platform's fee, the creator's royalty
/// (zero when none applies), and what is left for the seller.
#[derive(Debug)]
pub struct FeeSplit {
    pub platform_fee: FixedPointAmount,
    pub royalty: FixedPointAmount,
    pub royalty_recipient: Option<String>,
    pub seller_remainder: FixedPointAmount,
}

/// Divides a sale price: the fee is two percent of the gross price,
/// truncated; the royalty is whatever an effective quote carries; the seller
/// keeps the rest. The three parts add up to the price exactly. Fails only
/// where the royalty exceeds what is left after the fee.
pub fn split(price: FixedPointAmount, royalty_quote: Option<RoyaltyInfoResponse>) -> (r: Result<
    FeeSplit,
    ContractError,
>)
    ensures
        match r {
            Ok(s) => {
                &&& s.platform_fee@ == price@ * 2 / 100
                &&& s.platform_fee@ + s.royalty@ + s.seller_remainder@ == price@
                &&& match spec_effective_royalty(royalty_quote) {
                    Some((addr, amt)) => s.royalty@ == amt && (s.royalty_recipient matches Some(a)
                        && a@ == addr),
                    None => s.royalty@ == 0 && s.royalty_recipient is None,
                }
            },
            Err(e) => e == ContractError::Overflow,
        },
        r is Err <==> (match spec_effective_royalty(royalty_quote) {
            Some((addr, amt)) => price@ * 2 / 100 + amt > price@,
            None => false,
        }),
{
    let platform_fee = price.platform_fee();
    let remainder_after_fee = match price.checked_sub(platform_fee) {
        Some(v) => v,
        None => {
            return Err(ContractError::Overflow);
        },
    };
    match royalty_quote {
        Some(ri) => {
            if !ri.address.as_str().is_empty() && ri.royalty_amount > 0 {
                let royalty = FixedPointAmount::from_atomics(ri.royalty_amount);
                match remainder_after_fee.checked_sub(royalty) {
                    Some(seller_remainder) => Ok(
                        FeeSplit {
                            platform_fee,
                            royalty,
                            royalty_recipient: Some(ri.address),
                            seller_remainder,
                        },
                    ),
                    None => Err(ContractError::Overflow),
                }
            } else {
                Ok(
                    FeeSplit {
                        platform_fee,
                        royalty: FixedPointAmount::from_atomics(0),
                        royalty_recipient: None,
                        seller_remainder: remainder_after_fee,
                    },
                )
            }
        },
        None => Ok(
            FeeSplit {
                platform_fee,
                royalty: FixedPointAmount::from_atomics(0),
                royalty_recipient: None,
                seller_remainder: remainder_after_fee,
            },
        ),
    }
}

/// The ordered instructions that settle one sale: the asset to its buyer,
/// then the fee, the royalty (when one applies), and the remainder, each in
/// transferable payment units.
pub open spec fn spec_settlement(
    collection: Seq<char>,
    token: Seq<char>,
    asset_recipient: Seq<char>,
    fee: u128,
    royalty: Option<(Seq<char>, u128)>,
    seller: Seq<char>,
    remainder: u128,
) -> Seq<InstructionView> {
    let head = seq![
        InstructionView::Asset { nft_contract_address: collection, token_id: token, recipient: asset_recipient },
        InstructionView::Value { recipient: PLATFORM_FEE_RECEIVER@, amount: spec_transfer_units(fee) },
    ];
    let tail = seq![
        InstructionView::Value { recipient: seller, amount: spec_transfer_units(remainder) },
    ];
    match royalty {
        Some((addr, amt)) => head + seq![
            InstructionView::Value { recipient: addr, amount: spec_transfer_units(amt) },
        ] + tail,
        None => head + tail,
    }
}

/// Emits the settlement instructions for one sale at `split`'s division.
pub fn settlement_instructions(
    collection: &String,
    token: &String,
    asset_recipient: &String,
    seller: &String,
    split: FeeSplit,
) -> (r: Result<Vec<TransferInstruction>, ContractError>)
    ensures
        match r {
            Ok(out) => crate::msg::instrs(out@) == spec_settlement(
                collection@,
                token@,
                asset_recipient@,
                split.platform_fee@,
                match split.royalty_recipient {
                    Some(a) => Some((a@, split.royalty@)),
                    None => None,
                },
                seller@,
                split.seller_remainder@,
            ),
            Err(_) => false,
        },
{
    let mut out: Vec<TransferInstruction> = Vec::new();
    out.push(
        TransferInstruction::Asset {
            nft_contract_address: collection.clone(),
            token_id: token.clone(),
            recipient: asset_recipient.clone(),
        },
    );
    let fee_units = match parse_decimal(split.platform_fee) {
        Ok(v) => v,
        Err(e) => {
            return Err(e);
        },
    };
    out.push(
        TransferInstruction::Value {
            recipient: String::from_str(PLATFORM_FEE_RECEIVER),
            amount: fee_units,
        },
    );
    match split.royalty_recipient {
        Some(addr) => {
            let royalty_units = match parse_decimal(split.royalty) {
                Ok(v) => v,
                Err(e) => {
                    return Err(e);
                },
            };
            out.push(TransferInstruction::Value { recipient: addr, amount: royalty_units });
        },
        None => {},
    }
    let remainder_units = match parse_decimal(split.seller_remainder) {
        Ok(v) => v,
        Err(e) => {
            return Err(e);
        },
    };
    out.push(TransferInstruction::Value { recipient: seller.clone(), amount: remainder_units });
    proof {
        assert(crate::msg::instrs(out@) =~= spec_settlement(
            collection@,
            token@,
            asset_recipient@,
            split.platform_fee@,
            match split.royalty_recipient {
                Some(a) => Some((a@, split.royalty@)),
                None => None,
            },
            seller@,
            split.seller_remainder@,
        ));
    }
    Ok(out)
}

} // verus!
