//! Listing actions: create, re-price, settle and withdraw fixed-price
//! offers.

use vstd::prelude::*;

use crate::error::ContractError;
use crate::fee::{settlement_instructions, split};
use crate::fixed::spec_parse_decimal;
use crate::msg::{instrs, InstructionView, TransferInstruction};
use crate::state::{
    listing_entry_ok, listing_key, make_listing_key, ListingView, Marketplace, NftListing,
};
use crate::utils::{opt_string_view, spec_effective_royalty, RoyaltyInfoResponse};

verus! {

/// The first failure `list` runs into, or `None` where it succeeds: the price
/// must parse, the collection identity must have validated, no listing may be
/// live at the key, and escrow must hold the asset.
pub open spec fn spec_list_err(
    pre: crate::state::MarketView,
    pricev: Option<u128>,
    addr: Option<Seq<char>>,
    token: Seq<char>,
    escrow_owns: bool,
) -> Option<ContractError> {
    if pricev is None {
        Some(ContractError::InvalidPrice)
    } else if addr is None {
        Some(ContractError::InvalidNftContractAddress)
    } else if pre.listings.contains_key(listing_key(addr->0, token)) {
        Some(ContractError::ListingAlreadyExists)
    } else if !escrow_owns {
        Some(ContractError::NftNotInEscrow)
    } else {
        None
    }
}

/// Creates a listing: the caller offers the escrowed asset `token_id` of
/// collection `nft_contract_address` at `price`. `nft_contract_address`
/// carries the host-validated collection identity, or `None` where
/// validation failed; `escrow_owns_nft` carries the ownership capability's
/// answer. Emits nothing: the asset is already in escrow.
pub fn list(
    market: &mut Marketplace,
    sender: String,
    price: &String,
    nft_contract_address: Option<String>,
    token_id: String,
    escrow_owns_nft: bool,
) -> (r: Result<(), ContractError>)
    requires
        old(market).wf(),
    ensures
        final(market).wf(),
        match spec_list_err(
            old(market)@,
            spec_parse_decimal(price@),
            opt_string_view(nft_contract_address),
            token_id@,
            escrow_owns_nft,
        ) {
            Some(e) => r == Err::<(), ContractError>(e) && final(market)@ == old(market)@,
            None => {
                &&& r == Ok::<(), ContractError>(())
                &&& (opt_string_view(nft_contract_address) matches Some(a) && (spec_parse_decimal(
                    price@,
                ) matches Some(pv) && final(market)@.listings == old(market)@.listings.insert(
                    listing_key(a, token_id@),
                    ListingView {
                        lister: sender@,
                        price: pv,
                        nft_contract_address: a,
                        token_id: token_id@,
                    },
                )))
                &&& final(market)@.bids == old(market)@.bids
                &&& final(market)@.collection_bids == old(market)@.collection_bids
            },
        },
{
    let price_amount = match crate::fixed::parse_price(price.as_str()) {
        Ok(p) => p,
        Err(e) => {
            return Err(e);
        },
    };
    let addr = match nft_contract_address {
        Some(a) => a,
        None => {
            return Err(ContractError::InvalidNftContractAddress);
        },
    };
    let key = make_listing_key(&addr, &token_id);
    if market.listings.contains_key(&key) {
        return Err(ContractError::ListingAlreadyExists);
    }
    if !escrow_owns_nft {
        return Err(ContractError::NftNotInEscrow);
    }
    let listing = NftListing {
        lister: sender,
        price: price_amount,
        nft_contract_address: addr,
        token_id,
    };
    let ghost k = key@;
    market.listings.put(key, listing);
    proof {
        assert(market@.bids == old(market)@.bids);
        assert(market@.collection_bids == old(market)@.collection_bids);
        assert forall|k2: crate::order::KeyView| #[trigger]
            market@.listings.contains_key(k2) implies listing_entry_ok(
            k2,
            market@.listings[k2],
        ) by {
            if k2 != k {
                assert(old(market)@.listings.contains_key(k2));
            }
        }
    }
    Ok(())
}

/// The first failure `delist` runs into, or `None`: the new price must
/// parse, the collection identity must have validated, the listing must be
/// live, and the caller must be its lister.
pub open spec fn spec_delist_err(
    pre: crate::state::MarketView,
    pricev: Option<u128>,
    addr: Option<Seq<char>>,
    token: Seq<char>,
    sender: Seq<char>,
) -> Option<ContractError> {
    if pricev is None {
        Some(ContractError::InvalidPrice)
    } else if addr is None {
        Some(ContractError::InvalidNftContractAddress)
    } else if !pre.listings.contains_key(listing_key(addr->0, token)) {
        Some(ContractError::NftListingNotFound)
    } else if pre.listings[listing_key(addr->0, token)].lister != sender {
        Some(ContractError::Unauthorized)
    } else {
        None
    }
}

/// Re-prices the caller's own listing in place; despite its name it removes
/// nothing.
pub fn delist(
    market: &mut Marketplace,
    sender: &String,
    nft_contract_address: Option<String>,
    token_id: &String,
    new_price: &String,
) -> (r: Result<(), ContractError>)
    requires
        old(market).wf(),
    ensures
        final(market).wf(),
        match spec_delist_err(
            old(market)@,
            spec_parse_decimal(new_price@),
            opt_string_view(nft_contract_address),
            token_id@,
            sender@,
        ) {
            Some(e) => r == Err::<(), ContractError>(e) && final(market)@ == old(market)@,
            None => {
                &&& r == Ok::<(), ContractError>(())
                &&& (opt_string_view(nft_contract_address) matches Some(a) && (spec_parse_decimal(
                    new_price@,
                ) matches Some(pv) && final(market)@.listings == old(market)@.listings.insert(
                    listing_key(a, token_id@),
                    ListingView {
                        price: pv,
                        ..old(market)@.listings[listing_key(a, token_id@)]
                    },
                )))
                &&& final(market)@.bids == old(market)@.bids
                &&& final(market)@.collection_bids == old(market)@.collection_bids
            },
        },
{
    let new_price_amount = match crate::fixed::parse_price(new_price.as_str()) {
        Ok(p) => p,
        Err(e) => {
            return Err(e);
        },
    };
    let addr = match nft_contract_address {
        Some(a) => a,
        None => {
            return Err(ContractError::InvalidNftContractAddress);
        },
    };
    let key = make_listing_key(&addr, token_id);
    let updated = match market.listings.get(&key) {
        Some(listing) => {
            if !(*sender == listing.lister) {
                return Err(ContractError::Unauthorized);
            }
            NftListing {
                lister: listing.lister.clone(),
                price: new_price_amount,
                nft_contract_address: listing.nft_contract_address.clone(),
                token_id: listing.token_id.clone(),
            }
        },
        None => {
            return Err(ContractError::NftListingNotFound);
        },
    };
    let ghost k = key@;
    market.listings.put(key, updated);
    proof {
        assert(market@.bids == old(market)@.bids);
        assert(market@.collection_bids == old(market)@.collection_bids);
        assert forall|k2: crate::order::KeyView| #[trigger]
            market@.listings.contains_key(k2) implies listing_entry_ok(
            k2,
            market@.listings[k2],
        ) by {
            if k2 != k {
                assert(old(market)@.listings.contains_key(k2));
            }
        }
    }
    Ok(())
}

/// The first failure `buy_listing` runs into, or `None`: the collection
/// identity must have validated, the listing must be live, and an effective
/// royalty must fit under the price less the platform fee.
pub open spec fn spec_buy_listing_err(
    pre: crate::state::MarketView,
    addr: Option<Seq<char>>,
    token: Seq<char>,
    roy: Option<(Seq<char>, u128)>,
) -> Option<ContractError> {
    if addr is None {
        Some(ContractError::InvalidNftContractAddress)
    } else if !pre.listings.contains_key(listing_key(addr->0, token)) {
        Some(ContractError::NftListingNotFound)
    } else {
        let price = pre.listings[listing_key(addr->0, token)].price;
        match roy {
            Some((a, amt)) => if price * 2 / 100 + amt > price {
                Some(ContractError::Overflow)
            } else {
                None
            },
            None => None,
        }
    }
}

/// Settles a listing in the caller's favour: removes it, moves the asset to
/// the caller, and divides the price among platform, royalty recipient (per
/// the quote the host resolved against the gross price) and the lister.
pub fn buy_listing(
    market: &mut Marketplace,
    sender: &String,
    nft_contract_address: Option<String>,
    token_id: &String,
    royalty_quote: Option<RoyaltyInfoResponse>,
) -> (r: Result<Vec<TransferInstruction>, ContractError>)
    requires
        old(market).wf(),
    ensures
        final(market).wf(),
        match spec_buy_listing_err(
            old(market)@,
            opt_string_view(nft_contract_address),
            token_id@,
            spec_effective_royalty(royalty_quote),
        ) {
            Some(e) => r == Err::<Vec<TransferInstruction>, ContractError>(e) && final(market)@
                == old(market)@,
            None => {
                &&& r is Ok
                &&& (opt_string_view(nft_contract_address) matches Some(a) && {
                    let k = listing_key(a, token_id@);
                    let l = old(market)@.listings[k];
                    let fee = l.price * 2 / 100;
                    let roy = spec_effective_royalty(royalty_quote);
                    let royalty_amt = match roy {
                        Some((ra, amt)) => amt,
                        None => 0,
                    };
                    &&& final(market)@.listings == old(market)@.listings.remove(k)
                    &&& (r matches Ok(out) && instrs(out@) == crate::fee::spec_settlement(
                        l.nft_contract_address,
                        l.token_id,
                        sender@,
                        (fee) as u128,
                        roy,
                        l.lister,
                        (l.price - fee - royalty_amt) as u128,
                    ))
                })
                &&& final(market)@.bids == old(market)@.bids
                &&& final(market)@.collection_bids == old(market)@.collection_bids
            },
        },
{
    let addr = match nft_contract_address {
        Some(a) => a,
        None => {
            return Err(ContractError::InvalidNftContractAddress);
        },
    };
    let key = make_listing_key(&addr, token_id);
    let (price, collection, token, lister) = match market.listings.get(&key) {
        Some(l) => (l.price, l.nft_contract_address.clone(), l.token_id.clone(), l.lister.clone()),
        None => {
            return Err(ContractError::NftListingNotFound);
        },
    };
    let fee_split = match split(price, royalty_quote) {
        Ok(s) => s,
        Err(e) => {
            return Err(e);
        },
    };
    let out = match settlement_instructions(&collection, &token, sender, &lister, fee_split) {
        Ok(v) => v,
        Err(e) => {
            return Err(e);
        },
    };
    let _ = market.listings.remove(&key);
    proof {
        assert(market@.bids == old(market)@.bids);
        assert(market@.collection_bids == old(market)@.collection_bids);
        assert forall|k2: crate::order::KeyView| #[trigger]
            market@.listings.contains_key(k2) implies listing_entry_ok(
            k2,
            market@.listings[k2],
        ) by {
            assert(old(market)@.listings.contains_key(k2));
        }
    }
    Ok(out)
}

/// The first failure `cancel_listing` runs into, or `None`: the collection
/// identity must have validated, the listing must be live, and the caller
/// must be its lister.
pub open spec fn spec_cancel_listing_err(
    pre: crate::state::MarketView,
    addr: Option<Seq<char>>,
    token: Seq<char>,
    sender: Seq<char>,
) -> Option<ContractError> {
    if addr is None {
        Some(ContractError::InvalidNftContractAddress)
    } else if !pre.listings.contains_key(listing_key(addr->0, token)) {
        Some(ContractError::NftListingNotFound)
    } else if pre.listings[listing_key(addr->0, token)].lister != sender {
        Some(ContractError::Unauthorized)
    } else {
        None
    }
}

/// Withdraws the caller's own listing: removes it and moves the asset from
/// escrow back to the lister.
pub fn cancel_listing(
    market: &mut Marketplace,
    sender: &String,
    nft_contract_address: Option<String>,
    token_id: &String,
) -> (r: Result<Vec<TransferInstruction>, ContractError>)
    requires
        old(market).wf(),
    ensures
        final(market).wf(),
        match spec_cancel_listing_err(
            old(market)@,
            opt_string_view(nft_contract_address),
            token_id@,
            sender@,
        ) {
            Some(e) => r == Err::<Vec<TransferInstruction>, ContractError>(e) && final(market)@
                == old(market)@,
            None => {
                &&& (opt_string_view(nft_contract_address) matches Some(a) && {
                    let k = listing_key(a, token_id@);
                    let l = old(market)@.listings[k];
                    &&& final(market)@.listings == old(market)@.listings.remove(k)
                    &&& (r matches Ok(out) && instrs(out@) == seq![
                        InstructionView::Asset {
                            nft_contract_address: l.nft_contract_address,
                            token_id: l.token_id,
                            recipient: l.lister,
                        },
                    ])
                })
                &&& final(market)@.bids == old(market)@.bids
                &&& final(market)@.collection_bids == old(market)@.collection_bids
            },
        },
{
    let addr = match nft_contract_address {
        Some(a) => a,
        None => {
            return Err(ContractError::InvalidNftContractAddress);
        },
    };
    let key = make_listing_key(&addr, token_id);
    let is_lister = match market.listings.get(&key) {
        Some(listing) => *sender == listing.lister,
        None => {
            return Err(ContractError::NftListingNotFound);
        },
    };
    if !is_lister {
        return Err(ContractError::Unauthorized);
    }
    let listing = match market.listings.remove(&key) {
        Some(l) => l,
        None => {
            return Err(ContractError::NftListingNotFound);
        },
    };
    let mut out: Vec<TransferInstruction> = Vec::new();
    out.push(
        TransferInstruction::Asset {
            nft_contract_address: listing.nft_contract_address,
            token_id: listing.token_id,
            recipient: listing.lister,
        },
    );
    proof {
        assert(market@.bids == old(market)@.bids);
        assert(market@.collection_bids == old(market)@.collection_bids);
        assert forall|k2: crate::order::KeyView| #[trigger]
            market@.listings.contains_key(k2) implies listing_entry_ok(
            k2,
            market@.listings[k2],
        ) by {
            assert(old(market)@.listings.contains_key(k2));
        }
    }
    proof {
        assert(instrs(out@) =~= seq![
            InstructionView::Asset {
                nft_contract_address: old(market)@.listings[key@].nft_contract_address,
                token_id: old(market)@.listings[key@].token_id,
                recipient: old(market)@.listings[key@].lister,
            },
        ]);
    }
    Ok(out)
}

} // verus!
