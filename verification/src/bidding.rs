//! Bid actions: create, re-price, settle and withdraw single-asset bids.

use vstd::prelude::*;

use crate::error::ContractError;
use crate::fee::{settlement_instructions, split};
use crate::fixed::spec_parse_decimal;
use crate::msg::{instrs, Coin, InstructionView, TransferInstruction};
use crate::state::{bid_entry_ok, bid_key, make_bid_key, BidView, Marketplace, NftBid};
use crate::utils::{
    attached_usei, coins_view, opt_string_view, parse_decimal, spec_effective_royalty,
    spec_sent_usei, spec_transfer_units, RoyaltyInfoResponse,
};

verus! {

/// The first failure `bid` runs into, or `None`: the price must parse, the
/// collection identity must have validated, no bid of this caller may be live
/// at the key, and the attached funds must cover the price.
pub open spec fn spec_bid_err(
    pre: crate::state::MarketView,
    pricev: Option<u128>,
    addr: Option<Seq<char>>,
    token: Seq<char>,
    bidder: Seq<char>,
    sent: u128,
) -> Option<ContractError> {
    if pricev is None {
        Some(ContractError::InvalidPrice)
    } else if addr is None {
        Some(ContractError::InvalidNftContractAddress)
    } else if pre.bids.contains_key(bid_key(addr->0, token, bidder)) {
        Some(ContractError::BidAlreadyExists)
    } else if sent < spec_transfer_units(pricev->0) {
        Some(ContractError::InsufficientFundsSent)
    } else {
        None
    }
}

/// Creates a bid: the caller stands by to buy `token_id` of the collection at
/// `price`, escrowing that price out of the attached funds.
pub fn bid(
    market: &mut Marketplace,
    sender: String,
    price: &String,
    nft_contract_address: Option<String>,
    token_id: String,
    funds: &Vec<Coin>,
) -> (r: Result<(), ContractError>)
    requires
        old(market).wf(),
    ensures
        final(market).wf(),
        match spec_bid_err(
            old(market)@,
            spec_parse_decimal(price@),
            opt_string_view(nft_contract_address),
            token_id@,
            sender@,
            spec_sent_usei(coins_view(funds@)),
        ) {
            Some(e) => r == Err::<(), ContractError>(e) && final(market)@ == old(market)@,
            None => {
                &&& r == Ok::<(), ContractError>(())
                &&& (opt_string_view(nft_contract_address) matches Some(a) && (spec_parse_decimal(
                    price@,
                ) matches Some(pv) && final(market)@.bids == old(market)@.bids.insert(
                    bid_key(a, token_id@, sender@),
                    BidView {
                        bidder: sender@,
                        price: pv,
                        nft_contract_address: a,
                        token_id: token_id@,
                    },
                )))
                &&& final(market)@.listings == old(market)@.listings
                &&& final(market)@.collection_bids == old(market)@.collection_bids
            },
        },
{
    let price_amount = match crate::fixed::parse_price(price.as_str()) {
        Ok(p) => p,
        Err(e) => {
            return Err(e);
        },
    };
    let addr = match nft_contract_address {
        Some(a) => a,
        None => {
            return Err(ContractError::InvalidNftContractAddress);
        },
    };
    let key = make_bid_key(&addr, &token_id, &sender);
    if market.bids.contains_key(&key) {
        return Err(ContractError::BidAlreadyExists);
    }
    let sent = attached_usei(funds);
    let price_units = match parse_decimal(price_amount) {
        Ok(v) => v,
        Err(e) => {
            return Err(e);
        },
    };
    if sent < price_units {
        return Err(ContractError::InsufficientFundsSent);
    }
    let nft_bid = NftBid {
        bidder: sender,
        price: price_amount,
        nft_contract_address: addr,
        token_id,
    };
    let ghost k = key@;
    market.bids.put(key, nft_bid);
    proof {
        assert(market@.listings == old(market)@.listings);
        assert(market@.collection_bids == old(market)@.collection_bids);
        assert forall|k2: crate::order::KeyView| #[trigger]
            market@.bids.contains_key(k2) implies bid_entry_ok(k2, market@.bids[k2]) by {
            if k2 != k {
                assert(old(market)@.bids.contains_key(k2));
            }
        }
    }
    Ok(())
}

/// The first failure `update_bid` runs into, or `None`: the new price must
/// parse, the collection identity must have validated, the caller's bid must
/// be live, a raise must be funded, and the new price must differ.
pub open spec fn spec_update_bid_err(
    pre: crate::state::MarketView,
    pricev: Option<u128>,
    addr: Option<Seq<char>>,
    token: Seq<char>,
    bidder: Seq<char>,
    sent: u128,
) -> Option<ContractError> {
    if pricev is None {
        Some(ContractError::InvalidPrice)
    } else if addr is None {
        Some(ContractError::InvalidNftContractAddress)
    } else if !pre.bids.contains_key(bid_key(addr->0, token, bidder)) {
        Some(ContractError::NftBidNotFound)
    } else {
        let oldp = pre.bids[bid_key(addr->0, token, bidder)].price;
        if pricev->0 > oldp && sent < spec_transfer_units((pricev->0 - oldp) as u128) {
            Some(ContractError::InsufficientFundsSent)
        } else if pricev->0 == oldp {
            Some(ContractError::NewPriceCantBeSameAsOldPrice)
        } else {
            None
        }
    }
}

/// Re-prices the caller's own bid. A raise requires attached funds covering
/// exactly the difference; a cut refunds exactly the difference.
pub fn update_bid(
    market: &mut Marketplace,
    sender: &String,
    nft_contract_address: Option<String>,
    token_id: &String,
    new_price: &String,
    funds: &Vec<Coin>,
) -> (r: Result<Vec<TransferInstruction>, ContractError>)
    requires
        old(market).wf(),
    ensures
        final(market).wf(),
        match spec_update_bid_err(
            old(market)@,
            spec_parse_decimal(new_price@),
            opt_string_view(nft_contract_address),
            token_id@,
            sender@,
            spec_sent_usei(coins_view(funds@)),
        ) {
            Some(e) => r == Err::<Vec<TransferInstruction>, ContractError>(e) && final(market)@
                == old(market)@,
            None => {
                &&& (opt_string_view(nft_contract_address) matches Some(a) && (spec_parse_decimal(
                    new_price@,
                ) matches Some(pv) && {
                    let k = bid_key(a, token_id@, sender@);
                    let oldp = old(market)@.bids[k].price;
                    &&& final(market)@.bids == old(market)@.bids.insert(
                        k,
                        BidView { price: pv, ..old(market)@.bids[k] },
                    )
                    &&& (r matches Ok(out) && instrs(out@) == (if pv < oldp {
                        seq![
                            InstructionView::Value {
                                recipient: sender@,
                                amount: spec_transfer_units((oldp - pv) as u128),
                            },
                        ]
                    } else {
                        Seq::<InstructionView>::empty()
                    }))
                }))
                &&& final(market)@.listings == old(market)@.listings
                &&& final(market)@.collection_bids == old(market)@.collection_bids
            },
        },
{
    let new_price_amount = match crate::fixed::parse_price(new_price.as_str()) {
        Ok(p) => p,
        Err(e) => {
            return Err(e);
        },
    };
    let addr = match nft_contract_address {
        Some(a) => a,
        None => {
            return Err(ContractError::InvalidNftContractAddress);
        },
    };
    let key = make_bid_key(&addr, token_id, sender);
    let (old_price, updated) = match market.bids.get(&key) {
        Some(nft_bid) => (
            nft_bid.price,
            NftBid {
                bidder: nft_bid.bidder.clone(),
                price: new_price_amount,
                nft_contract_address: nft_bid.nft_contract_address.clone(),
                token_id: nft_bid.token_id.clone(),
            },
        ),
        None => {
            return Err(ContractError::NftBidNotFound);
        },
    };
    let mut out: Vec<TransferInstruction> = Vec::new();
    if new_price_amount.atomics > old_price.atomics {
        let diff = crate::fixed::FixedPointAmount::from_atomics(
            new_price_amount.atomics - old_price.atomics,
        );
        let sent = attached_usei(funds);
        let diff_units = match parse_decimal(diff) {
            Ok(v) => v,
            Err(e) => {
                return Err(e);
            },
        };
        if sent < diff_units {
            return Err(ContractError::InsufficientFundsSent);
        }
    } else if new_price_amount.atomics < old_price.atomics {
        let diff = crate::fixed::FixedPointAmount::from_atomics(
            old_price.atomics - new_price_amount.atomics,
        );
        let diff_units = match parse_decimal(diff) {
            Ok(v) => v,
            Err(e) => {
                return Err(e);
            },
        };
        out.push(TransferInstruction::Value { recipient: sender.clone(), amount: diff_units });
    } else {
        return Err(ContractError::NewPriceCantBeSameAsOldPrice);
    }
    let ghost k = key@;
    market.bids.put(key, updated);
    proof {
        assert(market@.listings == old(market)@.listings);
        assert(market@.collection_bids == old(market)@.collection_bids);
        assert forall|k2: crate::order::KeyView| #[trigger]
            market@.bids.contains_key(k2) implies bid_entry_ok(k2, market@.bids[k2]) by {
            if k2 != k {
                assert(old(market)@.bids.contains_key(k2));
            }
        }
        assert(instrs(out@) =~= (if new_price_amount@ < old_price@ {
            seq![
                InstructionView::Value {
                    recipient: sender@,
                    amount: spec_transfer_units((old_price@ - new_price_amount@) as u128),
                },
            ]
        } else {
            Seq::<InstructionView>::empty()
        }));
    }
    Ok(out)
}

/// The first failure `cancel_bid` runs into, or `None`: the collection
/// identity must have validated and the caller's bid must be live.
pub open spec fn spec_cancel_bid_err(
    pre: crate::state::MarketView,
    addr: Option<Seq<char>>,
    token: Seq<char>,
    bidder: Seq<char>,
) -> Option<ContractError> {
    if addr is None {
        Some(ContractError::InvalidNftContractAddress)
    } else if !pre.bids.contains_key(bid_key(addr->0, token, bidder)) {
        Some(ContractError::NftBidNotFound)
    } else {
        None
    }
}

/// Withdraws the caller's own bid and refunds exactly its stored price.
pub fn cancel_bid(
    market: &mut Marketplace,
    sender: &String,
    nft_contract_address: Option<String>,
    token_id: &String,
) -> (r: Result<Vec<TransferInstruction>, ContractError>)
    requires
        old(market).wf(),
    ensures
        final(market).wf(),
        match spec_cancel_bid_err(
            old(market)@,
            opt_string_view(nft_contract_address),
            token_id@,
            sender@,
        ) {
            Some(e) => r == Err::<Vec<TransferInstruction>, ContractError>(e) && final(market)@
                == old(market)@,
            None => {
                &&& (opt_string_view(nft_contract_address) matches Some(a) && {
                    let k = bid_key(a, token_id@, sender@);
                    let b = old(market)@.bids[k];
                    &&& final(market)@.bids == old(market)@.bids.remove(k)
                    &&& (r matches Ok(out) && instrs(out@) == seq![
                        InstructionView::Value {
                            recipient: b.bidder,
                            amount: spec_transfer_units(b.price),
                        },
                    ])
                })
                &&& final(market)@.listings == old(market)@.listings
                &&& final(market)@.collection_bids == old(market)@.collection_bids
            },
        },
{
    let addr = match nft_contract_address {
        Some(a) => a,
        None => {
            return Err(ContractError::InvalidNftContractAddress);
        },
    };
    let key = make_bid_key(&addr, token_id, sender);
    let nft_bid = match market.bids.remove(&key) {
        Some(b) => b,
        None => {
            return Err(ContractError::NftBidNotFound);
        },
    };
    let price_units = match parse_decimal(nft_bid.price) {
        Ok(v) => v,
        Err(_) => {
            return Err(ContractError::ParseDecimal);
        },
    };
    let mut out: Vec<TransferInstruction> = Vec::new();
    out.push(TransferInstruction::Value { recipient: nft_bid.bidder, amount: price_units });
    proof {
        assert(market@.listings == old(market)@.listings);
        assert(market@.collection_bids == old(market)@.collection_bids);
        assert forall|k2: crate::order::KeyView| #[trigger]
            market@.bids.contains_key(k2) implies bid_entry_ok(k2, market@.bids[k2]) by {
            assert(old(market)@.bids.contains_key(k2));
        }
        assert(instrs(out@) =~= seq![
            InstructionView::Value {
                recipient: old(market)@.bids[key@].bidder,
                amount: spec_transfer_units(old(market)@.bids[key@].price),
            },
        ]);
    }
    Ok(out)
}

/// The first failure `sell_to_bid` runs into, or `None`: both identities must
/// have validated, the addressed bid must be live, and an effective royalty
/// must fit under the price less the platform fee.
pub open spec fn spec_sell_to_bid_err(
    pre: crate::state::MarketView,
    addr: Option<Seq<char>>,
    bidder: Option<Seq<char>>,
    token: Seq<char>,
    roy: Option<(Seq<char>, u128)>,
) -> Option<ContractError> {
    if addr is None {
        Some(ContractError::InvalidNftContractAddress)
    } else if bidder is None {
        Some(ContractError::InvalidBidder)
    } else if !pre.bids.contains_key(bid_key(addr->0, token, bidder->0)) {
        Some(ContractError::NftBidNotFound)
    } else {
        let price = pre.bids[bid_key(addr->0, token, bidder->0)].price;
        match roy {
            Some((a, amt)) => if price * 2 / 100 + amt > price {
                Some(ContractError::Overflow)
            } else {
                None
            },
            None => None,
        }
    }
}

/// Settles a bid: the caller sells the escrowed asset to the bidder. Removes
/// the bid, moves the asset to the bidder, and divides the stored price among
/// platform, royalty recipient and the caller.
pub fn sell_to_bid(
    market: &mut Marketplace,
    sender: &String,
    nft_contract_address: Option<String>,
    token_id: &String,
    bidder: Option<String>,
    royalty_quote: Option<RoyaltyInfoResponse>,
) -> (r: Result<Vec<TransferInstruction>, ContractError>)
    requires
        old(market).wf(),
    ensures
        final(market).wf(),
        match spec_sell_to_bid_err(
            old(market)@,
            opt_string_view(nft_contract_address),
            opt_string_view(bidder),
            token_id@,
            spec_effective_royalty(royalty_quote),
        ) {
            Some(e) => r == Err::<Vec<TransferInstruction>, ContractError>(e) && final(market)@
                == old(market)@,
            None => {
                &&& (opt_string_view(nft_contract_address) matches Some(a) && (opt_string_view(
                    bidder,
                ) matches Some(bd) && {
                    let k = bid_key(a, token_id@, bd);
                    let b = old(market)@.bids[k];
                    let fee = b.price * 2 / 100;
                    let roy = spec_effective_royalty(royalty_quote);
                    let royalty_amt = match roy {
                        Some((ra, amt)) => amt,
                        None => 0,
                    };
                    &&& final(market)@.bids == old(market)@.bids.remove(k)
                    &&& (r matches Ok(out) && instrs(out@) == crate::fee::spec_settlement(
                        b.nft_contract_address,
                        b.token_id,
                        b.bidder,
                        (fee) as u128,
                        roy,
                        sender@,
                        (b.price - fee - royalty_amt) as u128,
                    ))
                }))
                &&& final(market)@.listings == old(market)@.listings
                &&& final(market)@.collection_bids == old(market)@.collection_bids
            },
        },
{
    let addr = match nft_contract_address {
        Some(a) => a,
        None => {
            return Err(ContractError::InvalidNftContractAddress);
        },
    };
    let bidder_id = match bidder {
        Some(b) => b,
        None => {
            return Err(ContractError::InvalidBidder);
        },
    };
    let key = make_bid_key(&addr, token_id, &bidder_id);
    let (price, collection, token, bid_owner) = match market.bids.get(&key) {
        Some(b) => (b.price, b.nft_contract_address.clone(), b.token_id.clone(), b.bidder.clone()),
        None => {
            return Err(ContractError::NftBidNotFound);
        },
    };
    let fee_split = match split(price, royalty_quote) {
        Ok(s) => s,
        Err(e) => {
            return Err(e);
        },
    };
    let out = match settlement_instructions(&collection, &token, &bid_owner, sender, fee_split) {
        Ok(v) => v,
        Err(e) => {
            return Err(e);
        },
    };
    let _ = market.bids.remove(&key);
    proof {
        assert(market@.listings == old(market)@.listings);
        assert(market@.collection_bids == old(market)@.collection_bids);
        assert forall|k2: crate::order::KeyView| #[trigger]
            market@.bids.contains_key(k2) implies bid_entry_ok(k2, market@.bids[k2]) by {
            assert(old(market)@.bids.contains_key(k2));
        }
    }
    Ok(out)
}

} // verus!
