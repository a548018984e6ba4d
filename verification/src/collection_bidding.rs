//! Collection bid actions: extend, settle and withdraw a bidder's group of
//! standing offers against one collection.

use vstd::prelude::*;

use crate::error::ContractError;
use crate::fee::{settlement_instructions, split};
use crate::fixed::spec_parse_decimal;
use crate::msg::{instrs, Coin, InstructionView, TransferInstruction};
use crate::state::{
    amounts_view, checked_total, copy_prices, group_entry_ok, group_key, lemma_sum_remove,
    make_group_key, sum_prices, CollectionBidView, Marketplace, NftCollectionBid,
};
use crate::utils::{
    attached_usei, coins_view, opt_string_view, parse_decimal, parse_prices,
    spec_effective_royalty, spec_parse_prices, spec_sent_usei, spec_transfer_units, strings_view,
    RoyaltyInfoResponse,
};

verus! {

/// Whether any standing price of `s` equals `p`.
pub open spec fn has_price(s: Seq<u128>, p: u128) -> bool {
    exists|i: int| 0 <= i < s.len() && s[i] == p
}

/// The first position whose price equals `p`; meaningful only when
/// `has_price(s, p)`.
pub open spec fn first_price_index(s: Seq<u128>, p: u128) -> int {
    choose|i: int|
        0 <= i < s.len() && s[i] == p && (forall|j: int| 0 <= j < i ==> (#[trigger] s[j]) != p)
}

/// The first failure `collection_bid` runs into, or `None`: fewer than one
/// hundred new prices, each reading as a decimal numeral, a validated
/// collection identity, a combined group of fewer than one hundred prices
/// whose sum is representable, and attached funds covering that whole sum.
pub open spec fn spec_collection_bid_err(
    pre: crate::state::MarketView,
    prices: Seq<Seq<char>>,
    addr: Option<Seq<char>>,
    bidder: Seq<char>,
    sent: u128,
) -> Option<ContractError> {
    if prices.len() >= 100 {
        Some(ContractError::CollectionBidsExceed100)
    } else if spec_parse_prices(prices) is None {
        Some(ContractError::InvalidPrice)
    } else if addr is None {
        Some(ContractError::InvalidNftContractAddress)
    } else {
        let k = group_key(addr->0, bidder);
        let existing = if pre.collection_bids.contains_key(k) {
            pre.collection_bids[k].bids_prices
        } else {
            Seq::<u128>::empty()
        };
        let combined = existing + spec_parse_prices(prices)->0;
        if combined.len() >= 100 {
            Some(ContractError::CollectionBidsExceed100)
        } else if sum_prices(combined) > u128::MAX {
            Some(ContractError::Overflow)
        } else if sent < spec_transfer_units(sum_prices(combined) as u128) {
            Some(ContractError::InsufficientFundsSent)
        } else {
            None
        }
    }
}

/// Appends standing prices to the caller's collection bid group, creating
/// the group where none is live. The attached funds must cover the sum of
/// the whole resulting group; a group reaching one hundred prices is
/// rejected unchanged.
pub fn collection_bid(
    market: &mut Marketplace,
    sender: String,
    prices: &Vec<String>,
    nft_contract_address: Option<String>,
    funds: &Vec<Coin>,
) -> (r: Result<(), ContractError>)
    requires
        old(market).wf(),
    ensures
        final(market).wf(),
        match spec_collection_bid_err(
            old(market)@,
            strings_view(prices@),
            opt_string_view(nft_contract_address),
            sender@,
            spec_sent_usei(coins_view(funds@)),
        ) {
            Some(e) => r == Err::<(), ContractError>(e) && final(market)@ == old(market)@,
            None => {
                &&& r == Ok::<(), ContractError>(())
                &&& (opt_string_view(nft_contract_address) matches Some(a) && {
                    let k = group_key(a, sender@);
                    let existing = if old(market)@.collection_bids.contains_key(k) {
                        old(market)@.collection_bids[k].bids_prices
                    } else {
                        Seq::<u128>::empty()
                    };
                    final(market)@.collection_bids == old(market)@.collection_bids.insert(
                        k,
                        CollectionBidView {
                            bidder: sender@,
                            nft_contract_address: a,
                            bids_prices: existing + spec_parse_prices(strings_view(prices@))->0,
                        },
                    )
                })
                &&& final(market)@.listings == old(market)@.listings
                &&& final(market)@.bids == old(market)@.bids
            },
        },
{
    if prices.len() >= 100 {
        return Err(ContractError::CollectionBidsExceed100);
    }
    let mut parsed = match parse_prices(prices) {
        Ok(v) => v,
        Err(e) => {
            return Err(e);
        },
    };
    let addr = match nft_contract_address {
        Some(a) => a,
        None => {
            return Err(ContractError::InvalidNftContractAddress);
        },
    };
    let key = make_group_key(&addr, &sender);
    let mut all = match market.collection_bids.get(&key) {
        Some(g) => copy_prices(&g.bids_prices),
        None => Vec::new(),
    };
    let ghost existing = amounts_view(all@);
    all.append(&mut parsed);
    proof {
        assert(amounts_view(all@) =~= existing + spec_parse_prices(strings_view(prices@))->0);
    }
    if all.len() >= 100 {
        return Err(ContractError::CollectionBidsExceed100);
    }
    let total = match checked_total(&all) {
        Some(t) => t,
        None => {
            return Err(ContractError::Overflow);
        },
    };
    let sent = attached_usei(funds);
    let total_units = match parse_decimal(total) {
        Ok(v) => v,
        Err(e) => {
            return Err(e);
        },
    };
    if sent < total_units {
        return Err(ContractError::InsufficientFundsSent);
    }
    let group = NftCollectionBid { bidder: sender, nft_contract_address: addr, bids_prices: all };
    let ghost k = key@;
    market.collection_bids.put(key, group);
    proof {
        assert(market@.listings == old(market)@.listings);
        assert(market@.bids == old(market)@.bids);
        assert forall|k2: crate::order::KeyView| #[trigger]
            market@.collection_bids.contains_key(k2) implies group_entry_ok(
            k2,
            market@.collection_bids[k2],
        ) by {
            if k2 != k {
                assert(old(market)@.collection_bids.contains_key(k2));
            }
        }
    }
    Ok(())
}

/// The first failure `sell_to_collection_bid` runs into, or `None`: the price
/// must parse, both identities must have validated, the group must be live
/// and hold that exact price, and an effective royalty must fit under the
/// price less the platform fee.
pub open spec fn spec_sell_to_collection_bid_err(
    pre: crate::state::MarketView,
    pricev: Option<u128>,
    addr: Option<Seq<char>>,
    bidder: Option<Seq<char>>,
    roy: Option<(Seq<char>, u128)>,
) -> Option<ContractError> {
    if pricev is None {
        Some(ContractError::InvalidPrice)
    } else if addr is None {
        Some(ContractError::InvalidNftContractAddress)
    } else if bidder is None {
        Some(ContractError::InvalidCollectionBidder)
    } else if !pre.collection_bids.contains_key(group_key(addr->0, bidder->0)) {
        Some(ContractError::NftCollectionBidNotFound)
    } else if !has_price(
        pre.collection_bids[group_key(addr->0, bidder->0)].bids_prices,
        pricev->0,
    ) {
        Some(ContractError::NftCollectionBidNotFound)
    } else {
        match roy {
            Some((a, amt)) => if pricev->0 * 2 / 100 + amt > pricev->0 {
                Some(ContractError::Overflow)
            } else {
                None
            },
            None => None,
        }
    }
}

/// Settles one standing price of a collection bid group: removes the first
/// entry matching the named price (deleting the group when it was the last),
/// moves the asset to the bidder, and divides that price among platform,
/// royalty recipient and the caller.
pub fn sell_to_collection_bid(
    market: &mut Marketplace,
    sender: &String,
    nft_contract_address: Option<String>,
    token_id: &String,
    bidder: Option<String>,
    price: &String,
    royalty_quote: Option<RoyaltyInfoResponse>,
) -> (r: Result<Vec<TransferInstruction>, ContractError>)
    requires
        old(market).wf(),
    ensures
        final(market).wf(),
        match spec_sell_to_collection_bid_err(
            old(market)@,
            spec_parse_decimal(price@),
            opt_string_view(nft_contract_address),
            opt_string_view(bidder),
            spec_effective_royalty(royalty_quote),
        ) {
            Some(e) => r == Err::<Vec<TransferInstruction>, ContractError>(e) && final(market)@
                == old(market)@,
            None => {
                &&& (opt_string_view(nft_contract_address) matches Some(a) && (opt_string_view(
                    bidder,
                ) matches Some(bd) && (spec_parse_decimal(price@) matches Some(pv) && {
                    let k = group_key(a, bd);
                    let g = old(market)@.collection_bids[k];
                    let rest = g.bids_prices.remove(first_price_index(g.bids_prices, pv));
                    let fee = pv * 2 / 100;
                    let roy = spec_effective_royalty(royalty_quote);
                    let royalty_amt = match roy {
                        Some((ra, amt)) => amt,
                        None => 0,
                    };
                    &&& (if rest.len() == 0 {
                        final(market)@.collection_bids == old(market)@.collection_bids.remove(k)
                    } else {
                        final(market)@.collection_bids == old(market)@.collection_bids.insert(
                            k,
                            CollectionBidView { bids_prices: rest, ..g },
                        )
                    })
                    &&& (r matches Ok(out) && instrs(out@) == crate::fee::spec_settlement(
                        g.nft_contract_address,
                        token_id@,
                        g.bidder,
                        (fee) as u128,
                        roy,
                        sender@,
                        (pv - fee - royalty_amt) as u128,
                    ))
                })))
                &&& final(market)@.listings == old(market)@.listings
                &&& final(market)@.bids == old(market)@.bids
            },
        },
{
    let price_amount = match crate::fixed::parse_price(price.as_str()) {
        Ok(p) => p,
        Err(e) => {
            return Err(e);
        },
    };
    let addr = match nft_contract_address {
        Some(a) => a,
        None => {
            return Err(ContractError::InvalidNftContractAddress);
        },
    };
    let bidder_id = match bidder {
        Some(b) => b,
        None => {
            return Err(ContractError::InvalidCollectionBidder);
        },
    };
    let key = make_group_key(&addr, &bidder_id);
    let (mut rest, g_collection, g_bidder) = match market.collection_bids.get(&key) {
        Some(g) => (
            copy_prices(&g.bids_prices),
            g.nft_contract_address.clone(),
            g.bidder.clone(),
        ),
        None => {
            return Err(ContractError::NftCollectionBidNotFound);
        },
    };
    let ghost g_prices = amounts_view(rest@);
    let n = rest.len();
    let mut idx: usize = 0;
    let mut found = false;
    while idx < n && !found
        invariant
            idx <= n,
            n == g_prices.len(),
            g_prices == amounts_view(rest@),
            !found ==> forall|j: int| 0 <= j < idx ==> (#[trigger] g_prices[j]) != price_amount@,
            found ==> idx < n && g_prices[idx as int] == price_amount@ && (forall|j: int|
                0 <= j < idx ==> (#[trigger] g_prices[j]) != price_amount@),
        decreases n - idx, (if found { 0int } else { 1int }),
    {
        if rest[idx] == price_amount {
            found = true;
        } else {
            idx += 1;
        }
    }
    if !found {
        proof {
            assert(!has_price(g_prices, price_amount@));
        }
        return Err(ContractError::NftCollectionBidNotFound);
    }
    proof {
        let c = first_price_index(g_prices, price_amount@);
        assert(0 <= c < g_prices.len() && g_prices[c] == price_amount@ && (forall|j: int|
            0 <= j < c ==> (#[trigger] g_prices[j]) != price_amount@)) by {
            assert(0 <= idx < g_prices.len() && g_prices[idx as int] == price_amount@ && (
            forall|j: int| 0 <= j < idx ==> (#[trigger] g_prices[j]) != price_amount@));
        }
        assert(c == idx as int);
    }
    let _ = rest.remove(idx);
    proof {
        assert(amounts_view(rest@) =~= g_prices.remove(idx as int));
        lemma_sum_remove(g_prices, idx as int);
    }
    let fee_split = match split(price_amount, royalty_quote) {
        Ok(s) => s,
        Err(e) => {
            return Err(e);
        },
    };
    let out = match settlement_instructions(&g_collection, token_id, &g_bidder, sender, fee_split) {
        Ok(v) => v,
        Err(e) => {
            return Err(e);
        },
    };
    let ghost k = key@;
    if rest.len() == 0 {
        let _ = market.collection_bids.remove(&key);
        proof {
            assert(market@.listings == old(market)@.listings);
            assert(market@.bids == old(market)@.bids);
            assert forall|k2: crate::order::KeyView| #[trigger]
                market@.collection_bids.contains_key(k2) implies group_entry_ok(
                k2,
                market@.collection_bids[k2],
            ) by {
                assert(old(market)@.collection_bids.contains_key(k2));
            }
        }
    } else {
        let group = NftCollectionBid {
            bidder: g_bidder,
            nft_contract_address: g_collection,
            bids_prices: rest,
        };
        market.collection_bids.put(key, group);
        proof {
            assert(market@.listings == old(market)@.listings);
            assert(market@.bids == old(market)@.bids);
            assert forall|k2: crate::order::KeyView| #[trigger]
                market@.collection_bids.contains_key(k2) implies group_entry_ok(
                k2,
                market@.collection_bids[k2],
            ) by {
                if k2 != k {
                    assert(old(market)@.collection_bids.contains_key(k2));
                } else {
                    assert(old(market)@.collection_bids.contains_key(k2));
                    assert(group_entry_ok(k2, old(market)@.collection_bids[k2]));
                }
            }
        }
    }
    Ok(out)
}

/// Law: once a group's key is no longer live — in particular after settling
/// its last standing price deleted the group — every further settlement or
/// cancellation against that key reports the group as not found.
pub proof fn lemma_removed_group_not_found(
    m: crate::state::MarketView,
    a: Seq<char>,
    bd: Seq<char>,
    pricev: u128,
    roy: Option<(Seq<char>, u128)>,
)
    requires
        !m.collection_bids.contains_key(group_key(a, bd)),
    ensures
        spec_sell_to_collection_bid_err(m, Some(pricev), Some(a), Some(bd), roy) == Some(
            ContractError::NftCollectionBidNotFound,
        ),
        spec_cancel_all_collection_bids_err(m, Some(a), bd) == Some(
            ContractError::NftCollectionBidNotFound,
        ),
{
}

/// The first failure `cancel_all_collection_bids` runs into, or `None`: the
/// collection identity must have validated and the caller's group must be
/// live.
pub open spec fn spec_cancel_all_collection_bids_err(
    pre: crate::state::MarketView,
    addr: Option<Seq<char>>,
    bidder: Seq<char>,
) -> Option<ContractError> {
    if addr is None {
        Some(ContractError::InvalidNftContractAddress)
    } else if !pre.collection_bids.contains_key(group_key(addr->0, bidder)) {
        Some(ContractError::NftCollectionBidNotFound)
    } else {
        None
    }
}

/// Withdraws the caller's whole collection bid group and refunds exactly the
/// sum of its standing prices.
pub fn cancel_all_collection_bids(
    market: &mut Marketplace,
    sender: &String,
    nft_contract_address: Option<String>,
) -> (r: Result<Vec<TransferInstruction>, ContractError>)
    requires
        old(market).wf(),
    ensures
        final(market).wf(),
        match spec_cancel_all_collection_bids_err(
            old(market)@,
            opt_string_view(nft_contract_address),
            sender@,
        ) {
            Some(e) => r == Err::<Vec<TransferInstruction>, ContractError>(e) && final(market)@
                == old(market)@,
            None => {
                &&& (opt_string_view(nft_contract_address) matches Some(a) && {
                    let k = group_key(a, sender@);
                    let g = old(market)@.collection_bids[k];
                    &&& final(market)@.collection_bids == old(market)@.collection_bids.remove(k)
                    &&& (r matches Ok(out) && instrs(out@) == seq![
                        InstructionView::Value {
                            recipient: g.bidder,
                            amount: spec_transfer_units(sum_prices(g.bids_prices) as u128),
                        },
                    ])
                })
                &&& final(market)@.listings == old(market)@.listings
                &&& final(market)@.bids == old(market)@.bids
            },
        },
{
    let addr = match nft_contract_address {
        Some(a) => a,
        None => {
            return Err(ContractError::InvalidNftContractAddress);
        },
    };
    let key = make_group_key(&addr, sender);
    let group = match market.collection_bids.remove(&key) {
        Some(g) => g,
        None => {
            return Err(ContractError::NftCollectionBidNotFound);
        },
    };
    let total = match checked_total(&group.bids_prices) {
        Some(t) => t,
        None => {
            proof {
                assert(old(market)@.collection_bids.contains_key(key@));
                assert(false);
            }
            return Err(ContractError::Overflow);
        },
    };
    let total_units = match parse_decimal(total) {
        Ok(v) => v,
        Err(_) => {
            return Err(ContractError::ParseDecimal);
        },
    };
    let mut out: Vec<TransferInstruction> = Vec::new();
    out.push(TransferInstruction::Value { recipient: group.bidder, amount: total_units });
    proof {
        assert(market@.listings == old(market)@.listings);
        assert(market@.bids == old(market)@.bids);
        assert forall|k2: crate::order::KeyView| #[trigger]
            market@.collection_bids.contains_key(k2) implies group_entry_ok(
            k2,
            market@.collection_bids[k2],
        ) by {
            assert(old(market)@.collection_bids.contains_key(k2));
        }
        assert(instrs(out@) =~= seq![
            InstructionView::Value {
                recipient: old(market)@.collection_bids[key@].bidder,
                amount: spec_transfer_units(
                    sum_prices(old(market)@.collection_bids[key@].bids_prices) as u128,
                ),
            },
        ]);
    }
    Ok(out)
}

} // verus!
