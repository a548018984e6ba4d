use tradesei::bidding::{bid, cancel_bid, sell_to_bid, update_bid};
use tradesei::error::ContractError;
use tradesei::msg::{Coin, TransferInstruction};
use tradesei::query::get_nft_bid;
use tradesei::state::{Marketplace, PLATFORM_FEE_RECEIVER};
use tradesei::utils::RoyaltyInfoResponse;

const ATOM: u128 = 1_000_000_000_000_000_000;

fn s(x: &str) -> String {
    String::from(x)
}

fn usei(amount: u128) -> Vec<Coin> {
    vec![Coin {
        denom: s("usei"),
        amount,
    }]
}

#[test]
fn bid_update_and_same_price_rejection() {
    // A bid at 2.0 funded with 2.0; a cut to 1.0 refunds exactly 1.0; the
    // same re-price again is rejected.
    let mut market = Marketplace::new();
    let r = bid(
        &mut market,
        s("bidder1"),
        &s("2.0"),
        Some(s("collection1")),
        s("token1"),
        &usei(2_000_000),
    );
    assert!(r.is_ok());
    let resp = get_nft_bid(&market, Some(s("collection1")), &s("token1"), Some(s("bidder1")))
        .unwrap();
    assert_eq!(resp.nft_bid.price.atomics, 2 * ATOM);

    let out = update_bid(
        &mut market,
        &s("bidder1"),
        Some(s("collection1")),
        &s("token1"),
        &s("1.0"),
        &usei(0),
    )
    .unwrap();
    assert_eq!(out.len(), 1);
    match &out[0] {
        TransferInstruction::Value { recipient, amount } => {
            assert_eq!(recipient, &s("bidder1"));
            assert_eq!(*amount, 1_000_000u128);
        },
        _ => panic!("expected a refund"),
    }
    let resp = get_nft_bid(&market, Some(s("collection1")), &s("token1"), Some(s("bidder1")))
        .unwrap();
    assert_eq!(resp.nft_bid.price.atomics, ATOM);

    let r = update_bid(
        &mut market,
        &s("bidder1"),
        Some(s("collection1")),
        &s("token1"),
        &s("1.0"),
        &usei(0),
    );
    assert_eq!(r.unwrap_err(), ContractError::NewPriceCantBeSameAsOldPrice);
}

#[test]
fn bid_requires_funds() {
    let mut market = Marketplace::new();
    let r = bid(
        &mut market,
        s("bidder1"),
        &s("2.0"),
        Some(s("collection1")),
        s("token1"),
        &usei(1_999_999),
    );
    assert_eq!(r.unwrap_err(), ContractError::InsufficientFundsSent);
    assert!(get_nft_bid(&market, Some(s("collection1")), &s("token1"), Some(s("bidder1")))
        .is_err());
}

#[test]
fn bid_reads_only_the_settlement_denom() {
    let mut market = Marketplace::new();
    let funds = vec![
        Coin {
            denom: s("uatom"),
            amount: 5_000_000,
        },
        Coin {
            denom: s("usei"),
            amount: 1_000_000,
        },
    ];
    let r = bid(
        &mut market,
        s("bidder1"),
        &s("1.0"),
        Some(s("collection1")),
        s("token1"),
        &funds,
    );
    assert!(r.is_ok());
    // a foreign denomination alone does not cover anything
    let r = bid(
        &mut market,
        s("bidder2"),
        &s("1.0"),
        Some(s("collection1")),
        s("token1"),
        &vec![Coin {
            denom: s("uatom"),
            amount: 5_000_000,
        }],
    );
    assert_eq!(r.unwrap_err(), ContractError::InsufficientFundsSent);
}

#[test]
fn bid_rejects_duplicate() {
    let mut market = Marketplace::new();
    bid(
        &mut market,
        s("bidder1"),
        &s("1.0"),
        Some(s("collection1")),
        s("token1"),
        &usei(1_000_000),
    )
    .unwrap();
    let r = bid(
        &mut market,
        s("bidder1"),
        &s("2.0"),
        Some(s("collection1")),
        s("token1"),
        &usei(2_000_000),
    );
    assert_eq!(r.unwrap_err(), ContractError::BidAlreadyExists);
}

#[test]
fn update_bid_raise_requires_the_difference() {
    let mut market = Marketplace::new();
    bid(
        &mut market,
        s("bidder1"),
        &s("1.0"),
        Some(s("collection1")),
        s("token1"),
        &usei(1_000_000),
    )
    .unwrap();
    // raising to 3.0 needs 2.0 more
    let r = update_bid(
        &mut market,
        &s("bidder1"),
        Some(s("collection1")),
        &s("token1"),
        &s("3.0"),
        &usei(1_999_999),
    );
    assert_eq!(r.unwrap_err(), ContractError::InsufficientFundsSent);
    let out = update_bid(
        &mut market,
        &s("bidder1"),
        Some(s("collection1")),
        &s("token1"),
        &s("3.0"),
        &usei(2_000_000),
    )
    .unwrap();
    // a raise refunds nothing
    assert_eq!(out.len(), 0);
    let resp = get_nft_bid(&market, Some(s("collection1")), &s("token1"), Some(s("bidder1")))
        .unwrap();
    assert_eq!(resp.nft_bid.price.atomics, 3 * ATOM);
}

#[test]
fn update_bid_missing() {
    let mut market = Marketplace::new();
    let r = update_bid(
        &mut market,
        &s("bidder1"),
        Some(s("collection1")),
        &s("token1"),
        &s("2.0"),
        &usei(2_000_000),
    );
    assert_eq!(r.unwrap_err(), ContractError::NftBidNotFound);
}

#[test]
fn cancel_bid_refunds_exactly_the_stored_price() {
    let mut market = Marketplace::new();
    bid(
        &mut market,
        s("bidder1"),
        &s("2.0"),
        Some(s("collection1")),
        s("token1"),
        &usei(2_000_000),
    )
    .unwrap();
    let out = cancel_bid(&mut market, &s("bidder1"), Some(s("collection1")), &s("token1"))
        .unwrap();
    assert_eq!(out.len(), 1);
    match &out[0] {
        TransferInstruction::Value { recipient, amount } => {
            assert_eq!(recipient, &s("bidder1"));
            assert_eq!(*amount, 2_000_000u128);
        },
        _ => panic!("expected a refund"),
    }
    let r = cancel_bid(&mut market, &s("bidder1"), Some(s("collection1")), &s("token1"));
    assert_eq!(r.unwrap_err(), ContractError::NftBidNotFound);
}

#[test]
fn sell_to_bid_pays_the_caller_the_remainder() {
    let mut market = Marketplace::new();
    bid(
        &mut market,
        s("bidder1"),
        &s("2.0"),
        Some(s("collection1")),
        s("token1"),
        &usei(2_000_000),
    )
    .unwrap();
    let out = sell_to_bid(
        &mut market,
        &s("seller"),
        Some(s("collection1")),
        &s("token1"),
        Some(s("bidder1")),
        None,
    )
    .unwrap();
    assert_eq!(out.len(), 3);
    match &out[0] {
        TransferInstruction::Asset { recipient, .. } => assert_eq!(recipient, &s("bidder1")),
        _ => panic!("expected an asset transfer first"),
    }
    match &out[1] {
        TransferInstruction::Value { recipient, amount } => {
            assert_eq!(recipient, &s(PLATFORM_FEE_RECEIVER));
            assert_eq!(*amount, 40_000u128);
        },
        _ => panic!("expected the platform fee second"),
    }
    match &out[2] {
        TransferInstruction::Value { recipient, amount } => {
            assert_eq!(recipient, &s("seller"));
            assert_eq!(*amount, 1_960_000u128);
        },
        _ => panic!("expected the seller remainder last"),
    }
    // the bid is gone
    assert!(get_nft_bid(&market, Some(s("collection1")), &s("token1"), Some(s("bidder1")))
        .is_err());
}

#[test]
fn sell_to_bid_with_royalty() {
    let mut market = Marketplace::new();
    bid(
        &mut market,
        s("bidder1"),
        &s("2.0"),
        Some(s("collection1")),
        s("token1"),
        &usei(2_000_000),
    )
    .unwrap();
    let quote = RoyaltyInfoResponse {
        address: s("artist"),
        royalty_amount: ATOM / 10, // 0.1
    };
    let out = sell_to_bid(
        &mut market,
        &s("seller"),
        Some(s("collection1")),
        &s("token1"),
        Some(s("bidder1")),
        Some(quote),
    )
    .unwrap();
    assert_eq!(out.len(), 4);
    match &out[2] {
        TransferInstruction::Value { recipient, amount } => {
            assert_eq!(recipient, &s("artist"));
            assert_eq!(*amount, 100_000u128);
        },
        _ => panic!("expected the royalty third"),
    }
    match &out[3] {
        TransferInstruction::Value { recipient, amount } => {
            assert_eq!(recipient, &s("seller"));
            // 2.0 - 0.04 fee - 0.1 royalty = 1.86
            assert_eq!(*amount, 1_860_000u128);
        },
        _ => panic!("expected the seller remainder last"),
    }
}

#[test]
fn sell_to_bid_rejects_missing_or_invalid() {
    let mut market = Marketplace::new();
    let r = sell_to_bid(
        &mut market,
        &s("seller"),
        Some(s("collection1")),
        &s("token1"),
        Some(s("bidder1")),
        None,
    );
    assert_eq!(r.unwrap_err(), ContractError::NftBidNotFound);
    let r = sell_to_bid(
        &mut market,
        &s("seller"),
        Some(s("collection1")),
        &s("token1"),
        None,
        None,
    );
    assert_eq!(r.unwrap_err(), ContractError::InvalidBidder);
    let r = sell_to_bid(
        &mut market,
        &s("seller"),
        None,
        &s("token1"),
        Some(s("bidder1")),
        None,
    );
    assert_eq!(r.unwrap_err(), ContractError::InvalidNftContractAddress);
}

#[test]
fn bids_per_bidder_are_independent() {
    // Two bidders hold bids on the same asset at once; each key is unique.
    let mut market = Marketplace::new();
    bid(
        &mut market,
        s("bidder1"),
        &s("1.0"),
        Some(s("collection1")),
        s("token1"),
        &usei(1_000_000),
    )
    .unwrap();
    bid(
        &mut market,
        s("bidder2"),
        &s("2.0"),
        Some(s("collection1")),
        s("token1"),
        &usei(2_000_000),
    )
    .unwrap();
    let b1 = get_nft_bid(&market, Some(s("collection1")), &s("token1"), Some(s("bidder1")))
        .unwrap();
    let b2 = get_nft_bid(&market, Some(s("collection1")), &s("token1"), Some(s("bidder2")))
        .unwrap();
    assert_eq!(b1.nft_bid.price.atomics, ATOM);
    assert_eq!(b2.nft_bid.price.atomics, 2 * ATOM);
}
