use tradesei::collection_bidding::{
    cancel_all_collection_bids, collection_bid, sell_to_collection_bid,
};
use tradesei::error::ContractError;
use tradesei::msg::{Coin, TransferInstruction};
use tradesei::query::get_nft_collection_bid;
use tradesei::state::{Marketplace, PLATFORM_FEE_RECEIVER};

const ATOM: u128 = 1_000_000_000_000_000_000;

fn s(x: &str) -> String {
    String::from(x)
}

fn usei(amount: u128) -> Vec<Coin> {
    vec![Coin {
        denom: s("usei"),
        amount,
    }]
}

#[test]
fn collection_bid_then_partial_settlement() {
    // A group of 1.0 and 2.0 funded with 3.0; settling the 2.0 removes only
    // that entry.
    let mut market = Marketplace::new();
    let r = collection_bid(
        &mut market,
        s("bidder1"),
        &vec![s("1.0"), s("2.0")],
        Some(s("collection1")),
        &usei(3_000_000),
    );
    assert!(r.is_ok());
    let g = get_nft_collection_bid(&market, Some(s("collection1")), Some(s("bidder1")))
        .unwrap()
        .nft_collection_bid;
    assert_eq!(g.bids_prices.len(), 2);
    assert_eq!(g.bids_prices[0].atomics, ATOM);
    assert_eq!(g.bids_prices[1].atomics, 2 * ATOM);

    let out = sell_to_collection_bid(
        &mut market,
        &s("seller"),
        Some(s("collection1")),
        &s("token9"),
        Some(s("bidder1")),
        &s("2.0"),
        None,
    )
    .unwrap();
    assert_eq!(out.len(), 3);
    match &out[0] {
        TransferInstruction::Asset {
            nft_contract_address,
            token_id,
            recipient,
        } => {
            assert_eq!(nft_contract_address, &s("collection1"));
            assert_eq!(token_id, &s("token9"));
            assert_eq!(recipient, &s("bidder1"));
        },
        _ => panic!("expected an asset transfer first"),
    }
    match &out[1] {
        TransferInstruction::Value { recipient, amount } => {
            assert_eq!(recipient, &s(PLATFORM_FEE_RECEIVER));
            assert_eq!(*amount, 40_000u128);
        },
        _ => panic!("expected the platform fee second"),
    }
    match &out[2] {
        TransferInstruction::Value { recipient, amount } => {
            assert_eq!(recipient, &s("seller"));
            assert_eq!(*amount, 1_960_000u128);
        },
        _ => panic!("expected the seller remainder last"),
    }

    // only the 1.0 entry remains
    let g = get_nft_collection_bid(&market, Some(s("collection1")), Some(s("bidder1")))
        .unwrap()
        .nft_collection_bid;
    assert_eq!(g.bids_prices.len(), 1);
    assert_eq!(g.bids_prices[0].atomics, ATOM);
}

#[test]
fn settling_the_last_price_deletes_the_group() {
    let mut market = Marketplace::new();
    collection_bid(
        &mut market,
        s("bidder1"),
        &vec![s("1.0")],
        Some(s("collection1")),
        &usei(1_000_000),
    )
    .unwrap();
    sell_to_collection_bid(
        &mut market,
        &s("seller"),
        Some(s("collection1")),
        &s("token1"),
        Some(s("bidder1")),
        &s("1.0"),
        None,
    )
    .unwrap();
    assert_eq!(
        get_nft_collection_bid(&market, Some(s("collection1")), Some(s("bidder1"))).unwrap_err(),
        ContractError::NftCollectionBidNotFound
    );
    // further actions against the key report not-found
    let r = sell_to_collection_bid(
        &mut market,
        &s("seller"),
        Some(s("collection1")),
        &s("token2"),
        Some(s("bidder1")),
        &s("1.0"),
        None,
    );
    assert_eq!(r.unwrap_err(), ContractError::NftCollectionBidNotFound);
    let r = cancel_all_collection_bids(&mut market, &s("bidder1"), Some(s("collection1")));
    assert_eq!(r.unwrap_err(), ContractError::NftCollectionBidNotFound);
}

#[test]
fn collection_bid_appends_to_an_existing_group() {
    let mut market = Marketplace::new();
    collection_bid(
        &mut market,
        s("bidder1"),
        &vec![s("1.0")],
        Some(s("collection1")),
        &usei(1_000_000),
    )
    .unwrap();
    // the funds must cover the whole resulting group, not just the new prices
    let r = collection_bid(
        &mut market,
        s("bidder1"),
        &vec![s("2.0")],
        Some(s("collection1")),
        &usei(2_000_000),
    );
    assert_eq!(r.unwrap_err(), ContractError::InsufficientFundsSent);
    let r = collection_bid(
        &mut market,
        s("bidder1"),
        &vec![s("2.0")],
        Some(s("collection1")),
        &usei(3_000_000),
    );
    assert!(r.is_ok());
    let g = get_nft_collection_bid(&market, Some(s("collection1")), Some(s("bidder1")))
        .unwrap()
        .nft_collection_bid;
    assert_eq!(g.bids_prices.len(), 2);
}

#[test]
fn collection_bid_enforces_the_bound() {
    // A group may never reach one hundred standing prices.
    let mut market = Marketplace::new();
    let mut prices: Vec<String> = Vec::new();
    for _ in 0..99 {
        prices.push(s("1.0"));
    }
    collection_bid(
        &mut market,
        s("bidder1"),
        &prices,
        Some(s("collection1")),
        &usei(99_000_000),
    )
    .unwrap();
    let r = collection_bid(
        &mut market,
        s("bidder1"),
        &vec![s("1.0")],
        Some(s("collection1")),
        &usei(100_000_000),
    );
    assert_eq!(r.unwrap_err(), ContractError::CollectionBidsExceed100);
    // the group is left unchanged
    let g = get_nft_collection_bid(&market, Some(s("collection1")), Some(s("bidder1")))
        .unwrap()
        .nft_collection_bid;
    assert_eq!(g.bids_prices.len(), 99);

    // one hundred prices in one shot are rejected outright
    let mut market2 = Marketplace::new();
    let mut hundred: Vec<String> = Vec::new();
    for _ in 0..100 {
        hundred.push(s("1.0"));
    }
    let r = collection_bid(
        &mut market2,
        s("bidder1"),
        &hundred,
        Some(s("collection1")),
        &usei(100_000_000),
    );
    assert_eq!(r.unwrap_err(), ContractError::CollectionBidsExceed100);
}

#[test]
fn collection_bid_rejects_a_bad_price_anywhere() {
    let mut market = Marketplace::new();
    let r = collection_bid(
        &mut market,
        s("bidder1"),
        &vec![s("1.0"), s("x"), s("2.0")],
        Some(s("collection1")),
        &usei(10_000_000),
    );
    assert_eq!(r.unwrap_err(), ContractError::InvalidPrice);
    assert!(
        get_nft_collection_bid(&market, Some(s("collection1")), Some(s("bidder1"))).is_err()
    );
}

#[test]
fn cancel_all_refunds_the_whole_sum() {
    let mut market = Marketplace::new();
    collection_bid(
        &mut market,
        s("bidder1"),
        &vec![s("1.0"), s("2.0"), s("0.5")],
        Some(s("collection1")),
        &usei(3_500_000),
    )
    .unwrap();
    let out = cancel_all_collection_bids(&mut market, &s("bidder1"), Some(s("collection1")))
        .unwrap();
    assert_eq!(out.len(), 1);
    match &out[0] {
        TransferInstruction::Value { recipient, amount } => {
            assert_eq!(recipient, &s("bidder1"));
            assert_eq!(*amount, 3_500_000u128);
        },
        _ => panic!("expected a refund"),
    }
    assert!(
        get_nft_collection_bid(&market, Some(s("collection1")), Some(s("bidder1"))).is_err()
    );
}

#[test]
fn sell_to_collection_bid_needs_an_exact_price() {
    let mut market = Marketplace::new();
    collection_bid(
        &mut market,
        s("bidder1"),
        &vec![s("1.0")],
        Some(s("collection1")),
        &usei(1_000_000),
    )
    .unwrap();
    let r = sell_to_collection_bid(
        &mut market,
        &s("seller"),
        Some(s("collection1")),
        &s("token1"),
        Some(s("bidder1")),
        &s("1.5"),
        None,
    );
    assert_eq!(r.unwrap_err(), ContractError::NftCollectionBidNotFound);
    // the group keeps its price
    let g = get_nft_collection_bid(&market, Some(s("collection1")), Some(s("bidder1")))
        .unwrap()
        .nft_collection_bid;
    assert_eq!(g.bids_prices.len(), 1);
}

#[test]
fn collection_bid_actions_reject_invalid_identities() {
    let mut market = Marketplace::new();
    let r = collection_bid(&mut market, s("bidder1"), &vec![s("1.0")], None, &usei(1_000_000));
    assert_eq!(r.unwrap_err(), ContractError::InvalidNftContractAddress);
    collection_bid(
        &mut market,
        s("bidder1"),
        &vec![s("1.0")],
        Some(s("collection1")),
        &usei(1_000_000),
    )
    .unwrap();
    let r = sell_to_collection_bid(
        &mut market,
        &s("seller"),
        Some(s("collection1")),
        &s("token1"),
        None,
        &s("1.0"),
        None,
    );
    assert_eq!(r.unwrap_err(), ContractError::InvalidCollectionBidder);
}

#[test]
fn sell_to_collection_bid_removes_the_first_match_only() {
    let mut market = Marketplace::new();
    collection_bid(
        &mut market,
        s("bidder1"),
        &vec![s("1.0"), s("1.0")],
        Some(s("collection1")),
        &usei(2_000_000),
    )
    .unwrap();
    sell_to_collection_bid(
        &mut market,
        &s("seller"),
        Some(s("collection1")),
        &s("token1"),
        Some(s("bidder1")),
        &s("1.0"),
        None,
    )
    .unwrap();
    let g = get_nft_collection_bid(&market, Some(s("collection1")), Some(s("bidder1")))
        .unwrap()
        .nft_collection_bid;
    assert_eq!(g.bids_prices.len(), 1);
    assert_eq!(g.bids_prices[0].atomics, ATOM);
}
