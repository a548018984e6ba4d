use tradesei::bidding::bid;
use tradesei::error::ContractError;
use tradesei::listing::{buy_listing, cancel_listing, delist, list};
use tradesei::msg::TransferInstruction;
use tradesei::query::get_nft_listing;
use tradesei::state::{Marketplace, PLATFORM_FEE_RECEIVER};
use tradesei::utils::RoyaltyInfoResponse;

const ATOM: u128 = 1_000_000_000_000_000_000;

fn s(x: &str) -> String {
    String::from(x)
}

fn listed_market() -> Marketplace {
    let mut market = Marketplace::new();
    let r = list(
        &mut market,
        s("seller"),
        &s("1.0"),
        Some(s("collection1")),
        s("token1"),
        true,
    );
    assert!(r.is_ok());
    market
}

#[test]
fn list_creates_listing() {
    let market = listed_market();
    let resp = get_nft_listing(&market, Some(s("collection1")), &s("token1")).unwrap();
    assert_eq!(resp.nft_listing.lister, s("seller"));
    assert_eq!(resp.nft_listing.price.atomics, ATOM);
    assert_eq!(resp.nft_listing.nft_contract_address, s("collection1"));
    assert_eq!(resp.nft_listing.token_id, s("token1"));
}

#[test]
fn list_rejects_bad_price() {
    let mut market = Marketplace::new();
    let r = list(
        &mut market,
        s("seller"),
        &s("abc"),
        Some(s("collection1")),
        s("token1"),
        true,
    );
    assert_eq!(r.unwrap_err(), ContractError::InvalidPrice);
    let r = list(
        &mut market,
        s("seller"),
        &s("1.2.3"),
        Some(s("collection1")),
        s("token1"),
        true,
    );
    assert_eq!(r.unwrap_err(), ContractError::InvalidPrice);
}

#[test]
fn list_rejects_invalid_address() {
    let mut market = Marketplace::new();
    let r = list(&mut market, s("seller"), &s("1.0"), None, s("token1"), true);
    assert_eq!(r.unwrap_err(), ContractError::InvalidNftContractAddress);
}

#[test]
fn list_rejects_asset_outside_escrow() {
    let mut market = Marketplace::new();
    let r = list(
        &mut market,
        s("seller"),
        &s("1.0"),
        Some(s("collection1")),
        s("token1"),
        false,
    );
    assert_eq!(r.unwrap_err(), ContractError::NftNotInEscrow);
    assert!(get_nft_listing(&market, Some(s("collection1")), &s("token1")).is_err());
}

#[test]
fn list_rejects_duplicate() {
    let mut market = listed_market();
    let r = list(
        &mut market,
        s("someone"),
        &s("2.0"),
        Some(s("collection1")),
        s("token1"),
        true,
    );
    assert_eq!(r.unwrap_err(), ContractError::ListingAlreadyExists);
    // the original listing is untouched
    let resp = get_nft_listing(&market, Some(s("collection1")), &s("token1")).unwrap();
    assert_eq!(resp.nft_listing.lister, s("seller"));
}

#[test]
fn buy_listing_splits_price() {
    // Selling at 1.0 with no royalty: fee 0.02, remainder 0.98, asset to buyer.
    let mut market = listed_market();
    let out = buy_listing(
        &mut market,
        &s("buyer"),
        Some(s("collection1")),
        &s("token1"),
        None,
    )
    .unwrap();
    assert_eq!(out.len(), 3);
    match &out[0] {
        TransferInstruction::Asset {
            nft_contract_address,
            token_id,
            recipient,
        } => {
            assert_eq!(nft_contract_address, &s("collection1"));
            assert_eq!(token_id, &s("token1"));
            assert_eq!(recipient, &s("buyer"));
        },
        _ => panic!("expected an asset transfer first"),
    }
    match &out[1] {
        TransferInstruction::Value { recipient, amount } => {
            assert_eq!(recipient, &s(PLATFORM_FEE_RECEIVER));
            assert_eq!(*amount, 20_000u128);
        },
        _ => panic!("expected the platform fee second"),
    }
    match &out[2] {
        TransferInstruction::Value { recipient, amount } => {
            assert_eq!(recipient, &s("seller"));
            assert_eq!(*amount, 980_000u128);
        },
        _ => panic!("expected the seller remainder last"),
    }
    // the listing is gone
    assert_eq!(
        get_nft_listing(&market, Some(s("collection1")), &s("token1")).unwrap_err(),
        ContractError::NftListingNotFound
    );
}

#[test]
fn buy_listing_pays_royalty() {
    let mut market = listed_market();
    let quote = RoyaltyInfoResponse {
        address: s("artist"),
        royalty_amount: ATOM / 100,
    };
    let out = buy_listing(
        &mut market,
        &s("buyer"),
        Some(s("collection1")),
        &s("token1"),
        Some(quote),
    )
    .unwrap();
    assert_eq!(out.len(), 4);
    match &out[2] {
        TransferInstruction::Value { recipient, amount } => {
            assert_eq!(recipient, &s("artist"));
            assert_eq!(*amount, 10_000u128);
        },
        _ => panic!("expected the royalty third"),
    }
    match &out[3] {
        TransferInstruction::Value { recipient, amount } => {
            assert_eq!(recipient, &s("seller"));
            assert_eq!(*amount, 970_000u128);
        },
        _ => panic!("expected the seller remainder last"),
    }
}

#[test]
fn buy_listing_ignores_empty_or_zero_royalty() {
    let mut market = listed_market();
    let quote = RoyaltyInfoResponse {
        address: s(""),
        royalty_amount: ATOM / 100,
    };
    let out = buy_listing(
        &mut market,
        &s("buyer"),
        Some(s("collection1")),
        &s("token1"),
        Some(quote),
    )
    .unwrap();
    assert_eq!(out.len(), 3);

    let mut market = listed_market();
    let quote = RoyaltyInfoResponse {
        address: s("artist"),
        royalty_amount: 0,
    };
    let out = buy_listing(
        &mut market,
        &s("buyer"),
        Some(s("collection1")),
        &s("token1"),
        Some(quote),
    )
    .unwrap();
    assert_eq!(out.len(), 3);
}

#[test]
fn buy_listing_rejects_oversized_royalty() {
    let mut market = listed_market();
    let quote = RoyaltyInfoResponse {
        address: s("artist"),
        royalty_amount: ATOM, // the whole price: cannot fit beside the fee
    };
    let r = buy_listing(
        &mut market,
        &s("buyer"),
        Some(s("collection1")),
        &s("token1"),
        Some(quote),
    );
    assert_eq!(r.unwrap_err(), ContractError::Overflow);
    // nothing changed
    assert!(get_nft_listing(&market, Some(s("collection1")), &s("token1")).is_ok());
}

#[test]
fn buy_listing_missing() {
    let mut market = Marketplace::new();
    let r = buy_listing(
        &mut market,
        &s("buyer"),
        Some(s("collection1")),
        &s("token1"),
        None,
    );
    assert_eq!(r.unwrap_err(), ContractError::NftListingNotFound);
}

#[test]
fn delist_reprices_in_place() {
    let mut market = listed_market();
    let r = delist(
        &mut market,
        &s("seller"),
        Some(s("collection1")),
        &s("token1"),
        &s("2.5"),
    );
    assert!(r.is_ok());
    let resp = get_nft_listing(&market, Some(s("collection1")), &s("token1")).unwrap();
    assert_eq!(resp.nft_listing.price.atomics, 5 * ATOM / 2);
    assert_eq!(resp.nft_listing.lister, s("seller"));
}

#[test]
fn delist_rejects_other_callers() {
    let mut market = listed_market();
    let r = delist(
        &mut market,
        &s("intruder"),
        Some(s("collection1")),
        &s("token1"),
        &s("0.5"),
    );
    assert_eq!(r.unwrap_err(), ContractError::Unauthorized);
    let resp = get_nft_listing(&market, Some(s("collection1")), &s("token1")).unwrap();
    assert_eq!(resp.nft_listing.price.atomics, ATOM);
}

#[test]
fn delist_missing() {
    let mut market = Marketplace::new();
    let r = delist(
        &mut market,
        &s("seller"),
        Some(s("collection1")),
        &s("token1"),
        &s("2.0"),
    );
    assert_eq!(r.unwrap_err(), ContractError::NftListingNotFound);
}

#[test]
fn cancel_listing_returns_asset() {
    let mut market = listed_market();
    let out = cancel_listing(&mut market, &s("seller"), Some(s("collection1")), &s("token1"))
        .unwrap();
    assert_eq!(out.len(), 1);
    match &out[0] {
        TransferInstruction::Asset {
            nft_contract_address,
            token_id,
            recipient,
        } => {
            assert_eq!(nft_contract_address, &s("collection1"));
            assert_eq!(token_id, &s("token1"));
            assert_eq!(recipient, &s("seller"));
        },
        _ => panic!("expected an asset transfer"),
    }
    assert_eq!(
        get_nft_listing(&market, Some(s("collection1")), &s("token1")).unwrap_err(),
        ContractError::NftListingNotFound
    );
}

#[test]
fn cancel_listing_rejects_other_callers() {
    let mut market = listed_market();
    let r = cancel_listing(&mut market, &s("intruder"), Some(s("collection1")), &s("token1"));
    assert_eq!(r.unwrap_err(), ContractError::Unauthorized);
    assert!(get_nft_listing(&market, Some(s("collection1")), &s("token1")).is_ok());
}

#[test]
fn listings_and_bids_do_not_collide() {
    // A listing and a bid under the same collection and asset live apart.
    let mut market = listed_market();
    let funds = vec![tradesei::msg::Coin {
        denom: s("usei"),
        amount: 1_000_000,
    }];
    let r = bid(
        &mut market,
        s("buyer"),
        &s("1.0"),
        Some(s("collection1")),
        s("token1"),
        &funds,
    );
    assert!(r.is_ok());
    assert!(get_nft_listing(&market, Some(s("collection1")), &s("token1")).is_ok());
}
