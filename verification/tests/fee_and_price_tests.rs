use tradesei::error::ContractError;
use tradesei::msg::TransferInstruction;
use tradesei::utils::add_transfer_sei_to_seller_msg_with_price_after_platform_fee;
use tradesei::fee::split;
use tradesei::fixed::{parse_price, FixedPointAmount};
use tradesei::utils::{parse_decimal, RoyaltyInfoResponse};

const ATOM: u128 = 1_000_000_000_000_000_000;

fn s(x: &str) -> String {
    String::from(x)
}

#[test]
fn split_without_royalty_conserves_the_price() {
    let price = FixedPointAmount::from_atomics(ATOM);
    let fs = split(price, None).unwrap();
    assert_eq!(fs.platform_fee.atomics, 2 * ATOM / 100);
    assert_eq!(fs.royalty.atomics, 0);
    assert!(fs.royalty_recipient.is_none());
    assert_eq!(fs.seller_remainder.atomics, 98 * ATOM / 100);
    assert_eq!(
        fs.platform_fee.atomics + fs.royalty.atomics + fs.seller_remainder.atomics,
        ATOM
    );
}

#[test]
fn split_with_royalty_conserves_the_price() {
    let price = FixedPointAmount::from_atomics(2 * ATOM);
    let quote = RoyaltyInfoResponse {
        address: s("artist"),
        royalty_amount: ATOM / 10,
    };
    let fs = split(price, Some(quote)).unwrap();
    assert_eq!(fs.platform_fee.atomics, 4 * ATOM / 100);
    assert_eq!(fs.royalty.atomics, ATOM / 10);
    assert_eq!(fs.royalty_recipient, Some(s("artist")));
    assert_eq!(
        fs.platform_fee.atomics + fs.royalty.atomics + fs.seller_remainder.atomics,
        2 * ATOM
    );
}

#[test]
fn split_truncates_the_fee_consistently() {
    // Two percent of 3 atomic units truncates to zero; of 50, to exactly one.
    let fs = split(FixedPointAmount::from_atomics(3), None).unwrap();
    assert_eq!(fs.platform_fee.atomics, 0);
    assert_eq!(fs.seller_remainder.atomics, 3);
    let fs = split(FixedPointAmount::from_atomics(50), None).unwrap();
    assert_eq!(fs.platform_fee.atomics, 1);
    assert_eq!(fs.seller_remainder.atomics, 49);
    let fs = split(FixedPointAmount::from_atomics(99), None).unwrap();
    assert_eq!(fs.platform_fee.atomics, 1);
    assert_eq!(fs.seller_remainder.atomics, 98);
}

#[test]
fn split_treats_zero_or_unaddressed_quotes_as_no_royalty() {
    let price = FixedPointAmount::from_atomics(ATOM);
    let fs = split(
        price,
        Some(RoyaltyInfoResponse {
            address: s(""),
            royalty_amount: ATOM / 10,
        }),
    )
    .unwrap();
    assert_eq!(fs.royalty.atomics, 0);
    assert!(fs.royalty_recipient.is_none());
    let fs = split(
        price,
        Some(RoyaltyInfoResponse {
            address: s("artist"),
            royalty_amount: 0,
        }),
    )
    .unwrap();
    assert_eq!(fs.royalty.atomics, 0);
    assert!(fs.royalty_recipient.is_none());
}

#[test]
fn split_rejects_a_royalty_beyond_the_remainder() {
    let price = FixedPointAmount::from_atomics(ATOM);
    let r = split(
        price,
        Some(RoyaltyInfoResponse {
            address: s("artist"),
            royalty_amount: 99 * ATOM / 100, // more than price less the fee
        }),
    );
    assert_eq!(r.unwrap_err(), ContractError::Overflow);
}

#[test]
fn parse_price_reads_decimal_numerals() {
    assert_eq!(parse_price("1.23").unwrap().atomics, 1_230_000_000_000_000_000);
    assert_eq!(parse_price("2").unwrap().atomics, 2 * ATOM);
    assert_eq!(parse_price("000012").unwrap().atomics, 12 * ATOM);
    assert_eq!(parse_price("0.000000000000000001").unwrap().atomics, 1);
    assert_eq!(parse_price("1.123000000").unwrap().atomics, 1_123_000_000_000_000_000);
    assert_eq!(parse_price("0").unwrap().atomics, 0);
}

#[test]
fn parse_price_rejects_malformed_numerals() {
    assert_eq!(parse_price("").unwrap_err(), ContractError::InvalidPrice);
    assert_eq!(parse_price(".").unwrap_err(), ContractError::InvalidPrice);
    assert_eq!(parse_price(".5").unwrap_err(), ContractError::InvalidPrice);
    assert_eq!(parse_price("1.").unwrap_err(), ContractError::InvalidPrice);
    assert_eq!(parse_price("1.2.3").unwrap_err(), ContractError::InvalidPrice);
    assert_eq!(parse_price("-1").unwrap_err(), ContractError::InvalidPrice);
    assert_eq!(parse_price("1e3").unwrap_err(), ContractError::InvalidPrice);
    // nineteen fractional digits are one too many
    assert_eq!(
        parse_price("0.0000000000000000001").unwrap_err(),
        ContractError::InvalidPrice
    );
    // too large to hold in atomic units
    assert_eq!(
        parse_price("340282366920938463464").unwrap_err(),
        ContractError::InvalidPrice
    );
}

#[test]
fn parse_price_accepts_plus_signed_parts() {
    // The numeral reader takes an optional leading plus sign on either part,
    // and the sign counts against the eighteen fractional places.
    assert_eq!(parse_price("+1.5").unwrap().atomics, 1_500_000_000_000_000_000);
    assert_eq!(parse_price("1.+5").unwrap().atomics, 1_050_000_000_000_000_000);
    assert_eq!(parse_price("+").unwrap_err(), ContractError::InvalidPrice);
    assert_eq!(parse_price("++1").unwrap_err(), ContractError::InvalidPrice);
}

#[test]
fn seller_transfer_is_appended_in_order() {
    let base = vec![TransferInstruction::Value {
        recipient: s("somebody"),
        amount: 7,
    }];
    let out = add_transfer_sei_to_seller_msg_with_price_after_platform_fee(
        s("seller"),
        980_000,
        base,
    );
    assert_eq!(out.len(), 2);
    match &out[1] {
        TransferInstruction::Value { recipient, amount } => {
            assert_eq!(recipient, &s("seller"));
            assert_eq!(*amount, 980_000u128);
        },
        _ => panic!("expected the seller transfer last"),
    }
}

#[test]
fn parse_decimal_truncates_to_payment_units() {
    assert_eq!(parse_decimal(FixedPointAmount::from_atomics(ATOM)).unwrap(), 1_000_000);
    assert_eq!(parse_decimal(FixedPointAmount::from_atomics(0)).unwrap(), 0);
    // anything below one payment unit truncates away
    assert_eq!(
        parse_decimal(FixedPointAmount::from_atomics(999_999_999_999)).unwrap(),
        0
    );
    assert_eq!(
        parse_decimal(FixedPointAmount::from_atomics(1_000_000_000_001)).unwrap(),
        1
    );
}

#[test]
fn platform_fee_is_two_percent_truncated() {
    let p = FixedPointAmount::from_atomics(12_345);
    assert_eq!(p.platform_fee().atomics, 12_345 * 2 / 100);
    let p = FixedPointAmount::from_atomics(u128::MAX);
    assert_eq!(p.platform_fee().atomics, u128::MAX / 50);
}
