//! The action and query messages, attached funds, outbound transfer
//! instructions and query responses.

use vstd::prelude::*;

use crate::state::{NftBid, NftCollectionBid, NftListing};

verus! {

/// Sets the contract up; it carries nothing.
pub struct InstantiateMsg {}

/// Migrates the contract; it carries nothing.
pub struct MigrateMsg {}

/// One marketplace action, with the raw inputs its caller supplied.
pub enum ExecuteMsg {
    /// Offer the escrowed asset at a fixed price.
    List { price: String, nft_contract_address: String, token_id: String },
    /// Re-price an existing listing.
    Delist { new_price: String, nft_contract_address: String, token_id: String },
    /// Settle an existing listing in the caller's favour.
    BuyListing { nft_contract_address: String, token_id: String },
    /// Withdraw a listing and recover the asset.
    CancelListing { nft_contract_address: String, token_id: String },
    /// Stand by to buy one asset, funding the price up front.
    Bid { price: String, nft_contract_address: String, token_id: String },
    /// Re-price an existing bid, topping up or recovering the difference.
    UpdateBid { new_price: String, nft_contract_address: String, token_id: String },
    /// Withdraw a bid and recover its funds.
    CancelBid { nft_contract_address: String, token_id: String },
    /// Settle an existing bid: the caller sells the escrowed asset to the bidder.
    SellToBid { nft_contract_address: String, token_id: String, bidder: String },
    /// Stand by to buy any assets of a collection, one per price, funded up front.
    CollectionBid { prices: Vec<String>, nft_contract_address: String },
    /// Withdraw a whole collection bid group and recover its funds.
    CancelAllCollectionBids { nft_contract_address: String },
    /// Settle one standing price of a collection bid group.
    SellToCollectionBid {
        nft_contract_address: String,
        token_id: String,
        bidder: String,
        price: String,
    },
}

/// One read-only question about the marketplace state.
pub enum QueryMsg {
    GetNftListing { nft_contract_address: String, token_id: String },
    GetNftBid { nft_contract_address: String, token_id: String, bidder: String },
    GetNftCollectionBid { nft_contract_address: String, bidder: String },
    GetPaginatedListings {
        nft_contract_address: String,
        start_after: Option<String>,
        limit: Option<u32>,
    },
    GetPaginatedBids {
        nft_contract_address: String,
        token_id: String,
        start_after: Option<String>,
        limit: Option<u32>,
    },
    GetPaginatedCollectionBids {
        nft_contract_address: String,
        start_after: Option<String>,
        limit: Option<u32>,
    },
}

/// Funds attached to an action: an amount of one denomination.
#[derive(Debug)]
pub struct Coin {
    pub denom: String,
    pub amount: u128,
}

/// The mathematical value of an attached coin.
pub struct CoinView {
    pub denom: Seq<char>,
    pub amount: u128,
}

impl View for Coin {
    type V = CoinView;

    open spec fn view(&self) -> CoinView {
        CoinView { denom: self.denom@, amount: self.amount }
    }
}

/// One outbound instruction for the host to execute atomically with the
/// action that emitted it.
#[derive(Debug)]
pub enum TransferInstruction {
    /// Move the asset `token_id` of collection `nft_contract_address` from
    /// escrow custody to `recipient`.
    Asset { nft_contract_address: String, token_id: String, recipient: String },
    /// Pay `amount` transferable payment units of the settlement
    /// denomination to `recipient`.
    Value { recipient: String, amount: u128 },
}

/// The mathematical value of an outbound instruction.
pub enum InstructionView {
    Asset { nft_contract_address: Seq<char>, token_id: Seq<char>, recipient: Seq<char> },
    Value { recipient: Seq<char>, amount: u128 },
}

impl View for TransferInstruction {
    type V = InstructionView;

    open spec fn view(&self) -> InstructionView {
        match self {
            TransferInstruction::Asset { nft_contract_address, token_id, recipient } => {
                InstructionView::Asset {
                    nft_contract_address: nft_contract_address@,
                    token_id: token_id@,
                    recipient: recipient@,
                }
            },
            TransferInstruction::Value { recipient, amount } => {
                InstructionView::Value { recipient: recipient@, amount: *amount }
            },
        }
    }
}

/// The values of a sequence of instructions, in emission order.
pub open spec fn instrs(s: Seq<TransferInstruction>) -> Seq<InstructionView> {
    s.map_values(|t: TransferInstruction| t@)
}

/// The live listing at a queried key.
#[derive(Debug)]
pub struct GetNftListingResponse {
    pub nft_listing: NftListing,
}

/// The live bid at a queried key.
#[derive(Debug)]
pub struct GetNftBidResponse {
    pub nft_bid: NftBid,
}

/// The live collection bid group at a queried key.
#[derive(Debug)]
pub struct GetNftCollectionBidResponse {
    pub nft_collection_bid: NftCollectionBid,
}

/// One page of a collection's listings, keyed by asset, ascending.
#[derive(Debug)]
pub struct GetPaginatedListingsResponse {
    pub listings: Vec<(String, NftListing)>,
}

/// One page of an asset's bids, keyed by bidder, ascending.
#[derive(Debug)]
pub struct GetPaginatedBidsResponse {
    pub bids: Vec<(String, NftBid)>,
}

/// One page of a collection's bid groups, keyed by bidder, ascending.
#[derive(Debug)]
pub struct GetPaginatedCollectionBidsResponse {
    pub collection_bids: Vec<(String, NftCollectionBid)>,
}

} // verus!
