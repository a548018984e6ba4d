//! The errors that abort a marketplace action.

use vstd::prelude::*;

verus! {

/// Everything that can abort a marketplace action. Each error aborts the
/// whole action: no state change survives an `Err` result.
#[derive(Clone, Copy, Debug, PartialEq, Eq, Structural)]
pub enum ContractError {
    /// A checked subtraction or addition over amounts underflowed or overflowed.
    Overflow,
    /// The caller is not the creator of the entry it tried to mutate.
    Unauthorized,
    /// Converting an amount to transferable payment units failed.
    ParseDecimal,
    /// A price string does not read as a decimal numeral.
    InvalidPrice,
    /// The asset collection identity did not validate.
    InvalidNftContractAddress,
    ErrorCreatingNewListing,
    /// No listing is live at the addressed key.
    NftListingNotFound,
    ErrorCreatingNewBid,
    /// The bidder identity did not validate.
    InvalidBidder,
    /// No bid is live at the addressed key.
    NftBidNotFound,
    /// The escrow identity does not hold the asset being listed.
    NftNotInEscrow,
    /// The attached funds do not cover the priced commitment.
    InsufficientFundsSent,
    /// A re-price to the identical price is rejected.
    NewPriceCantBeSameAsOldPrice,
    ErrorCreatingNewCollectionBid,
    /// The group would reach one hundred standing prices.
    CollectionBidsExceed100,
    /// The collection bidder identity did not validate.
    InvalidCollectionBidder,
    /// No collection bid group is live at the addressed key.
    NftCollectionBidNotFound,
    /// The named price is not among the group's standing prices.
    NftCollectionBidPriceNotFound,
    ErrorUpdatingCollectionBid,
    /// A listing is already live at the addressed key.
    ListingAlreadyExists,
    /// A bid is already live at the addressed key.
    BidAlreadyExists,
}

} // verus!
