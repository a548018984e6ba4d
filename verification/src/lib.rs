//! A peer-to-peer marketplace settlement engine: sellers escrow a
//! non-fungible asset and list it at a fixed price or take bids (single-item
//! or collection-wide); on settlement the engine divides the payment into a
//! platform fee, an optional creator royalty and the seller's remainder, and
//! emits the ordered transfer instructions for the host to execute
//! atomically. Every state transition is specified and verified; the host
//! adapter around it supplies identities, attached funds and capability
//! answers as plain values.

pub mod bidding;
pub mod collection_bidding;
pub mod error;
pub mod fee;
pub mod fixed;
pub mod listing;
pub mod msg;
pub mod order;
pub mod query;
pub mod state;
pub mod store;
pub mod utils;

pub use crate::error::ContractError;
