//! Client-side core of a Lightning watchtower client: the tower registry,
//! the user identity, subscription registration and renewal, and the
//! dispatch of appointments to every registered tower.

pub mod bytes;
pub mod dispatch;
pub mod filestore;
pub mod identity;
pub mod keys;
pub mod monitor;
pub mod net;
pub mod receipts;
pub mod registration;
pub mod registry;
pub mod tower;
pub mod utils;

use vstd::prelude::*;

verus! {

/// Errors of registration and of committing a tower record.
#[derive(Debug, Clone, PartialEq, Eq)]
pub enum Error {
    RequestError,
    InvalidReceipt(String),
    SubscriptionSlotError,
    SubscriptionExpiryError,
    StorageError,
}

/// A revocable output found by the channel monitor: the commitment
/// transaction's id and the serialized signed justice transaction.
#[derive(Debug)]
pub struct RevokeableOutputData {
    pub commitment_txid: Vec<u8>,
    pub justice_transaction: Vec<u8>,
}

} // verus!
