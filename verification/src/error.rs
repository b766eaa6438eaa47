//! Errors raised while applying a single transaction.

use vstd::prelude::*;
use crate::address::Address;

verus! {

/// Why a transaction was rejected. All of these are recoverable: the ledger
/// is left unchanged and block processing continues past the transaction.
#[derive(Clone, Copy, Debug, PartialEq, Eq, Structural)]
pub enum RollupError {
    /// The sender's address could not be recovered from the signature.
    SignatureError,
    /// The sender is unknown, or its balance does not cover the transfer.
    InsufficientBalance { address: Address },
    /// The transaction's nonce is not one more than the sender's nonce.
    InvalidNonce { address: Address, expected: u64, actual: u64 },
}

} // verus!
