//! Validation outcomes for the untrusted admission core.
//!
//! Admission errors are never retried inside the core; they are surfaced
//! verbatim so the caller can report them to the submitting client.

use vstd::prelude::*;

verus! {

/// Why a transaction was refused admission.
#[derive(Clone, Debug, PartialEq, Eq)]
pub enum TransactionValidationError {
    /// A ledger read failed; transient, the caller may retry at the next
    /// slot. Carries the storage layer's description.
    Ledger(String),
    /// The transaction is past its expiry block; permanent.
    TombstoneBlockExceeded,
    /// A key image is already in the ledger, or the ledger errored while
    /// checking one; permanent from the submitter's perspective.
    ContainsSpentKeyImage,
    /// An output public key is already in the ledger, or the ledger errored
    /// while checking one; permanent from the submitter's perspective.
    ContainsExistingOutputPublicKey,
}

/// The admission core's result type.
pub type TransactionValidationResult<T> = Result<T, TransactionValidationError>;

/// Rejects a transaction whose tombstone block has been reached: a
/// transaction whose tombstone equals the current block index is already
/// expired.
pub fn validate_tombstone(current_block_index: u64, tombstone_block: u64) -> (r:
    TransactionValidationResult<()>)
    ensures
        r is Ok <==> tombstone_block > current_block_index,
        r matches Err(e) ==> e is TombstoneBlockExceeded,
{
    if tombstone_block > current_block_index {
        Ok(())
    } else {
        Err(TransactionValidationError::TombstoneBlockExceeded)
    }
}

} // verus!
