//! Domain separation tags for the hash functions of the transaction
//! protocol.
//!
//! Domain separation derives multiple independent hash functions from one
//! base function by prefixing each input with a distinct tag. The tags
//! identify the hash function within the protocol and carry the protocol
//! version, so every derived function is independent of the others and of
//! other versions. The enclave's hash functions consume these strings
//! verbatim; changing one changes the protocol.

use vstd::prelude::*;

verus! {

/// Domain separator for an amount's value mask hash function.
pub const AMOUNT_VALUE_DOMAIN_TAG: &'static str = "mc_amount_value_v0";

/// Domain separator for an amount's blinding mask hash function.
pub const AMOUNT_BLINDING_DOMAIN_TAG: &'static str = "mc_amount_blinding_v0";

/// Domain separator for the ring MLSAG challenge hash function.
pub const RING_MLSAG_CHALLENGE_DOMAIN_TAG: &'static str = "mc_ring_mlsag_challenge_v0";

} // verus!
