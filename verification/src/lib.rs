//! Untrusted transaction-admission core and peer-connection substrate for a
//! Byzantine-fault-tolerant consensus node.
//!
//! The admission core answers two questions for every validator:
//!
//! 1. Is a candidate transaction well-formed and safe to append to the local
//!    ledger right now (`DefaultTxManagerUntrustedInterfaces::well_formed_check`,
//!    `DefaultTxManagerUntrustedInterfaces::is_valid`)?
//! 2. Which deterministically-ordered subset of a nominated candidate set may
//!    be combined into the next block without conflicting with itself
//!    (`DefaultTxManagerUntrustedInterfaces::combine`)?
//!
//! The connection substrate exposes each peer's RPC surface as uniform,
//! retryable operations: a base `Connection` identity, an attested channel
//! whose authentication state is re-established transparently
//! (`AttestedConnection`), blockchain-tip APIs (`BlockchainConnection`) and
//! transaction submission (`UserTxConnection`), together with a process-wide
//! `ConnectionManager` registry.

mod attested_connection;
mod blockchain_connection;
mod connection_manager;
mod connection_manager_trait;
mod connection_trait;
mod domain_separators;
mod ledger;
mod mock_peer;
mod retry;
mod sim_network;
mod sync;
mod tx_order;
mod tx_types;
mod uri;
mod user_tx_connection;
mod validation;
mod validators;

pub use attested_connection::{
    AttestationError, AttestedCallError, AttestedConnection, MockAttestationError, RpcStatus,
    TransportError,
};
pub use blockchain_connection::{
    Block, BlockID, BlockIndex, BlockchainConnection, RetryableBlockchainConnection,
};
pub use connection_manager::ConnectionManager;
pub use connection_manager_trait::ConnectionManagerTrait;
pub use connection_trait::Connection;
pub use domain_separators::{
    AMOUNT_BLINDING_DOMAIN_TAG, AMOUNT_VALUE_DOMAIN_TAG, RING_MLSAG_CHALLENGE_DOMAIN_TAG,
};
pub use ledger::{Ledger, LedgerError, LedgerModel, MockLedger, TxOutMembershipProof};
pub use mock_peer::MockPeerConnection;
pub use retry::{is_transient, RetryError, RetrySchedule};
pub use sim_network::{lemma_network_consistency, SimNode};
pub use sync::{RetryResult, SyncConnection};
pub use tx_order::{
    insert_sorted, key_injective, lemma_sort_permutation_invariant, lemma_sort_tx_contexts_ensures,
    lemma_sorted_unique_by_key, lex_le, sort_tx_contexts, tx_context_le, tx_context_order_le,
    tx_order, views_of,
};
pub use tx_types::{
    CompressedRistrettoPublic, KeyImage, LocallyEncryptedTx, TxContext, TxHash,
    WellFormedTxContext, WellFormedTxContextView,
};
pub use uri::{
    ConnectionUri, PeerUri, PeerUriView, ResponderId, ResponderIdView, UriConversionError,
};
pub use user_tx_connection::{RetryableUserTxConnection, UserTxConnection};
pub use validation::{validate_tombstone, TransactionValidationError, TransactionValidationResult};
pub use validators::{
    arc_views, combine_ctxs, combine_spec, conflicts, ctx_hashes, greedy_select, hash_views,
    ki_set, lemma_combine_bounded, lemma_combine_disjoint, lemma_combine_fee_monotone,
    lemma_combine_membership, lemma_combine_permutation_invariant, pk_set,
    used_key_images_of, used_output_public_keys_of, DefaultTxManagerUntrustedInterfaces,
};
