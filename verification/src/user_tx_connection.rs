//! The transaction-submission capability: proposing a client transaction to
//! a consensus peer over the encrypted channel.

use vstd::prelude::*;

use crate::attested_connection::TransportError;
use crate::blockchain_connection::BlockIndex;
use crate::connection_trait::Connection;
use crate::retry::{RetryError, RetrySchedule};
use crate::tx_types::LocallyEncryptedTx;

verus! {

/// A connection that can submit client transactions to its peer.
pub trait UserTxConnection: Connection {
    /// The transactions the peer has accepted through this connection, in
    /// arrival order.
    spec fn spec_pending(&self) -> Seq<Seq<u8>>;

    /// The peer's ledger height as this connection currently observes it.
    spec fn spec_height(&self) -> u64;

    /// Proposes a transaction over the encrypted channel; on success returns
    /// the number of blocks in the peer's ledger at the time the call was
    /// received.
    fn propose_tx(&mut self, tx: &LocallyEncryptedTx) -> (r: Result<BlockIndex, TransportError>)
        ensures
            final(self).spec_uri() == old(self).spec_uri(),
            final(self).spec_height() == old(self).spec_height(),
            r matches Ok(h) ==> {
                &&& h == old(self).spec_height()
                &&& final(self).spec_pending() == old(self).spec_pending().push(tx@)
            },
            r matches Err(_) ==> final(self).spec_pending() == old(self).spec_pending(),
    ;
}

/// Transaction submission under a retry schedule; see
/// `RetryableBlockchainConnection` for the schedule's semantics.
pub trait RetryableUserTxConnection {
    /// The transactions the peer has accepted through this handle, in
    /// arrival order.
    spec fn spec_pending(&self) -> Seq<Seq<u8>>;

    /// The peer's ledger height as this handle currently observes it.
    spec fn spec_height(&self) -> u64;

    /// `propose_tx`, retried per the schedule.
    fn propose_tx(&mut self, tx: &LocallyEncryptedTx, schedule: &RetrySchedule) -> (r: Result<
        BlockIndex,
        RetryError<TransportError>,
    >)
        ensures
            r matches Ok(h) ==> {
                &&& h == old(self).spec_height()
                &&& final(self).spec_pending() == old(self).spec_pending().push(tx@)
            },
            r matches Err(re) ==> 1 <= re.tries <= schedule.delays@.len() + 1,
    ;
}

} // verus!
