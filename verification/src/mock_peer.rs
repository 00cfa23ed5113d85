//! An in-memory consensus peer: implements every connection capability
//! against a scripted remote state. Backs the tests and stands in for a
//! deployment's RPC-backed client.

use vstd::prelude::*;

use std::ops::Range;

use crate::attested_connection::{
    AttestedConnection, MockAttestationError, RpcStatus, TransportError,
};
use crate::blockchain_connection::{
    clipped_range_len, Block, BlockID, BlockIndex, BlockchainConnection,
};
use crate::connection_trait::Connection;
use crate::tx_types::LocallyEncryptedTx;
use crate::uri::PeerUri;
use crate::user_tx_connection::UserTxConnection;

verus! {

/// A simulated consensus peer.
///
/// The peer serves blockchain reads from `chain`, queues proposed
/// transactions in `accepted_txs`, and fails one call with each status
/// queued in `fail_with` (front first) before serving normally again.
#[derive(Debug)]
pub struct MockPeerConnection {
    /// The peer's address.
    pub uri: PeerUri,
    /// Whether an attested channel is currently established.
    pub attested: bool,
    /// How many attestation handshakes have completed (wraps at the type's
    /// maximum).
    pub attest_count: u64,
    /// When set, every handshake is refused.
    pub refuse_attestation: bool,
    /// The peer's chain.
    pub chain: Vec<Block>,
    /// Transactions the peer has accepted, in arrival order.
    pub accepted_txs: Vec<Vec<u8>>,
    /// Statuses the next calls will fail with, front first.
    pub fail_with: Vec<RpcStatus>,
}

impl MockPeerConnection {
    /// A fresh, unattested peer holding the given chain.
    pub fn new(uri: PeerUri, chain: Vec<Block>) -> (r: Self)
        ensures
            r.uri == uri,
            !r.attested,
            r.attest_count == 0,
            !r.refuse_attestation,
            r.chain@ == chain@,
            r.accepted_txs@.len() == 0,
            r.fail_with@.len() == 0,
    {
        MockPeerConnection {
            uri,
            attested: false,
            attest_count: 0,
            refuse_attestation: false,
            chain,
            accepted_txs: Vec::new(),
            fail_with: Vec::new(),
        }
    }

    /// Scripts the next call to fail with the given status.
    pub fn script_failure(&mut self, status: RpcStatus)
        ensures
            *final(self) == (MockPeerConnection {
                fail_with: final(self).fail_with,
                ..*old(self)
            }),
            final(self).fail_with@ == old(self).fail_with@.push(status),
    {
        self.fail_with.push(status);
    }

    /// Consumes the next scripted failure, if one is queued.
    fn take_fault(&mut self) -> (r: Option<RpcStatus>)
        ensures
            *final(self) == (MockPeerConnection {
                fail_with: final(self).fail_with,
                ..*old(self)
            }),
            match r {
                Some(status) => old(self).fail_with@.len() > 0 && status == old(
                    self,
                ).fail_with@[0] && final(self).fail_with@ == old(self).fail_with@.drop_first(),
                None => old(self).fail_with@.len() == 0 && final(self).fail_with@ == old(
                    self,
                ).fail_with@,
            },
    {
        if self.fail_with.len() > 0 {
            let status = self.fail_with.remove(0);
            proof {
                assert(self.fail_with@ =~= old(self).fail_with@.drop_first());
            }
            Some(status)
        } else {
            None
        }
    }
}

impl Clone for MockPeerConnection {
    /// A clone starts from the same peer state.
    fn clone(&self) -> (r: Self)
        ensures
            r.uri == self.uri,
            r.attested == self.attested,
            r.attest_count == self.attest_count,
            r.refuse_attestation == self.refuse_attestation,
            r.chain@ == self.chain@,
    {
        let chain = self.chain.clone();
        proof {
            assert(chain@ =~= self.chain@);
        }
        MockPeerConnection {
            uri: self.uri.clone(),
            attested: self.attested,
            attest_count: self.attest_count,
            refuse_attestation: self.refuse_attestation,
            chain,
            accepted_txs: self.accepted_txs.clone(),
            fail_with: self.fail_with.clone(),
        }
    }
}

impl Connection for MockPeerConnection {
    type Uri = PeerUri;

    open spec fn spec_uri(&self) -> PeerUri {
        self.uri
    }

    fn uri(&self) -> (r: PeerUri) {
        self.uri.clone()
    }
}

impl AttestedConnection for MockPeerConnection {
    type Error = MockAttestationError;

    open spec fn attested(&self) -> bool {
        self.attested
    }

    fn is_attested(&self) -> (r: bool) {
        self.attested
    }

    fn attest(&mut self) -> (r: Result<(), MockAttestationError>) {
        if self.refuse_attestation {
            self.attested = false;
            Err(MockAttestationError::HandshakeRefused)
        } else {
            self.attested = true;
            self.attest_count = self.attest_count.wrapping_add(1);
            Ok(())
        }
    }

    fn deattest(&mut self) {
        self.attested = false;
    }
}

impl BlockchainConnection for MockPeerConnection {
    open spec fn spec_chain(&self) -> Seq<Block> {
        self.chain@
    }

    fn fetch_blocks(&mut self, range: Range<BlockIndex>) -> (r: Result<Vec<Block>, TransportError>)
    {
        if let Some(status) = self.take_fault() {
            return Err(TransportError::RpcFailure(status));
        }
        let ghost s0 = *self;
        let n = self.chain.len();
        let mut out: Vec<Block> = Vec::new();
        let mut i: u64 = range.start;
        if range.start >= range.end {
            return Ok(out);
        }
        if range.start >= n as u64 {
            return Ok(out);
        }
        while i < range.end && i < n as u64
            invariant
                *self == s0,
                range.start < range.end,
                range.start <= i <= range.end,
                i <= n as u64,
                n == self.chain@.len(),
                out@.len() == i - range.start,
                forall|k: int|
                    0 <= k < out@.len() ==> #[trigger] out@[k] == self.chain@[range.start + k],
            decreases range.end - i,
        {
            proof {
                assert(i < n as u64);
            }
            out.push(self.chain[i as usize]);
            i += 1;
        }
        Ok(out)
    }

    fn fetch_block_ids(&mut self, range: Range<BlockIndex>) -> (r: Result<
        Vec<BlockID>,
        TransportError,
    >) {
        if let Some(status) = self.take_fault() {
            return Err(TransportError::RpcFailure(status));
        }
        let ghost s0 = *self;
        let n = self.chain.len();
        let mut out: Vec<BlockID> = Vec::new();
        let mut i: u64 = range.start;
        if range.start >= range.end {
            return Ok(out);
        }
        if range.start >= n as u64 {
            return Ok(out);
        }
        while i < range.end && i < n as u64
            invariant
                *self == s0,
                range.start < range.end,
                range.start <= i <= range.end,
                i <= n as u64,
                n == self.chain@.len(),
                out@.len() == i - range.start,
                forall|k: int|
                    0 <= k < out@.len() ==> (#[trigger] out@[k])@ == self.chain@[range.start
                        + k].id@,
            decreases range.end - i,
        {
            proof {
                assert(i < n as u64);
            }
            out.push(self.chain[i as usize].id);
            i += 1;
        }
        Ok(out)
    }

    fn fetch_block_height(&mut self) -> (r: Result<BlockIndex, TransportError>) {
        if let Some(status) = self.take_fault() {
            return Err(TransportError::RpcFailure(status));
        }
        Ok(self.chain.len() as u64)
    }
}

impl UserTxConnection for MockPeerConnection {
    open spec fn spec_pending(&self) -> Seq<Seq<u8>> {
        self.accepted_txs@.map_values(|b: Vec<u8>| b@)
    }

    open spec fn spec_height(&self) -> u64 {
        self.chain@.len() as u64
    }

    fn propose_tx(&mut self, tx: &LocallyEncryptedTx) -> (r: Result<BlockIndex, TransportError>) {
        if let Some(status) = self.take_fault() {
            return Err(TransportError::RpcFailure(status));
        }
        let height = self.chain.len() as u64;
        self.accepted_txs.push(tx.0.clone());
        proof {
            assert(self.spec_pending() =~= old(self).spec_pending().push(tx@));
        }
        Ok(height)
    }
}

} // verus!
