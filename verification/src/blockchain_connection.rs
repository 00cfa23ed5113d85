//! The blockchain-tip capability: fetching blocks, block identifiers and the
//! current height from a consensus peer.

use vstd::prelude::*;

use std::ops::Range;

use crate::attested_connection::TransportError;
use crate::connection_trait::Connection;
use crate::retry::{RetryError, RetrySchedule};
use crate::tx_types::bytes32_eq;

verus! {

/// Zero-based position of a block in a ledger.
pub type BlockIndex = u64;

/// A 32-byte block identifier (the hash of the block's contents).
#[derive(Clone, Copy, Debug)]
pub struct BlockID(pub [u8; 32]);

impl View for BlockID {
    type V = Seq<u8>;

    open spec fn view(&self) -> Seq<u8> {
        self.0@
    }
}

impl PartialEq for BlockID {
    fn eq(&self, other: &Self) -> (r: bool) {
        bytes32_eq(&self.0, &other.0)
    }
}

impl vstd::std_specs::cmp::PartialEqSpecImpl for BlockID {
    open spec fn obeys_eq_spec() -> bool {
        true
    }

    open spec fn eq_spec(&self, other: &Self) -> bool {
        self@ == other@
    }
}

/// A block's metadata, as the blockchain API serves it.
#[derive(Clone, Copy, Debug)]
pub struct Block {
    /// Position of the block in the chain.
    pub index: u64,
    /// Identifier of the block.
    pub id: BlockID,
}

/// How many blocks of the chain the half-open range `[start, end)` covers
/// once clipped to the chain's length.
pub open spec fn clipped_range_len(chain_len: int, start: int, end: int) -> int {
    let hi = if end <= chain_len {
        end
    } else {
        chain_len
    };
    if start < hi {
        hi - start
    } else {
        0
    }
}

/// A connection that can serve blockchain data from its peer.
pub trait BlockchainConnection: Connection {
    /// The peer's chain as this connection currently observes it.
    spec fn spec_chain(&self) -> Seq<Block>;

    /// Retrieves the blocks with indices in the half-open `range`; the
    /// response is shorter than the range when the peer holds fewer blocks.
    fn fetch_blocks(&mut self, range: Range<BlockIndex>) -> (r: Result<Vec<Block>, TransportError>)
        ensures
            final(self).spec_chain() == old(self).spec_chain(),
            final(self).spec_uri() == old(self).spec_uri(),
            r matches Ok(blocks) ==> {
                &&& blocks@.len() == clipped_range_len(
                    old(self).spec_chain().len() as int,
                    range.start as int,
                    range.end as int,
                )
                &&& forall|k: int|
                    0 <= k < blocks@.len() ==> #[trigger] blocks@[k] == old(self).spec_chain()[range.start + k]
            },
    ;

    /// Retrieves the identifiers of the blocks with indices in the half-open
    /// `range`; same clipping as `fetch_blocks`.
    fn fetch_block_ids(&mut self, range: Range<BlockIndex>) -> (r: Result<
        Vec<BlockID>,
        TransportError,
    >)
        ensures
            final(self).spec_chain() == old(self).spec_chain(),
            final(self).spec_uri() == old(self).spec_uri(),
            r matches Ok(ids) ==> {
                &&& ids@.len() == clipped_range_len(
                    old(self).spec_chain().len() as int,
                    range.start as int,
                    range.end as int,
                )
                &&& forall|k: int|
                    0 <= k < ids@.len() ==> (#[trigger] ids@[k])@ == old(self).spec_chain()[range.start + k].id@
            },
    ;

    /// Retrieves the peer's current block height (the number of blocks it
    /// holds).
    fn fetch_block_height(&mut self) -> (r: Result<BlockIndex, TransportError>)
        ensures
            final(self).spec_chain() == old(self).spec_chain(),
            final(self).spec_uri() == old(self).spec_uri(),
            r matches Ok(h) ==> h == old(self).spec_chain().len(),
    ;
}

/// Blockchain data retrieval under a retry schedule: a transient transport
/// failure consumes the next delay of the schedule and the call is tried
/// again; a permanent failure, or an exhausted schedule, ends the call.
pub trait RetryableBlockchainConnection {
    /// The peer's chain as this handle currently observes it.
    spec fn spec_chain(&self) -> Seq<Block>;

    /// `fetch_blocks`, retried per the schedule.
    fn fetch_blocks(&mut self, range: Range<BlockIndex>, schedule: &RetrySchedule) -> (r: Result<
        Vec<Block>,
        RetryError<TransportError>,
    >)
        ensures
            final(self).spec_chain() == old(self).spec_chain(),
            r matches Ok(blocks) ==> {
                &&& blocks@.len() == clipped_range_len(
                    old(self).spec_chain().len() as int,
                    range.start as int,
                    range.end as int,
                )
                &&& forall|k: int|
                    0 <= k < blocks@.len() ==> #[trigger] blocks@[k] == old(self).spec_chain()[range.start + k]
            },
            r matches Err(re) ==> 1 <= re.tries <= schedule.delays@.len() + 1,
    ;

    /// `fetch_block_ids`, retried per the schedule.
    fn fetch_block_ids(&mut self, range: Range<BlockIndex>, schedule: &RetrySchedule) -> (r:
        Result<Vec<BlockID>, RetryError<TransportError>>)
        ensures
            final(self).spec_chain() == old(self).spec_chain(),
            r matches Ok(ids) ==> {
                &&& ids@.len() == clipped_range_len(
                    old(self).spec_chain().len() as int,
                    range.start as int,
                    range.end as int,
                )
                &&& forall|k: int|
                    0 <= k < ids@.len() ==> (#[trigger] ids@[k])@ == old(self).spec_chain()[range.start + k].id@
            },
            r matches Err(re) ==> 1 <= re.tries <= schedule.delays@.len() + 1,
    ;

    /// `fetch_block_height`, retried per the schedule.
    fn fetch_block_height(&mut self, schedule: &RetrySchedule) -> (r: Result<
        BlockIndex,
        RetryError<TransportError>,
    >)
        ensures
            final(self).spec_chain() == old(self).spec_chain(),
            r matches Ok(h) ==> h == old(self).spec_chain().len(),
            r matches Err(re) ==> 1 <= re.tries <= schedule.delays@.len() + 1,
    ;
}

} // verus!
