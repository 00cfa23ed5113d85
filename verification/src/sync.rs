//! A process-shared connection handle and the retry drivers built on it.
//!
//! In a deployment each handle serialises access to its connection with a
//! per-connection lock, so the attestation flag and the session always
//! agree; here the wrapper owns the connection, and sharing is modelled by
//! cloning.

use vstd::prelude::*;

use vstd::pervasive::cloned;

use std::ops::Range;

use crate::attested_connection::TransportError;
use crate::blockchain_connection::{
    Block, BlockID, BlockIndex, BlockchainConnection, RetryableBlockchainConnection,
};
use crate::connection_trait::Connection;
use crate::retry::{add_delay, is_transient, RetryError, RetrySchedule};
use crate::tx_types::LocallyEncryptedTx;
use crate::user_tx_connection::{RetryableUserTxConnection, UserTxConnection};

verus! {

/// The outcome of a retried operation.
pub type RetryResult<T> = Result<T, RetryError<TransportError>>;

/// A connection wrapped for shared use by the consensus loop and the
/// client-facing services.
#[derive(Debug)]
pub struct SyncConnection<C: Connection> {
    /// The wrapped connection.
    pub conn: C,
}

impl<C: Connection> SyncConnection<C> {
    pub fn new(conn: C) -> (r: Self)
        ensures
            r.conn == conn,
    {
        SyncConnection { conn }
    }

    /// Read access to the wrapped connection.
    pub fn inner(&self) -> (r: &C)
        ensures
            *r == self.conn,
    {
        &self.conn
    }

    /// Exclusive access to the wrapped connection.
    pub fn inner_mut(&mut self) -> (r: &mut C)
        ensures
            *r == old(self).conn,
            final(self).conn == *final(r),
    {
        &mut self.conn
    }
}

impl<C: Connection + Clone> Clone for SyncConnection<C> {
    fn clone(&self) -> (r: Self)
        ensures
            cloned::<C>(self.conn, r.conn),
    {
        SyncConnection { conn: self.conn.clone() }
    }
}

impl<C: Connection> Connection for SyncConnection<C> {
    type Uri = C::Uri;

    open spec fn spec_uri(&self) -> C::Uri {
        self.conn.spec_uri()
    }

    fn uri(&self) -> (r: C::Uri) {
        self.conn.uri()
    }
}

/// One more attempt was made; its number, saturating at the maximum.
fn count_try(attempt: usize) -> (r: usize)
    ensures
        1 <= r <= attempt + 1,
        attempt < usize::MAX ==> r == attempt + 1,
{
    if attempt == usize::MAX {
        attempt
    } else {
        attempt + 1
    }
}

impl<C: BlockchainConnection> RetryableBlockchainConnection for SyncConnection<C> {
    open spec fn spec_chain(&self) -> Seq<Block> {
        self.conn.spec_chain()
    }

    fn fetch_blocks(&mut self, range: Range<BlockIndex>, schedule: &RetrySchedule) -> (r: Result<
        Vec<Block>,
        RetryError<TransportError>,
    >) {
        let mut attempt: usize = 0;
        let mut total_delay: u64 = 0;
        loop
            invariant
                attempt <= schedule.delays@.len(),
                self.conn.spec_chain() == old(self).conn.spec_chain(),
            decreases schedule.delays@.len() - attempt,
        {
            let attempt_range = Range { start: range.start, end: range.end };
            match self.conn.fetch_blocks(attempt_range) {
                Ok(blocks) => {
                    return Ok(blocks);
                },
                Err(e) => {
                    if !is_transient(&e) {
                        return Err(
                            RetryError {
                                tries: count_try(attempt),
                                total_delay_ms: total_delay,
                                error: e,
                            },
                        );
                    }
                    if attempt < schedule.delays.len() {
                        total_delay = add_delay(total_delay, schedule.delays[attempt]);
                        attempt += 1;
                    } else {
                        return Err(
                            RetryError {
                                tries: count_try(attempt),
                                total_delay_ms: total_delay,
                                error: e,
                            },
                        );
                    }
                },
            }
        }
    }

    fn fetch_block_ids(&mut self, range: Range<BlockIndex>, schedule: &RetrySchedule) -> (r:
        Result<Vec<BlockID>, RetryError<TransportError>>) {
        let mut attempt: usize = 0;
        let mut total_delay: u64 = 0;
        loop
            invariant
                attempt <= schedule.delays@.len(),
                self.conn.spec_chain() == old(self).conn.spec_chain(),
            decreases schedule.delays@.len() - attempt,
        {
            let attempt_range = Range { start: range.start, end: range.end };
            match self.conn.fetch_block_ids(attempt_range) {
                Ok(ids) => {
                    return Ok(ids);
                },
                Err(e) => {
                    if !is_transient(&e) {
                        return Err(
                            RetryError {
                                tries: count_try(attempt),
                                total_delay_ms: total_delay,
                                error: e,
                            },
                        );
                    }
                    if attempt < schedule.delays.len() {
                        total_delay = add_delay(total_delay, schedule.delays[attempt]);
                        attempt += 1;
                    } else {
                        return Err(
                            RetryError {
                                tries: count_try(attempt),
                                total_delay_ms: total_delay,
                                error: e,
                            },
                        );
                    }
                },
            }
        }
    }

    fn fetch_block_height(&mut self, schedule: &RetrySchedule) -> (r: Result<
        BlockIndex,
        RetryError<TransportError>,
    >) {
        let mut attempt: usize = 0;
        let mut total_delay: u64 = 0;
        loop
            invariant
                attempt <= schedule.delays@.len(),
                self.conn.spec_chain() == old(self).conn.spec_chain(),
            decreases schedule.delays@.len() - attempt,
        {
            match self.conn.fetch_block_height() {
                Ok(h) => {
                    return Ok(h);
                },
                Err(e) => {
                    if !is_transient(&e) {
                        return Err(
                            RetryError {
                                tries: count_try(attempt),
                                total_delay_ms: total_delay,
                                error: e,
                            },
                        );
                    }
                    if attempt < schedule.delays.len() {
                        total_delay = add_delay(total_delay, schedule.delays[attempt]);
                        attempt += 1;
                    } else {
                        return Err(
                            RetryError {
                                tries: count_try(attempt),
                                total_delay_ms: total_delay,
                                error: e,
                            },
                        );
                    }
                },
            }
        }
    }
}

impl<C: UserTxConnection> RetryableUserTxConnection for SyncConnection<C> {
    open spec fn spec_pending(&self) -> Seq<Seq<u8>> {
        self.conn.spec_pending()
    }

    open spec fn spec_height(&self) -> u64 {
        self.conn.spec_height()
    }

    fn propose_tx(&mut self, tx: &LocallyEncryptedTx, schedule: &RetrySchedule) -> (r: Result<
        BlockIndex,
        RetryError<TransportError>,
    >) {
        let mut attempt: usize = 0;
        let mut total_delay: u64 = 0;
        loop
            invariant
                attempt <= schedule.delays@.len(),
                self.conn.spec_pending() == old(self).conn.spec_pending(),
                self.conn.spec_height() == old(self).conn.spec_height(),
            decreases schedule.delays@.len() - attempt,
        {
            match self.conn.propose_tx(tx) {
                Ok(h) => {
                    return Ok(h);
                },
                Err(e) => {
                    if !is_transient(&e) {
                        return Err(
                            RetryError {
                                tries: count_try(attempt),
                                total_delay_ms: total_delay,
                                error: e,
                            },
                        );
                    }
                    if attempt < schedule.delays.len() {
                        total_delay = add_delay(total_delay, schedule.delays[attempt]);
                        attempt += 1;
                    } else {
                        return Err(
                            RetryError {
                                tries: count_try(attempt),
                                total_delay_ms: total_delay,
                                error: e,
                            },
                        );
                    }
                },
            }
        }
    }
}

} // verus!
