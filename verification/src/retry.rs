//! Retry schedules for transport-level operations.
//!
//! A schedule is a finite sequence of delays, in milliseconds. A retry
//! driver consumes one delay per transient failure and gives up when the
//! schedule is exhausted or the failure is permanent. The drivers here
//! account the delays they consume; the pause between attempts belongs to
//! the calling program, which owns the clock.

use vstd::prelude::*;

use crate::attested_connection::{RpcStatus, TransportError};

verus! {

/// A finite sequence of retry delays, in milliseconds. A caller bounds the
/// total deadline of a retried operation by choosing the schedule.
#[derive(Clone, Debug)]
pub struct RetrySchedule {
    /// The delay before each re-attempt, in order.
    pub delays: Vec<u64>,
}

impl RetrySchedule {
    pub fn new(delays: Vec<u64>) -> (r: Self)
        ensures
            r.delays@ == delays@,
    {
        RetrySchedule { delays }
    }

    /// A schedule that never retries.
    pub fn none() -> (r: Self)
        ensures
            r.delays@.len() == 0,
    {
        RetrySchedule { delays: Vec::new() }
    }
}

/// A retried operation that ultimately failed.
#[derive(Clone, Copy, Debug, PartialEq, Eq)]
pub struct RetryError<E> {
    /// How many attempts were made.
    pub tries: usize,
    /// The sum of the delays consumed, in milliseconds (saturating).
    pub total_delay_ms: u64,
    /// The error of the final attempt.
    pub error: E,
}

/// Which transport failures are worth retrying: an expired session (the next
/// attempt re-attests), an unreachable or slow server, or a broken channel.
/// Server-side failures and rejected requests are permanent.
pub open spec fn spec_is_transient(e: TransportError) -> bool {
    match e {
        TransportError::RpcFailure(status) => match status {
            RpcStatus::Unauthenticated => true,
            RpcStatus::Unavailable => true,
            RpcStatus::DeadlineExceeded => true,
            RpcStatus::Internal => false,
            RpcStatus::InvalidArgument => false,
        },
        TransportError::ChannelBroken => true,
    }
}

/// Decides whether a transport failure is worth retrying.
pub fn is_transient(e: &TransportError) -> (r: bool)
    ensures
        r == spec_is_transient(*e),
{
    match e {
        TransportError::RpcFailure(status) => match status {
            RpcStatus::Unauthenticated => true,
            RpcStatus::Unavailable => true,
            RpcStatus::DeadlineExceeded => true,
            RpcStatus::Internal => false,
            RpcStatus::InvalidArgument => false,
        },
        TransportError::ChannelBroken => true,
    }
}

/// Adds a consumed delay to the running total, saturating at the maximum.
pub(crate) fn add_delay(total: u64, delay: u64) -> (r: u64)
    ensures
        r >= total,
{
    if total <= u64::MAX - delay {
        total + delay
    } else {
        u64::MAX
    }
}

} // verus!
