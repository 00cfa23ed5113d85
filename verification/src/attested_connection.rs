//! The attested-channel capability: an encrypted session gated on remote
//! attestation, re-established transparently when it expires.

use vstd::prelude::*;

use crate::connection_trait::Connection;

verus! {

/// Status of a failed RPC, as the transport reports it.
#[derive(Clone, Copy, Debug, PartialEq, Eq, Structural)]
pub enum RpcStatus {
    /// The server no longer accepts the session; re-attestation is needed.
    Unauthenticated,
    /// The server could not be reached.
    Unavailable,
    /// The call ran out of time.
    DeadlineExceeded,
    /// The server failed internally.
    Internal,
    /// The server rejected the request as malformed.
    InvalidArgument,
}

/// A failed transport-level call.
#[derive(Clone, Copy, Debug, PartialEq, Eq, Structural)]
pub enum TransportError {
    /// The server answered the call with a failure status.
    RpcFailure(RpcStatus),
    /// The message never reached the server.
    ChannelBroken,
}

/// A marker for connection-specific attestation errors.
pub trait AttestationError {
}

/// The attestation error of the mock peer connection.
#[derive(Clone, Copy, Debug, PartialEq, Eq, Structural)]
pub enum MockAttestationError {
    /// The simulated peer refused the handshake.
    HandshakeRefused,
}

impl AttestationError for MockAttestationError {
}

/// Why an attested call failed: the attestation handshake itself, or the
/// wrapped call's transport. Transport errors are surfaced unchanged;
/// deattestation on `Unauthenticated` happens as a side effect.
#[derive(Clone, Copy, Debug, PartialEq, Eq)]
pub enum AttestedCallError<E> {
    /// The attestation handshake failed; the wrapped call never ran.
    Attestation(E),
    /// The wrapped call failed in transport.
    Transport(TransportError),
}

/// A connection whose calls travel over an attested channel.
///
/// State machine per connection: `attest` moves it to attested, `deattest`
/// to unattested, and any `Unauthenticated` result observed by
/// [`AttestedConnection::attested_call`] moves it back to unattested so the
/// next call re-attests.
pub trait AttestedConnection: Connection {
    /// The connection-specific attestation error.
    type Error: AttestationError;

    /// Whether an attested channel is currently established.
    spec fn attested(&self) -> bool;

    /// Reports whether an attested channel is currently established.
    fn is_attested(&self) -> (r: bool)
        ensures
            r == self.attested(),
    ;

    /// Performs the attestation handshake; on success the connection is
    /// attested, on failure it stays unattested (no partial state).
    fn attest(&mut self) -> (r: Result<(), Self::Error>)
        ensures
            final(self).attested() == r.is_ok(),
    ;

    /// Discards the attested channel.
    fn deattest(&mut self)
        ensures
            !final(self).attested(),
    ;

    /// Runs `func` over an attested channel: attests first if (and only if)
    /// the connection is not already attested, then invokes `func` exactly
    /// once; if `func` reports `Unauthenticated`, the connection is marked
    /// unattested before the error is surfaced, so the next call re-attests.
    fn attested_call<T, F: FnOnce(Self) -> (Self, Result<T, TransportError>)>(self, func: F) -> (r:
        (Self, Result<T, AttestedCallError<Self::Error>>))
        requires
            forall|c: Self| c.attested() ==> #[trigger] call_requires(func, (c,)),
        ensures
            // an attested connection never re-attests
            self.attested() ==> !(r.1 matches Err(AttestedCallError::Attestation(_))),
            // a failed handshake: the call never ran, nothing is attested
            r.1 matches Err(AttestedCallError::Attestation(_)) ==> !self.attested()
                && !r.0.attested(),
            // otherwise the call ran exactly once, over an attested channel
            !(r.1 matches Err(AttestedCallError::Attestation(_))) ==> exists|
                mid: Self,
                after: Self,
                out: Result<T, TransportError>,
            |
                {
                    &&& #[trigger] call_ensures(func, (mid,), (after, out))
                    &&& mid.attested()
                    &&& (self.attested() ==> mid == self)
                    &&& match out {
                        Ok(t) => r.1 matches Ok(v) && v == t && r.0 == after,
                        Err(e) => {
                            &&& r.1 matches Err(ce) && ce == AttestedCallError::<
                                Self::Error,
                            >::Transport(e)
                            &&& (e == TransportError::RpcFailure(RpcStatus::Unauthenticated)
                                ==> !r.0.attested())
                            &&& (e != TransportError::RpcFailure(RpcStatus::Unauthenticated)
                                ==> r.0 == after)
                        },
                    }
                },
    {
        let mut conn = self;
        if !conn.is_attested() {
            match conn.attest() {
                Ok(()) => (),
                Err(e) => {
                    return (conn, Err(AttestedCallError::Attestation(e)));
                },
            }
        }
        let (after, result) = func(conn);
        let mut conn2 = after;
        let failed_auth = match &result {
            Err(TransportError::RpcFailure(RpcStatus::Unauthenticated)) => true,
            _ => false,
        };
        if failed_auth {
            // The session expired server-side: the next call must re-attest.
            conn2.deattest();
        }
        match result {
            Ok(t) => (conn2, Ok(t)),
            Err(e) => (conn2, Err(AttestedCallError::Transport(e))),
        }
    }
}

} // verus!
