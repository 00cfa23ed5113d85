//! Peer addressing: connection URIs and the stable responder identity
//! derived from them.

use vstd::prelude::*;

verus! {

/// The address of a peer: a host name and a port.
///
/// Stands in for the scheme-qualified connection URIs a deployment would
/// carry; what the connection layer relies on is that a URI deterministically
/// yields a [`ResponderId`].
#[derive(Debug)]
pub struct PeerUri {
    /// Host name or address of the peer.
    pub host: String,
    /// Port the peer's RPC endpoint listens on.
    pub port: u16,
}

/// The mathematical content of a [`PeerUri`].
pub ghost struct PeerUriView {
    pub host: Seq<char>,
    pub port: u16,
}

impl View for PeerUri {
    type V = PeerUriView;

    open spec fn view(&self) -> PeerUriView {
        PeerUriView { host: self.host@, port: self.port }
    }
}

impl Clone for PeerUri {
    fn clone(&self) -> (r: Self)
        ensures
            r == *self,
    {
        PeerUri { host: self.host.clone(), port: self.port }
    }
}

impl PeerUri {
    pub fn new(host: String, port: u16) -> (r: Self)
        ensures
            r@ == (PeerUriView { host: host@, port }),
    {
        PeerUri { host, port }
    }
}

/// A URI could not yield a responder identity.
#[derive(Clone, Copy, Debug, PartialEq, Eq, Structural)]
pub enum UriConversionError {
    /// The URI names no host.
    MissingHost,
}

/// A stable, totally-identifying peer identity, derived from the peer's
/// connection URI. Stable for the lifetime of the configured peer set.
#[derive(Debug)]
pub struct ResponderId {
    /// Host part of the identity.
    pub host: String,
    /// Port part of the identity.
    pub port: u16,
}

/// The mathematical content of a [`ResponderId`].
pub ghost struct ResponderIdView {
    pub host: Seq<char>,
    pub port: u16,
}

impl View for ResponderId {
    type V = ResponderIdView;

    open spec fn view(&self) -> ResponderIdView {
        ResponderIdView { host: self.host@, port: self.port }
    }
}

impl Clone for ResponderId {
    fn clone(&self) -> (r: Self)
        ensures
            r == *self,
    {
        ResponderId { host: self.host.clone(), port: self.port }
    }
}

impl PartialEq for ResponderId {
    fn eq(&self, other: &Self) -> (r: bool) {
        self.host == other.host && self.port == other.port
    }
}

impl vstd::std_specs::cmp::PartialEqSpecImpl for ResponderId {
    open spec fn obeys_eq_spec() -> bool {
        true
    }

    open spec fn eq_spec(&self, other: &Self) -> bool {
        self@ == other@
    }
}

/// An address that deterministically yields a peer identity.
pub trait ConnectionUri: Sized {
    /// The responder identity this URI yields, if it yields one.
    spec fn spec_responder_id(&self) -> Option<ResponderIdView>;

    /// Derives the stable peer identity from the URI; fails exactly when the
    /// URI cannot yield one.
    fn responder_id(&self) -> (r: Result<ResponderId, UriConversionError>)
        ensures
            match r {
                Ok(id) => self.spec_responder_id() == Some(id@),
                Err(_) => self.spec_responder_id() is None,
            },
    ;
}

impl ConnectionUri for PeerUri {
    open spec fn spec_responder_id(&self) -> Option<ResponderIdView> {
        if self@.host.len() > 0 {
            Some(ResponderIdView { host: self@.host, port: self@.port })
        } else {
            None
        }
    }

    fn responder_id(&self) -> (r: Result<ResponderId, UriConversionError>) {
        if self.host.as_str().is_empty() {
            Err(UriConversionError::MissingHost)
        } else {
            Ok(ResponderId { host: self.host.clone(), port: self.port })
        }
    }
}

} // verus!
