//! The base capability every peer connection has: a URI-derived identity.

use vstd::prelude::*;

use crate::uri::ConnectionUri;

verus! {

/// A base connection: identified by its URI for the lifetime of the
/// configured peer set.
pub trait Connection: Sized {
    /// The address type this connection is configured with.
    type Uri: ConnectionUri;

    /// The connection's address, as a value.
    spec fn spec_uri(&self) -> Self::Uri;

    /// Returns the connection's address.
    fn uri(&self) -> (r: Self::Uri)
        ensures
            r == self.spec_uri(),
    ;
}

} // verus!
