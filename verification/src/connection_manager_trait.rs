//! The connection manager's interface, for callers that want to accept any
//! registry implementation.

use vstd::prelude::*;

use vstd::pervasive::cloned;

use crate::connection_manager::ConnectionManager;
use crate::connection_trait::Connection;
use crate::sync::SyncConnection;
use crate::uri::ResponderId;

verus! {

/// A registry of peer connections keyed by responder identity.
pub trait ConnectionManagerTrait<C: Connection + Clone>: Sized {
    /// The registry as a sequence of identity/connection pairs.
    spec fn spec_registry(&self) -> Seq<(ResponderId, SyncConnection<C>)>;

    /// All responder identities the registry holds connections for.
    fn responder_ids(&self) -> (r: Vec<ResponderId>)
        ensures
            r@.len() == self.spec_registry().len(),
            forall|i: int| 0 <= i < r@.len() ==> (#[trigger] r@[i])@ == self.spec_registry()[i].0@,
    ;

    /// Shared handles to all the connections, in registry order.
    fn connections(&self) -> (r: Vec<SyncConnection<C>>)
        ensures
            r@.len() == self.spec_registry().len(),
            forall|i: int|
                0 <= i < r@.len() ==> cloned::<C>(
                    self.spec_registry()[i].1.conn,
                    (#[trigger] r@[i]).conn,
                ),
    ;

    /// A shared handle to the connection for the given peer, if the registry
    /// holds one.
    fn get_connection(&self, responder_id: &ResponderId) -> (r: Option<SyncConnection<C>>)
        ensures
            match r {
                Some(sc) => exists|i: int|
                    0 <= i < self.spec_registry().len() && (#[trigger] self.spec_registry()[i]).0@
                        == responder_id@ && cloned::<C>(self.spec_registry()[i].1.conn, sc.conn),
                None => forall|i: int|
                    0 <= i < self.spec_registry().len() ==> (#[trigger] self.spec_registry()[i]).0@
                        != responder_id@,
            },
    ;

    /// The number of connections.
    fn len(&self) -> (r: usize)
        ensures
            r == self.spec_registry().len(),
    ;

    /// True if the number of connections is zero.
    fn is_empty(&self) -> (r: bool)
        ensures
            r == (self.spec_registry().len() == 0),
    ;
}

impl<C: Connection + Clone> ConnectionManagerTrait<C> for ConnectionManager<C> {
    open spec fn spec_registry(&self) -> Seq<(ResponderId, SyncConnection<C>)> {
        self.registry()
    }

    fn responder_ids(&self) -> (r: Vec<ResponderId>) {
        ConnectionManager::responder_ids(self)
    }

    fn connections(&self) -> (r: Vec<SyncConnection<C>>) {
        ConnectionManager::connections(self)
    }

    fn get_connection(&self, responder_id: &ResponderId) -> (r: Option<SyncConnection<C>>) {
        let r = ConnectionManager::get_connection(self, responder_id);
        proof {
            let ghost gr = r;
            match gr {
                Some(sc) => {
                    let i = choose|i: int|
                        0 <= i < self.registry().len() && (#[trigger] self.registry()[i]).0@
                            == responder_id@ && cloned::<C>(self.registry()[i].1.conn, sc.conn);
                    assert(0 <= i < self.spec_registry().len() && (
                    #[trigger] self.spec_registry()[i]).0@ == responder_id@ && cloned::<C>(
                        self.spec_registry()[i].1.conn,
                        sc.conn,
                    ));
                },
                None => {},
            }
        }
        r
    }

    fn len(&self) -> (r: usize) {
        ConnectionManager::len(self)
    }

    fn is_empty(&self) -> (r: bool) {
        ConnectionManager::is_empty(self)
    }
}

} // verus!
