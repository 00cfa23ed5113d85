//! The process-wide registry of peer connections, keyed by responder
//! identity.

use vstd::prelude::*;

use vstd::pervasive::cloned;

use std::sync::Arc;

use crate::connection_trait::Connection;
use crate::sync::SyncConnection;
use crate::uri::{ConnectionUri, ResponderId};

verus! {

/// Relies on Arc::clone: the new handle refers to the same allocation, so
/// it carries the same value.
#[verifier::external_body]
fn arc_clone<T>(a: &Arc<T>) -> (res: Arc<T>)
    ensures
        res == *a,
{
    a.clone()
}

/// Manages the connections to the configured peer set.
///
/// Built once, from one connection per peer, and shared: clones are cheap
/// and observe the same registry, which never changes after construction.
/// Each responder identity appears at most once.
pub struct ConnectionManager<C: Connection> {
    /// The registry: each peer's identity with its shared connection.
    pub peer_connections: Arc<Vec<(ResponderId, SyncConnection<C>)>>,
}

impl<C: Connection> ConnectionManager<C> {
    /// The registry as a sequence of identity/connection pairs.
    pub open spec fn registry(&self) -> Seq<(ResponderId, SyncConnection<C>)> {
        self.peer_connections@
    }

    /// Each responder identity appears at most once.
    pub open spec fn wf(&self) -> bool {
        forall|i: int, j: int|
            0 <= i < j < self.registry().len() ==> (#[trigger] self.registry()[i]).0@ != (
            #[trigger] self.registry()[j]).0@
    }

    /// Builds the registry from one connection per peer, deriving each
    /// peer's identity from its URI.
    ///
    /// A connection whose URI yields no responder identity, or a duplicated
    /// identity, is a misconfiguration, not a runtime condition: callers
    /// must hand in a valid peer set.
    pub fn new(connections: Vec<C>) -> (r: Self)
        requires
            forall|i: int|
                0 <= i < connections@.len() ==> (#[trigger] connections@[i]).spec_uri().spec_responder_id() is Some,
            forall|i: int, j: int|
                0 <= i < j < connections@.len()
                    ==> (#[trigger] connections@[i]).spec_uri().spec_responder_id() != (
                #[trigger] connections@[j]).spec_uri().spec_responder_id(),
        ensures
            r.wf(),
            r.registry().len() == connections@.len(),
            forall|i: int|
                0 <= i < connections@.len() ==> Some((#[trigger] r.registry()[i]).0@) == (
                connections@[i]).spec_uri().spec_responder_id() && r.registry()[i].1.conn
                    == connections@[i],
    {
        let ghost orig = connections@;
        let mut conns = connections;
        let mut pairs: Vec<(ResponderId, SyncConnection<C>)> = Vec::new();
        while conns.len() > 0
            invariant
                pairs@.len() + conns@.len() == orig.len(),
                conns@ == orig.skip(pairs@.len() as int),
                forall|i: int|
                    0 <= i < orig.len() ==> (#[trigger] orig[i]).spec_uri().spec_responder_id() is Some,
                forall|i: int|
                    0 <= i < pairs@.len() ==> Some((#[trigger] pairs@[i]).0@) == (
                    orig[i]).spec_uri().spec_responder_id() && pairs@[i].1.conn == orig[i],
            decreases conns@.len(),
        {
            let ghost done = pairs@.len() as int;
            let conn = conns.remove(0);
            proof {
                assert(conn == orig.skip(done)[0]);
                assert(conn == orig[done]);
                assert(conns@ =~= orig.skip(done + 1));
            }
            let uri = conn.uri();
            let responder_id = match uri.responder_id() {
                Ok(id) => id,
                Err(_) => {
                    // excluded by the precondition: every configured URI
                    // yields an identity
                    proof {
                        assert(false);
                    }
                    vstd::pervasive::unreached()
                },
            };
            pairs.push((responder_id, SyncConnection::new(conn)));
        }
        proof {
            assert(pairs@.len() == orig.len());
        }
        let r = ConnectionManager { peer_connections: Arc::new(pairs) };
        proof {
            assert forall|i: int, j: int| 0 <= i < j < r.registry().len() implies (
            #[trigger] r.registry()[i]).0@ != (#[trigger] r.registry()[j]).0@ by {
                assert(Some(r.registry()[i].0@) == orig[i].spec_uri().spec_responder_id());
                assert(Some(r.registry()[j].0@) == orig[j].spec_uri().spec_responder_id());
            }
        }
        r
    }

    /// All responder identities the manager holds connections for.
    pub fn responder_ids(&self) -> (r: Vec<ResponderId>)
        ensures
            r@.len() == self.registry().len(),
            forall|i: int| 0 <= i < r@.len() ==> (#[trigger] r@[i])@ == self.registry()[i].0@,
    {
        let registry: &Vec<(ResponderId, SyncConnection<C>)> = &*self.peer_connections;
        let mut out: Vec<ResponderId> = Vec::new();
        let n = registry.len();
        let mut i: usize = 0;
        while i < n
            invariant
                i <= n,
                n == self.registry().len(),
                registry@ == self.registry(),
                out@.len() == i,
                forall|k: int| 0 <= k < i ==> (#[trigger] out@[k])@ == self.registry()[k].0@,
            decreases n - i,
        {
            out.push(registry[i].0.clone());
            i += 1;
        }
        out
    }

    /// The number of peers the manager is aware of.
    pub fn len(&self) -> (r: usize)
        ensures
            r == self.registry().len(),
    {
        let registry: &Vec<(ResponderId, SyncConnection<C>)> = &*self.peer_connections;
        registry.len()
    }

    /// Whether the manager holds no connections at all.
    pub fn is_empty(&self) -> (r: bool)
        ensures
            r == (self.registry().len() == 0),
    {
        let registry: &Vec<(ResponderId, SyncConnection<C>)> = &*self.peer_connections;
        registry.is_empty()
    }
}

impl<C: Connection + Clone> ConnectionManager<C> {
    /// Shared handles to all the connections, in registry order.
    pub fn connections(&self) -> (r: Vec<SyncConnection<C>>)
        ensures
            r@.len() == self.registry().len(),
            forall|i: int|
                0 <= i < r@.len() ==> cloned::<C>(
                    self.registry()[i].1.conn,
                    (#[trigger] r@[i]).conn,
                ),
    {
        let registry: &Vec<(ResponderId, SyncConnection<C>)> = &*self.peer_connections;
        let mut out: Vec<SyncConnection<C>> = Vec::new();
        let n = registry.len();
        let mut i: usize = 0;
        while i < n
            invariant
                i <= n,
                n == self.registry().len(),
                registry@ == self.registry(),
                out@.len() == i,
                forall|k: int|
                    0 <= k < i ==> cloned::<C>(
                        self.registry()[k].1.conn,
                        (#[trigger] out@[k]).conn,
                    ),
            decreases n - i,
        {
            out.push(registry[i].1.clone());
            i += 1;
        }
        out
    }

    /// A shared handle to the connection for the given peer, if the manager
    /// holds one.
    pub fn get_connection(&self, responder_id: &ResponderId) -> (r: Option<SyncConnection<C>>)
        ensures
            match r {
                Some(sc) => exists|i: int|
                    0 <= i < self.registry().len() && (#[trigger] self.registry()[i]).0@
                        == responder_id@ && cloned::<C>(self.registry()[i].1.conn, sc.conn),
                None => forall|i: int|
                    0 <= i < self.registry().len() ==> (#[trigger] self.registry()[i]).0@
                        != responder_id@,
            },
    {
        let registry: &Vec<(ResponderId, SyncConnection<C>)> = &*self.peer_connections;
        let n = registry.len();
        let mut i: usize = 0;
        while i < n
            invariant
                i <= n,
                n == self.registry().len(),
                registry@ == self.registry(),
                forall|k: int| 0 <= k < i ==> (#[trigger] self.registry()[k]).0@ != responder_id@,
            decreases n - i,
        {
            if registry[i].0 == *responder_id {
                return Some(registry[i].1.clone());
            }
            i += 1;
        }
        None
    }
}

impl<C: Connection> Clone for ConnectionManager<C> {
    /// A clone observes the same registry.
    fn clone(&self) -> (r: Self)
        ensures
            r.registry() == self.registry(),
    {
        ConnectionManager { peer_connections: arc_clone(&self.peer_connections) }
    }
}

} // verus!
