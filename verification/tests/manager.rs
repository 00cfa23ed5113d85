//! Tests of the connection manager registry.

use admission_core::{
    Connection, ConnectionManager, ConnectionManagerTrait, ConnectionUri, MockPeerConnection,
    PeerUri,
};

fn peer(host: &str, port: u16) -> MockPeerConnection {
    MockPeerConnection::new(PeerUri::new(host.to_string(), port), Vec::new())
}

fn manager() -> ConnectionManager<MockPeerConnection> {
    ConnectionManager::new(vec![
        peer("node1.test.mobilecoin.com", 8443),
        peer("node2.test.mobilecoin.com", 8443),
        peer("node3.test.mobilecoin.com", 8444),
    ])
}

#[test]
/// The manager derives one responder identity per configured peer.
fn manager_derives_responder_ids() {
    let manager = manager();
    assert_eq!(manager.len(), 3);
    assert!(!manager.is_empty());

    let ids = manager.responder_ids();
    assert_eq!(ids.len(), 3);
    assert_eq!(ids[0].host, "node1.test.mobilecoin.com");
    assert_eq!(ids[0].port, 8443);
    assert_eq!(ids[1].host, "node2.test.mobilecoin.com");
    assert_eq!(ids[2].host, "node3.test.mobilecoin.com");
    assert_eq!(ids[2].port, 8444);
}

#[test]
/// Connections are retrievable by identity; unknown identities yield none.
fn manager_looks_up_by_responder_id() {
    let manager = manager();

    let wanted = peer("node2.test.mobilecoin.com", 8443)
        .uri()
        .responder_id()
        .expect("responder id");
    let found = manager.get_connection(&wanted).expect("connection");
    assert_eq!(found.conn.uri.host, "node2.test.mobilecoin.com");

    let unknown = peer("node9.test.mobilecoin.com", 8443)
        .uri()
        .responder_id()
        .expect("responder id");
    assert!(manager.get_connection(&unknown).is_none());
}

#[test]
/// All connections come back in registry order.
fn manager_lists_connections() {
    let manager = manager();
    let connections = manager.connections();
    assert_eq!(connections.len(), 3);
    assert_eq!(connections[0].conn.uri.host, "node1.test.mobilecoin.com");
    assert_eq!(connections[2].conn.uri.port, 8444);
}

#[test]
/// Clones observe the same registry.
fn manager_clones_share_registry() {
    let manager = manager();
    let clone = manager.clone();
    assert_eq!(manager.len(), clone.len());
    let a = manager.responder_ids();
    let b = clone.responder_ids();
    assert_eq!(a, b);
}

#[test]
/// An empty peer set yields an empty manager.
fn manager_handles_empty_peer_set() {
    let manager: ConnectionManager<MockPeerConnection> = ConnectionManager::new(Vec::new());
    assert_eq!(manager.len(), 0);
    assert!(manager.is_empty());
    assert!(manager.responder_ids().is_empty());
    assert!(manager.connections().is_empty());
}

#[test]
/// The registry interface exposes the same view as the manager itself.
fn manager_trait_delegates() {
    let manager = manager();
    assert_eq!(ConnectionManagerTrait::len(&manager), 3);
    assert!(!ConnectionManagerTrait::is_empty(&manager));
    assert_eq!(ConnectionManagerTrait::responder_ids(&manager).len(), 3);
    assert_eq!(ConnectionManagerTrait::connections(&manager).len(), 3);

    let wanted = peer("node1.test.mobilecoin.com", 8443)
        .uri()
        .responder_id()
        .expect("responder id");
    assert!(ConnectionManagerTrait::get_connection(&manager, &wanted).is_some());
}

#[test]
/// A URI without a host yields no responder identity.
fn uri_without_host_yields_no_responder_id() {
    let uri = PeerUri::new(String::new(), 8443);
    assert!(uri.responder_id().is_err());
}
