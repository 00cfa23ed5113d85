//! Tests of the connection substrate: attestation lifecycle, blockchain
//! reads, transaction submission, and retries.

use admission_core::{
    is_transient, AttestedCallError, AttestedConnection, Block, BlockID, BlockchainConnection,
    LocallyEncryptedTx, MockPeerConnection, PeerUri, RetryError, RetrySchedule,
    RetryableBlockchainConnection, RetryableUserTxConnection, RpcStatus, SyncConnection,
    TransportError, UserTxConnection,
};

fn peer_with_chain(n_blocks: u8) -> MockPeerConnection {
    let uri = PeerUri::new("node1.test.mobilecoin.com".to_string(), 8443);
    let chain: Vec<Block> = (0..n_blocks)
        .map(|i| Block {
            index: i as u64,
            id: BlockID([i; 32]),
        })
        .collect();
    MockPeerConnection::new(uri, chain)
}

#[test]
/// A call over an unattested connection attests exactly once, then runs.
fn attested_call_attests_first() {
    let conn = peer_with_chain(3);
    assert!(!conn.attested);
    assert_eq!(conn.attest_count, 0);

    let (conn, result) = conn.attested_call(|c| (c, Ok::<u32, TransportError>(7)));
    assert_eq!(result, Ok(7));
    assert!(conn.attested);
    assert_eq!(conn.attest_count, 1);

    // Already attested: the next call performs no further handshake.
    let (conn, result) = conn.attested_call(|c| (c, Ok::<u32, TransportError>(8)));
    assert_eq!(result, Ok(8));
    assert_eq!(conn.attest_count, 1);
}

#[test]
/// An `UNAUTHENTICATED` response resets the attestation state, and the next
/// attested call re-attests.
fn attestation_reset_on_unauthenticated() {
    let mut conn = peer_with_chain(3);
    conn.attest().expect("handshake");
    assert!(conn.is_attested());
    assert_eq!(conn.attest_count, 1);

    let (conn, result) = conn.attested_call(|c| {
        (
            c,
            Err::<u32, TransportError>(TransportError::RpcFailure(RpcStatus::Unauthenticated)),
        )
    });
    assert_eq!(
        result,
        Err(AttestedCallError::Transport(TransportError::RpcFailure(
            RpcStatus::Unauthenticated
        )))
    );
    assert!(!conn.is_attested());

    // A subsequent attested call re-invokes the handshake first.
    let (conn, result) = conn.attested_call(|c| (c, Ok::<u32, TransportError>(1)));
    assert_eq!(result, Ok(1));
    assert!(conn.is_attested());
    assert_eq!(conn.attest_count, 2);
}

#[test]
/// A transport error other than `UNAUTHENTICATED` leaves the attestation
/// state alone.
fn attestation_survives_other_transport_errors() {
    let mut conn = peer_with_chain(3);
    conn.attest().expect("handshake");

    let (conn, result) = conn.attested_call(|c| {
        (
            c,
            Err::<u32, TransportError>(TransportError::RpcFailure(RpcStatus::Unavailable)),
        )
    });
    assert_eq!(
        result,
        Err(AttestedCallError::Transport(TransportError::RpcFailure(
            RpcStatus::Unavailable
        )))
    );
    assert!(conn.is_attested());
}

#[test]
/// A refused handshake surfaces as an attestation error and leaves the
/// connection unattested.
fn attested_call_propagates_attestation_failure() {
    let mut conn = peer_with_chain(3);
    conn.refuse_attestation = true;

    let (conn, result) = conn.attested_call(|c| (c, Ok::<u32, TransportError>(7)));
    match result {
        Err(AttestedCallError::Attestation(_)) => {}
        other => panic!("expected an attestation error, got {:?}", other),
    }
    assert!(!conn.is_attested());
    assert_eq!(conn.attest_count, 0);
}

#[test]
/// Blocks come back exactly as the half-open range asks, clipped to what the
/// peer holds.
fn fetch_blocks_serves_clipped_range() {
    let mut conn = peer_with_chain(5);

    let blocks = conn.fetch_blocks(1..3).expect("fetch");
    assert_eq!(blocks.len(), 2);
    assert_eq!(blocks[0].index, 1);
    assert_eq!(blocks[1].index, 2);

    // The peer holds fewer blocks than the range asks for.
    let blocks = conn.fetch_blocks(3..10).expect("fetch");
    assert_eq!(blocks.len(), 2);
    assert_eq!(blocks[0].index, 3);
    assert_eq!(blocks[1].index, 4);

    let blocks = conn.fetch_blocks(7..9).expect("fetch");
    assert_eq!(blocks.len(), 0);
}

#[test]
/// Block identifiers follow the same range semantics.
fn fetch_block_ids_serves_clipped_range() {
    let mut conn = peer_with_chain(4);

    let ids = conn.fetch_block_ids(2..9).expect("fetch");
    assert_eq!(ids.len(), 2);
    assert_eq!(ids[0], BlockID([2u8; 32]));
    assert_eq!(ids[1], BlockID([3u8; 32]));
}

#[test]
/// The reported height is the number of blocks the peer holds.
fn fetch_block_height_reports_chain_length() {
    let mut conn = peer_with_chain(5);
    assert_eq!(conn.fetch_block_height(), Ok(5));
}

#[test]
/// Proposing a transaction returns the height at receipt and queues the
/// transaction.
fn propose_tx_returns_height_at_receipt() {
    let mut conn = peer_with_chain(5);
    let tx = LocallyEncryptedTx(vec![1, 2, 3]);
    assert_eq!(conn.propose_tx(&tx), Ok(5));
    assert_eq!(conn.accepted_txs.len(), 1);
    assert_eq!(conn.accepted_txs[0], vec![1, 2, 3]);
}

#[test]
/// A transient failure consumes a delay of the schedule and the call is
/// tried again; the retried call succeeds once the fault clears.
fn retry_recovers_from_transient_failures() {
    let mut conn = peer_with_chain(5);
    conn.script_failure(RpcStatus::Unavailable);
    conn.script_failure(RpcStatus::DeadlineExceeded);

    let mut sync = SyncConnection::new(conn);
    let schedule = RetrySchedule::new(vec![10, 20]);
    let height = RetryableBlockchainConnection::fetch_block_height(&mut sync, &schedule);
    assert_eq!(height, Ok(5));
}

#[test]
/// An exhausted schedule ends the call with the last transient error and the
/// number of attempts made.
fn retry_stops_when_schedule_is_exhausted() {
    let mut conn = peer_with_chain(5);
    conn.script_failure(RpcStatus::Unavailable);
    conn.script_failure(RpcStatus::Unavailable);

    let mut sync = SyncConnection::new(conn);
    let schedule = RetrySchedule::new(vec![10]);
    let result = RetryableBlockchainConnection::fetch_block_height(&mut sync, &schedule);
    assert_eq!(
        result,
        Err(RetryError {
            tries: 2,
            total_delay_ms: 10,
            error: TransportError::RpcFailure(RpcStatus::Unavailable),
        })
    );
}

#[test]
/// A permanent error is not retried.
fn retry_gives_up_on_permanent_errors() {
    let mut conn = peer_with_chain(5);
    conn.script_failure(RpcStatus::InvalidArgument);

    let mut sync = SyncConnection::new(conn);
    let schedule = RetrySchedule::new(vec![10, 20, 30]);
    let result = RetryableBlockchainConnection::fetch_block_height(&mut sync, &schedule);
    assert_eq!(
        result,
        Err(RetryError {
            tries: 1,
            total_delay_ms: 0,
            error: TransportError::RpcFailure(RpcStatus::InvalidArgument),
        })
    );
}

#[test]
/// Retried blockchain reads and submissions behave like their inner calls
/// once a transient fault clears.
fn retry_drives_all_operations() {
    let mut conn = peer_with_chain(4);
    conn.script_failure(RpcStatus::Unavailable);
    let mut sync = SyncConnection::new(conn);
    let schedule = RetrySchedule::new(vec![5]);

    let blocks =
        RetryableBlockchainConnection::fetch_blocks(&mut sync, 0..2, &schedule).expect("blocks");
    assert_eq!(blocks.len(), 2);

    let ids = RetryableBlockchainConnection::fetch_block_ids(&mut sync, 0..9, &schedule)
        .expect("block ids");
    assert_eq!(ids.len(), 4);

    let tx = LocallyEncryptedTx(vec![9]);
    let height =
        RetryableUserTxConnection::propose_tx(&mut sync, &tx, &schedule).expect("propose");
    assert_eq!(height, 4);
    assert_eq!(sync.conn.accepted_txs.len(), 1);
}

#[test]
/// The transient/permanent classification of transport failures.
fn transient_classification() {
    assert!(is_transient(&TransportError::RpcFailure(
        RpcStatus::Unauthenticated
    )));
    assert!(is_transient(&TransportError::RpcFailure(
        RpcStatus::Unavailable
    )));
    assert!(is_transient(&TransportError::RpcFailure(
        RpcStatus::DeadlineExceeded
    )));
    assert!(is_transient(&TransportError::ChannelBroken));
    assert!(!is_transient(&TransportError::RpcFailure(
        RpcStatus::Internal
    )));
    assert!(!is_transient(&TransportError::RpcFailure(
        RpcStatus::InvalidArgument
    )));
}
