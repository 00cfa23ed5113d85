//! Tests of the simulated network's deterministic core, and of the
//! protocol's domain separation tags.

use std::sync::Arc;

use admission_core::{
    KeyImage, SimNode, TxHash, WellFormedTxContext, AMOUNT_BLINDING_DOMAIN_TAG,
    AMOUNT_VALUE_DOMAIN_TAG, RING_MLSAG_CHALLENGE_DOMAIN_TAG,
};

fn candidate(fee: u64, hash_byte: u8, key_image_byte: u8) -> Arc<WellFormedTxContext> {
    Arc::new(WellFormedTxContext::new(
        fee,
        TxHash([hash_byte; 32]),
        0,
        Vec::new(),
        vec![KeyImage([key_image_byte; 32])],
        Vec::new(),
    ))
}

#[test]
/// Honest nodes fed the same nominated sets, each in its own arrival order,
/// externalize block-for-block identical ledgers.
fn sim_nodes_externalize_identical_ledgers() {
    let mut nodes: Vec<SimNode> = (0..3).map(|_| SimNode::new()).collect();
    for node in nodes.iter() {
        assert_eq!(node.num_blocks(), 0);
    }

    // Three slots; each node sees each slot's candidates in a different order.
    let slots: Vec<Vec<Arc<WellFormedTxContext>>> = vec![
        vec![candidate(10, 1, 1), candidate(5, 2, 2), candidate(7, 3, 3)],
        vec![candidate(4, 4, 4), candidate(4, 5, 4)], // shared key image: one survives
        vec![candidate(1, 6, 6)],
    ];

    for slot in &slots {
        for (n, node) in nodes.iter_mut().enumerate() {
            let mut arrival = slot.clone();
            if n == 1 {
                arrival.reverse();
            }
            if n == 2 {
                let shift = 1.min(arrival.len() - 1);
                arrival.rotate_left(shift);
            }
            node.externalize_slot(&arrival, 10);
        }
    }

    // Every node externalized every slot.
    for node in nodes.iter() {
        assert_eq!(node.num_blocks(), slots.len());
    }

    // All ledgers are block-for-block identical.
    let reference = &nodes[0].ledger;
    for node in nodes.iter().skip(1) {
        assert_eq!(reference.len(), node.ledger.len());
        for (block_index, block) in reference.iter().enumerate() {
            assert_eq!(block, &node.ledger[block_index]);
        }
    }

    // The conflicting slot kept the lexicographically smaller hash.
    assert_eq!(nodes[0].ledger[1], vec![TxHash([4u8; 32])]);
}

#[test]
/// The block-size bound applies per externalized slot.
fn sim_node_respects_block_bound() {
    let mut node = SimNode::new();
    let candidates: Vec<Arc<WellFormedTxContext>> =
        (0..6u8).map(|i| candidate(0, i, i)).collect();
    node.externalize_slot(&candidates, 4);
    assert_eq!(node.num_blocks(), 1);
    assert_eq!(node.ledger[0].len(), 4);
}

#[test]
/// The domain separation tags are surfaced verbatim.
fn domain_separation_tags_are_verbatim() {
    assert_eq!(AMOUNT_VALUE_DOMAIN_TAG, "mc_amount_value_v0");
    assert_eq!(AMOUNT_BLINDING_DOMAIN_TAG, "mc_amount_blinding_v0");
    assert_eq!(RING_MLSAG_CHALLENGE_DOMAIN_TAG, "mc_ring_mlsag_challenge_v0");
}
