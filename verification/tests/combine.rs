//! Tests of the deterministic block combiner.

use std::sync::Arc;

use admission_core::{
    CompressedRistrettoPublic, DefaultTxManagerUntrustedInterfaces, KeyImage, MockLedger, TxHash,
    WellFormedTxContext,
};

fn hash(b: u8) -> TxHash {
    TxHash([b; 32])
}

fn context(
    fee: u64,
    hash_byte: u8,
    key_image_bytes: Vec<u8>,
    output_key_bytes: Vec<u8>,
) -> WellFormedTxContext {
    let key_images: Vec<KeyImage> = key_image_bytes.into_iter().map(|b| KeyImage([b; 32])).collect();
    let output_public_keys: Vec<CompressedRistrettoPublic> = output_key_bytes
        .into_iter()
        .map(|b| CompressedRistrettoPublic([b; 32]))
        .collect();
    WellFormedTxContext::new(fee, hash(hash_byte), 0, Vec::new(), key_images, output_public_keys)
}

fn combine(tx_contexts: Vec<WellFormedTxContext>, max_elements: usize) -> Vec<TxHash> {
    let ledger = MockLedger::new(10, 10, Vec::new(), Vec::new());
    let untrusted = DefaultTxManagerUntrustedInterfaces::new(ledger);
    let tx_contexts: Vec<Arc<WellFormedTxContext>> = tx_contexts.into_iter().map(Arc::new).collect();
    untrusted.combine(&tx_contexts, max_elements)
}

#[test]
// "Combining" an empty set should return an empty vec.
fn combine_empty_set() {
    let transaction_set: Vec<WellFormedTxContext> = Vec::new();
    let combined_transactions = combine(transaction_set, 10);
    assert_eq!(combined_transactions.len(), 0);
}

#[test]
// "Combining" a singleton set should return a vec containing the single element.
fn combine_single_transaction() {
    let client_tx = context(100, 1, vec![], vec![]);
    let combined_transactions = combine(vec![client_tx], 100);
    assert_eq!(combined_transactions.len(), 1);
    assert_eq!(combined_transactions, vec![hash(1)]);
}

#[test]
// `combine` should enforce a maximum limit on the number of returned items.
fn combine_max_size() {
    let mut transaction_set: Vec<WellFormedTxContext> = Vec::new();
    for i in 0..10u8 {
        // distinct hashes, disjoint key images and output public keys
        transaction_set.push(context(0, i, vec![100 + i], vec![200 + i]));
    }

    let max_elements: usize = 7;
    let combined_transactions = combine(transaction_set, max_elements);

    // The combined list of transactions should contain no more than `max_elements`.
    assert_eq!(combined_transactions.len(), max_elements);
    // All fees are equal, so the hashes come out in ascending byte order.
    let expected: Vec<TxHash> = (0..7u8).map(hash).collect();
    assert_eq!(combined_transactions, expected);
}

#[test]
// `combine` should omit transactions that would cause a key image to be used twice.
fn combine_reject_reused_key_images() {
    // first and second spend the same key image; third is unrelated
    let first_client_tx = context(10, 1, vec![7], vec![]);
    let second_client_tx = context(5, 2, vec![7], vec![]);
    let third_client_tx = context(1, 3, vec![8], vec![]);

    let transaction_set = vec![first_client_tx, second_client_tx, third_client_tx];

    let combined_transactions = combine(transaction_set, 10);
    // `combine` should only allow one of the transactions that attempts to use the same key image.
    assert_eq!(combined_transactions.len(), 2);
    assert!(combined_transactions.contains(&hash(3)));
    assert_eq!(combined_transactions, vec![hash(1), hash(3)]);
}

#[test]
// `combine` should omit transactions that would cause an output public key to appear twice.
fn combine_reject_duplicate_output_public_key() {
    // first and second publish the same output public key; third is unrelated
    let first_client_tx = context(10, 1, vec![], vec![7]);
    let second_client_tx = context(20, 2, vec![], vec![7]);
    let third_client_tx = context(0, 3, vec![], vec![8]);

    let transaction_set = vec![first_client_tx, second_client_tx, third_client_tx];

    let combined_transactions = combine(transaction_set, 10);
    // `combine` should only allow one of the transactions that attempts to use the same output
    // public key; the higher-fee second transaction wins the sort, so the first conflicts.
    assert_eq!(combined_transactions.len(), 2);
    assert!(combined_transactions.contains(&hash(3)));
    assert_eq!(combined_transactions, vec![hash(2), hash(3)]);
}

#[test]
// `combine` should return hashes in the order defined by WellFormedTxContext.
fn combine_sort_order() {
    let a = WellFormedTxContext::new(100, TxHash([1u8; 32]), 0, vec![], vec![], vec![]);
    let b = WellFormedTxContext::new(557, TxHash([2u8; 32]), 0, vec![], vec![], vec![]);
    let c = WellFormedTxContext::new(88, TxHash([3u8; 32]), 0, vec![], vec![], vec![]);

    let tx_contexts = vec![a, b, c];

    let hashes = combine(tx_contexts, 10);
    // Transactions should be ordered from highest fee to lowest fee.
    let expected_hashes = vec![TxHash([2u8; 32]), TxHash([1u8; 32]), TxHash([3u8; 32])];
    assert_eq!(hashes, expected_hashes);
}

#[test]
// The result is a function of the candidate multiset: any input order yields
// the same block.
fn combine_is_order_independent() {
    let a = context(10, 1, vec![7], vec![]);
    let b = context(5, 2, vec![7], vec![]);
    let c = context(1, 3, vec![8], vec![9]);
    let d = context(5, 4, vec![10], vec![9]);

    let forward = combine(vec![a.clone(), b.clone(), c.clone(), d.clone()], 3);
    let backward = combine(vec![d, c, b, a], 3);
    assert_eq!(forward, backward);
}

#[test]
// Equal fees fall back to the byte-lexicographic hash order.
fn combine_breaks_fee_ties_by_hash() {
    let mut t1 = [0u8; 32];
    t1[31] = 2;
    let mut t2 = [0u8; 32];
    t2[30] = 1;
    let a = WellFormedTxContext::new(9, TxHash(t1), 0, vec![], vec![], vec![]);
    let b = WellFormedTxContext::new(9, TxHash(t2), 0, vec![], vec![], vec![]);

    let hashes = combine(vec![a, b], 10);
    // t1 < t2 lexicographically: byte 30 decides.
    assert_eq!(hashes, vec![TxHash(t1), TxHash(t2)]);
}
