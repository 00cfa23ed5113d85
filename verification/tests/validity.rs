//! Tests of the validity check and the ledger-dependent well-formed check.

use std::sync::Arc;

use admission_core::{
    validate_tombstone, CompressedRistrettoPublic, DefaultTxManagerUntrustedInterfaces, KeyImage,
    LocallyEncryptedTx, MockLedger, TransactionValidationError, TxContext, TxHash,
    WellFormedTxContext,
};

fn context(
    fee: u64,
    hash_byte: u8,
    tombstone_block: u64,
    key_image_bytes: Vec<u8>,
    output_key_bytes: Vec<u8>,
) -> WellFormedTxContext {
    let key_images: Vec<KeyImage> = key_image_bytes.into_iter().map(|b| KeyImage([b; 32])).collect();
    let output_public_keys: Vec<CompressedRistrettoPublic> = output_key_bytes
        .into_iter()
        .map(|b| CompressedRistrettoPublic([b; 32]))
        .collect();
    WellFormedTxContext::new(
        fee,
        TxHash([hash_byte; 32]),
        tombstone_block,
        Vec::new(),
        key_images,
        output_public_keys,
    )
}

fn is_valid(
    context: WellFormedTxContext,
    ledger: &MockLedger,
) -> Result<(), TransactionValidationError> {
    let untrusted = DefaultTxManagerUntrustedInterfaces::new(ledger.clone());
    untrusted.is_valid(Arc::new(context))
}

#[test]
/// `is_valid` should reject a transaction with a tombstone block that has been exceeded.
fn is_valid_rejects_past_tombstone_block() {
    let n_blocks = 3;
    let ledger = MockLedger::new(n_blocks, n_blocks, Vec::new(), Vec::new());

    let tx = context(0, 1, n_blocks, vec![], vec![]);
    assert_eq!(
        Err(TransactionValidationError::TombstoneBlockExceeded),
        is_valid(tx, &ledger)
    );

    let tx = context(0, 1, n_blocks - 1, vec![], vec![]);
    assert_eq!(
        Err(TransactionValidationError::TombstoneBlockExceeded),
        is_valid(tx, &ledger)
    );

    let tx = context(0, 1, 0, vec![], vec![]);
    assert_eq!(
        Err(TransactionValidationError::TombstoneBlockExceeded),
        is_valid(tx, &ledger)
    );
}

#[test]
/// `is_valid` should reject a transaction with an already spent key image.
fn is_valid_rejects_spent_keyimage() {
    let n_blocks = 3;
    let spent = KeyImage([7u8; 32]);
    let ledger = MockLedger::new(n_blocks, n_blocks, vec![spent], Vec::new());

    let tx = context(0, 1, n_blocks + 5, vec![7], vec![]);
    assert_eq!(
        Err(TransactionValidationError::ContainsSpentKeyImage),
        is_valid(tx, &ledger)
    );
}

#[test]
/// `is_valid` should reject a transaction with an already used output public key.
fn is_valid_rejects_non_unique_output_public_key() {
    let n_blocks = 3;
    let published = CompressedRistrettoPublic([9u8; 32]);
    let ledger = MockLedger::new(n_blocks, n_blocks, Vec::new(), vec![published]);

    let tx = context(0, 1, n_blocks + 5, vec![], vec![9]);
    assert_eq!(
        Err(TransactionValidationError::ContainsExistingOutputPublicKey),
        is_valid(tx, &ledger)
    );
}

#[test]
/// The exact tombstone boundary: a tombstone equal to the block count is
/// expired, one past it is not.
fn is_valid_tombstone_boundary() {
    let ledger = MockLedger::new(3, 3, Vec::new(), Vec::new());

    let expired = context(0, 1, 3, vec![], vec![]);
    assert_eq!(
        Err(TransactionValidationError::TombstoneBlockExceeded),
        is_valid(expired, &ledger)
    );

    let alive = context(0, 1, 4, vec![], vec![]);
    assert_eq!(Ok(()), is_valid(alive, &ledger));
}

#[test]
/// A ledger that cannot serve reads yields the transient ledger error.
fn is_valid_surfaces_ledger_error() {
    let mut ledger = MockLedger::new(3, 3, Vec::new(), Vec::new());
    ledger.make_faulty();

    let tx = context(0, 1, 10, vec![1], vec![2]);
    match is_valid(tx, &ledger) {
        Err(TransactionValidationError::Ledger(_)) => {}
        other => panic!("expected a ledger error, got {:?}", other),
    }
}

#[test]
/// A failed key-image query counts as "spent": flakiness must never admit a
/// possible double-spend.
fn is_valid_treats_key_image_read_failure_as_spent() {
    let mut ledger = MockLedger::new(3, 3, Vec::new(), Vec::new());
    ledger.make_key_image_reads_faulty();

    let tx = context(0, 1, 10, vec![1], vec![]);
    assert_eq!(
        Err(TransactionValidationError::ContainsSpentKeyImage),
        is_valid(tx, &ledger)
    );
}

#[test]
/// A failed output-key query counts as "already published".
fn is_valid_treats_output_key_read_failure_as_present() {
    let mut ledger = MockLedger::new(3, 3, Vec::new(), Vec::new());
    ledger.make_output_key_reads_faulty();

    let tx = context(0, 1, 10, vec![], vec![2]);
    assert_eq!(
        Err(TransactionValidationError::ContainsExistingOutputPublicKey),
        is_valid(tx, &ledger)
    );
}

fn tx_context(highest_indices: Vec<u64>) -> TxContext {
    TxContext {
        locally_encrypted_tx: LocallyEncryptedTx(Vec::new()),
        tx_hash: TxHash([1u8; 32]),
        highest_indices,
        key_images: Vec::new(),
        output_public_keys: Vec::new(),
    }
}

#[test]
/// `well_formed_check` should accept proofs for indices the ledger holds and
/// report the current block index.
fn well_formed_check_accepts_contained_indices() {
    let n_blocks = 3;
    let ledger = MockLedger::new(n_blocks, 12, Vec::new(), Vec::new());
    let untrusted = DefaultTxManagerUntrustedInterfaces::new(ledger);

    match untrusted.well_formed_check(&tx_context(vec![0, 5, 11])) {
        Ok((current_block_index, proofs)) => {
            assert_eq!(current_block_index, n_blocks - 1);
            assert_eq!(proofs.len(), 3);
            assert_eq!(proofs[0].index, 0);
            assert_eq!(proofs[1].index, 5);
            assert_eq!(proofs[2].index, 11);
        }
        Err(e) => panic!("unexpected error {:?}", e),
    }
}

#[test]
/// `well_formed_check` should reject a transaction whose membership proofs
/// reference an index outside the ledger — a transaction "from the future".
fn well_formed_check_rejects_excessive_highest_index() {
    let ledger = MockLedger::new(3, 12, Vec::new(), Vec::new());
    let untrusted = DefaultTxManagerUntrustedInterfaces::new(ledger);

    match untrusted.well_formed_check(&tx_context(vec![99, 10002, 445])) {
        Ok(_) => panic!("an index past the ledger's end must be rejected"),
        Err(TransactionValidationError::Ledger(_)) => {}
        Err(e) => panic!("unexpected error {:?}", e),
    }
}

#[test]
/// `validate_tombstone` fails exactly when the tombstone has been reached.
fn validate_tombstone_boundary() {
    assert_eq!(Ok(()), validate_tombstone(2, 3));
    assert_eq!(
        Err(TransactionValidationError::TombstoneBlockExceeded),
        validate_tombstone(3, 3)
    );
    assert_eq!(
        Err(TransactionValidationError::TombstoneBlockExceeded),
        validate_tombstone(4, 3)
    );
}
