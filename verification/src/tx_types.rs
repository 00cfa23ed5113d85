//! Transaction-level data the untrusted admission core is allowed to see.
//!
//! The enclave keeps the full transaction to itself; the untrusted side works
//! on a summary: the transaction hash, the fee, the tombstone block, the
//! membership-proof indices, the key images it would spend and the one-time
//! output public keys it would publish.

use vstd::prelude::*;

verus! {

/// A 32-byte transaction hash.
#[derive(Clone, Copy, Debug)]
pub struct TxHash(pub [u8; 32]);

/// A 32-byte tag derived from a spent output; ledger-wide uniqueness of key
/// images is the double-spend invariant.
#[derive(Clone, Copy, Debug)]
pub struct KeyImage(pub [u8; 32]);

/// A 32-byte compressed one-time public key published by a transaction
/// output; must be globally unique in the ledger.
#[derive(Clone, Copy, Debug)]
pub struct CompressedRistrettoPublic(pub [u8; 32]);

/// A transaction encrypted to the local enclave; the untrusted side only
/// carries it.
#[derive(Clone, Debug)]
pub struct LocallyEncryptedTx(pub Vec<u8>);

impl View for LocallyEncryptedTx {
    type V = Seq<u8>;

    open spec fn view(&self) -> Seq<u8> {
        self.0@
    }
}

impl View for TxHash {
    type V = Seq<u8>;

    open spec fn view(&self) -> Seq<u8> {
        self.0@
    }
}

impl View for KeyImage {
    type V = Seq<u8>;

    open spec fn view(&self) -> Seq<u8> {
        self.0@
    }
}

impl View for CompressedRistrettoPublic {
    type V = Seq<u8>;

    open spec fn view(&self) -> Seq<u8> {
        self.0@
    }
}

/// Byte-wise equality of two 32-byte values.
pub(crate) fn bytes32_eq(a: &[u8; 32], b: &[u8; 32]) -> (r: bool)
    ensures
        r == (a@ == b@),
{
    let mut i: usize = 0;
    while i < 32
        invariant
            i <= 32,
            forall|k: int| 0 <= k < i ==> a@[k] == b@[k],
        decreases 32 - i,
    {
        if a[i] != b[i] {
            return false;
        }
        i += 1;
    }
    proof {
        assert(a@ =~= b@);
    }
    true
}

impl PartialEq for TxHash {
    fn eq(&self, other: &Self) -> (r: bool) {
        bytes32_eq(&self.0, &other.0)
    }
}

impl vstd::std_specs::cmp::PartialEqSpecImpl for TxHash {
    open spec fn obeys_eq_spec() -> bool {
        true
    }

    open spec fn eq_spec(&self, other: &Self) -> bool {
        self@ == other@
    }
}

impl PartialEq for KeyImage {
    fn eq(&self, other: &Self) -> (r: bool) {
        bytes32_eq(&self.0, &other.0)
    }
}

impl vstd::std_specs::cmp::PartialEqSpecImpl for KeyImage {
    open spec fn obeys_eq_spec() -> bool {
        true
    }

    open spec fn eq_spec(&self, other: &Self) -> bool {
        self@ == other@
    }
}

impl PartialEq for CompressedRistrettoPublic {
    fn eq(&self, other: &Self) -> (r: bool) {
        bytes32_eq(&self.0, &other.0)
    }
}

impl vstd::std_specs::cmp::PartialEqSpecImpl for CompressedRistrettoPublic {
    open spec fn obeys_eq_spec() -> bool {
        true
    }

    open spec fn eq_spec(&self, other: &Self) -> bool {
        self@ == other@
    }
}

/// What the enclave hands the untrusted side about a submitted transaction,
/// before the ledger-dependent part of the well-formed check has run.
#[derive(Clone, Debug)]
pub struct TxContext {
    /// The transaction itself, encrypted to the local enclave.
    pub locally_encrypted_tx: LocallyEncryptedTx,
    /// Hash of the transaction.
    pub tx_hash: TxHash,
    /// Highest TxOut global indices referenced by the membership proofs.
    pub highest_indices: Vec<u64>,
    /// Key images spent by the transaction.
    pub key_images: Vec<KeyImage>,
    /// One-time output public keys the transaction would publish.
    pub output_public_keys: Vec<CompressedRistrettoPublic>,
}

/// The fee-tagged summary of a transaction that passed the well-formed check;
/// the unit the combiner orders and selects.
#[derive(Clone, Debug)]
pub struct WellFormedTxContext {
    pub fee: u64,
    pub tx_hash: TxHash,
    pub tombstone_block: u64,
    pub highest_indices: Vec<u64>,
    pub key_images: Vec<KeyImage>,
    pub output_public_keys: Vec<CompressedRistrettoPublic>,
}

/// The mathematical content of a `WellFormedTxContext`.
pub ghost struct WellFormedTxContextView {
    pub fee: u64,
    pub tx_hash: Seq<u8>,
    pub tombstone_block: u64,
    pub highest_indices: Seq<u64>,
    pub key_images: Seq<Seq<u8>>,
    pub output_public_keys: Seq<Seq<u8>>,
}

impl View for WellFormedTxContext {
    type V = WellFormedTxContextView;

    open spec fn view(&self) -> WellFormedTxContextView {
        WellFormedTxContextView {
            fee: self.fee,
            tx_hash: self.tx_hash@,
            tombstone_block: self.tombstone_block,
            highest_indices: self.highest_indices@,
            key_images: self.key_images@.map_values(|k: KeyImage| k@),
            output_public_keys: self.output_public_keys@.map_values(
                |p: CompressedRistrettoPublic| p@,
            ),
        }
    }
}

impl WellFormedTxContext {
    pub fn new(
        fee: u64,
        tx_hash: TxHash,
        tombstone_block: u64,
        highest_indices: Vec<u64>,
        key_images: Vec<KeyImage>,
        output_public_keys: Vec<CompressedRistrettoPublic>,
    ) -> (r: Self)
        ensures
            r@ == (WellFormedTxContextView {
                fee,
                tx_hash: tx_hash@,
                tombstone_block,
                highest_indices: highest_indices@,
                key_images: key_images@.map_values(|k: KeyImage| k@),
                output_public_keys: output_public_keys@.map_values(
                    |p: CompressedRistrettoPublic| p@,
                ),
            }),
    {
        Self { fee, tx_hash, tombstone_block, highest_indices, key_images, output_public_keys }
    }

    pub fn fee(&self) -> (r: u64)
        ensures
            r == self@.fee,
    {
        self.fee
    }

    pub fn tx_hash(&self) -> (r: &TxHash)
        ensures
            r@ == self@.tx_hash,
    {
        &self.tx_hash
    }

    pub fn tombstone_block(&self) -> (r: u64)
        ensures
            r == self@.tombstone_block,
    {
        self.tombstone_block
    }

    pub fn highest_indices(&self) -> (r: &Vec<u64>)
        ensures
            r@ == self@.highest_indices,
    {
        &self.highest_indices
    }

    pub fn key_images(&self) -> (r: &Vec<KeyImage>)
        ensures
            r@.map_values(|k: KeyImage| k@) == self@.key_images,
    {
        &self.key_images
    }

    pub fn output_public_keys(&self) -> (r: &Vec<CompressedRistrettoPublic>)
        ensures
            r@.map_values(|p: CompressedRistrettoPublic| p@) == self@.output_public_keys,
    {
        &self.output_public_keys
    }
}

} // verus!
