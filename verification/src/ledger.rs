//! The read-only ledger view the admission core consumes.
//!
//! Every read may fail with a storage error. The admission core treats an
//! errored boolean query as "present" — a flaky ledger can delay admission but
//! can never cause a double-spend (see
//! `DefaultTxManagerUntrustedInterfaces::is_valid`).

use vstd::prelude::*;

use crate::tx_types::{CompressedRistrettoPublic, KeyImage};

verus! {

/// The mathematical content of a ledger: how many blocks and TxOuts it holds,
/// and which key images and output public keys appear in it.
pub ghost struct LedgerModel {
    pub num_blocks: u64,
    pub num_tx_outs: u64,
    pub key_images: Set<Seq<u8>>,
    pub output_public_keys: Set<Seq<u8>>,
}

/// A failed ledger read.
#[derive(Clone, Debug, PartialEq, Eq, Structural)]
pub enum LedgerError {
    /// The storage layer could not serve the read.
    Storage,
    /// A requested record does not exist (a TxOut index past the ledger's
    /// end).
    NotFound,
}

impl LedgerError {
    /// A human-readable description, for embedding in admission errors.
    pub fn describe(&self) -> (r: String)
        ensures
            self is Storage ==> r@ == "ledger storage failure"@,
            self is NotFound ==> r@ == "ledger record not found"@,
    {
        match self {
            LedgerError::Storage => "ledger storage failure".to_owned(),
            LedgerError::NotFound => "ledger record not found".to_owned(),
        }
    }
}

/// A Merkle-style proof that a TxOut index is part of the ledger's output
/// tree at some block height.
#[derive(Clone, Copy, Debug, PartialEq, Eq, Structural)]
pub struct TxOutMembershipProof {
    /// The TxOut global index the proof is for.
    pub index: u64,
    /// The highest TxOut global index covered by the proof's root.
    pub highest_index: u64,
}

/// A read-only ledger.
///
/// `model` is the ledger content a handle currently exposes, and `reliable`
/// says whether reads are being served without storage faults: an unreliable
/// handle may fail any read, but a successful read always reports the model.
pub trait Ledger: Sized {
    /// The ledger contents this handle exposes.
    spec fn model(&self) -> LedgerModel;

    /// Whether reads are currently served without storage faults.
    spec fn reliable(&self) -> bool;

    /// The number of blocks in the ledger.
    fn num_blocks(&self) -> (r: Result<u64, LedgerError>)
        ensures
            r matches Ok(n) ==> n == self.model().num_blocks,
            self.reliable() ==> r is Ok,
    ;

    /// Whether the given key image has been spent.
    fn contains_key_image(&self, key_image: &KeyImage) -> (r: Result<bool, LedgerError>)
        ensures
            r matches Ok(b) ==> b == self.model().key_images.contains(key_image@),
            self.reliable() ==> r is Ok,
    ;

    /// Whether the given output public key already appears in the ledger.
    fn contains_tx_out_public_key(&self, public_key: &CompressedRistrettoPublic) -> (r: Result<
        bool,
        LedgerError,
    >)
        ensures
            r matches Ok(b) ==> b == self.model().output_public_keys.contains(public_key@),
            self.reliable() ==> r is Ok,
    ;

    /// One membership proof per requested TxOut global index; fails if any
    /// index lies outside the ledger.
    fn get_tx_out_proof_of_memberships(&self, indices: &[u64]) -> (r: Result<
        Vec<TxOutMembershipProof>,
        LedgerError,
    >)
        ensures
            r matches Ok(proofs) ==> {
                &&& proofs@.len() == indices@.len()
                &&& forall|i: int|
                    0 <= i < indices@.len() ==> #[trigger] indices@[i] < self.model().num_tx_outs
                &&& forall|i: int|
                    0 <= i < indices@.len() ==> (#[trigger] proofs@[i]).index == indices@[i]
                        && proofs@[i].highest_index < self.model().num_tx_outs
            },
            self.reliable() && (forall|i: int|
                0 <= i < indices@.len() ==> #[trigger] indices@[i] < self.model().num_tx_outs)
                ==> r is Ok,
    ;
}

/// An in-memory ledger with settable contents and an injectable fault switch;
/// backs the tests and the simulated network.
#[derive(Clone, Debug)]
pub struct MockLedger {
    /// Number of blocks held.
    pub num_blocks: u64,
    /// Number of TxOuts held over all blocks.
    pub num_tx_outs: u64,
    /// All spent key images.
    pub key_images: Vec<KeyImage>,
    /// All output public keys ever published.
    pub output_public_keys: Vec<CompressedRistrettoPublic>,
    /// When set, every read fails with a storage error.
    pub faulty: bool,
    /// When set, key-image queries fail with a storage error.
    pub faulty_key_image_reads: bool,
    /// When set, output-key queries fail with a storage error.
    pub faulty_output_key_reads: bool,
}

impl MockLedger {
    /// A fault-free ledger with the given contents.
    pub fn new(
        num_blocks: u64,
        num_tx_outs: u64,
        key_images: Vec<KeyImage>,
        output_public_keys: Vec<CompressedRistrettoPublic>,
    ) -> (r: Self)
        ensures
            r.model() == (LedgerModel {
                num_blocks,
                num_tx_outs,
                key_images: key_images@.map_values(|k: KeyImage| k@).to_set(),
                output_public_keys: output_public_keys@.map_values(
                    |p: CompressedRistrettoPublic| p@,
                ).to_set(),
            }),
            r.reliable(),
    {
        Self {
            num_blocks,
            num_tx_outs,
            key_images,
            output_public_keys,
            faulty: false,
            faulty_key_image_reads: false,
            faulty_output_key_reads: false,
        }
    }

    /// Makes every subsequent read fail, leaving the contents in place.
    pub fn make_faulty(&mut self)
        ensures
            final(self).model() == old(self).model(),
            !final(self).reliable(),
    {
        self.faulty = true;
    }

    /// Makes every subsequent key-image query fail, leaving the contents and
    /// the other reads in place.
    pub fn make_key_image_reads_faulty(&mut self)
        ensures
            final(self).model() == old(self).model(),
            !final(self).reliable(),
            final(self).faulty == old(self).faulty,
            final(self).faulty_output_key_reads == old(self).faulty_output_key_reads,
    {
        self.faulty_key_image_reads = true;
    }

    /// Makes every subsequent output-key query fail, leaving the contents
    /// and the other reads in place.
    pub fn make_output_key_reads_faulty(&mut self)
        ensures
            final(self).model() == old(self).model(),
            !final(self).reliable(),
            final(self).faulty == old(self).faulty,
            final(self).faulty_key_image_reads == old(self).faulty_key_image_reads,
    {
        self.faulty_output_key_reads = true;
    }
}

impl Ledger for MockLedger {
    open spec fn model(&self) -> LedgerModel {
        LedgerModel {
            num_blocks: self.num_blocks,
            num_tx_outs: self.num_tx_outs,
            key_images: self.key_images@.map_values(|k: KeyImage| k@).to_set(),
            output_public_keys: self.output_public_keys@.map_values(
                |p: CompressedRistrettoPublic| p@,
            ).to_set(),
        }
    }

    open spec fn reliable(&self) -> bool {
        !self.faulty && !self.faulty_key_image_reads && !self.faulty_output_key_reads
    }

    fn num_blocks(&self) -> (r: Result<u64, LedgerError>) {
        if self.faulty {
            Err(LedgerError::Storage)
        } else {
            Ok(self.num_blocks)
        }
    }

    fn contains_key_image(&self, key_image: &KeyImage) -> (r: Result<bool, LedgerError>) {
        if self.faulty || self.faulty_key_image_reads {
            return Err(LedgerError::Storage);
        }
        let ghost views = self.key_images@.map_values(|k: KeyImage| k@);
        let n = self.key_images.len();
        let mut i: usize = 0;
        while i < n
            invariant
                i <= n,
                n == self.key_images@.len(),
                views == self.key_images@.map_values(|k: KeyImage| k@),
                forall|k: int| 0 <= k < i ==> views[k] != key_image@,
            decreases n - i,
        {
            if self.key_images[i] == *key_image {
                proof {
                    assert(views[i as int] == key_image@);
                    assert(views.to_set().contains(key_image@));
                }
                return Ok(true);
            }
            i += 1;
        }
        proof {
            assert(!views.to_set().contains(key_image@)) by {
                if views.contains(key_image@) {
                    let k = choose|k: int| 0 <= k < views.len() && views[k] == key_image@;
                    assert(views[k] != key_image@);
                }
            }
        }
        Ok(false)
    }

    fn contains_tx_out_public_key(&self, public_key: &CompressedRistrettoPublic) -> (r: Result<
        bool,
        LedgerError,
    >) {
        if self.faulty || self.faulty_output_key_reads {
            return Err(LedgerError::Storage);
        }
        let ghost views = self.output_public_keys@.map_values(|p: CompressedRistrettoPublic| p@);
        let n = self.output_public_keys.len();
        let mut i: usize = 0;
        while i < n
            invariant
                i <= n,
                n == self.output_public_keys@.len(),
                views == self.output_public_keys@.map_values(|p: CompressedRistrettoPublic| p@),
                forall|k: int| 0 <= k < i ==> views[k] != public_key@,
            decreases n - i,
        {
            if self.output_public_keys[i] == *public_key {
                proof {
                    assert(views[i as int] == public_key@);
                    assert(views.to_set().contains(public_key@));
                }
                return Ok(true);
            }
            i += 1;
        }
        proof {
            assert(!views.to_set().contains(public_key@)) by {
                if views.contains(public_key@) {
                    let k = choose|k: int| 0 <= k < views.len() && views[k] == public_key@;
                    assert(views[k] != public_key@);
                }
            }
        }
        Ok(false)
    }

    fn get_tx_out_proof_of_memberships(&self, indices: &[u64]) -> (r: Result<
        Vec<TxOutMembershipProof>,
        LedgerError,
    >) {
        if self.faulty {
            return Err(LedgerError::Storage);
        }
        let mut proofs: Vec<TxOutMembershipProof> = Vec::new();
        let n = indices.len();
        let mut i: usize = 0;
        while i < n
            invariant
                i <= n,
                n == indices@.len(),
                !self.faulty,
                proofs@.len() == i,
                forall|k: int| 0 <= k < i ==> #[trigger] indices@[k] < self.model().num_tx_outs,
                forall|k: int|
                    0 <= k < i ==> (#[trigger] proofs@[k]).index == indices@[k]
                        && proofs@[k].highest_index < self.model().num_tx_outs,
            decreases n - i,
        {
            let index = indices[i];
            if index >= self.num_tx_outs {
                return Err(LedgerError::NotFound);
            }
            proofs.push(TxOutMembershipProof { index, highest_index: self.num_tx_outs - 1 });
            i += 1;
        }
        Ok(proofs)
    }
}

} // verus!
