//! The deterministic heart of the simulated consensus network.
//!
//! The thread-per-node harness that drives a network lives outside the
//! library (message passing and pacing are plain I/O); what each node
//! decides per slot — which nominated candidates make up the next block —
//! is here, and it is exactly the combiner. The consistency witness: nodes
//! with identical ledgers that externalize the same nominated multiset
//! append identical blocks.

use vstd::prelude::*;

use std::sync::Arc;

use crate::tx_order::key_injective;
use crate::tx_types::{TxHash, WellFormedTxContext, WellFormedTxContextView};
use crate::validators::{arc_views, combine_candidates, combine_spec, hash_views};

verus! {

/// One simulated validator node: its externalized ledger, block by block.
#[derive(Debug)]
pub struct SimNode {
    /// The externalized blocks, each a list of transaction hashes.
    pub ledger: Vec<Vec<TxHash>>,
}

impl SimNode {
    /// The ledger as a sequence of blocks of hashes.
    pub open spec fn spec_ledger(&self) -> Seq<Seq<Seq<u8>>> {
        self.ledger@.map_values(|b: Vec<TxHash>| hash_views(b@))
    }

    /// A node with an empty ledger.
    pub fn new() -> (r: Self)
        ensures
            r.spec_ledger().len() == 0,
    {
        SimNode { ledger: Vec::new() }
    }

    /// The number of externalized blocks.
    pub fn num_blocks(&self) -> (r: usize)
        ensures
            r == self.spec_ledger().len(),
    {
        self.ledger.len()
    }

    /// Externalizes one slot: combines the nominated candidates into the
    /// next block and appends it.
    pub fn externalize_slot(
        &mut self,
        candidates: &[Arc<WellFormedTxContext>],
        max_elements: usize,
    )
        ensures
            final(self).spec_ledger() == old(self).spec_ledger().push(
                combine_spec(arc_views(candidates@), max_elements as int),
            ),
    {
        let block = combine_candidates(candidates, max_elements);
        self.ledger.push(block);
        proof {
            assert(self.spec_ledger() =~= old(self).spec_ledger().push(
                combine_spec(arc_views(candidates@), max_elements as int),
            ));
        }
    }
}

/// End-to-end consistency of the simulated network: two nodes whose ledgers
/// are block-for-block identical, externalizing nominated sets that hold the
/// same candidates (in any order, no two distinct candidates sharing a sort
/// key), append the same block — their ledgers stay block-for-block
/// identical.
pub proof fn lemma_network_consistency(
    ledger1: Seq<Seq<Seq<u8>>>,
    ledger2: Seq<Seq<Seq<u8>>>,
    nominated1: Seq<WellFormedTxContextView>,
    nominated2: Seq<WellFormedTxContextView>,
    max: int,
)
    requires
        ledger1 == ledger2,
        nominated1.to_multiset() == nominated2.to_multiset(),
        key_injective(nominated1),
    ensures
        ledger1.push(combine_spec(nominated1, max)) == ledger2.push(combine_spec(nominated2, max)),
{
    crate::validators::lemma_combine_permutation_invariant(nominated1, nominated2, max);
}

} // verus!
