//! The untrusted admission core: the ledger-dependent part of the well-formed
//! check, the single-transaction validity check, and the deterministic block
//! combiner.
//!
//! Validation is broken into two parts. "Well-formed"-ness covers everything
//! about a transaction that later ledger growth cannot invalidate; the
//! enclave checks most of it, and `well_formed_check` supplies the
//! ledger-dependent part (membership proofs and the current block index).
//! "Is valid [to add to the ledger]" asks whether a single well-formed
//! transaction can be appended to the ledger in its current state.

use vstd::prelude::*;
use vstd::relations::sorted_by;

use std::sync::Arc;

use crate::ledger::{Ledger, TxOutMembershipProof};
use crate::tx_order::{sort_contexts, sort_tx_contexts, tx_context_le, tx_order, views_of};
use crate::tx_types::{
    CompressedRistrettoPublic, KeyImage, TxContext, TxHash, WellFormedTxContext,
    WellFormedTxContextView,
};
use crate::validation::{
    validate_tombstone, TransactionValidationError, TransactionValidationResult,
};

verus! {

/// The key images a context would spend.
pub open spec fn ki_set(c: WellFormedTxContextView) -> Set<Seq<u8>> {
    c.key_images.to_set()
}

/// The output public keys a context would publish.
pub open spec fn pk_set(c: WellFormedTxContextView) -> Set<Seq<u8>> {
    c.output_public_keys.to_set()
}

/// Two contexts conflict when they share a key image or an output public key;
/// no block may contain both.
pub open spec fn conflicts(a: WellFormedTxContextView, b: WellFormedTxContextView) -> bool {
    !ki_set(a).disjoint(ki_set(b)) || !pk_set(a).disjoint(pk_set(b))
}

/// The views of a sequence of shared contexts.
pub open spec fn arc_views(s: Seq<Arc<WellFormedTxContext>>) -> Seq<WellFormedTxContextView> {
    s.map_values(|a: Arc<WellFormedTxContext>| a@)
}

/// Walks sorted candidates in order, accepting each that conflicts with
/// nothing accepted so far, until `max` are accepted: the combiner's
/// selection rule.
pub open spec fn greedy_select(
    s: Seq<WellFormedTxContextView>,
    max: int,
    used_ki: Set<Seq<u8>>,
    used_pk: Set<Seq<u8>>,
    acc: Seq<WellFormedTxContextView>,
) -> Seq<WellFormedTxContextView>
    decreases s.len(),
{
    if s.len() == 0 || acc.len() >= max {
        acc
    } else if ki_set(s[0]).disjoint(used_ki) && pk_set(s[0]).disjoint(used_pk) {
        greedy_select(
            s.drop_first(),
            max,
            used_ki + ki_set(s[0]),
            used_pk + pk_set(s[0]),
            acc.push(s[0]),
        )
    } else {
        greedy_select(s.drop_first(), max, used_ki, used_pk, acc)
    }
}

/// The contexts `combine` accepts, in emission order.
pub open spec fn combine_ctxs(s: Seq<WellFormedTxContextView>, max: int) -> Seq<
    WellFormedTxContextView,
> {
    greedy_select(sort_tx_contexts(s), max, Set::empty(), Set::empty(), Seq::empty())
}

/// The views of a sequence of transaction hashes.
pub open spec fn hash_views(s: Seq<TxHash>) -> Seq<Seq<u8>> {
    s.map_values(|h: TxHash| h@)
}

/// The hashes of a sequence of contexts, in order.
pub open spec fn ctx_hashes(s: Seq<WellFormedTxContextView>) -> Seq<Seq<u8>> {
    s.map_values(|c: WellFormedTxContextView| c.tx_hash)
}

/// The hashes `combine` emits: a function of the candidate multiset alone.
pub open spec fn combine_spec(s: Seq<WellFormedTxContextView>, max: int) -> Seq<Seq<u8>> {
    ctx_hashes(combine_ctxs(s, max))
}

/// Appending to a sequence adds exactly the appended element to its set.
proof fn lemma_push_to_set(s: Seq<Seq<u8>>, x: Seq<u8>)
    ensures
        s.push(x).to_set() == s.to_set().insert(x),
{
    assert forall|y: Seq<u8>| #[trigger] s.push(x).to_set().contains(y) implies s.to_set().insert(
        x,
    ).contains(y) by {
        let k = choose|k: int| 0 <= k < s.push(x).len() && s.push(x)[k] == y;
        if k < s.len() {
            assert(s[k] == y);
        }
    }
    assert forall|y: Seq<u8>| #[trigger] s.to_set().insert(x).contains(y) implies s.push(
        x,
    ).to_set().contains(y) by {
        if y == x {
            assert(s.push(x)[s.len() as int] == y);
        } else {
            let k = choose|k: int| 0 <= k < s.len() && s[k] == y;
            assert(s.push(x)[k] == y);
        }
    }
    assert(s.push(x).to_set() =~= s.to_set().insert(x));
}

/// The ledger-backed implementation of the tx manager's untrusted interface.
#[derive(Clone)]
pub struct DefaultTxManagerUntrustedInterfaces<L: Ledger> {
    /// The local ledger, queried read-only.
    pub ledger: L,
}

impl<L: Ledger> DefaultTxManagerUntrustedInterfaces<L> {
    pub fn new(ledger: L) -> (r: Self)
        ensures
            r.ledger == ledger,
    {
        Self { ledger }
    }

    /// Performs only the non-enclave part of the well-formed check: the
    /// membership proofs must reference data contained in the local ledger
    /// (this can fail while the local ledger lags the consensus ledger).
    ///
    /// Returns the local ledger's current block index and one membership
    /// proof per requested index. The proofs are fetched before the block
    /// count on purpose: a block written between the two reads only enlarges
    /// the index, and the index feeds nothing but the tombstone check, which
    /// is monotone in it.
    pub fn well_formed_check(&self, tx_context: &TxContext) -> (r: TransactionValidationResult<
        (u64, Vec<TxOutMembershipProof>),
    >)
        requires
            self.ledger.model().num_blocks >= 1,
        ensures
            r matches Ok((block_index, proofs)) ==> {
                &&& block_index == self.ledger.model().num_blocks - 1
                &&& proofs@.len() == tx_context.highest_indices@.len()
                &&& forall|i: int|
                    0 <= i < tx_context.highest_indices@.len()
                        ==> #[trigger] tx_context.highest_indices@[i]
                        < self.ledger.model().num_tx_outs
                &&& forall|i: int|
                    0 <= i < proofs@.len() ==> (#[trigger] proofs@[i]).index
                        == tx_context.highest_indices@[i]
            },
            r matches Err(e) ==> e is Ledger,
            (exists|i: int|
                0 <= i < tx_context.highest_indices@.len()
                    && #[trigger] tx_context.highest_indices@[i]
                    >= self.ledger.model().num_tx_outs) ==> r is Err,
            self.ledger.reliable() && (forall|i: int|
                0 <= i < tx_context.highest_indices@.len()
                    ==> #[trigger] tx_context.highest_indices@[i]
                    < self.ledger.model().num_tx_outs) ==> r is Ok,
    {
        // The proofs must be fetched before the block count; see above.
        let membership_proofs = match self.ledger.get_tx_out_proof_of_memberships(
            tx_context.highest_indices.as_slice(),
        ) {
            Ok(proofs) => proofs,
            Err(e) => {
                return Err(TransactionValidationError::Ledger(e.describe()));
            },
        };

        let num_blocks = match self.ledger.num_blocks() {
            Ok(n) => n,
            Err(e) => {
                return Err(TransactionValidationError::Ledger(e.describe()));
            },
        };

        Ok((num_blocks - 1, membership_proofs))
    }

    /// Checks whether a single well-formed transaction is safe to append to
    /// the ledger right now: its tombstone block must not have been reached,
    /// none of its key images may have been spent, and none of its output
    /// public keys may already appear in the ledger.
    ///
    /// A ledger fault during a key-image or output-key query is conservatively
    /// treated as "present": a flaky ledger can refuse a transaction but can
    /// never admit a double-spend.
    pub fn is_valid(&self, context: Arc<WellFormedTxContext>) -> (r: TransactionValidationResult<
        (),
    >)
        ensures
            r is Ok ==> {
                &&& context@.tombstone_block > self.ledger.model().num_blocks
                &&& forall|i: int|
                    0 <= i < context@.key_images.len()
                        ==> !self.ledger.model().key_images.contains(
                        #[trigger] context@.key_images[i],
                    )
                &&& forall|i: int|
                    0 <= i < context@.output_public_keys.len()
                        ==> !self.ledger.model().output_public_keys.contains(
                        #[trigger] context@.output_public_keys[i],
                    )
            },
            r matches Err(e) ==> match e {
                TransactionValidationError::Ledger(_) => true,
                TransactionValidationError::TombstoneBlockExceeded => context@.tombstone_block
                    <= self.ledger.model().num_blocks,
                TransactionValidationError::ContainsSpentKeyImage => context@.tombstone_block
                    > self.ledger.model().num_blocks,
                TransactionValidationError::ContainsExistingOutputPublicKey => {
                    &&& context@.tombstone_block > self.ledger.model().num_blocks
                    &&& forall|i: int|
                        0 <= i < context@.key_images.len()
                            ==> !self.ledger.model().key_images.contains(
                            #[trigger] context@.key_images[i],
                        )
                },
            },
            self.ledger.reliable() ==> {
                let expired = context@.tombstone_block <= self.ledger.model().num_blocks;
                let spent = exists|i: int|
                    0 <= i < context@.key_images.len()
                        && self.ledger.model().key_images.contains(
                        #[trigger] context@.key_images[i],
                    );
                let republished = exists|i: int|
                    0 <= i < context@.output_public_keys.len()
                        && self.ledger.model().output_public_keys.contains(
                        #[trigger] context@.output_public_keys[i],
                    );
                match r {
                    Ok(()) => !expired && !spent && !republished,
                    Err(TransactionValidationError::Ledger(_)) => false,
                    Err(TransactionValidationError::TombstoneBlockExceeded) => expired,
                    Err(TransactionValidationError::ContainsSpentKeyImage) => !expired && spent,
                    Err(TransactionValidationError::ContainsExistingOutputPublicKey) => !expired
                        && !spent && republished,
                }
            },
    {
        let ctx: &WellFormedTxContext = &*context;

        let current_block_index = match self.ledger.num_blocks() {
            Ok(n) => n,
            Err(e) => {
                return Err(TransactionValidationError::Ledger(e.describe()));
            },
        };

        // The transaction must not have expired.
        match validate_tombstone(current_block_index, ctx.tombstone_block) {
            Ok(()) => (),
            Err(e) => {
                return Err(e);
            },
        }

        // The key images must not have already been spent.
        let n_ki = ctx.key_images.len();
        let mut i: usize = 0;
        while i < n_ki
            invariant
                i <= n_ki,
                ctx@ == context@,
                n_ki == context@.key_images.len(),
                context@.tombstone_block > self.ledger.model().num_blocks,
                forall|k: int|
                    0 <= k < i ==> !self.ledger.model().key_images.contains(
                        #[trigger] context@.key_images[k],
                    ),
            decreases n_ki - i,
        {
            proof {
                assert(context@.key_images[i as int] == ctx.key_images@[i as int]@);
            }
            let spent = match self.ledger.contains_key_image(&ctx.key_images[i]) {
                Ok(b) => b,
                Err(_) => true,
            };
            if spent {
                // At least one key image was spent, or the ledger errored.
                return Err(TransactionValidationError::ContainsSpentKeyImage);
            }
            i += 1;
        }

        // The output public keys must not already appear in the ledger.
        let n_pk = ctx.output_public_keys.len();
        let mut j: usize = 0;
        while j < n_pk
            invariant
                j <= n_pk,
                ctx@ == context@,
                n_pk == context@.output_public_keys.len(),
                context@.tombstone_block > self.ledger.model().num_blocks,
                forall|k: int|
                    0 <= k < context@.key_images.len()
                        ==> !self.ledger.model().key_images.contains(
                        #[trigger] context@.key_images[k],
                    ),
                forall|k: int|
                    0 <= k < j ==> !self.ledger.model().output_public_keys.contains(
                        #[trigger] context@.output_public_keys[k],
                    ),
            decreases n_pk - j,
        {
            proof {
                assert(context@.output_public_keys[j as int] == ctx.output_public_keys@[j as int]@);
            }
            let republished = match self.ledger.contains_tx_out_public_key(
                &ctx.output_public_keys[j],
            ) {
                Ok(b) => b,
                Err(_) => true,
            };
            if republished {
                // At least one public key is already in the ledger, or the
                // ledger errored.
                return Err(TransactionValidationError::ContainsExistingOutputPublicKey);
            }
            j += 1;
        }

        // The transaction is safe to append.
        Ok(())
    }

    /// Combines a set of candidate transactions — each individually valid,
    /// but not checked for mutual conflict — into a bounded,
    /// deterministically-ordered list of transaction hashes that is safe to
    /// append as one block.
    ///
    /// Candidates are sorted by fee descending (ties broken by hash
    /// ascending) and then accepted greedily, skipping any candidate that
    /// shares a key image or output public key with one already accepted,
    /// until `max_elements` are accepted. The result is a function of the
    /// candidate multiset alone; mutual validity against the ledger is the
    /// caller's responsibility.
    pub fn combine(&self, tx_contexts: &[Arc<WellFormedTxContext>], max_elements: usize) -> (r:
        Vec<TxHash>)
        ensures
            hash_views(r@) == combine_spec(arc_views(tx_contexts@), max_elements as int),
            r@.len() <= max_elements,
            r@.len() <= tx_contexts@.len(),
    {
        combine_candidates(tx_contexts, max_elements)
    }
}

/// The combiner's algorithm, shared by every caller that assembles a block:
/// sort by the block-wide order, then accept greedily up to the bound,
/// skipping candidates that conflict with an accepted one.
pub(crate) fn combine_candidates(
    tx_contexts: &[Arc<WellFormedTxContext>],
    max_elements: usize,
) -> (r: Vec<TxHash>)
    ensures
        hash_views(r@) == combine_spec(arc_views(tx_contexts@), max_elements as int),
        r@.len() <= max_elements,
        r@.len() <= tx_contexts@.len(),
{
    // Borrow the candidates out of their shared handles.
    let mut refs: Vec<&WellFormedTxContext> = Vec::new();
    let n = tx_contexts.len();
    let mut idx: usize = 0;
    while idx < n
        invariant
            idx <= n,
            n == tx_contexts@.len(),
            refs@.len() == idx,
            views_of(refs@) == arc_views(tx_contexts@.take(idx as int)),
        decreases n - idx,
    {
        let a: &Arc<WellFormedTxContext> = &tx_contexts[idx];
        let c: &WellFormedTxContext = &**a;
        proof {
            assert(c@ == tx_contexts@[idx as int]@);
        }
        let ghost pre = refs@;
        refs.push(c);
        proof {
            assert(views_of(refs@)[idx as int] == c@);
            assert forall|k: int| 0 <= k < idx implies views_of(refs@)[k] == arc_views(
                tx_contexts@.take(idx + 1),
            )[k] by {
                assert(views_of(refs@)[k] == views_of(pre)[k]);
                assert(arc_views(tx_contexts@.take(idx as int))[k] == tx_contexts@[k]@);
                assert(arc_views(tx_contexts@.take(idx + 1))[k] == tx_contexts@[k]@);
            }
            assert(views_of(refs@) =~= arc_views(tx_contexts@.take(idx + 1)));
        }
        idx += 1;
    }
    proof {
        assert(tx_contexts@.take(n as int) =~= tx_contexts@);
    }

    // The block-wide order defines the arrangement within a block.
    let candidates = sort_contexts(&refs);
    let ghost sorted = views_of(candidates@);

    // Accept candidates that reuse no key image and no output public key.
    let mut allowed_hashes: Vec<TxHash> = Vec::new();
    let mut used_key_images: Vec<KeyImage> = Vec::new();
    let mut used_output_public_keys: Vec<CompressedRistrettoPublic> = Vec::new();
    let ghost mut acc: Seq<WellFormedTxContextView> = Seq::empty();
    let m = candidates.len();
    let mut i: usize = 0;
    proof {
        assert(sorted.skip(0) =~= sorted);
        assert(key_image_views(used_key_images@).to_set() =~= Set::<Seq<u8>>::empty());
        assert(public_key_views(used_output_public_keys@).to_set() =~= Set::<Seq<u8>>::empty());
        assert(hash_views(allowed_hashes@) =~= ctx_hashes(acc));
    }
    loop
        invariant
            i <= m,
            m == candidates@.len(),
            sorted == views_of(candidates@),
            acc.len() == allowed_hashes@.len(),
            acc.len() <= i,
            acc.len() <= max_elements,
            hash_views(allowed_hashes@) == ctx_hashes(acc),
            greedy_select(
                sorted.skip(i as int),
                max_elements as int,
                key_image_views(used_key_images@).to_set(),
                public_key_views(used_output_public_keys@).to_set(),
                acc,
            ) == greedy_select(
                sorted,
                max_elements as int,
                Set::empty(),
                Set::empty(),
                Seq::empty(),
            ),
        ensures
            acc == greedy_select(
                sorted,
                max_elements as int,
                Set::empty(),
                Set::empty(),
                Seq::empty(),
            ),
            acc.len() == allowed_hashes@.len(),
            acc.len() <= m,
            acc.len() <= max_elements,
            hash_views(allowed_hashes@) == ctx_hashes(acc),
        decreases m - i,
    {
        // Enforce the maximum block size.
        if allowed_hashes.len() >= max_elements {
            proof {
                let rest = sorted.skip(i as int);
                if rest.len() > 0 {
                    assert(greedy_select(
                        rest,
                        max_elements as int,
                        key_image_views(used_key_images@).to_set(),
                        public_key_views(used_output_public_keys@).to_set(),
                        acc,
                    ) == acc);
                }
            }
            break;
        }
        if i == m {
            proof {
                assert(sorted.skip(m as int).len() == 0);
            }
            break;
        }
        let candidate: &WellFormedTxContext = candidates[i];
        proof {
            assert(candidate@ == sorted.skip(i as int)[0]);
            assert(key_image_views(candidate.key_images@).to_set() =~= ki_set(candidate@));
            assert(public_key_views(candidate.output_public_keys@).to_set() =~= pk_set(
                candidate@,
            ));
        }

        // Reject a candidate that reuses an accepted key image.
        let reuses_key_image = shares_key_image(&candidate.key_images, &used_key_images);
        // Reject a candidate that reuses an accepted output public key.
        let reuses_output_key = shares_output_public_key(
            &candidate.output_public_keys,
            &used_output_public_keys,
        );

        if !reuses_key_image && !reuses_output_key {
            // The candidate joins the block.
            let ghost pre_hashes = allowed_hashes@;
            let ghost pre_acc = acc;
            allowed_hashes.push(*candidate.tx_hash());
            extend_key_images(&mut used_key_images, &candidate.key_images);
            extend_output_public_keys(
                &mut used_output_public_keys,
                &candidate.output_public_keys,
            );
            proof {
                acc = acc.push(candidate@);
                assert(hash_views(allowed_hashes@)[pre_acc.len() as int] == candidate@.tx_hash);
                assert forall|k: int| 0 <= k < pre_acc.len() implies hash_views(
                    allowed_hashes@,
                )[k] == ctx_hashes(acc)[k] by {
                    assert(hash_views(allowed_hashes@)[k] == hash_views(pre_hashes)[k]);
                    assert(ctx_hashes(acc)[k] == ctx_hashes(pre_acc)[k]);
                }
                assert(hash_views(allowed_hashes@) =~= ctx_hashes(acc));
                assert(sorted.skip(i as int).drop_first() =~= sorted.skip(i + 1));
            }
        } else {
            proof {
                assert(sorted.skip(i as int).drop_first() =~= sorted.skip(i + 1));
            }
        }
        i += 1;
    }
    proof {
        crate::tx_order::lemma_sort_tx_contexts_ensures(arc_views(tx_contexts@));
        assert(combine_spec(arc_views(tx_contexts@), max_elements as int) == ctx_hashes(acc));
    }
    allowed_hashes
}

/// The views of a sequence of key images.
pub open spec fn key_image_views(v: Seq<KeyImage>) -> Seq<Seq<u8>> {
    v.map_values(|k: KeyImage| k@)
}

/// The views of a sequence of output public keys.
pub open spec fn public_key_views(v: Seq<CompressedRistrettoPublic>) -> Seq<Seq<u8>> {
    v.map_values(|p: CompressedRistrettoPublic| p@)
}

/// Whether any key image of the candidate is already among the used ones.
fn shares_key_image(cand: &Vec<KeyImage>, used: &Vec<KeyImage>) -> (r: bool)
    ensures
        r == !key_image_views(cand@).to_set().disjoint(key_image_views(used@).to_set()),
{
    let ghost cv = key_image_views(cand@);
    let ghost uv = key_image_views(used@);
    let n = cand.len();
    let mut i: usize = 0;
    while i < n
        invariant
            i <= n,
            n == cand@.len(),
            cv == key_image_views(cand@),
            uv == key_image_views(used@),
            forall|k: int| 0 <= k < i ==> !uv.to_set().contains(#[trigger] cv[k]),
        decreases n - i,
    {
        let m = used.len();
        let mut j: usize = 0;
        while j < m
            invariant
                i < n,
                j <= m,
                n == cand@.len(),
                m == used@.len(),
                cv == key_image_views(cand@),
                uv == key_image_views(used@),
                forall|k: int| 0 <= k < j ==> uv[k] != cv[i as int],
            decreases m - j,
        {
            if cand[i] == used[j] {
                proof {
                    assert(cv[i as int] == uv[j as int]);
                    assert(cv.to_set().contains(cv[i as int]));
                    assert(uv.to_set().contains(cv[i as int]));
                }
                return true;
            }
            j += 1;
        }
        proof {
            assert(!uv.to_set().contains(cv[i as int])) by {
                if uv.contains(cv[i as int]) {
                    let k = choose|k: int| 0 <= k < uv.len() && uv[k] == cv[i as int];
                    assert(uv[k] != cv[i as int]);
                }
            }
        }
        i += 1;
    }
    proof {
        assert(cv.to_set().disjoint(uv.to_set())) by {
            assert forall|x: Seq<u8>|
                cv.to_set().contains(x) implies !uv.to_set().contains(x) by {
                let k = choose|k: int| 0 <= k < cv.len() && cv[k] == x;
                assert(!uv.to_set().contains(cv[k]));
            }
        }
    }
    false
}

/// Whether any output public key of the candidate is already among the used
/// ones.
fn shares_output_public_key(
    cand: &Vec<CompressedRistrettoPublic>,
    used: &Vec<CompressedRistrettoPublic>,
) -> (r: bool)
    ensures
        r == !public_key_views(cand@).to_set().disjoint(public_key_views(used@).to_set()),
{
    let ghost cv = public_key_views(cand@);
    let ghost uv = public_key_views(used@);
    let n = cand.len();
    let mut i: usize = 0;
    while i < n
        invariant
            i <= n,
            n == cand@.len(),
            cv == public_key_views(cand@),
            uv == public_key_views(used@),
            forall|k: int| 0 <= k < i ==> !uv.to_set().contains(#[trigger] cv[k]),
        decreases n - i,
    {
        let m = used.len();
        let mut j: usize = 0;
        while j < m
            invariant
                i < n,
                j <= m,
                n == cand@.len(),
                m == used@.len(),
                cv == public_key_views(cand@),
                uv == public_key_views(used@),
                forall|k: int| 0 <= k < j ==> uv[k] != cv[i as int],
            decreases m - j,
        {
            if cand[i] == used[j] {
                proof {
                    assert(cv[i as int] == uv[j as int]);
                    assert(cv.to_set().contains(cv[i as int]));
                    assert(uv.to_set().contains(cv[i as int]));
                }
                return true;
            }
            j += 1;
        }
        proof {
            assert(!uv.to_set().contains(cv[i as int])) by {
                if uv.contains(cv[i as int]) {
                    let k = choose|k: int| 0 <= k < uv.len() && uv[k] == cv[i as int];
                    assert(uv[k] != cv[i as int]);
                }
            }
        }
        i += 1;
    }
    proof {
        assert(cv.to_set().disjoint(uv.to_set())) by {
            assert forall|x: Seq<u8>|
                cv.to_set().contains(x) implies !uv.to_set().contains(x) by {
                let k = choose|k: int| 0 <= k < cv.len() && cv[k] == x;
                assert(!uv.to_set().contains(cv[k]));
            }
        }
    }
    false
}

/// All key images spent by a run of accepted contexts.
pub open spec fn used_key_images_of(acc: Seq<WellFormedTxContextView>) -> Set<Seq<u8>>
    decreases acc.len(),
{
    if acc.len() == 0 {
        Set::empty()
    } else {
        used_key_images_of(acc.drop_last()) + ki_set(acc.last())
    }
}

/// All output public keys published by a run of accepted contexts.
pub open spec fn used_output_public_keys_of(acc: Seq<WellFormedTxContextView>) -> Set<Seq<u8>>
    decreases acc.len(),
{
    if acc.len() == 0 {
        Set::empty()
    } else {
        used_output_public_keys_of(acc.drop_last()) + pk_set(acc.last())
    }
}

/// Every used key image belongs to some accepted context.
proof fn lemma_used_key_images_extract(acc: Seq<WellFormedTxContextView>, x: Seq<u8>)
    requires
        used_key_images_of(acc).contains(x),
    ensures
        exists|p: int| 0 <= p < acc.len() && ki_set(#[trigger] acc[p]).contains(x),
    decreases acc.len(),
{
    if used_key_images_of(acc.drop_last()).contains(x) {
        lemma_used_key_images_extract(acc.drop_last(), x);
        let p = choose|p: int|
            0 <= p < acc.drop_last().len() && ki_set(#[trigger] acc.drop_last()[p]).contains(x);
        assert(ki_set(acc[p]).contains(x));
    } else {
        assert(ki_set(acc[acc.len() - 1]).contains(x));
    }
}

/// Every used output public key belongs to some accepted context.
proof fn lemma_used_output_public_keys_extract(acc: Seq<WellFormedTxContextView>, x: Seq<u8>)
    requires
        used_output_public_keys_of(acc).contains(x),
    ensures
        exists|p: int| 0 <= p < acc.len() && pk_set(#[trigger] acc[p]).contains(x),
    decreases acc.len(),
{
    if used_output_public_keys_of(acc.drop_last()).contains(x) {
        lemma_used_output_public_keys_extract(acc.drop_last(), x);
        let p = choose|p: int|
            0 <= p < acc.drop_last().len() && pk_set(#[trigger] acc.drop_last()[p]).contains(x);
        assert(pk_set(acc[p]).contains(x));
    } else {
        assert(pk_set(acc[acc.len() - 1]).contains(x));
    }
}

/// The selection extends its accumulator in place, never beyond the bound,
/// never beyond the candidates, and only with candidates.
proof fn lemma_greedy_select_basics(
    s: Seq<WellFormedTxContextView>,
    max: int,
    used_ki: Set<Seq<u8>>,
    used_pk: Set<Seq<u8>>,
    acc: Seq<WellFormedTxContextView>,
)
    ensures
        greedy_select(s, max, used_ki, used_pk, acc).len() >= acc.len(),
        greedy_select(s, max, used_ki, used_pk, acc).len() <= acc.len() + s.len(),
        acc.len() <= max ==> greedy_select(s, max, used_ki, used_pk, acc).len() <= max,
        forall|k: int|
            0 <= k < acc.len() ==> greedy_select(s, max, used_ki, used_pk, acc)[k] == acc[k],
        forall|k: int|
            acc.len() <= k < greedy_select(s, max, used_ki, used_pk, acc).len() ==> s.contains(
                greedy_select(s, max, used_ki, used_pk, acc)[k],
            ),
    decreases s.len(),
{
    let r = greedy_select(s, max, used_ki, used_pk, acc);
    if s.len() == 0 || acc.len() >= max {
    } else {
        let rest = s.drop_first();
        if ki_set(s[0]).disjoint(used_ki) && pk_set(s[0]).disjoint(used_pk) {
            let acc1 = acc.push(s[0]);
            lemma_greedy_select_basics(
                rest,
                max,
                used_ki + ki_set(s[0]),
                used_pk + pk_set(s[0]),
                acc1,
            );
            assert forall|k: int| 0 <= k < acc.len() implies r[k] == acc[k] by {
                assert(greedy_select(
                    rest,
                    max,
                    used_ki + ki_set(s[0]),
                    used_pk + pk_set(s[0]),
                    acc1,
                )[k] == acc1[k]);
            }
            assert forall|k: int| acc.len() <= k < r.len() implies s.contains(r[k]) by {
                if k == acc.len() {
                    assert(r[k] == acc1[k]);
                    assert(acc1[k] == s[0]);
                    assert(s.contains(s[0]));
                } else {
                    assert(rest.contains(r[k]));
                    let j = choose|j: int| 0 <= j < rest.len() && rest[j] == r[k];
                    assert(s[j + 1] == r[k]);
                }
            }
        } else {
            lemma_greedy_select_basics(rest, max, used_ki, used_pk, acc);
            assert forall|k: int| 0 <= k < acc.len() implies r[k] == acc[k] by {
                assert(greedy_select(rest, max, used_ki, used_pk, acc)[k] == acc[k]);
            }
            assert forall|k: int| acc.len() <= k < r.len() implies s.contains(r[k]) by {
                assert(rest.contains(r[k]));
                let j = choose|j: int| 0 <= j < rest.len() && rest[j] == r[k];
                assert(s[j + 1] == r[k]);
            }
        }
    }
}

/// As long as the accumulated contexts are mutually conflict-free and their
/// conflict sets are covered by the used sets, everything the selection emits
/// is mutually conflict-free.
proof fn lemma_greedy_select_disjoint(
    s: Seq<WellFormedTxContextView>,
    max: int,
    used_ki: Set<Seq<u8>>,
    used_pk: Set<Seq<u8>>,
    acc: Seq<WellFormedTxContextView>,
)
    requires
        forall|p: int, q: int|
            0 <= p < q < acc.len() ==> !conflicts(#[trigger] acc[p], #[trigger] acc[q]),
        forall|p: int| 0 <= p < acc.len() ==> ki_set(#[trigger] acc[p]).subset_of(used_ki),
        forall|p: int| 0 <= p < acc.len() ==> pk_set(#[trigger] acc[p]).subset_of(used_pk),
    ensures
        forall|p: int, q: int|
            0 <= p < q < greedy_select(s, max, used_ki, used_pk, acc).len() ==> !conflicts(
                #[trigger] greedy_select(s, max, used_ki, used_pk, acc)[p],
                #[trigger] greedy_select(s, max, used_ki, used_pk, acc)[q],
            ),
    decreases s.len(),
{
    if s.len() == 0 || acc.len() >= max {
    } else {
        let rest = s.drop_first();
        if ki_set(s[0]).disjoint(used_ki) && pk_set(s[0]).disjoint(used_pk) {
            let acc1 = acc.push(s[0]);
            assert forall|p: int, q: int| 0 <= p < q < acc1.len() implies !conflicts(
                #[trigger] acc1[p],
                #[trigger] acc1[q],
            ) by {
                if q == acc.len() {
                    assert(acc1[q] == s[0]);
                    assert(!conflicts(acc[p], s[0])) by {
                        if !ki_set(acc[p]).disjoint(ki_set(s[0])) {
                            let x = choose|x: Seq<u8>|
                                ki_set(acc[p]).contains(x) && ki_set(s[0]).contains(x);
                            assert(used_ki.contains(x));
                            assert(!ki_set(s[0]).disjoint(used_ki));
                        }
                        if !pk_set(acc[p]).disjoint(pk_set(s[0])) {
                            let x = choose|x: Seq<u8>|
                                pk_set(acc[p]).contains(x) && pk_set(s[0]).contains(x);
                            assert(used_pk.contains(x));
                            assert(!pk_set(s[0]).disjoint(used_pk));
                        }
                    }
                }
            }
            lemma_greedy_select_disjoint(
                rest,
                max,
                used_ki + ki_set(s[0]),
                used_pk + pk_set(s[0]),
                acc1,
            );
            let r = greedy_select(s, max, used_ki, used_pk, acc);
            assert forall|p: int, q: int| 0 <= p < q < r.len() implies !conflicts(
                #[trigger] r[p],
                #[trigger] r[q],
            ) by {
                let inner = greedy_select(
                    rest,
                    max,
                    used_ki + ki_set(s[0]),
                    used_pk + pk_set(s[0]),
                    acc1,
                );
                assert(!conflicts(inner[p], inner[q]));
            }
        } else {
            lemma_greedy_select_disjoint(rest, max, used_ki, used_pk, acc);
            let r = greedy_select(s, max, used_ki, used_pk, acc);
            assert forall|p: int, q: int| 0 <= p < q < r.len() implies !conflicts(
                #[trigger] r[p],
                #[trigger] r[q],
            ) by {
                let inner = greedy_select(rest, max, used_ki, used_pk, acc);
                assert(!conflicts(inner[p], inner[q]));
            }
        }
    }
}

/// Greedy selection over a sorted run skips a candidate only for the block
/// cap or for a conflict with an accepted context of no smaller fee.
proof fn lemma_greedy_select_fee_monotone(
    s: Seq<WellFormedTxContextView>,
    max: int,
    used_ki: Set<Seq<u8>>,
    used_pk: Set<Seq<u8>>,
    acc: Seq<WellFormedTxContextView>,
)
    requires
        sorted_by(s, tx_order()),
        used_ki == used_key_images_of(acc),
        used_pk == used_output_public_keys_of(acc),
        forall|p: int, k: int|
            0 <= p < acc.len() && 0 <= k < s.len() ==> tx_context_le(
                #[trigger] acc[p],
                #[trigger] s[k],
            ),
        acc.len() <= max,
    ensures
        forall|k: int|
            0 <= k < s.len() && !greedy_select(s, max, used_ki, used_pk, acc).contains(
                #[trigger] s[k],
            ) ==> greedy_select(s, max, used_ki, used_pk, acc).len() == max || exists|p: int|
                0 <= p < greedy_select(s, max, used_ki, used_pk, acc).len() && conflicts(
                    #[trigger] greedy_select(s, max, used_ki, used_pk, acc)[p],
                    s[k],
                ) && greedy_select(s, max, used_ki, used_pk, acc)[p].fee >= s[k].fee,
    decreases s.len(),
{
    let r = greedy_select(s, max, used_ki, used_pk, acc);
    if s.len() == 0 {
    } else if acc.len() >= max {
        assert(r.len() == max);
    } else {
        let rest = s.drop_first();
        assert forall|p: int, q: int| 0 <= p < q < rest.len() implies #[trigger] tx_order()(
            rest[p],
            rest[q],
        ) by {
            assert(rest[p] == s[p + 1] && rest[q] == s[q + 1]);
            assert(tx_order()(s[p + 1], s[q + 1]));
        }
        assert(sorted_by(rest, tx_order()));
        if ki_set(s[0]).disjoint(used_ki) && pk_set(s[0]).disjoint(used_pk) {
            let acc1 = acc.push(s[0]);
            assert(acc1.drop_last() =~= acc);
            assert(used_key_images_of(acc1) == used_ki + ki_set(s[0]));
            assert(used_output_public_keys_of(acc1) == used_pk + pk_set(s[0]));
            assert forall|p: int, k: int|
                0 <= p < acc1.len() && 0 <= k < rest.len() implies tx_context_le(
                #[trigger] acc1[p],
                #[trigger] rest[k],
            ) by {
                assert(rest[k] == s[k + 1]);
                if p < acc.len() {
                    assert(tx_context_le(acc[p], s[k + 1]));
                } else {
                    assert(acc1[p] == s[0]);
                    assert(tx_order()(s[0], s[k + 1]));
                }
            }
            lemma_greedy_select_fee_monotone(
                rest,
                max,
                used_ki + ki_set(s[0]),
                used_pk + pk_set(s[0]),
                acc1,
            );
            lemma_greedy_select_basics(
                rest,
                max,
                used_ki + ki_set(s[0]),
                used_pk + pk_set(s[0]),
                acc1,
            );
            assert forall|k: int| 0 <= k < s.len() && !r.contains(#[trigger] s[k]) implies r.len()
                == max || exists|p: int|
                0 <= p < r.len() && conflicts(#[trigger] r[p], s[k]) && r[p].fee >= s[k].fee by {
                if k == 0 {
                    assert(r[acc.len() as int] == acc1[acc.len() as int]);
                    assert(acc1[acc.len() as int] == s[0]);
                    assert(r.contains(s[0]));
                } else {
                    assert(rest[k - 1] == s[k]);
                }
            }
        } else {
            lemma_greedy_select_fee_monotone(rest, max, used_ki, used_pk, acc);
            lemma_greedy_select_basics(rest, max, used_ki, used_pk, acc);
            // the skipped head conflicts with an accepted context of no
            // smaller fee
            assert forall|k: int| 0 <= k < s.len() && !r.contains(#[trigger] s[k]) implies r.len()
                == max || exists|p: int|
                0 <= p < r.len() && conflicts(#[trigger] r[p], s[k]) && r[p].fee >= s[k].fee by {
                if k == 0 {
                    if !ki_set(s[0]).disjoint(used_ki) {
                        let x = choose|x: Seq<u8>|
                            ki_set(s[0]).contains(x) && used_ki.contains(x);
                        lemma_used_key_images_extract(acc, x);
                        let p = choose|p: int|
                            0 <= p < acc.len() && ki_set(#[trigger] acc[p]).contains(x);
                        assert(!ki_set(acc[p]).disjoint(ki_set(s[0])));
                        assert(r[p] == acc[p]);
                        assert(tx_context_le(acc[p], s[0]));
                        assert(conflicts(r[p], s[0]) && r[p].fee >= s[0].fee);
                    } else {
                        let x = choose|x: Seq<u8>|
                            pk_set(s[0]).contains(x) && used_pk.contains(x);
                        lemma_used_output_public_keys_extract(acc, x);
                        let p = choose|p: int|
                            0 <= p < acc.len() && pk_set(#[trigger] acc[p]).contains(x);
                        assert(!pk_set(acc[p]).disjoint(pk_set(s[0])));
                        assert(r[p] == acc[p]);
                        assert(tx_context_le(acc[p], s[0]));
                        assert(conflicts(r[p], s[0]) && r[p].fee >= s[0].fee);
                    }
                } else {
                    assert(rest[k - 1] == s[k]);
                }
            }
        }
    }
}

/// The combiner accepts at most `max` contexts and never more than it was
/// given, and emits one hash per accepted context.
pub proof fn lemma_combine_bounded(s: Seq<WellFormedTxContextView>, max: int)
    requires
        max >= 0,
    ensures
        combine_ctxs(s, max).len() <= max,
        combine_ctxs(s, max).len() <= s.len(),
        combine_spec(s, max).len() == combine_ctxs(s, max).len(),
        forall|k: int|
            0 <= k < combine_ctxs(s, max).len() ==> combine_spec(s, max)[k] == (
            #[trigger] combine_ctxs(s, max)[k]).tx_hash,
{
    crate::tx_order::lemma_sort_tx_contexts_ensures(s);
    lemma_greedy_select_basics(
        sort_tx_contexts(s),
        max,
        Set::empty(),
        Set::empty(),
        Seq::empty(),
    );
}

/// Every context the combiner accepts was among the candidates.
pub proof fn lemma_combine_membership(s: Seq<WellFormedTxContextView>, max: int)
    ensures
        forall|k: int|
            0 <= k < combine_ctxs(s, max).len() ==> s.contains(#[trigger] combine_ctxs(s, max)[k]),
{
    broadcast use vstd::seq_lib::group_to_multiset_ensures;
    broadcast use vstd::multiset::group_multiset_axioms;

    crate::tx_order::lemma_sort_tx_contexts_ensures(s);
    let sorted = sort_tx_contexts(s);
    lemma_greedy_select_basics(sorted, max, Set::empty(), Set::empty(), Seq::empty());
    assert forall|k: int| 0 <= k < combine_ctxs(s, max).len() implies s.contains(
        #[trigger] combine_ctxs(s, max)[k],
    ) by {
        assert(sorted.contains(combine_ctxs(s, max)[k]));
        assert(sorted.to_multiset().count(combine_ctxs(s, max)[k]) > 0);
        assert(s.to_multiset().count(combine_ctxs(s, max)[k]) > 0);
    }
}

/// Intra-block disjointness: no two contexts the combiner accepts share a key
/// image or an output public key.
pub proof fn lemma_combine_disjoint(s: Seq<WellFormedTxContextView>, max: int)
    ensures
        forall|p: int, q: int|
            0 <= p < q < combine_ctxs(s, max).len() ==> !conflicts(
                #[trigger] combine_ctxs(s, max)[p],
                #[trigger] combine_ctxs(s, max)[q],
            ),
{
    lemma_greedy_select_disjoint(
        sort_tx_contexts(s),
        max,
        Set::empty(),
        Set::empty(),
        Seq::empty(),
    );
}

/// Determinism of the combiner: the emitted hashes are a function of the
/// candidate multiset alone, provided no two distinct candidates share a sort
/// key (fee and hash) — the order's one blind spot.
pub proof fn lemma_combine_permutation_invariant(
    s1: Seq<WellFormedTxContextView>,
    s2: Seq<WellFormedTxContextView>,
    max: int,
)
    requires
        s1.to_multiset() == s2.to_multiset(),
        crate::tx_order::key_injective(s1),
    ensures
        combine_spec(s1, max) == combine_spec(s2, max),
        combine_ctxs(s1, max) == combine_ctxs(s2, max),
{
    crate::tx_order::lemma_sort_permutation_invariant(s1, s2);
}

/// Fee preference: the combiner skips a candidate only when the block is
/// full or an accepted context of no smaller fee conflicts with it — a
/// higher-fee transaction is never displaced by a lower-fee one.
pub proof fn lemma_combine_fee_monotone(s: Seq<WellFormedTxContextView>, max: int)
    requires
        max >= 0,
    ensures
        forall|k: int|
            0 <= k < s.len() && !combine_ctxs(s, max).contains(#[trigger] s[k]) ==> combine_ctxs(
                s,
                max,
            ).len() == max || exists|p: int|
                0 <= p < combine_ctxs(s, max).len() && conflicts(
                    #[trigger] combine_ctxs(s, max)[p],
                    s[k],
                ) && combine_ctxs(s, max)[p].fee >= s[k].fee,
{
    broadcast use vstd::seq_lib::group_to_multiset_ensures;
    broadcast use vstd::multiset::group_multiset_axioms;

    crate::tx_order::lemma_sort_tx_contexts_ensures(s);
    let sorted = sort_tx_contexts(s);
    lemma_greedy_select_fee_monotone(sorted, max, Set::empty(), Set::empty(), Seq::empty());
    assert forall|k: int|
        0 <= k < s.len() && !combine_ctxs(s, max).contains(#[trigger] s[k]) implies combine_ctxs(
        s,
        max,
    ).len() == max || exists|p: int|
        0 <= p < combine_ctxs(s, max).len() && conflicts(#[trigger] combine_ctxs(s, max)[p], s[k])
            && combine_ctxs(s, max)[p].fee >= s[k].fee by {
        assert(s.to_multiset().count(s[k]) > 0);
        assert(sorted.to_multiset().count(s[k]) > 0);
        assert(sorted.contains(s[k]));
        let j = choose|j: int| 0 <= j < sorted.len() && sorted[j] == s[k];
        assert(!combine_ctxs(s, max).contains(sorted[j]));
    }
}

/// Adds the candidate's key images to the used set.
fn extend_key_images(used: &mut Vec<KeyImage>, cand: &Vec<KeyImage>)
    ensures
        key_image_views(final(used)@).to_set() == key_image_views(old(used)@).to_set()
            + key_image_views(cand@).to_set(),
{
    let n = cand.len();
    let mut i: usize = 0;
    while i < n
        invariant
            i <= n,
            n == cand@.len(),
            key_image_views(used@).to_set() == key_image_views(old(used)@).to_set()
                + key_image_views(cand@.take(i as int)).to_set(),
        decreases n - i,
    {
        let ghost pre = used@;
        used.push(cand[i]);
        proof {
            let x = cand@[i as int]@;
            assert(key_image_views(used@) =~= key_image_views(pre).push(x));
            lemma_push_to_set(key_image_views(pre), x);
            assert(key_image_views(cand@.take(i + 1)) =~= key_image_views(
                cand@.take(i as int),
            ).push(x));
            lemma_push_to_set(key_image_views(cand@.take(i as int)), x);
            assert(key_image_views(used@).to_set() =~= key_image_views(old(used)@).to_set()
                + key_image_views(cand@.take(i + 1)).to_set());
        }
        i += 1;
    }
    proof {
        assert(cand@.take(n as int) =~= cand@);
    }
}

/// Adds the candidate's output public keys to the used set.
fn extend_output_public_keys(
    used: &mut Vec<CompressedRistrettoPublic>,
    cand: &Vec<CompressedRistrettoPublic>,
)
    ensures
        public_key_views(final(used)@).to_set() == public_key_views(old(used)@).to_set()
            + public_key_views(cand@).to_set(),
{
    let n = cand.len();
    let mut i: usize = 0;
    while i < n
        invariant
            i <= n,
            n == cand@.len(),
            public_key_views(used@).to_set() == public_key_views(old(used)@).to_set()
                + public_key_views(cand@.take(i as int)).to_set(),
        decreases n - i,
    {
        let ghost pre = used@;
        used.push(cand[i]);
        proof {
            let x = cand@[i as int]@;
            assert(public_key_views(used@) =~= public_key_views(pre).push(x));
            lemma_push_to_set(public_key_views(pre), x);
            assert(public_key_views(cand@.take(i + 1)) =~= public_key_views(
                cand@.take(i as int),
            ).push(x));
            lemma_push_to_set(public_key_views(cand@.take(i as int)), x);
            assert(public_key_views(used@).to_set() =~= public_key_views(old(used)@).to_set()
                + public_key_views(cand@.take(i + 1)).to_set());
        }
        i += 1;
    }
    proof {
        assert(cand@.take(n as int) =~= cand@);
    }
}

} // verus!
