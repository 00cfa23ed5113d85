//! The total order on well-formed tx contexts used by the combiner.
//!
//! Within a block, candidates are ordered by fee descending, ties broken by
//! transaction hash ascending (byte-lexicographic). This order is the sole
//! determinism anchor across replicas: the combiner sorts by it before
//! selecting, so two honest nodes given the same candidate multiset emit the
//! same block.

use vstd::prelude::*;
use vstd::relations::sorted_by;

use crate::tx_types::{TxHash, WellFormedTxContext, WellFormedTxContextView};

verus! {

/// Byte-lexicographic "less than or equal" on byte strings; a proper prefix
/// precedes its extensions.
pub open spec fn lex_le(a: Seq<u8>, b: Seq<u8>) -> bool
    decreases a.len(),
{
    if a.len() == 0 {
        true
    } else if b.len() == 0 {
        false
    } else if a[0] < b[0] {
        true
    } else if a[0] > b[0] {
        false
    } else {
        lex_le(a.drop_first(), b.drop_first())
    }
}

/// Any two byte strings are lexicographically comparable.
pub proof fn lemma_lex_le_total(a: Seq<u8>, b: Seq<u8>)
    ensures
        lex_le(a, b) || lex_le(b, a),
    decreases a.len(),
{
    if a.len() == 0 || b.len() == 0 {
    } else if a[0] == b[0] {
        lemma_lex_le_total(a.drop_first(), b.drop_first());
    }
}

/// Byte strings that precede each other are equal.
pub proof fn lemma_lex_le_antisymmetric(a: Seq<u8>, b: Seq<u8>)
    requires
        lex_le(a, b),
        lex_le(b, a),
    ensures
        a == b,
    decreases a.len(),
{
    if a.len() == 0 {
        assert(b.len() == 0);
        assert(a =~= b);
    } else {
        assert(a[0] == b[0]);
        lemma_lex_le_antisymmetric(a.drop_first(), b.drop_first());
        assert(a =~= seq![a[0]] + a.drop_first());
        assert(b =~= seq![b[0]] + b.drop_first());
    }
}

/// Lexicographic order is transitive.
pub proof fn lemma_lex_le_transitive(a: Seq<u8>, b: Seq<u8>, c: Seq<u8>)
    requires
        lex_le(a, b),
        lex_le(b, c),
    ensures
        lex_le(a, c),
    decreases a.len(),
{
    if a.len() == 0 || b.len() == 0 || c.len() == 0 {
    } else if a[0] == b[0] && b[0] == c[0] {
        lemma_lex_le_transitive(a.drop_first(), b.drop_first(), c.drop_first());
    }
}

/// The block-wide order on well-formed tx contexts: fee descending, then
/// transaction hash ascending.
pub open spec fn tx_context_le(a: WellFormedTxContextView, b: WellFormedTxContextView) -> bool {
    a.fee > b.fee || (a.fee == b.fee && lex_le(a.tx_hash, b.tx_hash))
}

/// Two contexts related both ways agree on the sort key (fee and hash); the
/// order never distinguishes beyond it.
pub proof fn lemma_tx_context_le_key_antisymmetric(
    a: WellFormedTxContextView,
    b: WellFormedTxContextView,
)
    requires
        tx_context_le(a, b),
        tx_context_le(b, a),
    ensures
        a.fee == b.fee,
        a.tx_hash == b.tx_hash,
{
    lemma_lex_le_antisymmetric(a.tx_hash, b.tx_hash);
}

/// The context order is total.
pub proof fn lemma_tx_context_le_total(a: WellFormedTxContextView, b: WellFormedTxContextView)
    ensures
        tx_context_le(a, b) || tx_context_le(b, a),
{
    lemma_lex_le_total(a.tx_hash, b.tx_hash);
}

/// The context order is transitive.
pub proof fn lemma_tx_context_le_transitive(
    a: WellFormedTxContextView,
    b: WellFormedTxContextView,
    c: WellFormedTxContextView,
)
    requires
        tx_context_le(a, b),
        tx_context_le(b, c),
    ensures
        tx_context_le(a, c),
{
    if a.fee == b.fee && b.fee == c.fee {
        lemma_lex_le_transitive(a.tx_hash, b.tx_hash, c.tx_hash);
    }
}

/// Equal prefixes do not influence the comparison of what follows them.
proof fn lemma_lex_le_common_prefix(a: Seq<u8>, b: Seq<u8>, i: int)
    requires
        0 <= i <= a.len(),
        i <= b.len(),
        forall|k: int| 0 <= k < i ==> a[k] == b[k],
    ensures
        lex_le(a, b) == lex_le(a.skip(i), b.skip(i)),
    decreases i,
{
    if i > 0 {
        assert(a.len() > 0 && b.len() > 0 && a[0] == b[0]);
        lemma_lex_le_common_prefix(a.drop_first(), b.drop_first(), i - 1);
        assert(a.drop_first().skip(i - 1) =~= a.skip(i));
        assert(b.drop_first().skip(i - 1) =~= b.skip(i));
    } else {
        assert(a.skip(0) =~= a);
        assert(b.skip(0) =~= b);
    }
}

/// Byte-lexicographic comparison of two transaction hashes.
fn tx_hash_lex_le(a: &TxHash, b: &TxHash) -> (r: bool)
    ensures
        r == lex_le(a@, b@),
{
    let mut i: usize = 0;
    while i < 32
        invariant
            0 <= i <= 32,
            forall|k: int| 0 <= k < i ==> a@[k] == b@[k],
        decreases 32 - i,
    {
        proof {
            lemma_lex_le_common_prefix(a@, b@, i as int);
        }
        if a.0[i] < b.0[i] {
            proof {
                assert(a@.skip(i as int)[0] == a@[i as int]);
                assert(b@.skip(i as int)[0] == b@[i as int]);
            }
            return true;
        }
        if a.0[i] > b.0[i] {
            proof {
                assert(a@.skip(i as int)[0] == a@[i as int]);
                assert(b@.skip(i as int)[0] == b@[i as int]);
            }
            return false;
        }
        i += 1;
    }
    proof {
        lemma_lex_le_common_prefix(a@, b@, 32);
        assert(a@.skip(32).len() == 0);
    }
    true
}

/// Decides the block-wide order between two well-formed tx contexts.
pub fn tx_context_order_le(a: &WellFormedTxContext, b: &WellFormedTxContext) -> (r: bool)
    ensures
        r == tx_context_le(a@, b@),
{
    if a.fee > b.fee {
        true
    } else if a.fee < b.fee {
        false
    } else {
        tx_hash_lex_le(&a.tx_hash, &b.tx_hash)
    }
}

/// The context order as a relation value, for `sorted_by`.
pub open spec fn tx_order() -> spec_fn(WellFormedTxContextView, WellFormedTxContextView) -> bool {
    |a: WellFormedTxContextView, b: WellFormedTxContextView| tx_context_le(a, b)
}

/// The views of a sequence of borrowed contexts.
pub open spec fn views_of(s: Seq<&WellFormedTxContext>) -> Seq<WellFormedTxContextView> {
    s.map_values(|x: &WellFormedTxContext| x@)
}

/// Stable insertion of a context into a sorted run: the new context lands in
/// front of the first entry it precedes.
pub open spec fn insert_sorted(
    c: WellFormedTxContextView,
    s: Seq<WellFormedTxContextView>,
) -> Seq<WellFormedTxContextView>
    decreases s.len(),
{
    if s.len() == 0 {
        seq![c]
    } else if tx_context_le(c, s[0]) {
        seq![c] + s
    } else {
        seq![s[0]] + insert_sorted(c, s.drop_first())
    }
}

/// Insertion sort by the block-wide order; the canonical arrangement the
/// combiner works from.
pub open spec fn sort_tx_contexts(s: Seq<WellFormedTxContextView>) -> Seq<WellFormedTxContextView>
    decreases s.len(),
{
    if s.len() == 0 {
        Seq::empty()
    } else {
        insert_sorted(s.last(), sort_tx_contexts(s.drop_last()))
    }
}

/// No two distinct entries share a sort key (fee and hash). The combiner's
/// permutation invariance rests on this: the order distinguishes any two
/// candidates that differ at all.
pub open spec fn key_injective(s: Seq<WellFormedTxContextView>) -> bool {
    forall|i: int, j: int|
        #![trigger s[i], s[j]]
        0 <= i < s.len() && 0 <= j < s.len() && s[i].fee == s[j].fee && s[i].tx_hash == s[j].tx_hash
            ==> s[i] == s[j]
}

/// Inserting into a sorted run keeps it sorted and adds exactly the new entry.
pub proof fn lemma_insert_sorted_ensures(c: WellFormedTxContextView, s: Seq<WellFormedTxContextView>)
    requires
        sorted_by(s, tx_order()),
    ensures
        sorted_by(insert_sorted(c, s), tx_order()),
        insert_sorted(c, s).to_multiset() == s.to_multiset().insert(c),
        insert_sorted(c, s).len() == s.len() + 1,
    decreases s.len(),
{
    broadcast use vstd::seq_lib::group_to_multiset_ensures;
    broadcast use vstd::multiset::group_multiset_axioms;

    let r = insert_sorted(c, s);
    if s.len() == 0 {
        assert(r =~= Seq::empty().insert(0, c));
        vstd::seq_lib::to_multiset_insert(Seq::<WellFormedTxContextView>::empty(), 0, c);
        assert(Seq::<WellFormedTxContextView>::empty().to_multiset() =~= s.to_multiset());
    } else if tx_context_le(c, s[0]) {
        assert(r =~= s.insert(0, c));
        vstd::seq_lib::to_multiset_insert(s, 0, c);
        assert forall|i: int, j: int| 0 <= i < j < r.len() implies #[trigger] tx_order()(
            r[i],
            r[j],
        ) by {
            if i == 0 {
                if j > 1 {
                    assert(tx_order()(s[0], s[j - 1]));
                    lemma_tx_context_le_transitive(c, s[0], s[j - 1]);
                }
            } else {
                assert(tx_order()(s[i - 1], s[j - 1]));
            }
        }
    } else {
        let rest = s.drop_first();
        assert forall|p: int, q: int| 0 <= p < q < rest.len() implies #[trigger] tx_order()(
            rest[p],
            rest[q],
        ) by {
            assert(rest[p] == s[p + 1]);
            assert(rest[q] == s[q + 1]);
            assert(tx_order()(s[p + 1], s[q + 1]));
        }
        assert(sorted_by(rest, tx_order()));
        lemma_insert_sorted_ensures(c, rest);
        let inner = insert_sorted(c, rest);
        assert(r =~= (seq![s[0]] + inner));
        assert(r =~= inner.insert(0, s[0]));
        vstd::seq_lib::to_multiset_insert(inner, 0, s[0]);
        // rest.to_multiset().insert(c).insert(s[0]) == s.to_multiset().insert(c)
        assert(s =~= rest.insert(0, s[0]));
        vstd::seq_lib::to_multiset_insert(rest, 0, s[0]);
        assert(rest.to_multiset().insert(c).insert(s[0]) =~= rest.to_multiset().insert(
            s[0],
        ).insert(c));
        // sortedness: s[0] precedes everything in `inner`
        lemma_tx_context_le_total(s[0], c);
        assert forall|i: int, j: int| 0 <= i < j < r.len() implies #[trigger] tx_order()(
            r[i],
            r[j],
        ) by {
            if i == 0 {
                let x = inner[j - 1];
                assert(inner.to_multiset().count(x) > 0);
                if x == c {
                    assert(tx_context_le(s[0], c));
                } else {
                    assert(rest.to_multiset().insert(c).count(x) > 0);
                    assert(rest.to_multiset().count(x) > 0);
                    assert(rest.contains(x));
                    let k = choose|k: int| 0 <= k < rest.len() && rest[k] == x;
                    assert(tx_order()(s[0], s[k + 1]));
                    assert(tx_context_le(s[0], s[k + 1]));
                }
            } else {
                assert(tx_order()(inner[i - 1], inner[j - 1]));
            }
        }
    }
}

/// The sorted arrangement of a candidate sequence: ordered by the block-wide
/// order and made of exactly the input entries.
pub proof fn lemma_sort_tx_contexts_ensures(s: Seq<WellFormedTxContextView>)
    ensures
        sorted_by(sort_tx_contexts(s), tx_order()),
        sort_tx_contexts(s).to_multiset() == s.to_multiset(),
        sort_tx_contexts(s).len() == s.len(),
    decreases s.len(),
{
    broadcast use vstd::seq_lib::group_to_multiset_ensures;
    broadcast use vstd::multiset::group_multiset_axioms;

    if s.len() == 0 {
        assert(sorted_by(sort_tx_contexts(s), tx_order()));
    } else {
        let front = s.drop_last();
        lemma_sort_tx_contexts_ensures(front);
        lemma_insert_sorted_ensures(s.last(), sort_tx_contexts(front));
        assert(s =~= front.push(s.last()));
        assert(front.push(s.last()).to_multiset() =~= front.to_multiset().insert(s.last()));
    }
}

/// Two key-injective sequences that are sorted by the block-wide order and
/// hold the same entries are the same sequence.
pub proof fn lemma_sorted_unique_by_key(
    x: Seq<WellFormedTxContextView>,
    y: Seq<WellFormedTxContextView>,
)
    requires
        sorted_by(x, tx_order()),
        sorted_by(y, tx_order()),
        x.to_multiset() == y.to_multiset(),
        forall|a: WellFormedTxContextView, b: WellFormedTxContextView|
            #![trigger x.contains(a), x.contains(b)]
            x.contains(a) && x.contains(b) && a.fee == b.fee && a.tx_hash == b.tx_hash ==> a == b,
    ensures
        x == y,
    decreases x.len(),
{
    broadcast use vstd::seq_lib::group_to_multiset_ensures;
    broadcast use vstd::multiset::group_multiset_axioms;

    if x.len() == 0 {
        assert(y.to_multiset().len() == 0);
        assert(x =~= y);
    } else {
        assert(x.to_multiset().count(x[0]) > 0);
        assert(y.to_multiset().count(y[0]) > 0);
        assert(x.contains(y[0]));
        assert(y.contains(x[0]));
        let i = choose|i: int| 0 <= i < x.len() && x[i] == y[0];
        let j = choose|j: int| 0 <= j < y.len() && y[j] == x[0];
        lemma_tx_context_le_total(x[0], x[0]);
        if i > 0 {
            assert(tx_order()(x[0], x[i]));
        }
        assert(tx_context_le(x[0], x[i]));
        if j > 0 {
            assert(tx_order()(y[0], y[j]));
        }
        assert(tx_context_le(y[0], y[j]));
        lemma_tx_context_le_key_antisymmetric(x[0], y[0]);
        assert(x[0] == y[0]);
        let xr = x.drop_first();
        let yr = y.drop_first();
        assert(xr =~= x.remove(0));
        assert(yr =~= y.remove(0));
        vstd::seq_lib::to_multiset_remove(x, 0);
        vstd::seq_lib::to_multiset_remove(y, 0);
        assert forall|p: int, q: int| 0 <= p < q < xr.len() implies #[trigger] tx_order()(
            xr[p],
            xr[q],
        ) by {
            assert(xr[p] == x[p + 1] && xr[q] == x[q + 1]);
            assert(tx_order()(x[p + 1], x[q + 1]));
        }
        assert forall|p: int, q: int| 0 <= p < q < yr.len() implies #[trigger] tx_order()(
            yr[p],
            yr[q],
        ) by {
            assert(yr[p] == y[p + 1] && yr[q] == y[q + 1]);
            assert(tx_order()(y[p + 1], y[q + 1]));
        }
        assert(sorted_by(xr, tx_order()));
        assert(sorted_by(yr, tx_order()));
        assert forall|a: WellFormedTxContextView, b: WellFormedTxContextView|
            #![trigger xr.contains(a), xr.contains(b)]
            xr.contains(a) && xr.contains(b) && a.fee == b.fee && a.tx_hash == b.tx_hash
            implies a == b by {
            assert(xr.to_multiset().count(a) > 0);
            assert(xr.to_multiset().count(b) > 0);
            assert(x.to_multiset().count(a) > 0);
            assert(x.to_multiset().count(b) > 0);
            assert(x.contains(a) && x.contains(b));
        }
        lemma_sorted_unique_by_key(xr, yr);
        assert(x =~= seq![x[0]] + xr);
        assert(y =~= seq![y[0]] + yr);
    }
}

/// Sorting sees only the multiset of candidates: any two key-injective
/// arrangements of the same entries sort to the same sequence.
pub proof fn lemma_sort_permutation_invariant(
    s1: Seq<WellFormedTxContextView>,
    s2: Seq<WellFormedTxContextView>,
)
    requires
        s1.to_multiset() == s2.to_multiset(),
        key_injective(s1),
    ensures
        sort_tx_contexts(s1) == sort_tx_contexts(s2),
{
    broadcast use vstd::seq_lib::group_to_multiset_ensures;
    broadcast use vstd::multiset::group_multiset_axioms;

    lemma_sort_tx_contexts_ensures(s1);
    lemma_sort_tx_contexts_ensures(s2);
    let x = sort_tx_contexts(s1);
    let y = sort_tx_contexts(s2);
    assert forall|a: WellFormedTxContextView, b: WellFormedTxContextView|
        #![trigger x.contains(a), x.contains(b)]
        x.contains(a) && x.contains(b) && a.fee == b.fee && a.tx_hash == b.tx_hash
        implies a == b by {
        assert(x.to_multiset().count(a) > 0);
        assert(x.to_multiset().count(b) > 0);
        assert(s1.contains(a) && s1.contains(b));
        let i = choose|i: int| 0 <= i < s1.len() && s1[i] == a;
        let j = choose|j: int| 0 <= j < s1.len() && s1[j] == b;
        assert(s1[i] == s1[j]);
    }
    lemma_sorted_unique_by_key(x, y);
}

/// `insert_sorted` lands the new context at the first position whose entry it
/// precedes.
proof fn lemma_insert_sorted_at(
    c: WellFormedTxContextView,
    s: Seq<WellFormedTxContextView>,
    p: int,
)
    requires
        0 <= p <= s.len(),
        forall|k: int| 0 <= k < p ==> !tx_context_le(c, s[k]),
        p < s.len() ==> tx_context_le(c, s[p]),
    ensures
        insert_sorted(c, s) == s.insert(p, c),
    decreases p,
{
    if p == 0 {
        if s.len() == 0 {
            assert(insert_sorted(c, s) =~= s.insert(0, c));
        } else {
            assert(insert_sorted(c, s) =~= s.insert(0, c));
        }
    } else {
        lemma_insert_sorted_at(c, s.drop_first(), p - 1);
        assert(insert_sorted(c, s) == seq![s[0]] + insert_sorted(c, s.drop_first()));
        assert(seq![s[0]] + s.drop_first().insert(p - 1, c) =~= s.insert(p, c));
    }
}

/// Inserts a borrowed context into a run already sorted by the block-wide
/// order, keeping equal-key entries in arrival order.
fn insert_context<'a>(v: &mut Vec<&'a WellFormedTxContext>, c: &'a WellFormedTxContext)
    ensures
        views_of(final(v)@) == insert_sorted(c@, views_of(old(v)@)),
{
    let ghost s0 = views_of(v@);
    let mut p: usize = 0;
    loop
        invariant
            p <= v.len(),
            v@ == old(v)@,
            s0 == views_of(v@),
            forall|k: int| 0 <= k < p ==> !tx_context_le(c@, s0[k]),
        ensures
            p <= v.len(),
            v@ == old(v)@,
            forall|k: int| 0 <= k < p ==> !tx_context_le(c@, s0[k]),
            p < v.len() ==> tx_context_le(c@, s0[p as int]),
        decreases v.len() - p,
    {
        if p == v.len() {
            break;
        }
        let e: &WellFormedTxContext = v[p];
        proof {
            assert(e@ == s0[p as int]);
        }
        if tx_context_order_le(c, e) {
            break;
        }
        p += 1;
    }
    proof {
        lemma_insert_sorted_at(c@, s0, p as int);
    }
    v.insert(p, c);
    proof {
        assert(views_of(v@) =~= s0.insert(p as int, c@));
    }
}

/// Sorts borrowed contexts by the block-wide order with a stable insertion
/// sort, so the result is exactly the canonical arrangement.
pub(crate) fn sort_contexts<'a>(input: &Vec<&'a WellFormedTxContext>) -> (r: Vec<
    &'a WellFormedTxContext,
>)
    ensures
        views_of(r@) == sort_tx_contexts(views_of(input@)),
{
    let mut out: Vec<&'a WellFormedTxContext> = Vec::new();
    let n = input.len();
    let mut i: usize = 0;
    while i < n
        invariant
            i <= n,
            n == input.len(),
            views_of(out@) == sort_tx_contexts(views_of(input@.take(i as int))),
        decreases n - i,
    {
        let c: &'a WellFormedTxContext = input[i];
        insert_context(&mut out, c);
        proof {
            let whole = views_of(input@);
            let prefix = views_of(input@.take(i as int));
            let prefix1 = views_of(input@.take(i + 1 as int));
            assert(prefix1.drop_last() =~= prefix);
            assert(prefix1.last() == c@);
        }
        i += 1;
    }
    proof {
        assert(input@.take(n as int) =~= input@);
    }
    out
}

} // verus!
