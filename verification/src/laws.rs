//! The library's cross-function guarantees, stated and proved over the spec
//! functions that the operators' contracts use.

use vstd::prelude::*;

use crate::batch::{BatchView, EndView};
use crate::folder::{Folder, fold_seq};
use crate::operator::{FoldVariant, fold_step, responsible_global, responsible_partition};
use crate::tag::is_root;

verus! {

/// There is exactly one worker index below `peers` among the recorded
/// sources.
pub open spec fn unique_source_below(sources: Seq<u64>, peers: u64) -> bool {
    exists|w: u64|
        #![auto]
        w < peers && sources.contains(w) && (forall|w2: u64|
            w2 < peers && sources.contains(w2) ==> w2 == w)
}

/// Exactly-one default emission, global fold: when no worker retains state
/// for tag `t` and each of the `peers` workers processes only `t`'s end
/// marker, exactly one worker appends `(t, Some(init))` — the default — and
/// every other worker appends the value-less close `(t, None)`.  For the
/// root tag that worker is worker 0 by convention; for any other tag it is
/// the single worker the end marker records as a source.
pub proof fn lemma_exactly_one_default_global<D, B, F: Folder<D, B>>(
    t: Seq<u64>,
    e: EndView,
    peers: u64,
    init: B,
    fresh: F,
    events: Seq<(Seq<u64>, Option<B>)>,
)
    requires
        1 <= peers,
        e.tag == t,
        !is_root(t) ==> unique_source_below(e.sources, peers),
    ensures
        exists|w: u64| #![auto] w < peers && responsible_global(t, e.sources, w, peers),
        forall|w1: u64, w2: u64|
            w1 < peers && w2 < peers && responsible_global(t, e.sources, w1, peers)
                && responsible_global(t, e.sources, w2, peers) ==> w1 == w2,
        forall|w: u64| #![auto]
            w < peers ==> fold_step::<D, B, F>(
                FoldVariant::Global,
                w,
                peers,
                init,
                fresh,
                Map::empty(),
                events,
                false,
                (BatchView { tag: t, records: Seq::empty(), end: Some(e) }),
            ).2 == events.push(
                (
                    t,
                    if responsible_global(t, e.sources, w, peers) {
                        Some(init)
                    } else {
                        None
                    },
                ),
            ),
{
    if is_root(t) {
        assert(responsible_global(t, e.sources, 0, peers));
    } else {
        let w = choose|w: u64|
            #![auto]
            w < peers && e.sources.contains(w) && (forall|w2: u64|
                w2 < peers && e.sources.contains(w2) ==> w2 == w);
        assert(responsible_global(t, e.sources, w, peers));
    }
}

/// Exactly-one default emission, partition fold: the same guarantee, with
/// the end marker's single recorded source responsible for every tag, the
/// root included.
pub proof fn lemma_exactly_one_default_partition<D, B, F: Folder<D, B>>(
    t: Seq<u64>,
    e: EndView,
    peers: u64,
    init: B,
    fresh: F,
    events: Seq<(Seq<u64>, Option<B>)>,
)
    requires
        1 <= peers,
        e.tag == t,
        unique_source_below(e.sources, peers),
    ensures
        exists|w: u64| #![auto] w < peers && responsible_partition(e.sources, w, peers),
        forall|w1: u64, w2: u64|
            w1 < peers && w2 < peers && responsible_partition(e.sources, w1, peers)
                && responsible_partition(e.sources, w2, peers) ==> w1 == w2,
        forall|w: u64| #![auto]
            w < peers ==> fold_step::<D, B, F>(
                FoldVariant::Partition,
                w,
                peers,
                init,
                fresh,
                Map::empty(),
                events,
                false,
                (BatchView { tag: t, records: Seq::empty(), end: Some(e) }),
            ).2 == events.push(
                (
                    t,
                    if responsible_partition(e.sources, w, peers) {
                        Some(init)
                    } else {
                        None
                    },
                ),
            ),
{
    let w = choose|w: u64|
        #![auto]
        w < peers && e.sources.contains(w) && (forall|w2: u64|
            w2 < peers && e.sources.contains(w2) ==> w2 == w);
    assert(responsible_partition(e.sources, w, peers));
}

/// Folding a concatenation folds the left part and continues with the right
/// part from the state the left part reached; a failure in either part
/// fails the whole.
pub proof fn lemma_fold_seq_append<D, B, F: Folder<D, B>>(f: F, accum: B, s1: Seq<D>, s2: Seq<D>)
    ensures
        fold_seq(f, accum, s1 + s2) == (match fold_seq(f, accum, s1) {
            Some(p) => fold_seq(p.1, p.0, s2),
            None => None::<(B, F)>,
        }),
    decreases s1.len(),
{
    if s1.len() == 0 {
        assert(s1 + s2 =~= s2);
    } else {
        assert((s1 + s2)[0] == s1[0]);
        assert((s1 + s2).drop_first() =~= s1.drop_first() + s2);
        match f.spec_fold(accum, s1[0]) {
            Some(b) => {
                lemma_fold_seq_append(f.spec_step(accum, s1[0]), b, s1.drop_first(), s2);
            },
            None => {},
        }
    }
}

/// The left fold of a sequence of chunks, each folded in order from the
/// state the previous chunks reached.
pub open spec fn fold_chunks<D, B, F: Folder<D, B>>(
    f: F,
    accum: B,
    chunks: Seq<Seq<D>>,
) -> Option<(B, F)>
    decreases chunks.len(),
{
    if chunks.len() == 0 {
        Some((accum, f))
    } else {
        match fold_seq(f, accum, chunks[0]) {
            Some(p) => fold_chunks(p.1, p.0, chunks.drop_first()),
            None => None,
        }
    }
}

/// Chunking invariance for any number of chunks: folding a scope's records
/// chunk by chunk, carrying the accumulator and folder state across chunks,
/// gives exactly the fold of the whole record sequence in order.
pub proof fn lemma_fold_chunks_flatten<D, B, F: Folder<D, B>>(f: F, accum: B, chunks: Seq<Seq<D>>)
    ensures
        fold_chunks(f, accum, chunks) == fold_seq(f, accum, chunks.flatten()),
    decreases chunks.len(),
{
    if chunks.len() == 0 {
        assert(chunks.flatten() =~= Seq::<D>::empty());
    } else {
        assert(chunks.flatten() =~= chunks[0] + chunks.drop_first().flatten());
        lemma_fold_seq_append(f, accum, chunks[0], chunks.drop_first().flatten());
        match fold_seq(f, accum, chunks[0]) {
            Some(p) => {
                lemma_fold_chunks_flatten(p.1, p.0, chunks.drop_first());
            },
            None => {},
        }
    }
}

/// Chunking invariance at the operator level: delivering a scope's records
/// as two batches — `s1` without the end marker, then `s2` with it — leaves
/// the worker with the same result, state table and emissions as one
/// terminal batch carrying `s1 + s2`.  The emitted value is the left fold
/// of all records in arrival order, however they were chunked.
pub proof fn lemma_fold_chunking<D, B, F: Folder<D, B>>(
    variant: FoldVariant,
    worker: u64,
    peers: u64,
    init: B,
    fresh: F,
    table: Map<Seq<u64>, (B, F)>,
    events: Seq<(Seq<u64>, Option<B>)>,
    t: Seq<u64>,
    s1: Seq<D>,
    s2: Seq<D>,
    e: EndView,
)
    requires
        !table.contains_key(t),
        e.tag == t,
        fold_seq(fresh, init, s1) is Some,
    ensures
        ({
            let b1 = (BatchView { tag: t, records: s1, end: None::<EndView> });
            let b2 = (BatchView { tag: t, records: s2, end: Some(e) });
            let whole = (BatchView { tag: t, records: s1 + s2, end: Some(e) });
            let first = fold_step(variant, worker, peers, init, fresh, table, events, false, b1);
            let lhs = fold_step(variant, worker, peers, init, fresh, first.1, first.2, false, b2);
            let rhs = fold_step(variant, worker, peers, init, fresh, table, events, false, whole);
            lhs.0 == rhs.0 && lhs.1 == rhs.1 && lhs.2 == rhs.2
        }),
{
    lemma_fold_seq_append(fresh, init, s1, s2);
    let b1 = (BatchView { tag: t, records: s1, end: None::<EndView> });
    let b2 = (BatchView { tag: t, records: s2, end: Some(e) });
    let whole = (BatchView { tag: t, records: s1 + s2, end: Some(e) });
    let first = fold_step(variant, worker, peers, init, fresh, table, events, false, b1);
    let lhs = fold_step(variant, worker, peers, init, fresh, first.1, first.2, false, b2);
    let rhs = fold_step(variant, worker, peers, init, fresh, table, events, false, whole);
    if s1.len() == 0 {
        assert(s1 + s2 =~= s2);
        assert(first.1 =~= table);
        assert(lhs.1 =~= rhs.1);
    } else {
        let p = fold_seq(fresh, init, s1)->Some_0;
        assert(first.1 == table.insert(t, p));
        if s2.len() == 0 {
            assert(s1 + s2 =~= s1);
            assert(first.1[t] == p);
            assert(lhs.1 =~= rhs.1);
            assert(lhs.2 =~= rhs.2);
        } else {
            assert(first.1.contains_key(t) && first.1[t] == p);
            assert(lhs.1 =~= rhs.1);
        }
    }
}

/// Partition independence: two workers holding disjoint local record
/// sequences `recs_a` and `recs_b` for the same tag each emit the left fold
/// of their own records alone — each worker's step reads nothing but its
/// own state table and its own batch, so neither result mentions the other
/// worker's records.
pub proof fn lemma_partition_independence<D, B, F: Folder<D, B>>(
    worker_a: u64,
    worker_b: u64,
    peers: u64,
    init: B,
    fresh: F,
    events_a: Seq<(Seq<u64>, Option<B>)>,
    events_b: Seq<(Seq<u64>, Option<B>)>,
    recs_a: Seq<D>,
    recs_b: Seq<D>,
    e: EndView,
)
    requires
        recs_a.len() > 0,
        recs_b.len() > 0,
        fold_seq(fresh, init, recs_a) is Some,
        fold_seq(fresh, init, recs_b) is Some,
    ensures
        fold_step::<D, B, F>(
            FoldVariant::Partition,
            worker_a,
            peers,
            init,
            fresh,
            Map::empty(),
            events_a,
            false,
            (BatchView { tag: e.tag, records: recs_a, end: Some(e) }),
        ).2 == events_a.push((e.tag, Some(fold_seq(fresh, init, recs_a)->Some_0.0))),
        fold_step::<D, B, F>(
            FoldVariant::Partition,
            worker_b,
            peers,
            init,
            fresh,
            Map::empty(),
            events_b,
            false,
            (BatchView { tag: e.tag, records: recs_b, end: Some(e) }),
        ).2 == events_b.push((e.tag, Some(fold_seq(fresh, init, recs_b)->Some_0.0))),
{
}

} // verus!
