//! The scoped fold operator: per-scope accumulation, coordination-free
//! default-value responsibility, and emission.

use vstd::prelude::*;

use crate::FoldError;
use crate::batch::{Batch, BatchView, spec_contains_source};
use crate::folder::{Folder, FolderFactory, fold_seq};
use crate::output::OutputBuffer;
use crate::table::StateTable;
use crate::tag::{Tag, is_root};

verus! {

/// The two operator variants.  Under the global fold, upstream routing has
/// already delivered every record of a tag to one single worker; under the
/// partition fold, each worker folds only its own local partition.
pub enum FoldVariant {
    Global,
    Partition,
}

/// Responsibility for emitting a scope's default value under the global
/// fold: worker 0 owns the root scope's default by convention; for any other
/// scope, the worker counted among the end marker's recorded sources.
pub open spec fn responsible_global(t: Seq<u64>, sources: Seq<u64>, worker: u64, peers: u64) -> bool {
    if is_root(t) {
        worker == 0
    } else {
        spec_contains_source(sources, worker, peers)
    }
}

/// Responsibility under the partition fold: uniformly, for every scope (the
/// root included), the worker counted among the end marker's recorded
/// sources.
pub open spec fn responsible_partition(sources: Seq<u64>, worker: u64, peers: u64) -> bool {
    spec_contains_source(sources, worker, peers)
}

/// Responsibility for the default emission, by variant.
pub open spec fn responsible(
    variant: FoldVariant,
    t: Seq<u64>,
    sources: Seq<u64>,
    worker: u64,
    peers: u64,
) -> bool {
    match variant {
        FoldVariant::Global => responsible_global(t, sources, worker, peers),
        FoldVariant::Partition => responsible_partition(sources, worker, peers),
    }
}

/// The accumulator and folder a batch for tag `t` starts from: the table's
/// retained entry when present, else a fresh pair from the configuration.
pub open spec fn start_state<B, F>(
    init: B,
    fresh: F,
    table: Map<Seq<u64>, (B, F)>,
    t: Seq<u64>,
) -> (B, F) {
    if table.contains_key(t) {
        table[t]
    } else {
        (init, fresh)
    }
}

/// The folded outcome of one batch's records for tag `t`, starting from the
/// table's retained state or a fresh one.
pub open spec fn folded_from<D, B, F: Folder<D, B>>(
    init: B,
    fresh: F,
    table: Map<Seq<u64>, (B, F)>,
    t: Seq<u64>,
    recs: Seq<D>,
) -> Option<(B, F)> {
    fold_seq(start_state(init, fresh, table, t).1, start_state(init, fresh, table, t).0, recs)
}

/// The complete outcome of one operator invocation on one batch: the result,
/// the state table afterwards, and the closing events afterwards.
///
/// A batch with records folds them in arrival order from the start state;
/// a failing application aborts the scope (its entry stays removed, nothing
/// is emitted).  A terminal batch emits the folded value and drops the
/// entry; a non-terminal one persists the state for later batches.  An
/// end marker with no prior state makes the responsible worker emit the
/// initial value and every other worker a value-less close.  A broken
/// channel fails any step that would emit, after the entry (if any) has
/// already been removed.
pub open spec fn fold_step<D, B, F: Folder<D, B>>(
    variant: FoldVariant,
    worker: u64,
    peers: u64,
    init: B,
    fresh: F,
    table: Map<Seq<u64>, (B, F)>,
    events: Seq<(Seq<u64>, Option<B>)>,
    broken: bool,
    b: BatchView<D>,
) -> (Result<(), FoldError>, Map<Seq<u64>, (B, F)>, Seq<(Seq<u64>, Option<B>)>) {
    let t = b.tag;
    if b.records.len() > 0 {
        match folded_from(init, fresh, table, t, b.records) {
            None => (Err(FoldError::FoldFailed), table.remove(t), events),
            Some(p) => match b.end {
                None => (Ok(()), table.insert(t, p), events),
                Some(e) => if broken {
                    (Err(FoldError::ChannelClosed), table.remove(t), events)
                } else {
                    (Ok(()), table.remove(t), events.push((t, Some(p.0))))
                },
            },
        }
    } else {
        match b.end {
            None => (Ok(()), table, events),
            Some(e) => if table.contains_key(t) {
                if broken {
                    (Err(FoldError::ChannelClosed), table.remove(t), events)
                } else {
                    (Ok(()), table.remove(t), events.push((t, Some(table[t].0))))
                }
            } else {
                if broken {
                    (Err(FoldError::ChannelClosed), table, events)
                } else if responsible(variant, t, e.sources, worker, peers) {
                    (Ok(()), table, events.push((t, Some(init))))
                } else {
                    (Ok(()), table, events.push((t, None)))
                }
            },
        }
    }
}

/// One worker's scoped fold operator instance: its fixed worker identity,
/// the caller's fold configuration, and the per-scope state table.  The
/// instance is owned by a single worker thread; workers share nothing and
/// never communicate with each other.
pub struct FoldOperator<B, F, C> {
    /// This worker's index, below `peers`.
    pub worker: u64,
    /// The total number of workers.
    pub peers: u64,
    /// The nesting depth of the tags this operator is configured for.
    pub scope_level: usize,
    /// The caller's fold configuration.
    pub factory: C,
    /// Retained per-scope accumulators.
    pub table: StateTable<B, F>,
}

impl<B, F, C> FoldOperator<B, F, C> {
    /// Well-formed: a valid worker index and a consistent state table.
    pub open spec fn wf(&self) -> bool {
        self.worker < self.peers && self.table.wf()
    }

    /// A fresh operator instance for one worker, with an empty state table.
    pub fn new(worker: u64, peers: u64, scope_level: usize, factory: C) -> (r: FoldOperator<B, F, C>)
        requires
            worker < peers,
        ensures
            r.wf(),
            r.worker == worker,
            r.peers == peers,
            r.scope_level == scope_level,
            r.factory == factory,
            r.table@ == Map::<Seq<u64>, (B, F)>::empty(),
    {
        FoldOperator { worker, peers, scope_level, factory, table: StateTable::new() }
    }

    /// Whether this worker currently retains an accumulator for `tag`.
    pub fn has_pending(&self, tag: &Tag) -> (r: bool)
        ensures
            r == self.table@.contains_key(tag@),
    {
        self.table.contains(tag)
    }

    /// Process one batch under the global fold: every record of a tag,
    /// whatever worker it originated on, has been routed to one single
    /// worker; every worker still receives each tag's end marker.  Worker 0
    /// owns root-scope defaults; otherwise the end marker's recorded source
    /// decides.
    pub fn fold<D>(&mut self, batch: Batch<D>, out: &mut OutputBuffer<B>) -> (r: Result<
        (),
        FoldError,
    >) where F: Folder<D, B>, C: FolderFactory<B, F>
        requires
            old(self).wf(),
            batch.wf(),
            batch@.tag.len() == old(self).scope_level,
        ensures
            final(self).wf(),
            final(self).worker == old(self).worker,
            final(self).peers == old(self).peers,
            final(self).scope_level == old(self).scope_level,
            final(self).factory == old(self).factory,
            final(out)@.broken == old(out)@.broken,
            batch@.end is Some ==> !final(self).table@.contains_key(batch@.tag),
            r == fold_step(
                FoldVariant::Global,
                old(self).worker,
                old(self).peers,
                old(self).factory.spec_init(),
                old(self).factory.spec_folder(),
                old(self).table@,
                old(out)@.events,
                old(out)@.broken,
                batch@,
            ).0,
            final(self).table@ == fold_step(
                FoldVariant::Global,
                old(self).worker,
                old(self).peers,
                old(self).factory.spec_init(),
                old(self).factory.spec_folder(),
                old(self).table@,
                old(out)@.events,
                old(out)@.broken,
                batch@,
            ).1,
            final(out)@.events == fold_step(
                FoldVariant::Global,
                old(self).worker,
                old(self).peers,
                old(self).factory.spec_init(),
                old(self).factory.spec_folder(),
                old(self).table@,
                old(out)@.events,
                old(out)@.broken,
                batch@,
            ).2,
    {
        self.step(FoldVariant::Global, batch, out)
    }

    /// Process one batch under the partition fold: no upstream routing has
    /// taken place, so this worker folds only its own local partition of
    /// each tag's records and emits its own local result.  For every scope,
    /// the root included, the end marker's recorded source decides who owes
    /// the default.
    pub fn fold_partition<D>(&mut self, batch: Batch<D>, out: &mut OutputBuffer<B>) -> (r: Result<
        (),
        FoldError,
    >) where F: Folder<D, B>, C: FolderFactory<B, F>
        requires
            old(self).wf(),
            batch.wf(),
            batch@.tag.len() == old(self).scope_level,
        ensures
            final(self).wf(),
            final(self).worker == old(self).worker,
            final(self).peers == old(self).peers,
            final(self).scope_level == old(self).scope_level,
            final(self).factory == old(self).factory,
            final(out)@.broken == old(out)@.broken,
            batch@.end is Some ==> !final(self).table@.contains_key(batch@.tag),
            r == fold_step(
                FoldVariant::Partition,
                old(self).worker,
                old(self).peers,
                old(self).factory.spec_init(),
                old(self).factory.spec_folder(),
                old(self).table@,
                old(out)@.events,
                old(out)@.broken,
                batch@,
            ).0,
            final(self).table@ == fold_step(
                FoldVariant::Partition,
                old(self).worker,
                old(self).peers,
                old(self).factory.spec_init(),
                old(self).factory.spec_folder(),
                old(self).table@,
                old(out)@.events,
                old(out)@.broken,
                batch@,
            ).1,
            final(out)@.events == fold_step(
                FoldVariant::Partition,
                old(self).worker,
                old(self).peers,
                old(self).factory.spec_init(),
                old(self).factory.spec_folder(),
                old(self).table@,
                old(out)@.events,
                old(out)@.broken,
                batch@,
            ).2,
    {
        self.step(FoldVariant::Partition, batch, out)
    }

    /// The shared per-batch control logic; `variant` selects the
    /// default-responsibility rule.
    #[verifier::loop_isolation(false)]
    #[verifier::rlimit(30)]
    fn step<D>(&mut self, variant: FoldVariant, batch: Batch<D>, out: &mut OutputBuffer<B>) -> (r:
        Result<(), FoldError>) where F: Folder<D, B>, C: FolderFactory<B, F>
        requires
            old(self).wf(),
            batch.wf(),
        ensures
            final(self).wf(),
            final(self).worker == old(self).worker,
            final(self).peers == old(self).peers,
            final(self).scope_level == old(self).scope_level,
            final(self).factory == old(self).factory,
            final(out)@.broken == old(out)@.broken,
            batch@.end is Some ==> !final(self).table@.contains_key(batch@.tag),
            r == fold_step(
                variant,
                old(self).worker,
                old(self).peers,
                old(self).factory.spec_init(),
                old(self).factory.spec_folder(),
                old(self).table@,
                old(out)@.events,
                old(out)@.broken,
                batch@,
            ).0,
            final(self).table@ == fold_step(
                variant,
                old(self).worker,
                old(self).peers,
                old(self).factory.spec_init(),
                old(self).factory.spec_folder(),
                old(self).table@,
                old(out)@.events,
                old(out)@.broken,
                batch@,
            ).1,
            final(out)@.events == fold_step(
                variant,
                old(self).worker,
                old(self).peers,
                old(self).factory.spec_init(),
                old(self).factory.spec_folder(),
                old(self).table@,
                old(out)@.events,
                old(out)@.broken,
                batch@,
            ).2,
    {
        let ghost t = batch@.tag;
        let ghost pre_table = self.table@;
        let ghost init = self.factory.spec_init();
        let ghost fresh = self.factory.spec_folder();

        let Batch { tag, mut records, end } = batch;

        if records.len() > 0 {
            let (mut accum, mut f) = match self.table.remove(&tag) {
                Some(p) => p,
                None => (self.factory.make_init(), self.factory.make_folder()),
            };
            let ghost a0 = accum;
            let ghost f0 = f;
            proof {
                assert((a0, f0) == start_state(init, fresh, pre_table, t));
            }
            let ghost all = records@;
            while records.len() > 0
                invariant
                    fold_seq(f, accum, records@) == fold_seq(f0, a0, all),
                decreases records.len(),
            {
                let ghost pre_recs = records@;
                let d = records.remove(0);
                proof {
                    assert(d == pre_recs[0]);
                    assert(records@ =~= pre_recs.drop_first());
                }
                let ghost f_pre = f;
                let ghost accum_pre = accum;
                match f.apply(accum, d) {
                    Ok(b) => {
                        accum = b;
                        proof {
                            assert(fold_seq(f_pre, accum_pre, pre_recs)
                                == fold_seq(f, accum, records@));
                        }
                    },
                    Err(err) => {
                        proof {
                            assert(fold_seq(f_pre, accum_pre, pre_recs) is None);
                            assert(folded_from(init, fresh, pre_table, t, all) is None);
                        }
                        return Err(err);
                    },
                }
            }
            proof {
                assert(records@ =~= Seq::<D>::empty());
                assert(fold_seq(f0, a0, all) == Some((accum, f)));
            }
            match end {
                Some(e) => out.give_last(accum, e),
                None => {
                    self.table.insert(tag, (accum, f));
                    proof {
                        assert(final(self).table@ =~= pre_table.insert(t, (accum, f)));
                    }
                    Ok(())
                },
            }
        } else {
            match end {
                Some(e) => {
                    match self.table.remove(&tag) {
                        Some(p) => out.give_last(p.0, e),
                        None => {
                            proof {
                                assert(self.table@ =~= pre_table);
                            }
                            let root = tag.is_root();
                            let resp = match variant {
                                FoldVariant::Global => (root && self.worker == 0) || (!root
                                    && e.contains_source(self.worker, self.peers)),
                                FoldVariant::Partition => e.contains_source(
                                    self.worker,
                                    self.peers,
                                ),
                            };
                            proof {
                                assert(resp == responsible(variant, t, e@.sources, self.worker, self.peers));
                            }
                            if resp {
                                out.give_last(self.factory.make_init(), e)
                            } else {
                                out.notify_end(e)
                            }
                        },
                    }
                },
                None => Ok(()),
            }
        }
    }
}

} // verus!
