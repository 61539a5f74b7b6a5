//! Batches of same-tag records and the end markers that close a scope.

use vstd::prelude::*;

use crate::tag::Tag;

verus! {

/// Spec-level value of an end marker: the tag it terminates and the worker
/// indices of the source partitions recorded in it.
pub ghost struct EndView {
    pub tag: Seq<u64>,
    pub sources: Seq<u64>,
}

/// The signal that no further records for a tag will arrive.  It carries the
/// indices of the source partitions recorded for the scope by the upstream
/// stage, so that `contains_source` is answerable from purely local data,
/// without communication between workers.
pub struct EndMarker {
    pub tag: Tag,
    pub sources: Vec<u64>,
}

impl View for EndMarker {
    type V = EndView;

    open spec fn view(&self) -> EndView {
        EndView { tag: self.tag@, sources: self.sources@ }
    }
}

/// Whether an end marker with recorded `sources` counts `worker` (of
/// `peers` workers) among the scope's source partitions.
pub open spec fn spec_contains_source(sources: Seq<u64>, worker: u64, peers: u64) -> bool {
    worker < peers && sources.contains(worker)
}

impl EndMarker {
    /// An end marker for `tag`, recording the contributing source partitions.
    pub fn new(tag: Tag, sources: Vec<u64>) -> (r: EndMarker)
        ensures
            r@.tag == tag@,
            r@.sources == sources@,
    {
        EndMarker { tag, sources }
    }

    /// Whether this end marker's recorded source-partition set includes the
    /// given worker.  A worker index at or above the total peer count is
    /// never a source.
    pub fn contains_source(&self, worker: u64, total_peers: u64) -> (r: bool)
        ensures
            r == spec_contains_source(self@.sources, worker, total_peers),
    {
        if worker >= total_peers {
            return false;
        }
        let mut i: usize = 0;
        while i < self.sources.len()
            invariant
                i <= self.sources.len(),
                worker < total_peers,
                forall|j: int| 0 <= j < i ==> self.sources@[j] != worker,
            decreases self.sources.len() - i,
        {
            if self.sources[i] == worker {
                proof {
                    assert(self.sources@.contains(worker)) by {
                        assert(self.sources@[i as int] == worker);
                    }
                }
                return true;
            }
            i = i + 1;
        }
        false
    }
}

/// Spec-level value of a batch.
pub ghost struct BatchView<D> {
    pub tag: Seq<u64>,
    pub records: Seq<D>,
    pub end: Option<EndView>,
}

/// An ordered chunk of zero or more records sharing one tag, optionally
/// terminated by the scope's end marker.  Batches for one tag may arrive
/// over several operator invocations; the state table carries the
/// accumulator across them.
pub struct Batch<D> {
    pub tag: Tag,
    pub records: Vec<D>,
    pub end: Option<EndMarker>,
}

impl<D> View for Batch<D> {
    type V = BatchView<D>;

    open spec fn view(&self) -> BatchView<D> {
        BatchView {
            tag: self.tag@,
            records: self.records@,
            end: match self.end {
                Some(e) => Some(e@),
                None => None,
            },
        }
    }
}

impl<D> Batch<D> {
    /// Well-formed: the end marker, when present, terminates this batch's
    /// own tag.
    pub open spec fn wf(&self) -> bool {
        match self@.end {
            Some(e) => e.tag == self@.tag,
            None => true,
        }
    }

    /// A batch of records for `tag`, optionally carrying the scope's end
    /// marker.
    pub fn new(tag: Tag, records: Vec<D>, end: Option<EndMarker>) -> (r: Batch<D>)
        requires
            match end {
                Some(e) => e@.tag == tag@,
                None => true,
            },
        ensures
            r@.tag == tag@,
            r@.records == records@,
            r@.end == match end {
                Some(e) => Some(e@),
                None => None::<EndView>,
            },
            r.wf(),
    {
        Batch { tag, records, end }
    }
}

} // verus!
