//! Scope tags: hierarchical identifiers of loop/iteration contexts.

use vstd::prelude::*;

verus! {

/// Whether a tag sequence denotes the root scope (the empty sequence).
pub open spec fn is_root(t: Seq<u64>) -> bool {
    t.len() == 0
}

/// A hierarchical identifier of a nested iteration context in the dataflow
/// graph: the loop iteration indices from the outermost loop inward.  The
/// empty sequence is the root scope.  Two tags are equal exactly when their
/// sequences are equal, and a tag is an ancestor of every tag extending it.
pub struct Tag {
    pub indices: Vec<u64>,
}

impl View for Tag {
    type V = Seq<u64>;

    open spec fn view(&self) -> Seq<u64> {
        self.indices@
    }
}

impl Tag {
    /// The root tag: the empty index sequence.
    pub fn root() -> (r: Tag)
        ensures
            r@ == Seq::<u64>::empty(),
    {
        Tag { indices: Vec::new() }
    }

    /// A tag from its index sequence, outermost loop first.
    pub fn new(indices: Vec<u64>) -> (r: Tag)
        ensures
            r@ == indices@,
    {
        Tag { indices }
    }

    /// Whether this is the root tag.
    pub fn is_root(&self) -> (r: bool)
        ensures
            r == is_root(self@),
    {
        self.indices.len() == 0
    }

    /// Exact tag equality: component-wise equality of the index sequences.
    pub fn tag_eq(&self, other: &Tag) -> (r: bool)
        ensures
            r == (self@ == other@),
    {
        if self.indices.len() != other.indices.len() {
            return false;
        }
        let mut i: usize = 0;
        while i < self.indices.len()
            invariant
                i <= self.indices.len(),
                self.indices.len() == other.indices.len(),
                forall|j: int| 0 <= j < i ==> self.indices@[j] == other.indices@[j],
            decreases self.indices.len() - i,
        {
            if self.indices[i] != other.indices[i] {
                return false;
            }
            i = i + 1;
        }
        proof {
            assert(self@ =~= other@);
        }
        true
    }

    /// The index sequence.
    pub fn indices(&self) -> (r: &Vec<u64>)
        ensures
            r@ == self@,
    {
        &self.indices
    }
}

} // verus!
