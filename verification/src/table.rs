//! The tag-scoped state table: scope tag to pending accumulator and folder.

use vstd::prelude::*;

use crate::tag::Tag;

verus! {

/// The map denoted by an entry sequence, later entries taking precedence
/// (irrelevant once the tags are pairwise distinct).
pub open spec fn map_of<B, F>(s: Seq<(Tag, (B, F))>) -> Map<Seq<u64>, (B, F)>
    decreases s.len(),
{
    if s.len() == 0 {
        Map::empty()
    } else {
        map_of(s.drop_last()).insert(s.last().0@, s.last().1)
    }
}

/// Pairwise distinct tags.
pub open spec fn distinct_tags<B, F>(s: Seq<(Tag, (B, F))>) -> bool {
    forall|i: int, j: int| 0 <= i < j < s.len() ==> s[i].0@ != s[j].0@
}

proof fn lemma_map_of_contains<B, F>(s: Seq<(Tag, (B, F))>, t: Seq<u64>)
    ensures
        map_of(s).contains_key(t) <==> (exists|i: int| 0 <= i < s.len() && s[i].0@ == t),
    decreases s.len(),
{
    if s.len() > 0 {
        lemma_map_of_contains(s.drop_last(), t);
        if s.last().0@ == t {
            assert(s[s.len() - 1].0@ == t);
        } else {
            if exists|i: int| 0 <= i < s.len() && s[i].0@ == t {
                let i = choose|i: int| 0 <= i < s.len() && s[i].0@ == t;
                assert(s.drop_last()[i].0@ == t);
            }
            if exists|i: int| 0 <= i < s.drop_last().len() && s.drop_last()[i].0@ == t {
                let i = choose|i: int| 0 <= i < s.drop_last().len() && s.drop_last()[i].0@ == t;
                assert(s[i].0@ == t);
            }
        }
    }
}

proof fn lemma_distinct_drop_last<B, F>(s: Seq<(Tag, (B, F))>)
    requires
        distinct_tags(s),
        s.len() > 0,
    ensures
        distinct_tags(s.drop_last()),
{
    assert forall|i: int, j: int|
        0 <= i < j < s.drop_last().len() implies s.drop_last()[i].0@ != s.drop_last()[j].0@ by {
        assert(s.drop_last()[i] == s[i]);
        assert(s.drop_last()[j] == s[j]);
    }
}

proof fn lemma_map_of_index<B, F>(s: Seq<(Tag, (B, F))>, i: int)
    requires
        distinct_tags(s),
        0 <= i < s.len(),
    ensures
        map_of(s).contains_key(s[i].0@),
        map_of(s)[s[i].0@] == s[i].1,
    decreases s.len(),
{
    if i == s.len() - 1 {
    } else {
        lemma_distinct_drop_last(s);
        lemma_map_of_index(s.drop_last(), i);
        assert(s.drop_last()[i] == s[i]);
        assert(s[i].0@ != s.last().0@);
    }
}

proof fn lemma_distinct_remove<B, F>(s: Seq<(Tag, (B, F))>, k: int)
    requires
        distinct_tags(s),
        0 <= k < s.len(),
    ensures
        distinct_tags(s.remove(k)),
{
    assert forall|i: int, j: int|
        0 <= i < j < s.remove(k).len() implies s.remove(k)[i].0@ != s.remove(k)[j].0@ by {
        let i0: int = if i < k { i } else { i + 1 };
        let j0: int = if j < k { j } else { j + 1 };
        assert(s.remove(k)[i] == s[i0]);
        assert(s.remove(k)[j] == s[j0]);
    }
}

proof fn lemma_map_of_remove<B, F>(s: Seq<(Tag, (B, F))>, k: int)
    requires
        distinct_tags(s),
        0 <= k < s.len(),
    ensures
        map_of(s.remove(k)) == map_of(s).remove(s[k].0@),
    decreases s.len(),
{
    let t = s[k].0@;
    if k == s.len() - 1 {
        assert(s.remove(k) =~= s.drop_last());
        lemma_map_of_contains(s.drop_last(), t);
        if exists|i: int| 0 <= i < s.drop_last().len() && s.drop_last()[i].0@ == t {
            let i = choose|i: int| 0 <= i < s.drop_last().len() && s.drop_last()[i].0@ == t;
            assert(s[i].0@ == t);
            assert(false);
        }
        assert(map_of(s).remove(t) =~= map_of(s.drop_last()));
    } else {
        lemma_distinct_drop_last(s);
        lemma_map_of_remove(s.drop_last(), k);
        assert(s.remove(k).drop_last() =~= s.drop_last().remove(k));
        assert(s.remove(k).last() == s.last());
        assert(s.remove(k).len() > 0);
        assert(s[k].0@ != s.last().0@);
        assert(map_of(s.remove(k)) == map_of(s.drop_last().remove(k)).insert(s.last().0@, s.last().1));
        assert(map_of(s.drop_last()).remove(t).insert(s.last().0@, s.last().1)
            =~= map_of(s.drop_last()).insert(s.last().0@, s.last().1).remove(t));
    }
}

/// A mapping from scope tag to the pending accumulator and the folding
/// function that owns the scope, keyed by exact tag equality.  Holding an
/// entry retains ownership of both; removal transfers it to the caller.
pub struct StateTable<B, F> {
    pub entries: Vec<(Tag, (B, F))>,
}

impl<B, F> View for StateTable<B, F> {
    type V = Map<Seq<u64>, (B, F)>;

    open spec fn view(&self) -> Map<Seq<u64>, (B, F)> {
        map_of(self.entries@)
    }
}

impl<B, F> StateTable<B, F> {
    /// Well-formed: no two entries share a tag.
    pub open spec fn wf(&self) -> bool {
        distinct_tags(self.entries@)
    }

    /// The empty table.
    pub fn new() -> (r: StateTable<B, F>)
        ensures
            r@ == Map::<Seq<u64>, (B, F)>::empty(),
            r.wf(),
    {
        StateTable { entries: Vec::new() }
    }

    /// Whether the table holds an entry for `tag`.
    pub fn contains(&self, tag: &Tag) -> (r: bool)
        ensures
            r == self@.contains_key(tag@),
    {
        proof {
            lemma_map_of_contains(self.entries@, tag@);
        }
        let mut i: usize = 0;
        while i < self.entries.len()
            invariant
                i <= self.entries.len(),
                forall|j: int| 0 <= j < i ==> self.entries@[j].0@ != tag@,
            decreases self.entries.len() - i,
        {
            if self.entries[i].0.tag_eq(tag) {
                proof {
                    assert(self.entries@[i as int].0@ == tag@);
                    lemma_map_of_contains(self.entries@, tag@);
                }
                return true;
            }
            i = i + 1;
        }
        false
    }

    /// Remove and return the entry for `tag`, transferring ownership of the
    /// accumulator and the folder to the caller.
    pub fn remove(&mut self, tag: &Tag) -> (r: Option<(B, F)>)
        requires
            old(self).wf(),
        ensures
            final(self).wf(),
            final(self)@ == old(self)@.remove(tag@),
            old(self)@.contains_key(tag@) ==> r == Some(old(self)@[tag@]),
            !old(self)@.contains_key(tag@) ==> r is None,
    {
        let mut i: usize = 0;
        while i < self.entries.len()
            invariant
                i <= self.entries.len(),
                *self == *old(self),
                old(self).wf(),
                forall|j: int| 0 <= j < i ==> self.entries@[j].0@ != tag@,
            decreases self.entries.len() - i,
        {
            if self.entries[i].0.tag_eq(tag) {
                proof {
                    assert(self.entries@[i as int].0@ == tag@);
                    lemma_map_of_index(self.entries@, i as int);
                    lemma_map_of_remove(self.entries@, i as int);
                    lemma_distinct_remove(self.entries@, i as int);
                }
                let entry = self.entries.remove(i);
                return Some(entry.1);
            }
            i = i + 1;
        }
        proof {
            lemma_map_of_contains(self.entries@, tag@);
            assert(old(self)@.remove(tag@) =~= old(self)@);
        }
        None
    }

    /// Insert a fresh entry for `tag`, which must not already be present.
    pub fn insert(&mut self, tag: Tag, value: (B, F))
        requires
            old(self).wf(),
            !old(self)@.contains_key(tag@),
        ensures
            final(self).wf(),
            final(self)@ == old(self)@.insert(tag@, value),
    {
        proof {
            lemma_map_of_contains(self.entries@, tag@);
        }
        let ghost pre = self.entries@;
        self.entries.push((tag, value));
        proof {
            assert(self.entries@.drop_last() =~= pre);
            assert(self.entries@.last() == (tag, value));
            assert forall|i: int, j: int|
                0 <= i < j < self.entries@.len()
                implies self.entries@[i].0@ != self.entries@[j].0@ by {
                if j < self.entries@.len() - 1 {
                    assert(self.entries@[i] == pre[i]);
                    assert(self.entries@[j] == pre[j]);
                } else {
                    assert(self.entries@[i] == pre[i]);
                }
            }
        }
    }
}

} // verus!
