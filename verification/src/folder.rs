//! The caller-supplied folding function and its factory, modelled as traits
//! whose executable behaviour is pinned to spec functions.

use vstd::prelude::*;

use crate::FoldError;

verus! {

/// A stateful folding function owned by one scope's state-table entry.
///
/// The implementor describes, in spec, both the value one application
/// returns (`spec_fold`, where `None` means the record is rejected) and the
/// folder's own state afterwards (`spec_step`), so that the result of a
/// whole stream of records can be stated with `fold_seq`.
pub trait Folder<D, B>: Sized {
    /// The value one application returns, or `None` when the folding
    /// function rejects the record.
    spec fn spec_fold(&self, accum: B, d: D) -> Option<B>;

    /// The folder's own state after one application.
    spec fn spec_step(&self, accum: B, d: D) -> Self;

    /// Fold one record into the accumulator.
    fn apply(&mut self, accum: B, d: D) -> (r: Result<B, FoldError>)
        ensures
            *final(self) == old(self).spec_step(accum, d),
            match r {
                Ok(b) => old(self).spec_fold(accum, d) == Some(b),
                Err(e) => old(self).spec_fold(accum, d) is None && e == FoldError::FoldFailed,
            },
    ;
}

/// The caller's fold configuration: the initial accumulator value and a
/// factory producing a fresh, independently owned folder for each scope.
pub trait FolderFactory<B, F>: Sized {
    /// The initial accumulator handed to every fresh scope, and the default
    /// value emitted for a scope that received no records anywhere.
    spec fn spec_init(&self) -> B;

    /// The fresh folder produced for a new scope.
    spec fn spec_folder(&self) -> F;

    /// The initial accumulator for one scope.
    fn make_init(&self) -> (b: B)
        ensures
            b == self.spec_init(),
    ;

    /// A fresh folder for one scope.
    fn make_folder(&self) -> (f: F)
        ensures
            f == self.spec_folder(),
    ;
}

/// The left fold of `records`, in order, starting from accumulator `accum`
/// and folder state `f`: the final accumulator and folder state, or `None`
/// as soon as one application fails.
pub open spec fn fold_seq<D, B, F: Folder<D, B>>(f: F, accum: B, records: Seq<D>) -> Option<(B, F)>
    decreases records.len(),
{
    if records.len() == 0 {
        Some((accum, f))
    } else {
        match f.spec_fold(accum, records[0]) {
            Some(b) => fold_seq(f.spec_step(accum, records[0]), b, records.drop_first()),
            None => None,
        }
    }
}

/// Checked 64-bit addition as a folding function: rejects a record when the
/// running sum would overflow.
pub struct SumFolder;

impl Folder<u64, u64> for SumFolder {
    open spec fn spec_fold(&self, accum: u64, d: u64) -> Option<u64> {
        if accum + d <= u64::MAX {
            Some((accum + d) as u64)
        } else {
            None
        }
    }

    open spec fn spec_step(&self, accum: u64, d: u64) -> SumFolder {
        *self
    }

    fn apply(&mut self, accum: u64, d: u64) -> (r: Result<u64, FoldError>) {
        match accum.checked_add(d) {
            Some(b) => Ok(b),
            None => Err(FoldError::FoldFailed),
        }
    }
}

/// Fold configuration for `SumFolder` with a caller-chosen initial value.
pub struct SumFactory {
    pub init: u64,
}

impl FolderFactory<u64, SumFolder> for SumFactory {
    open spec fn spec_init(&self) -> u64 {
        self.init
    }

    open spec fn spec_folder(&self) -> SumFolder {
        SumFolder
    }

    fn make_init(&self) -> (b: u64) {
        self.init
    }

    fn make_folder(&self) -> (f: SumFolder) {
        SumFolder
    }
}

} // verus!
