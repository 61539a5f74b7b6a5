//! Scoped aggregation for a partitioned, tag-scoped record stream.
//!
//! Each of several independent workers folds the records it receives for a
//! scope (identified by a hierarchical tag) into a per-scope accumulator and
//! emits exactly one closing event per scope downstream — even when it never
//! received a record for that scope.  Which worker owes the scope's default
//! value is decided from purely local data, without any message between
//! workers.

use vstd::prelude::*;

pub mod batch;
pub mod folder;
pub mod laws;
pub mod operator;
pub mod output;
pub mod table;
pub mod tag;

verus! {

/// Failures surfaced by the fold operators.  Either one aborts the current
/// scope immediately; nothing is retried.
#[derive(Clone, Copy, Debug, PartialEq, Eq, Structural)]
pub enum FoldError {
    /// The caller-supplied folding function rejected a record.  The partial
    /// accumulator for the scope is discarded and no result is emitted.
    FoldFailed,
    /// The downstream channel is closed or broken, so no session can be
    /// opened and nothing can be emitted.
    ChannelClosed,
}

} // verus!
