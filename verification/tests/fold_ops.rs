//! Operator scenarios: accumulation, default-emission responsibility,
//! chunking, cleanup and failures.

use scoped_fold::batch::{Batch, EndMarker};
use scoped_fold::folder::{SumFactory, SumFolder};
use scoped_fold::operator::FoldOperator;
use scoped_fold::output::OutputBuffer;
use scoped_fold::tag::Tag;
use scoped_fold::FoldError;

type Op = FoldOperator<u64, SumFolder, SumFactory>;

fn sum_op(worker: u64, peers: u64, scope_level: usize) -> Op {
    FoldOperator::new(worker, peers, scope_level, SumFactory { init: 0 })
}

fn root_end() -> EndMarker {
    EndMarker::new(Tag::root(), Vec::new())
}

#[test]
fn scenario_two_batches_sum() {
    // init = 0, fold = +, worker 0 receives [1, 2] then [3] with the end
    // marker for the root tag: one emission of 6.
    let mut op = sum_op(0, 1, 0);
    let mut out = OutputBuffer::new();
    assert!(op.fold(Batch::new(Tag::root(), vec![1, 2], None), &mut out).is_ok());
    assert!(op
        .fold(Batch::new(Tag::root(), vec![3], Some(root_end())), &mut out)
        .is_ok());
    let events = out.events();
    assert_eq!(events.len(), 1);
    assert!(events[0].0.is_root());
    assert_eq!(events[0].1, Some(6));
}

#[test]
fn scenario_root_default_three_workers() {
    // Global fold, 3 workers, root tag, no records anywhere: worker 0 emits
    // the initial value, workers 1 and 2 emit value-less close signals.
    let mut emitted = Vec::new();
    for w in 0..3u64 {
        let mut op = sum_op(w, 3, 0);
        let mut out = OutputBuffer::new();
        let end = EndMarker::new(Tag::root(), vec![0, 1, 2]);
        assert!(op
            .fold(Batch::new(Tag::root(), Vec::new(), Some(end)), &mut out)
            .is_ok());
        let events = out.events();
        assert_eq!(events.len(), 1);
        assert!(events[0].0.is_root());
        emitted.push(events[0].1);
    }
    assert_eq!(emitted, vec![Some(0), None, None]);
}

#[test]
fn scenario_partition_default_two_workers() {
    // Partition fold, 2 workers, non-root tag whose end marker records
    // worker 0 as the source, no records: worker 0 emits the initial value,
    // worker 1 a value-less close signal.
    let mut emitted = Vec::new();
    for w in 0..2u64 {
        let mut op = sum_op(w, 2, 1);
        let mut out = OutputBuffer::new();
        let end = EndMarker::new(Tag::new(vec![4]), vec![0]);
        assert!(op
            .fold_partition(Batch::new(Tag::new(vec![4]), Vec::new(), Some(end)), &mut out)
            .is_ok());
        let events = out.events();
        assert_eq!(events.len(), 1);
        assert_eq!(events[0].0.indices(), &vec![4]);
        emitted.push(events[0].1);
    }
    assert_eq!(emitted, vec![Some(0), None]);
}

#[test]
fn global_nonroot_default_goes_to_source() {
    // Global fold, non-root tag, no records: the worker the end marker
    // records as a source emits the default, the other notifies only.
    let mut emitted = Vec::new();
    for w in 0..2u64 {
        let mut op = sum_op(w, 2, 1);
        let mut out = OutputBuffer::new();
        let end = EndMarker::new(Tag::new(vec![9]), vec![1]);
        assert!(op
            .fold(Batch::new(Tag::new(vec![9]), Vec::new(), Some(end)), &mut out)
            .is_ok());
        emitted.push(out.events()[0].1);
    }
    assert_eq!(emitted, vec![None, Some(0)]);
}

#[test]
fn partition_root_default_uses_sources() {
    // Partition fold treats the root tag like any other: only the recorded
    // source worker emits the root default.
    let mut emitted = Vec::new();
    for w in 0..2u64 {
        let mut op = sum_op(w, 2, 0);
        let mut out = OutputBuffer::new();
        let end = EndMarker::new(Tag::root(), vec![1]);
        assert!(op
            .fold_partition(Batch::new(Tag::root(), Vec::new(), Some(end)), &mut out)
            .is_ok());
        emitted.push(out.events()[0].1);
    }
    assert_eq!(emitted, vec![None, Some(0)]);
}

#[test]
fn chunking_gives_same_result() {
    // The same records chunked differently produce the same emission.
    let mut op1 = sum_op(0, 1, 0);
    let mut out1 = OutputBuffer::new();
    assert!(op1
        .fold(Batch::new(Tag::root(), vec![4, 5, 6], Some(root_end())), &mut out1)
        .is_ok());

    let mut op2 = sum_op(0, 1, 0);
    let mut out2 = OutputBuffer::new();
    assert!(op2.fold(Batch::new(Tag::root(), vec![4], None), &mut out2).is_ok());
    assert!(op2.fold(Batch::new(Tag::root(), vec![5], None), &mut out2).is_ok());
    assert!(op2
        .fold(Batch::new(Tag::root(), vec![6], Some(root_end())), &mut out2)
        .is_ok());

    assert_eq!(out1.events()[0].1, Some(15));
    assert_eq!(out2.events()[0].1, Some(15));
    assert_eq!(out2.events().len(), 1);
}

#[test]
fn partition_workers_fold_only_their_own_records() {
    // Two workers hold disjoint records for one tag: each emits the fold of
    // its own partition alone.
    let end = |srcs: Vec<u64>| EndMarker::new(Tag::new(vec![2]), srcs);
    let mut op0 = sum_op(0, 2, 1);
    let mut out0 = OutputBuffer::new();
    assert!(op0
        .fold_partition(Batch::new(Tag::new(vec![2]), vec![5], Some(end(vec![0]))), &mut out0)
        .is_ok());
    let mut op1 = sum_op(1, 2, 1);
    let mut out1 = OutputBuffer::new();
    assert!(op1
        .fold_partition(Batch::new(Tag::new(vec![2]), vec![7, 9], Some(end(vec![0]))), &mut out1)
        .is_ok());
    assert_eq!(out0.events()[0].1, Some(5));
    assert_eq!(out1.events()[0].1, Some(16));
}

#[test]
fn retained_state_is_emitted_on_bare_end_marker() {
    // Records in earlier batches, then an end marker with no records: the
    // retained accumulator is emitted.
    let mut op = sum_op(0, 1, 0);
    let mut out = OutputBuffer::new();
    assert!(op.fold(Batch::new(Tag::root(), vec![1, 2], None), &mut out).is_ok());
    assert!(op.has_pending(&Tag::root()));
    assert!(op
        .fold(Batch::new(Tag::root(), Vec::new(), Some(root_end())), &mut out)
        .is_ok());
    assert_eq!(out.events()[0].1, Some(3));
}

#[test]
fn state_is_cleaned_up_after_end_marker() {
    // Whichever path closes a scope, no table entry for its tag remains.
    let t = || Tag::new(vec![3]);
    let end = || EndMarker::new(t(), vec![0]);

    // With records and the end marker in one batch.
    let mut op = sum_op(0, 2, 1);
    let mut out = OutputBuffer::new();
    assert!(op.fold(Batch::new(t(), vec![8], Some(end())), &mut out).is_ok());
    assert!(!op.has_pending(&t()));

    // Via the default-responsibility path, no records at all.
    let mut op2 = sum_op(0, 2, 1);
    let mut out2 = OutputBuffer::new();
    assert!(op2.fold(Batch::new(t(), Vec::new(), Some(end())), &mut out2).is_ok());
    assert!(!op2.has_pending(&t()));

    // Under the partition variant.
    let mut op3 = sum_op(0, 2, 1);
    let mut out3 = OutputBuffer::new();
    assert!(op3
        .fold_partition(Batch::new(t(), vec![8], Some(end())), &mut out3)
        .is_ok());
    assert!(!op3.has_pending(&t()));
}

#[test]
fn interleaved_tags_keep_separate_accumulators() {
    let ta = || Tag::new(vec![1]);
    let tb = || Tag::new(vec![2]);
    let mut op = sum_op(0, 1, 1);
    let mut out = OutputBuffer::new();
    assert!(op.fold(Batch::new(ta(), vec![10], None), &mut out).is_ok());
    assert!(op.fold(Batch::new(tb(), vec![20], None), &mut out).is_ok());
    assert!(op.fold(Batch::new(ta(), vec![1], None), &mut out).is_ok());
    let end_a = EndMarker::new(ta(), vec![0]);
    let end_b = EndMarker::new(tb(), vec![0]);
    assert!(op.fold(Batch::new(ta(), Vec::new(), Some(end_a)), &mut out).is_ok());
    assert!(op.fold(Batch::new(tb(), vec![2], Some(end_b)), &mut out).is_ok());
    let events = out.events();
    assert_eq!(events.len(), 2);
    assert_eq!(events[0].0.indices(), &vec![1]);
    assert_eq!(events[0].1, Some(11));
    assert_eq!(events[1].0.indices(), &vec![2]);
    assert_eq!(events[1].1, Some(22));
}

#[test]
fn fold_function_failure_aborts_scope() {
    // Overflow makes the sum folder reject a record: the fold fails, the
    // scope's entry is discarded and nothing is emitted for it.
    let mut op = sum_op(0, 1, 0);
    let mut out = OutputBuffer::new();
    let r = op.fold(
        Batch::new(Tag::root(), vec![u64::MAX, 1], Some(root_end())),
        &mut out,
    );
    assert_eq!(r, Err(FoldError::FoldFailed));
    assert!(!op.has_pending(&Tag::root()));
    assert_eq!(out.events().len(), 0);
}

#[test]
fn broken_channel_fails_emission() {
    let mut op = sum_op(0, 1, 0);
    let mut out = OutputBuffer::new();
    out.close_channel();
    let r = op.fold(Batch::new(Tag::root(), vec![1], Some(root_end())), &mut out);
    assert_eq!(r, Err(FoldError::ChannelClosed));
    assert_eq!(out.events().len(), 0);
    // The scope's entry was already dropped when the emission failed.
    assert!(!op.has_pending(&Tag::root()));
}

#[test]
fn empty_batch_without_end_is_a_no_op() {
    let mut op = sum_op(0, 1, 0);
    let mut out = OutputBuffer::new();
    assert!(op.fold(Batch::new(Tag::root(), Vec::new(), None), &mut out).is_ok());
    assert_eq!(out.events().len(), 0);
    assert!(!op.has_pending(&Tag::root()));
}
