//! Component behaviour: tags, end markers and the output port.

use scoped_fold::batch::EndMarker;
use scoped_fold::folder::{SumFactory, SumFolder};
use scoped_fold::operator::FoldOperator;
use scoped_fold::output::OutputBuffer;
use scoped_fold::tag::Tag;
use scoped_fold::FoldError;

#[test]
fn root_tag_is_root() {
    assert!(Tag::root().is_root());
    assert!(!Tag::new(vec![0]).is_root());
    assert_eq!(Tag::root().indices(), &Vec::<u64>::new());
}

#[test]
fn tag_equality_is_componentwise() {
    let a = Tag::new(vec![1, 2]);
    let b = Tag::new(vec![1, 2]);
    let c = Tag::new(vec![1, 3]);
    let d = Tag::new(vec![1]);
    assert!(a.tag_eq(&b));
    assert!(!a.tag_eq(&c));
    assert!(!a.tag_eq(&d));
    assert!(Tag::root().tag_eq(&Tag::root()));
}

#[test]
fn contains_source_checks_membership_and_bounds() {
    let end = EndMarker::new(Tag::new(vec![1]), vec![0, 2]);
    assert!(end.contains_source(0, 4));
    assert!(!end.contains_source(1, 4));
    assert!(end.contains_source(2, 4));
    // An index at or above the peer count is never a source.
    assert!(!end.contains_source(2, 2));
    assert!(!end.contains_source(5, 4));
}

#[test]
fn output_buffer_records_events_in_order() {
    let mut out = OutputBuffer::new();
    assert!(!out.is_broken());
    assert!(out.give_last(7u64, EndMarker::new(Tag::new(vec![1]), vec![0])).is_ok());
    assert!(out.notify_end(EndMarker::new(Tag::new(vec![2]), vec![0])).is_ok());
    let events = out.events();
    assert_eq!(events.len(), 2);
    assert_eq!(events[0].0.indices(), &vec![1]);
    assert_eq!(events[0].1, Some(7));
    assert_eq!(events[1].0.indices(), &vec![2]);
    assert_eq!(events[1].1, None);
}

#[test]
fn broken_output_buffer_rejects_everything() {
    let mut out = OutputBuffer::<u64>::new();
    out.close_channel();
    assert!(out.is_broken());
    assert_eq!(
        out.give_last(7, EndMarker::new(Tag::root(), Vec::new())),
        Err(FoldError::ChannelClosed)
    );
    assert_eq!(
        out.notify_end(EndMarker::new(Tag::root(), Vec::new())),
        Err(FoldError::ChannelClosed)
    );
    assert_eq!(out.events().len(), 0);
}

#[test]
fn operator_starts_with_empty_table() {
    let op: FoldOperator<u64, SumFolder, SumFactory> =
        FoldOperator::new(1, 3, 0, SumFactory { init: 0 });
    assert!(!op.has_pending(&Tag::root()));
    assert!(!op.has_pending(&Tag::new(vec![1])));
}
