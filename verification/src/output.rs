//! The operator's downstream port, modelling per-scope output sessions.

use vstd::prelude::*;

use crate::FoldError;
use crate::batch::EndMarker;
use crate::tag::Tag;

verus! {

/// Spec-level value of the output port: the closing events recorded so far,
/// in order, and whether the channel is broken.
pub ghost struct OutView<B> {
    pub events: Seq<(Seq<u64>, Option<B>)>,
    pub broken: bool,
}

/// The downstream output channel of one worker's operator instance.
///
/// Each scope is closed by exactly one event, appended in emission order:
/// `(tag, Some(value))` when a per-scope session emits its final value and
/// completes the scope (`give_last`), or `(tag, None)` when scope completion
/// is propagated with no value (`notify_end`).  A broken channel is an
/// unrecoverable topology failure: every operation then fails with
/// `FoldError::ChannelClosed` and records nothing.
pub struct OutputBuffer<B> {
    pub events: Vec<(Tag, Option<B>)>,
    pub broken: bool,
}

impl<B> View for OutputBuffer<B> {
    type V = OutView<B>;

    open spec fn view(&self) -> OutView<B> {
        OutView {
            events: self.events@.map_values(|e: (Tag, Option<B>)| (e.0@, e.1)),
            broken: self.broken,
        }
    }
}

impl<B> OutputBuffer<B> {
    /// A fresh, healthy channel with no events.
    pub fn new() -> (r: OutputBuffer<B>)
        ensures
            r@.events == Seq::<(Seq<u64>, Option<B>)>::empty(),
            !r@.broken,
    {
        let r = OutputBuffer { events: Vec::new(), broken: false };
        proof {
            assert(r@.events =~= Seq::<(Seq<u64>, Option<B>)>::empty());
        }
        r
    }

    /// Mark the downstream channel as closed or broken.
    pub fn close_channel(&mut self)
        ensures
            final(self)@.events == old(self)@.events,
            final(self)@.broken,
    {
        self.broken = true;
    }

    /// Emit exactly one value for the end marker's scope and complete the
    /// scope, atomically from the consumer's point of view.
    pub fn give_last(&mut self, value: B, end: EndMarker) -> (r: Result<(), FoldError>)
        ensures
            final(self)@.broken == old(self)@.broken,
            old(self)@.broken ==> r == Err::<(), FoldError>(FoldError::ChannelClosed)
                && final(self)@.events == old(self)@.events,
            !old(self)@.broken ==> r == Ok::<(), FoldError>(())
                && final(self)@.events == old(self)@.events.push((end@.tag, Some(value))),
    {
        if self.broken {
            return Err(FoldError::ChannelClosed);
        }
        let ghost pre = self@.events;
        let EndMarker { tag, sources: _ } = end;
        self.events.push((tag, Some(value)));
        proof {
            assert(self@.events =~= pre.push((end@.tag, Some(value))));
        }
        Ok(())
    }

    /// Propagate scope completion with no value: this worker is not the one
    /// responsible for the scope's default.
    pub fn notify_end(&mut self, end: EndMarker) -> (r: Result<(), FoldError>)
        ensures
            final(self)@.broken == old(self)@.broken,
            old(self)@.broken ==> r == Err::<(), FoldError>(FoldError::ChannelClosed)
                && final(self)@.events == old(self)@.events,
            !old(self)@.broken ==> r == Ok::<(), FoldError>(())
                && final(self)@.events == old(self)@.events.push((end@.tag, None::<B>)),
    {
        if self.broken {
            return Err(FoldError::ChannelClosed);
        }
        let ghost pre = self@.events;
        let EndMarker { tag, sources: _ } = end;
        self.events.push((tag, None));
        proof {
            assert(self@.events =~= pre.push((end@.tag, None::<B>)));
        }
        Ok(())
    }

    /// The recorded closing events, oldest first.
    pub fn events(&self) -> (r: &Vec<(Tag, Option<B>)>)
        ensures
            r@.map_values(|e: (Tag, Option<B>)| (e.0@, e.1)) == self@.events,
    {
        &self.events
    }

    /// Whether the downstream channel is broken.
    pub fn is_broken(&self) -> (r: bool)
        ensures
            r == self@.broken,
    {
        self.broken
    }
}

} // verus!
