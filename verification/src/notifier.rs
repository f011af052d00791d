//! When to tell a caller that a list has changed.
//!
//! The store reports what happens to a document as a stream of events. Each
//! event is passed on as one signal. An entry that a peer has inserted may be
//! reported before its content has arrived, so its signal is held back for a
//! short, fixed time. The delay makes it likely that the content is there
//! when the caller reads the list; it does not make it certain.

use vstd::prelude::*;

verus! {

/// The time for which the signal of a remote insertion is held back, in
/// milliseconds.
pub const REMOTE_INSERT_DELAY_MILLIS: u64 = 100;

/// What the store reports of a document.
#[derive(Clone, Copy, Debug, PartialEq, Eq, Structural)]
pub enum ChangeEvent {
    /// An entry was inserted on this node.
    InsertLocal,
    /// An entry was received from a peer.
    InsertRemote,
    /// Anything else that the store reports.
    Other,
}

/// What to do after the stream of events has been asked for its next item.
#[derive(Clone, Copy, Debug, PartialEq, Eq, Structural)]
pub enum Step {
    /// Signal once that the list has changed, after waiting this long, and
    /// ask the stream again.
    Signal { delay_millis: u64 },
    /// Stop: the stream has ended or failed.
    Stop,
}

/// The step that follows an item of the stream: `None` is the end of the
/// stream, `Some(Err(()))` a failure of it.
pub open spec fn step_spec(next: Option<Result<ChangeEvent, ()>>) -> Step {
    match next {
        Some(Ok(ChangeEvent::InsertRemote)) => Step::Signal {
            delay_millis: REMOTE_INSERT_DELAY_MILLIS,
        },
        Some(Ok(_)) => Step::Signal { delay_millis: 0 },
        _ => Step::Stop,
    }
}

/// The step that follows an item of the stream.
pub fn on_next(next: Option<Result<ChangeEvent, ()>>) -> (step: Step)
    ensures
        step == step_spec(next),
{
    match next {
        Some(Ok(ChangeEvent::InsertRemote)) => Step::Signal {
            delay_millis: REMOTE_INSERT_DELAY_MILLIS,
        },
        Some(Ok(_)) => Step::Signal { delay_millis: 0 },
        _ => Step::Stop,
    }
}

/// Every event is passed on as a signal, no signal waits longer than the
/// fixed delay, and only the end or a failure of the stream stops the
/// signals.
pub proof fn law_every_event_signals(next: Option<Result<ChangeEvent, ()>>)
    ensures
        next matches Some(Ok(_)) <==> step_spec(next) is Signal,
        step_spec(next) matches Step::Signal { delay_millis } ==> delay_millis
            <= REMOTE_INSERT_DELAY_MILLIS,
{
}

} // verus!
