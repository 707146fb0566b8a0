//! The decisions of the background worker that keeps the snapshot fresh.
//!
//! The worker waits for a notification, fetches the configuration when it
//! has changed, and replaces the snapshot with the result. It stops, and
//! leaves the last snapshot in place, when it is cancelled, when the stream
//! closes or fails, or when a fetch fails; nothing is retried.
use vstd::prelude::*;

use crate::value::text_eq;

verus! {

/// Where the worker stands.
#[derive(Debug, Clone, Copy, PartialEq, Eq, Structural)]
pub enum WorkerState {
    /// Waiting for the next notification.
    Waiting,
    /// A fetch of the configuration is under way.
    Fetching,
    /// The worker has ended.
    Stopped,
}

/// What happened since the last step.
#[derive(Debug, Clone, Copy, PartialEq, Eq, Structural)]
pub enum WorkerEvent {
    /// The owner of the snapshot is gone.
    Cancelled,
    /// A periodic message that says nothing has changed.
    Heartbeat,
    /// The configuration has changed.
    Changed,
    /// A message that carries no news (a ping, a binary frame).
    Ignored,
    /// The server closed the stream.
    Closed,
    /// Reading from the stream failed.
    StreamFailed,
    /// The fetch gave a new snapshot.
    Fetched,
    /// The fetch failed.
    FetchFailed,
}

/// What the worker is to do next.
#[derive(Debug, Clone, Copy, PartialEq, Eq, Structural)]
pub enum WorkerAction {
    /// Read the next notification.
    ReadNext,
    /// Fetch the configuration and build a snapshot.
    Fetch,
    /// Put the fetched snapshot in place, then read the next notification.
    ReplaceSnapshot,
    /// End the worker.
    Stop,
}

/// The next state and action of the worker.
pub open spec fn step_spec(state: WorkerState, event: WorkerEvent) -> (WorkerState, WorkerAction) {
    match state {
        WorkerState::Stopped => (WorkerState::Stopped, WorkerAction::Stop),
        WorkerState::Waiting => match event {
            WorkerEvent::Heartbeat | WorkerEvent::Ignored => (WorkerState::Waiting, WorkerAction::ReadNext),
            WorkerEvent::Changed => (WorkerState::Fetching, WorkerAction::Fetch),
            _ => (WorkerState::Stopped, WorkerAction::Stop),
        },
        WorkerState::Fetching => match event {
            WorkerEvent::Fetched => (WorkerState::Waiting, WorkerAction::ReplaceSnapshot),
            _ => (WorkerState::Stopped, WorkerAction::Stop),
        },
    }
}

/// Decides the worker's next state and action.
pub fn step(state: WorkerState, event: WorkerEvent) -> (r: (WorkerState, WorkerAction))
    ensures
        r == step_spec(state, event),
{
    match state {
        WorkerState::Stopped => (WorkerState::Stopped, WorkerAction::Stop),
        WorkerState::Waiting => match event {
            WorkerEvent::Heartbeat | WorkerEvent::Ignored => (WorkerState::Waiting, WorkerAction::ReadNext),
            WorkerEvent::Changed => (WorkerState::Fetching, WorkerAction::Fetch),
            _ => (WorkerState::Stopped, WorkerAction::Stop),
        },
        WorkerState::Fetching => match event {
            WorkerEvent::Fetched => (WorkerState::Waiting, WorkerAction::ReplaceSnapshot),
            _ => (WorkerState::Stopped, WorkerAction::Stop),
        },
    }
}

/// The periodic message by which the server says that nothing has changed.
pub open spec fn heartbeat_text() -> Seq<char> {
    "test message"@
}

/// What a text message of the notification stream means.
pub fn classify_text(text: &str) -> (r: WorkerEvent)
    ensures
        r == (if text@ == heartbeat_text() {
            WorkerEvent::Heartbeat
        } else {
            WorkerEvent::Changed
        }),
{
    if text_eq(text, "test message") {
        WorkerEvent::Heartbeat
    } else {
        WorkerEvent::Changed
    }
}

/// Once stopped, the worker stays stopped whatever happens.
pub proof fn stopped_is_final(event: WorkerEvent)
    ensures
        step_spec(WorkerState::Stopped, event) == (WorkerState::Stopped, WorkerAction::Stop),
{
}

/// A failure never leads to a retry: the worker stops and the snapshot in
/// place stays.
pub proof fn failures_stop_the_worker(state: WorkerState, event: WorkerEvent)
    requires
        event == WorkerEvent::Closed || event == WorkerEvent::StreamFailed || event
            == WorkerEvent::FetchFailed || event == WorkerEvent::Cancelled,
    ensures
        step_spec(state, event) == (WorkerState::Stopped, WorkerAction::Stop),
{
}

} // verus!
