use appconfiguration::refresh::{classify_text, step, WorkerAction, WorkerEvent, WorkerState};

#[test]
fn heartbeat_is_ignored_and_change_fetches() {
    assert_eq!(classify_text("test message"), WorkerEvent::Heartbeat);
    assert_eq!(classify_text("test message!"), WorkerEvent::Changed);
    assert_eq!(classify_text("{\"event\":\"update\"}"), WorkerEvent::Changed);
    assert_eq!(step(WorkerState::Waiting, WorkerEvent::Heartbeat), (WorkerState::Waiting, WorkerAction::ReadNext));
    assert_eq!(step(WorkerState::Waiting, WorkerEvent::Ignored), (WorkerState::Waiting, WorkerAction::ReadNext));
    assert_eq!(step(WorkerState::Waiting, WorkerEvent::Changed), (WorkerState::Fetching, WorkerAction::Fetch));
    assert_eq!(
        step(WorkerState::Fetching, WorkerEvent::Fetched),
        (WorkerState::Waiting, WorkerAction::ReplaceSnapshot)
    );
}

#[test]
fn failures_and_cancellation_stop_without_retry() {
    for event in [WorkerEvent::Closed, WorkerEvent::StreamFailed, WorkerEvent::Cancelled] {
        assert_eq!(step(WorkerState::Waiting, event), (WorkerState::Stopped, WorkerAction::Stop));
    }
    assert_eq!(step(WorkerState::Fetching, WorkerEvent::FetchFailed), (WorkerState::Stopped, WorkerAction::Stop));
    for event in [WorkerEvent::Changed, WorkerEvent::Heartbeat, WorkerEvent::Fetched] {
        assert_eq!(step(WorkerState::Stopped, event), (WorkerState::Stopped, WorkerAction::Stop));
    }
}
