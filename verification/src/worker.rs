//! Control logic of one subscribe worker.
//!
//! One worker exists per (endpoint, topic). It cycles through three states:
//! `Disconnected` (about to issue a subscribe call), `Streaming` (reading
//! messages and forwarding each into the local registry) and `BackingOff`
//! (waiting a fixed delay before retrying). There is no terminal state: a
//! worker retries indefinitely, whatever fails.
//!
//! The functions here decide; the surrounding runtime performs the network
//! calls and the delay, and feeds each outcome back as a [`WorkerEvent`].

use vstd::prelude::*;

verus! {

/// Control state of a subscribe worker.
#[derive(Clone, Copy, Debug, PartialEq, Eq, Structural)]
pub enum WorkerState {
    /// No stream is open; the next action is to issue a subscribe call.
    Disconnected,
    /// A stream is open; messages are read and forwarded one at a time.
    Streaming,
    /// The last cycle failed; the worker waits a fixed delay before retrying.
    BackingOff,
}

/// Outcome of the action the worker asked for last.
#[derive(Clone, Copy, Debug, PartialEq, Eq, Structural)]
pub enum WorkerEvent {
    /// The subscribe call opened a stream.
    SubscribeOk,
    /// The subscribe call failed to open a stream.
    SubscribeErr,
    /// A message was read from the stream; it is ready to be forwarded.
    MessageArrived,
    /// The stream ended or a read failed.
    StreamClosed,
    /// The message was durably appended to the local queue.
    PushOk,
    /// The local append failed; the message was not recorded.
    PushErr,
    /// The backoff delay elapsed.
    BackoffElapsed,
}

/// What the worker asks its runtime to do next.
#[derive(Clone, Copy, Debug, PartialEq, Eq, Structural)]
pub enum WorkerAction {
    /// Issue a subscribe call for the worker's topic.
    IssueSubscribe,
    /// Read the next message from the open stream.
    ReadMessage,
    /// Forward the message just read into the local registry.
    PushMessage,
    /// Wait the fixed backoff delay.
    Wait,
}

/// Which outcomes can be reported in which state: an event is the result of
/// the one action the worker asked for while in that state.
pub open spec fn event_fits(state: WorkerState, event: WorkerEvent) -> bool {
    match state {
        WorkerState::Disconnected => event == WorkerEvent::SubscribeOk || event
            == WorkerEvent::SubscribeErr,
        WorkerState::Streaming => event == WorkerEvent::MessageArrived || event
            == WorkerEvent::StreamClosed || event == WorkerEvent::PushOk || event
            == WorkerEvent::PushErr,
        WorkerState::BackingOff => event == WorkerEvent::BackoffElapsed,
    }
}

/// Which outcomes an action can produce.
pub open spec fn event_answers(action: WorkerAction, event: WorkerEvent) -> bool {
    match action {
        WorkerAction::IssueSubscribe => event == WorkerEvent::SubscribeOk || event
            == WorkerEvent::SubscribeErr,
        WorkerAction::ReadMessage => event == WorkerEvent::MessageArrived || event
            == WorkerEvent::StreamClosed,
        WorkerAction::PushMessage => event == WorkerEvent::PushOk || event == WorkerEvent::PushErr,
        WorkerAction::Wait => event == WorkerEvent::BackoffElapsed,
    }
}

/// The transition table of the worker: next state and next action for each
/// state and outcome.
pub open spec fn step_spec(state: WorkerState, event: WorkerEvent) -> (WorkerState, WorkerAction) {
    match (state, event) {
        (WorkerState::Disconnected, WorkerEvent::SubscribeOk) => (
            WorkerState::Streaming,
            WorkerAction::ReadMessage,
        ),
        (WorkerState::Disconnected, _) => (WorkerState::BackingOff, WorkerAction::Wait),
        (WorkerState::Streaming, WorkerEvent::MessageArrived) => (
            WorkerState::Streaming,
            WorkerAction::PushMessage,
        ),
        (WorkerState::Streaming, WorkerEvent::PushOk) => (
            WorkerState::Streaming,
            WorkerAction::ReadMessage,
        ),
        (WorkerState::Streaming, _) => (WorkerState::BackingOff, WorkerAction::Wait),
        (WorkerState::BackingOff, _) => (WorkerState::Disconnected, WorkerAction::IssueSubscribe),
    }
}

/// The state a worker starts in: no stream is open yet.
pub fn initial_state() -> (r: WorkerState)
    ensures
        r == WorkerState::Disconnected,
{
    WorkerState::Disconnected
}

/// The action pending in the initial state: issue the first subscribe call.
pub fn initial_action() -> (r: WorkerAction)
    ensures
        r == WorkerAction::IssueSubscribe,
{
    WorkerAction::IssueSubscribe
}

/// Advance the worker by one outcome: report what the last action came to,
/// get the next state and the next action.
pub fn step(state: WorkerState, event: WorkerEvent) -> (r: (WorkerState, WorkerAction))
    ensures
        r == step_spec(state, event),
{
    match (state, event) {
        (WorkerState::Disconnected, WorkerEvent::SubscribeOk) => (
            WorkerState::Streaming,
            WorkerAction::ReadMessage,
        ),
        (WorkerState::Disconnected, _) => (WorkerState::BackingOff, WorkerAction::Wait),
        (WorkerState::Streaming, WorkerEvent::MessageArrived) => (
            WorkerState::Streaming,
            WorkerAction::PushMessage,
        ),
        (WorkerState::Streaming, WorkerEvent::PushOk) => (
            WorkerState::Streaming,
            WorkerAction::ReadMessage,
        ),
        (WorkerState::Streaming, _) => (WorkerState::BackingOff, WorkerAction::Wait),
        (WorkerState::BackingOff, _) => (WorkerState::Disconnected, WorkerAction::IssueSubscribe),
    }
}

/// A worker is never stuck: whatever outcome fits the current state, the
/// action it steps to can produce an outcome, and that outcome fits the state
/// it steps to. So the cycle goes on indefinitely; there is no terminal state.
pub proof fn lemma_worker_never_stuck(state: WorkerState, event: WorkerEvent, answer: WorkerEvent)
    requires
        event_fits(state, event),
        event_answers(step_spec(state, event).1, answer),
    ensures
        event_fits(step_spec(state, event).0, answer),
{
}

/// A failed subscribe call sends the worker into backoff, and once the delay
/// has elapsed it issues a subscribe call again: after an error the worker
/// retries, it never terminates.
pub proof fn lemma_retry_after_subscribe_error()
    ensures
        step_spec(WorkerState::Disconnected, WorkerEvent::SubscribeErr) == (
            WorkerState::BackingOff,
            WorkerAction::Wait,
        ),
        step_spec(WorkerState::BackingOff, WorkerEvent::BackoffElapsed) == (
            WorkerState::Disconnected,
            WorkerAction::IssueSubscribe,
        ),
{
}

/// A failed local append abandons the stream iteration: the worker moves to
/// backoff and in particular does not read (and silently discard) further
/// messages. From backoff, the only continuation is to wait and then open a
/// fresh subscribe call; no message is forwarded before that.
pub proof fn lemma_push_failure_aborts_iteration()
    ensures
        step_spec(WorkerState::Streaming, WorkerEvent::PushErr) == (
            WorkerState::BackingOff,
            WorkerAction::Wait,
        ),
        step_spec(WorkerState::Streaming, WorkerEvent::PushErr).1 != WorkerAction::ReadMessage,
        forall|e: WorkerEvent|
            event_fits(WorkerState::BackingOff, e) ==> step_spec(WorkerState::BackingOff, e) == (
                WorkerState::Disconnected,
                WorkerAction::IssueSubscribe,
            ),
{
}

} // verus!
