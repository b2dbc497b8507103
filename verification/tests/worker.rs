use queue_bridge::worker::{initial_action, initial_state, step, WorkerAction, WorkerEvent, WorkerState};

#[test]
fn test_worker_happy_path() {
    let state = initial_state();
    assert_eq!(state, WorkerState::Disconnected);
    assert_eq!(initial_action(), WorkerAction::IssueSubscribe);

    let (state, action) = step(state, WorkerEvent::SubscribeOk);
    assert_eq!(state, WorkerState::Streaming);
    assert_eq!(action, WorkerAction::ReadMessage);

    let (state, action) = step(state, WorkerEvent::MessageArrived);
    assert_eq!(state, WorkerState::Streaming);
    assert_eq!(action, WorkerAction::PushMessage);

    let (state, action) = step(state, WorkerEvent::PushOk);
    assert_eq!(state, WorkerState::Streaming);
    assert_eq!(action, WorkerAction::ReadMessage);
}

#[test]
fn test_worker_retries_after_subscribe_error() {
    let (state, action) = step(WorkerState::Disconnected, WorkerEvent::SubscribeErr);
    assert_eq!(state, WorkerState::BackingOff);
    assert_eq!(action, WorkerAction::Wait);

    // once the delay has elapsed, the worker subscribes again
    let (state, action) = step(state, WorkerEvent::BackoffElapsed);
    assert_eq!(state, WorkerState::Disconnected);
    assert_eq!(action, WorkerAction::IssueSubscribe);
}

#[test]
fn test_worker_push_failure_aborts_iteration() {
    let (state, action) = step(WorkerState::Streaming, WorkerEvent::PushErr);
    assert_eq!(state, WorkerState::BackingOff);
    assert_eq!(action, WorkerAction::Wait);
    assert_ne!(action, WorkerAction::ReadMessage);
}

#[test]
fn test_worker_forwards_stream_in_order() {
    // one stream iteration, simulated: the worker reads three messages and
    // forwards each into a real registry, then the stream ends
    let dir = tempfile::tempdir().expect("tempdir");
    let env = lmdb_queue::Env::new(dir.path().join("queue-data"), None, None).expect("open env");
    let mut queue = queue_bridge::registry::Queue::new(&env);

    let msgs: Vec<&[u8]> = vec![b"m1", b"m2", b"m3"];
    let mut remaining = msgs.iter();
    let mut pending: &[u8] = b"";

    let mut state = initial_state();
    let mut action = initial_action();
    loop {
        let event = match action {
            WorkerAction::IssueSubscribe => WorkerEvent::SubscribeOk,
            WorkerAction::ReadMessage => match remaining.next() {
                Some(m) => {
                    pending = m;
                    WorkerEvent::MessageArrived
                }
                None => WorkerEvent::StreamClosed,
            },
            WorkerAction::PushMessage => {
                queue.push_back("ddj", pending).expect("push");
                WorkerEvent::PushOk
            }
            WorkerAction::Wait => break,
        };
        let next = step(state, event);
        state = next.0;
        action = next.1;
    }
    assert_eq!(state, WorkerState::BackingOff);

    let mut consumer = env.consumer("ddj", None).expect("consumer");
    let items = consumer.pop_front_n(10).expect("pop");
    let got: Vec<Vec<u8>> = items.into_iter().map(|item| item.data).collect();
    assert_eq!(got, vec![b"m1".to_vec(), b"m2".to_vec(), b"m3".to_vec()]);
}

#[test]
fn test_worker_stream_close_backs_off() {
    let (state, action) = step(WorkerState::Streaming, WorkerEvent::StreamClosed);
    assert_eq!(state, WorkerState::BackingOff);
    assert_eq!(action, WorkerAction::Wait);
}
