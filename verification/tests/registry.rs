use lmdb_queue::Env;
use queue_bridge::registry::{Queue, QueueError};

fn open_env(dir: &tempfile::TempDir) -> Env {
    Env::new(dir.path().join("queue-data"), None, None).expect("open env")
}

#[test]
fn test_init_idempotent() {
    let dir = tempfile::tempdir().expect("tempdir");
    let env = open_env(&dir);
    let mut queue = Queue::new(&env);

    queue.init_topic("ddj").expect("first init");
    queue.init_topic("ddj").expect("second init");

    let lags = queue.lags();
    assert_eq!(lags.len(), 1);
    assert_eq!(lags[0].queue_id, "ddj");
    assert_eq!(lags[0].lag, 0);
}

#[test]
fn test_push_only_lag_count() {
    let dir = tempfile::tempdir().expect("tempdir");
    let env = open_env(&dir);
    let mut queue = Queue::new(&env);

    let mut last_lag = 0u64;
    for i in 0..1000 {
        let msg = format!("msg: {i}");
        queue.push_back("ddj", msg.as_bytes()).expect("push");
        if i % 100 == 0 {
            let lags = queue.lags();
            assert_eq!(lags.len(), 1);
            assert!(lags[0].lag >= last_lag);
            last_lag = lags[0].lag;
        }
    }

    let lags = queue.lags();
    assert_eq!(lags.len(), 1);
    assert_eq!(lags[0].queue_id, "ddj");
    assert_eq!(lags[0].lag, 1000);
}

#[test]
fn test_push_order_preserved() {
    let dir = tempfile::tempdir().expect("tempdir");
    let env = open_env(&dir);
    let mut queue = Queue::new(&env);

    queue.push_back("ddj", b"m1").expect("push m1");
    queue.push_back("ddj", b"m2").expect("push m2");
    queue.push_back("ddj", b"m3").expect("push m3");

    let mut consumer = env.consumer("ddj", None).expect("consumer");
    let items = consumer.pop_front_n(10).expect("pop");
    let got: Vec<Vec<u8>> = items.into_iter().map(|item| item.data).collect();
    assert_eq!(got, vec![b"m1".to_vec(), b"m2".to_vec(), b"m3".to_vec()]);
}

#[test]
fn test_cross_topic_non_interference() {
    let dir = tempfile::tempdir().expect("tempdir");
    let env = open_env(&dir);
    let mut queue = Queue::new(&env);

    // interleave pushes to two topics
    for i in 0..50 {
        queue
            .push_back("alpha", format!("a{i}").as_bytes())
            .expect("push alpha");
        queue
            .push_back("beta", format!("b{i}").as_bytes())
            .expect("push beta");
    }

    let lags = queue.lags();
    assert_eq!(lags.len(), 2);
    assert_eq!(lags[0].queue_id, "alpha");
    assert_eq!(lags[0].lag, 50);
    assert_eq!(lags[1].queue_id, "beta");
    assert_eq!(lags[1].lag, 50);

    let mut consumer = env.consumer("alpha", None).expect("consumer");
    let items = consumer.pop_front_n(100).expect("pop");
    assert_eq!(items.len(), 50);
    for (i, item) in items.iter().enumerate() {
        assert_eq!(item.data, format!("a{i}").into_bytes());
    }
    let mut consumer = env.consumer("beta", None).expect("consumer");
    let items = consumer.pop_front_n(100).expect("pop");
    assert_eq!(items.len(), 50);
    for (i, item) in items.iter().enumerate() {
        assert_eq!(item.data, format!("b{i}").into_bytes());
    }
}

#[test]
fn test_lags_reports_every_topic() {
    let dir = tempfile::tempdir().expect("tempdir");
    let env = open_env(&dir);
    let mut queue = Queue::new(&env);

    queue.init_topic("one").expect("init one");
    queue.push_back("two", b"payload").expect("push two");
    queue.init_topic("three").expect("init three");

    let lags = queue.lags();
    assert_eq!(lags.len(), 3);
    assert_eq!(lags[0].queue_id, "one");
    assert_eq!(lags[0].lag, 0);
    assert_eq!(lags[1].queue_id, "two");
    assert_eq!(lags[1].lag, 1);
    assert_eq!(lags[2].queue_id, "three");
    assert_eq!(lags[2].lag, 0);
}

#[test]
fn test_open_failed_leaves_registry_unchanged() {
    let dir = tempfile::tempdir().expect("tempdir");
    // room for the databases of a single topic only
    let env = Env::new(dir.path().join("queue-data"), Some(1), None).expect("open env");
    let mut queue = Queue::new(&env);

    queue.init_topic("first").expect("init first");
    let err = queue.init_topic("second").expect_err("second topic must not fit");
    assert_eq!(err, QueueError::OpenFailed);

    let err = queue
        .push_back("second", b"payload")
        .expect_err("push to unopenable topic");
    assert_eq!(err, QueueError::OpenFailed);

    let lags = queue.lags();
    assert_eq!(lags.len(), 1);
    assert_eq!(lags[0].queue_id, "first");
}

#[test]
fn test_append_failed_keeps_topic_known() {
    let dir = tempfile::tempdir().expect("tempdir");
    // a store so small that it can be filled up
    let env = Env::new(dir.path().join("queue-data"), Some(500), Some(64 * 1024)).expect("open env");
    let mut queue = Queue::new(&env);

    queue.init_topic("ddj").expect("init");

    // exhaust the store's map with further topics
    let mut fillers = 0;
    while queue.init_topic(&format!("filler{fillers}")).is_ok() {
        fillers += 1;
        assert!(fillers < 1000, "store never filled up");
    }

    // appends to the known topic can no longer be recorded
    let mut saw_append_failure = false;
    for _ in 0..100 {
        match queue.push_back("ddj", b"payload") {
            Ok(()) => {}
            Err(QueueError::AppendFailed) => {
                saw_append_failure = true;
                break;
            }
            Err(e) => panic!("unexpected error: {e:?}"),
        }
    }
    assert!(saw_append_failure);

    // the topic stays known and later snapshots still report it
    let lags = queue.lags();
    assert_eq!(lags.len(), 1 + fillers);
    assert_eq!(lags[0].queue_id, "ddj");
}
