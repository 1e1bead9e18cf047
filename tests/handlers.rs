use std::collections::HashMap;

use logxide::{
    rollover_steps, BatchWorker, BoundedQueue, FileHandler, FileOp, LogLevel, LogRecord, MemoryHandler,
    RotatingFileHandler, RotationState, ThreadInfo, Timestamp, WorkerAction, WorkerEvent,
};

fn record(name: &str, level: LogLevel, msg: &str) -> LogRecord {
    let t = ThreadInfo { id: 3, platform_name: Some("worker".to_string()), override_name: None };
    logxide::create_log_record(name.to_string(), level, msg.to_string(), Timestamp { secs: 100, millis: 42 }, &t, 1)
}

/// Files by index (0 is the active file), as the steps describe them.
fn run(files: &mut HashMap<u32, String>, steps: &[FileOp]) {
    for op in steps {
        match *op {
            FileOp::Flush => {}
            FileOp::Truncate => {
                files.insert(0, String::new());
            }
            FileOp::RemoveAbove(k) => {
                files.retain(|i, _| *i <= k);
            }
            FileOp::Rename(a, b) => {
                if let Some(c) = files.remove(&a) {
                    files.insert(b, c);
                }
            }
            FileOp::Reopen => {
                files.entry(0).or_default();
            }
        }
    }
}

#[test]
fn rotation_boundary_keeps_two_backups() {
    let mut files: HashMap<u32, String> = HashMap::new();
    files.insert(0, String::new());
    let mut st = RotationState::new(100, 2, 0);
    let line = "x".repeat(39) + "\n"; // 40 bytes
    let mut rotations = 0;
    let mut written = 0;
    let mut pre_rotation = String::new();
    for _ in 0..3 {
        let steps = st.prepare_write(40);
        if !steps.is_empty() {
            rotations += 1;
            pre_rotation = files[&0].clone();
            run(&mut files, &steps);
        }
        files.get_mut(&0).unwrap().push_str(&line);
        written += 40;
    }
    assert_eq!(written, 120);
    assert_eq!(rotations, 1);
    assert_eq!(files[&1], pre_rotation);
    assert_eq!(files[&1].len(), 80);
    assert_eq!(files[&0].len(), 40);
    assert_eq!(st.current_size, 40);
    for _ in 0..6 {
        let steps = st.prepare_write(40);
        run(&mut files, &steps);
        files.get_mut(&0).unwrap().push_str(&line);
    }
    assert!(files.contains_key(&1));
    assert!(files.contains_key(&2));
    assert!(!files.contains_key(&3));
}

#[test]
fn rollover_steps_shift_from_the_top() {
    assert_eq!(
        rollover_steps(3),
        vec![
            FileOp::Flush,
            FileOp::RemoveAbove(2),
            FileOp::Rename(2, 3),
            FileOp::Rename(1, 2),
            FileOp::Rename(0, 1),
            FileOp::Reopen
        ]
    );
    assert_eq!(rollover_steps(1), vec![FileOp::Flush, FileOp::RemoveAbove(0), FileOp::Rename(0, 1), FileOp::Reopen]);
}

#[test]
fn rotation_without_backups_truncates() {
    let mut files: HashMap<u32, String> = HashMap::new();
    files.insert(0, String::new());
    let mut st = RotationState::new(100, 0, 0);
    for _ in 0..10 {
        let steps = st.prepare_write(40);
        if !steps.is_empty() {
            assert_eq!(steps, vec![FileOp::Flush, FileOp::Truncate]);
        }
        run(&mut files, &steps);
        files.get_mut(&0).unwrap().push_str(&"y".repeat(40));
        assert!(!files.contains_key(&1));
    }
    assert!(files[&0].len() <= 80);
}

#[test]
fn oversized_record_still_rolls_over() {
    let mut st = RotationState::new(10, 1, 0);
    assert!(st.should_rollover(11));
    let steps = st.prepare_write(11);
    assert_eq!(steps.len(), 4);
    assert_eq!(st.current_size, 11);
    let mut never = RotationState::new(0, 3, 5);
    assert!(never.prepare_write(u64::MAX).is_empty());
    assert_eq!(never.current_size, u64::MAX);
}

#[test]
fn rotating_handler_counts_line_bytes() {
    let mut h = RotatingFileHandler::new(100, 2, 0);
    h.set_level(LogLevel::Info);
    assert!(h.emit(&record("r", LogLevel::Debug, "skip")).is_none());
    let w = h.emit(&record("r", LogLevel::Error, "é")).unwrap();
    assert_eq!(w.bytes as usize, w.text.len());
    assert!(w.text.ends_with("ERROR r - é\n"));
    assert!(w.text.contains("[Thread-3 worker]"));
    assert!(w.flush);
    assert_eq!(h.rotation.current_size, w.bytes);
    assert_eq!(h.get_flush_level(), LogLevel::Error);
}

#[test]
fn flush_only_at_flush_level() {
    let mut f = FileHandler::new();
    assert_eq!(f.get_flush_level(), LogLevel::Error);
    let d = f.emit(&record("f", LogLevel::Debug, "routine")).unwrap();
    assert!(!d.flush);
    assert!(d.text.ends_with(" - f - DEBUG - routine\n"));
    let e = f.emit(&record("f", LogLevel::Error, "bad")).unwrap();
    assert!(e.flush);
    f.set_flush_level(LogLevel::Debug);
    assert!(f.should_flush(&record("f", LogLevel::Debug, "now")));
    f.set_level(LogLevel::Critical);
    assert!(f.emit(&record("f", LogLevel::Error, "gated")).is_none());
}

#[test]
fn full_queue_drops_the_record() {
    let mut q = BoundedQueue::new(1);
    assert!(q.try_push(record("n", LogLevel::Info, "first")));
    assert!(!q.try_push(record("n", LogLevel::Info, "second")));
    assert_eq!(q.len(), 1);
    assert_eq!(q.pop().unwrap().msg, "first");
    assert!(q.pop().is_none());
}

#[test]
fn batch_goes_out_at_batch_size() {
    let mut w = BatchWorker::new(2, 1000, 0);
    assert!(matches!(w.step(WorkerEvent::Received(record("b", LogLevel::Info, "1")), false, 10), WorkerAction::Wait));
    match w.step(WorkerEvent::Received(record("b", LogLevel::Info, "2")), false, 20) {
        WorkerAction::Send(v) => {
            assert_eq!(v.len(), 2);
            assert_eq!(v[0].msg, "1");
            assert_eq!(v[1].msg, "2");
        }
        _ => panic!("expected a batch"),
    }
    assert_eq!(w.last_send_ms, 20);
    assert!(w.buffer.is_empty());
}

#[test]
fn batch_goes_out_after_interval_or_flush() {
    let mut w = BatchWorker::new(100, 1000, 0);
    w.step(WorkerEvent::Received(record("b", LogLevel::Info, "a")), false, 5);
    assert!(matches!(w.step(WorkerEvent::TimedOut, false, 500), WorkerAction::Wait));
    assert!(matches!(w.step(WorkerEvent::TimedOut, false, 1000), WorkerAction::Send(_)));
    w.step(WorkerEvent::Received(record("b", LogLevel::Info, "b")), false, 1001);
    assert!(matches!(w.step(WorkerEvent::TimedOut, true, 1002), WorkerAction::Send(_)));
    assert!(matches!(w.step(WorkerEvent::TimedOut, true, 1003), WorkerAction::Wait));
    match w.step(WorkerEvent::Received(record("b", LogLevel::Info, "c")), true, 1004) {
        WorkerAction::Send(v) => assert_eq!(v.len(), 1),
        _ => panic!("expected a batch"),
    }
}

#[test]
fn disconnect_drains_then_exits() {
    let mut w = BatchWorker::new(100, 1000, 0);
    w.step(WorkerEvent::Received(record("b", LogLevel::Info, "left")), false, 1);
    match w.step(WorkerEvent::Disconnected, false, 2) {
        WorkerAction::SendAndExit(v) => assert_eq!(v[0].msg, "left"),
        _ => panic!("expected a final batch"),
    }
    assert!(matches!(w.step(WorkerEvent::Disconnected, false, 3), WorkerAction::Exit));
    w.request_shutdown();
    assert!(w.should_exit());
}

#[test]
fn shutdown_sends_what_is_left() {
    let mut w = BatchWorker::new(100, 1_000_000, 0);
    w.step(WorkerEvent::Received(record("b", LogLevel::Info, "x")), false, 1);
    w.request_shutdown();
    assert!(!w.should_exit());
    assert!(matches!(w.step(WorkerEvent::TimedOut, false, 2), WorkerAction::Send(_)));
    assert!(w.should_exit());
}

#[test]
fn memory_round_trip_and_clear() {
    let mut m = MemoryHandler::new();
    m.emit(&record("a", LogLevel::Info, "one"));
    m.emit(&record("b", LogLevel::Error, "two"));
    m.emit(&record("c", LogLevel::Debug, "three"));
    assert_eq!(
        m.get_record_tuples(),
        vec![
            ("a".to_string(), 20, "one".to_string()),
            ("b".to_string(), 40, "two".to_string()),
            ("c".to_string(), 10, "three".to_string())
        ]
    );
    assert_eq!(m.get_text(), "one\ntwo\nthree\n");
    assert_eq!(m.get_records().len(), 3);
    m.clear();
    assert!(m.get_record_tuples().is_empty());
    m.set_level(LogLevel::Warning);
    m.emit(&record("a", LogLevel::Info, "gated"));
    assert!(m.get_records().is_empty());
}

#[test]
fn batching_settings_are_checked() {
    assert_eq!(logxide::validate_batching(0, 10), Err(logxide::BatchConfigError::ZeroCapacity));
    assert_eq!(logxide::validate_batching(5, 0), Err(logxide::BatchConfigError::ZeroBatchSize));
    assert_eq!(logxide::validate_batching(5, 10), Ok(()));
}

#[test]
fn rollover_clears_backups_beyond_the_count() {
    let mut files: HashMap<u32, String> = HashMap::new();
    files.insert(0, "live".to_string());
    files.insert(1, "one".to_string());
    files.insert(2, "stale".to_string());
    files.insert(5, "older".to_string());
    run(&mut files, &rollover_steps(1));
    assert_eq!(files[&0], "");
    assert_eq!(files[&1], "live");
    assert!(!files.contains_key(&2));
    assert!(!files.contains_key(&5));
}
