use logxide::{FilterRule, Handler, LogArg, LogLevel, Logging, MemoryHandler, RecordContext, ThreadInfo, Timestamp};

fn ctx() -> RecordContext {
    RecordContext {
        now: Timestamp { secs: 1_700_000_000, millis: 123 },
        thread: ThreadInfo { id: 7, platform_name: Some("main".to_string()), override_name: None },
        process: 4242,
    }
}

fn memory_tuples(l: &Logging, id: usize) -> Vec<(String, i32, String)> {
    match &l.handlers[id] {
        Handler::Memory(m) => m.get_record_tuples(),
        _ => panic!("not a memory handler"),
    }
}

#[test]
fn test_fast_logger_creation() {
    let mut l = Logging::new();
    let i = l.get_logger("test.logger");
    assert!(l.manager.loggers[i].name.len() > 0);
}

#[test]
fn test_level_checking() {
    let mut l = Logging::new();
    let i = l.get_logger("test");
    // Default level is Warning
    assert!(!l.is_enabled_for(i, LogLevel::Debug));
    assert!(!l.is_enabled_for(i, LogLevel::Info));
    assert!(l.is_enabled_for(i, LogLevel::Warning));
}

#[test]
fn test_get_cached_logger() {
    let mut l = Logging::new();
    let i = l.get_logger("test.cache");
    assert!(l.manager.loggers[i].name.len() > 0);
    let j = l.get_logger("test.cache");
    assert_eq!(i, j);
}

#[test]
fn hierarchy_creates_parent_chain() {
    let mut l = Logging::new();
    let c = l.get_logger("a.b.c");
    assert_eq!(l.manager.len(), 4);
    let b = l.manager.find(&"a.b".to_string()).unwrap();
    let a = l.manager.find(&"a".to_string()).unwrap();
    assert_eq!(l.manager.loggers[c].parent, Some(b));
    assert_eq!(l.manager.loggers[b].parent, Some(a));
    assert_eq!(l.manager.loggers[a].parent, Some(0));
    assert_eq!(l.manager.loggers[0].name, "root");
    assert_eq!(l.manager.loggers[0].parent, None);
    assert_eq!(l.get_logger("a.b"), b);
    assert_eq!(l.manager.len(), 4);
}

#[test]
fn root_name_gives_root() {
    let mut l = Logging::new();
    assert_eq!(l.get_logger("root"), 0);
    assert_eq!(l.get_root_logger(), 0);
    assert_eq!(l.manager.len(), 1);
}

#[test]
fn effective_level_inherits_and_overrides() {
    let mut l = Logging::new();
    let a = l.get_logger("a");
    let b = l.get_logger("a.b");
    l.set_level(a, LogLevel::Warning);
    assert_eq!(l.get_effective_level(b), LogLevel::Warning);
    l.set_level(b, LogLevel::Debug);
    assert_eq!(l.get_effective_level(b), LogLevel::Debug);
    assert_eq!(l.get_effective_level(a), LogLevel::Warning);
    assert_eq!(l.get_effective_level(0), LogLevel::Warning);
    l.set_level(b, LogLevel::NotSet);
    assert_eq!(l.get_effective_level(b), LogLevel::Warning);
}

#[test]
fn disabled_call_never_builds_the_message() {
    let mut l = Logging::new();
    let i = l.get_logger("quiet");
    l.set_level(i, LogLevel::Error);
    let mh = l.add_handler(Handler::Memory(MemoryHandler::new()));
    l.attach(i, mh);
    let called = std::cell::Cell::new(false);
    let outs = l.log_with(i, LogLevel::Info, || {
        called.set(true);
        "expensive".to_string()
    }, &ctx());
    assert!(outs.is_empty());
    assert!(!called.get());
    assert!(memory_tuples(&l, mh).is_empty());
    l.log_with(i, LogLevel::Error, || {
        called.set(true);
        "now".to_string()
    }, &ctx());
    assert!(called.get());
    assert_eq!(memory_tuples(&l, mh).len(), 1);
}

#[test]
fn rejecting_filter_stops_every_handler() {
    let mut l = Logging::new();
    let i = l.get_logger("f");
    let mh = l.add_handler(Handler::Memory(MemoryHandler::new()));
    let gh = l.add_handler(Handler::Memory(MemoryHandler::new()));
    l.attach(i, mh);
    l.attach(0, gh);
    l.add_filter(i, FilterRule::DenyAll);
    l.error(i, "dropped", &ctx());
    assert!(memory_tuples(&l, mh).is_empty());
    assert!(memory_tuples(&l, gh).is_empty());
}

#[test]
fn allow_all_filter_changes_nothing() {
    let mut l = Logging::new();
    let i = l.get_logger("f");
    let mh = l.add_handler(Handler::Memory(MemoryHandler::new()));
    l.attach(i, mh);
    l.add_filter(i, FilterRule::AllowAll);
    l.add_filter(i, FilterRule::AllowAll);
    l.error(i, "kept", &ctx());
    assert_eq!(memory_tuples(&l, mh), vec![("f".to_string(), 40, "kept".to_string())]);
}

#[test]
fn name_and_level_filters() {
    let mut l = Logging::new();
    let i = l.get_logger("app.db");
    let mh = l.add_handler(Handler::Memory(MemoryHandler::new()));
    l.attach(i, mh);
    l.add_filter(i, FilterRule::Name("app".to_string()));
    l.add_filter(i, FilterRule::MinLevel(40));
    l.warning(i, "low", &ctx());
    l.error(i, "high", &ctx());
    assert_eq!(memory_tuples(&l, mh), vec![("app.db".to_string(), 40, "high".to_string())]);
    let j = l.get_logger("application");
    let mj = l.add_handler(Handler::Memory(MemoryHandler::new()));
    l.attach(j, mj);
    l.add_filter(j, FilterRule::Name("app".to_string()));
    l.error(j, "other tree", &ctx());
    assert!(memory_tuples(&l, mj).is_empty());
}

#[test]
fn propagation_reaches_global_once() {
    let mut l = Logging::new();
    let i = l.get_logger("p");
    let shared = l.add_handler(Handler::Memory(MemoryHandler::new()));
    let global_only = l.add_handler(Handler::Memory(MemoryHandler::new()));
    l.attach(i, shared);
    l.attach(0, shared);
    l.attach(0, global_only);
    l.error(i, "one", &ctx());
    assert_eq!(memory_tuples(&l, shared).len(), 1);
    assert_eq!(memory_tuples(&l, global_only).len(), 1);
    l.set_propagate(i, false);
    l.error(i, "two", &ctx());
    assert_eq!(memory_tuples(&l, shared).len(), 2);
    assert_eq!(memory_tuples(&l, global_only).len(), 1);
}

#[test]
fn logger_without_handlers_uses_global_set() {
    let mut l = Logging::new();
    let i = l.get_logger("x.y");
    let g = l.add_handler(Handler::Memory(MemoryHandler::new()));
    l.attach(0, g);
    l.warning(i, "to global", &ctx());
    assert_eq!(memory_tuples(&l, g), vec![("x.y".to_string(), 30, "to global".to_string())]);
    l.clear_handlers();
    l.warning(i, "nowhere", &ctx());
    assert_eq!(memory_tuples(&l, g).len(), 1);
}

#[test]
fn end_to_end_warning_scenario() {
    let mut l = Logging::new();
    let w = l.get_logger("svc.worker");
    l.set_level(w, LogLevel::Info);
    let mh = l.add_handler(Handler::Memory(MemoryHandler::new()));
    l.attach(w, mh);
    l.log_args(w, LogLevel::Warning, "disk at %d%%", &vec![LogArg::Int(91)], &ctx());
    let recs = match &l.handlers[mh] {
        Handler::Memory(m) => m.get_records(),
        _ => panic!("not a memory handler"),
    };
    assert_eq!(recs.len(), 1);
    assert_eq!(recs[0].levelname, "WARNING");
    assert_eq!(recs[0].msg, "disk at 91%");
    assert_eq!(recs[0].name, "svc.worker");
    assert_eq!(recs[0].thread, 7);
    assert_eq!(recs[0].thread_name, "main");
    assert_eq!(recs[0].process, 4242);
    assert_eq!(recs[0].created, 1_700_000_000);
    assert_eq!(recs[0].msecs, 123);
    l.debug(w, "ignored", &ctx());
    assert_eq!(memory_tuples(&l, mh).len(), 1);
}

#[test]
fn outputs_name_their_handlers() {
    let mut l = Logging::new();
    let i = l.get_logger("o");
    let s = l.add_handler(Handler::Stream(logxide::StreamHandler::stdout()));
    let n = l.add_handler(Handler::Network(logxide::NetworkHandler::new()));
    let z = l.add_handler(Handler::Null(logxide::NullHandler::new()));
    l.attach(i, s);
    l.attach(i, n);
    l.attach(i, z);
    let outs = l.error(i, "boom", &ctx());
    assert_eq!(outs.len(), 2);
    match &outs[0] {
        logxide::Output::Stream { handler, destination, text } => {
            assert_eq!(*handler, s);
            assert_eq!(*destination, logxide::StreamDestination::Stdout);
            assert!(text.ends_with(" - o - ERROR - boom\n"));
        }
        _ => panic!("expected a stream output"),
    }
    match &outs[1] {
        logxide::Output::Network { handler, record, flush } => {
            assert_eq!(*handler, n);
            assert_eq!(record.msg, "boom");
            assert!(*flush);
        }
        _ => panic!("expected a network output"),
    }
    assert_eq!(l.flush_targets(i), vec![s, n, z]);
    assert_eq!(l.all_handlers(), vec![0, 1, 2]);
}

#[test]
fn thread_name_override_wins() {
    let t = ThreadInfo { id: 1, platform_name: Some("plat".to_string()), override_name: Some("mine".to_string()) };
    let r = logxide::create_log_record("n".to_string(), LogLevel::Info, "m".to_string(), Timestamp { secs: 5, millis: 1500 }, &t, 9);
    assert_eq!(r.thread_name, "mine");
    assert_eq!(r.msecs, 500);
    assert_eq!(r.levelno, 20);
    assert_eq!(r.levelname, "INFO");
    let t2 = ThreadInfo { id: 1, platform_name: None, override_name: None };
    let r2 = logxide::create_log_record("n".to_string(), LogLevel::Info, "m".to_string(), Timestamp { secs: 5, millis: 0 }, &t2, 9);
    assert_eq!(r2.thread_name, "unnamed");
}

#[test]
fn child_loggers_extend_the_name() {
    let mut l = Logging::new();
    let a = l.get_logger("svc");
    let c = l.get_child(a, "db");
    assert_eq!(l.manager.loggers[c].name, "svc.db");
    assert_eq!(l.manager.loggers[c].parent, Some(a));
    let e = l.get_logger("");
    let d = l.get_child(e, "top");
    assert_eq!(l.manager.loggers[d].name, "top");
}

#[test]
fn exception_appends_traceback() {
    let mut l = Logging::new();
    let i = l.get_logger("exc");
    let mh = l.add_handler(Handler::Memory(MemoryHandler::new()));
    l.attach(i, mh);
    l.exception(i, "failed", "Traceback: line 1", &ctx());
    assert_eq!(memory_tuples(&l, mh), vec![("exc".to_string(), 40, "failed\nTraceback: line 1".to_string())]);
}

#[test]
fn console_handler_writes_thread_line() {
    let mut l = Logging::new();
    let i = l.get_logger("con");
    let h = l.add_handler(Handler::Console(logxide::ConsoleHandler::new()));
    l.attach(i, h);
    assert!(l.info(i, "quiet", &ctx()).is_empty());
    l.set_level(i, LogLevel::Debug);
    assert!(l.info(i, "still below the handler", &ctx()).is_empty());
    let outs = l.error(i, "loud", &ctx());
    match &outs[0] {
        logxide::Output::Stream { text, .. } => {
            assert!(text.contains("[Thread-7 main] ERROR con - loud"));
        }
        _ => panic!("expected a stream output"),
    }
}

#[test]
fn handler_filter_skips_only_that_handler() {
    let mut l = Logging::new();
    let i = l.get_logger("hf");
    let a = l.add_handler(Handler::Memory(MemoryHandler::new()));
    let b = l.add_handler(Handler::Memory(MemoryHandler::new()));
    l.attach(i, a);
    l.attach(i, b);
    l.add_handler_filter(a, FilterRule::MinLevel(40));
    l.warning(i, "only b", &ctx());
    l.error(i, "both", &ctx());
    assert_eq!(memory_tuples(&l, a), vec![("hf".to_string(), 40, "both".to_string())]);
    assert_eq!(memory_tuples(&l, b).len(), 2);
}

#[test]
fn handler_level_can_change() {
    let mut l = Logging::new();
    let i = l.get_logger("hl");
    let m = l.add_handler(Handler::Memory(MemoryHandler::new()));
    l.attach(i, m);
    l.set_handler_level(m, LogLevel::Critical);
    l.error(i, "below", &ctx());
    assert!(memory_tuples(&l, m).is_empty());
    l.set_handler_level(m, LogLevel::Error);
    l.error(i, "at", &ctx());
    assert_eq!(memory_tuples(&l, m).len(), 1);
}

#[test]
fn handler_formatter_and_flush_level_can_change() {
    let mut l = Logging::new();
    let i = l.get_logger("hx");
    let f = l.add_handler(Handler::File(logxide::FileHandler::new()));
    l.attach(i, f);
    l.set_handler_formatter(f, logxide::PythonFormatter::new("%(levelname)s:%(message)s".to_string()));
    l.set_handler_flush_level(f, LogLevel::Warning);
    let outs = l.warning(i, "w", &ctx());
    match &outs[0] {
        logxide::Output::File { write, .. } => {
            assert_eq!(write.text, "WARNING:w\n");
            assert!(write.flush);
        }
        _ => panic!("expected a file output"),
    }
}
