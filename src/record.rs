use vstd::prelude::*;

use crate::level::{level_name, level_value, LogLevel};

verus! {

/// A wall-clock reading: whole seconds since the epoch and the sub-second
/// part in milliseconds.
#[derive(Debug, Clone, Copy, PartialEq, Eq, Structural)]
pub struct Timestamp {
    pub secs: i64,
    /// Below 1000, or up to 1999 while a leap second is being represented.
    pub millis: u32,
}

/// Relies on `chrono::Local::now`, `DateTime::timestamp` and
/// `DateTime::timestamp_subsec_millis`: the current time, whose millisecond
/// part is below 2000 (leap seconds reach past 999).
#[verifier::external_body]
fn read_clock() -> (r: Timestamp)
    ensures
        r.millis < 2000,
{
    let now = chrono::Local::now();
    Timestamp { secs: now.timestamp(), millis: now.timestamp_subsec_millis() }
}

impl Timestamp {
    /// The current wall-clock time.
    pub fn now() -> (r: Timestamp)
        ensures
            r.millis < 2000,
    {
        read_clock()
    }
}

/// What is known of the calling thread when a record is made.
#[derive(Debug, Clone)]
pub struct ThreadInfo {
    pub id: u64,
    /// The platform's name of the thread, if it has one.
    pub platform_name: Option<String>,
    /// A name set explicitly for this thread; it wins over the platform's.
    pub override_name: Option<String>,
}

/// The immutable snapshot of one log event.
#[derive(Debug, Clone)]
pub struct LogRecord {
    pub name: String,
    pub levelno: i32,
    pub levelname: String,
    pub pathname: String,
    pub filename: String,
    pub module: String,
    pub lineno: u32,
    pub func_name: String,
    /// Creation time, whole seconds since the epoch.
    pub created: i64,
    /// Millisecond part of the creation time, below 1000.
    pub msecs: u32,
    /// Milliseconds since the process started.
    pub relative_created: u64,
    pub thread: u64,
    pub thread_name: String,
    pub process_name: String,
    pub process: u32,
    /// The message, with any argument substitution already applied.
    pub msg: String,
    pub exc_text: Option<String>,
    pub stack_info: Option<String>,
    pub task_name: Option<String>,
    /// Structured key/value pairs attached by the caller, in order.
    pub extra: Vec<(String, String)>,
}

/// The thread name a record carries: the override, else the platform name,
/// else `unnamed`.
pub open spec fn chosen_thread_name(t: ThreadInfo) -> Seq<char> {
    match t.override_name {
        Some(n) => n@,
        None => match t.platform_name {
            Some(n) => n@,
            None => "unnamed"@,
        },
    }
}

/// The fields every freshly made record has, whatever the clock says.
pub open spec fn fresh_record(
    r: LogRecord,
    name: Seq<char>,
    level: LogLevel,
    msg: Seq<char>,
) -> bool {
    &&& r.name@ == name
    &&& r.levelno == level_value(level)
    &&& r.levelname@ == level_name(level)
    &&& r.msg@ == msg
    &&& r.pathname@.len() == 0
    &&& r.filename@.len() == 0
    &&& r.module@.len() == 0
    &&& r.func_name@.len() == 0
    &&& r.lineno == 0
    &&& r.process_name@.len() == 0
    &&& r.relative_created == 0
    &&& r.exc_text.is_none()
    &&& r.stack_info.is_none()
    &&& r.task_name.is_none()
}

/// `a` and `b` hold the same values in every field.
pub open spec fn same_record(a: LogRecord, b: LogRecord) -> bool {
    &&& a.name == b.name
    &&& a.levelno == b.levelno
    &&& a.levelname == b.levelname
    &&& a.pathname == b.pathname
    &&& a.filename == b.filename
    &&& a.module == b.module
    &&& a.lineno == b.lineno
    &&& a.func_name == b.func_name
    &&& a.created == b.created
    &&& a.msecs == b.msecs
    &&& a.relative_created == b.relative_created
    &&& a.thread == b.thread
    &&& a.thread_name == b.thread_name
    &&& a.process_name == b.process_name
    &&& a.process == b.process
    &&& a.msg == b.msg
    &&& a.exc_text == b.exc_text
    &&& a.stack_info == b.stack_info
    &&& a.task_name == b.task_name
    &&& a.extra@ == b.extra@
}

fn clone_opt(o: &Option<String>) -> (r: Option<String>)
    ensures
        r == *o,
{
    match o {
        Some(s) => Some(s.clone()),
        None => None,
    }
}

fn clone_pairs(v: &Vec<(String, String)>) -> (r: Vec<(String, String)>)
    ensures
        r@ == v@,
{
    let mut out: Vec<(String, String)> = Vec::new();
    let mut i: usize = 0;
    while i < v.len()
        invariant
            i <= v.len(),
            out@ == v@.subrange(0, i as int),
        decreases v.len() - i,
    {
        let (k, x) = &v[i];
        out.push((k.clone(), x.clone()));
        i = i + 1;
        assert(out@ =~= v@.subrange(0, i as int));
    }
    assert(out@ =~= v@);
    out
}

fn empty_string() -> (r: String)
    ensures
        r@.len() == 0,
{
    String::new()
}

/// Builds a record for logger `name` at `level`, stamped with the clock
/// reading `now`, the calling thread and the process id. Source location
/// fields stay empty: finding the call site is left to callers that ask.
pub fn create_log_record(
    name: String,
    level: LogLevel,
    msg: String,
    now: Timestamp,
    thread: &ThreadInfo,
    process: u32,
) -> (r: LogRecord)
    ensures
        fresh_record(r, name@, level, msg@),
        r.created == now.secs,
        r.msecs == now.millis % 1000,
        r.thread == thread.id,
        r.thread_name@ == chosen_thread_name(*thread),
        r.process == process,
        r.extra@.len() == 0,
{
    let thread_name = match &thread.override_name {
        Some(n) => n.clone(),
        None => match &thread.platform_name {
            Some(n) => n.clone(),
            None => String::from_str("unnamed"),
        },
    };
    LogRecord {
        name,
        levelno: level.value() as i32,
        levelname: level.name(),
        pathname: empty_string(),
        filename: empty_string(),
        module: empty_string(),
        lineno: 0,
        func_name: empty_string(),
        created: now.secs,
        msecs: now.millis % 1000,
        relative_created: 0,
        thread: thread.id,
        thread_name,
        process_name: empty_string(),
        process,
        msg,
        exc_text: None,
        stack_info: None,
        task_name: None,
        extra: Vec::new(),
    }
}

impl LogRecord {
    /// A field-for-field copy of the record.
    pub fn duplicate(&self) -> (r: LogRecord)
        ensures
            same_record(r, *self),
    {
        LogRecord {
            name: self.name.clone(),
            levelno: self.levelno,
            levelname: self.levelname.clone(),
            pathname: self.pathname.clone(),
            filename: self.filename.clone(),
            module: self.module.clone(),
            lineno: self.lineno,
            func_name: self.func_name.clone(),
            created: self.created,
            msecs: self.msecs,
            relative_created: self.relative_created,
            thread: self.thread,
            thread_name: self.thread_name.clone(),
            process_name: self.process_name.clone(),
            process: self.process,
            msg: self.msg.clone(),
            exc_text: clone_opt(&self.exc_text),
            stack_info: clone_opt(&self.stack_info),
            task_name: clone_opt(&self.task_name),
            extra: clone_pairs(&self.extra),
        }
    }

    /// The same record with the structured pairs `extra` attached.
    pub fn with_extra(self, extra: Vec<(String, String)>) -> (r: LogRecord)
        ensures
            same_record(r, (LogRecord { extra, ..self })),
    {
        LogRecord { extra, ..self }
    }
}

} // verus!
