use vstd::prelude::*;

use crate::filter::{Filter, FilterRule};
use crate::formatter::PythonFormatter;
use crate::level::{level_value, LogLevel};
use crate::memory::{captures, passes_level, MemoryHandler};
use crate::message::{format_message, message_text, LogArg};
use crate::record::{create_log_record, fresh_record, same_record, LogRecord, ThreadInfo, Timestamp};
use crate::rotation::{needs_rollover, rollover_plan, size_after};
use vstd::utf8::encode_utf8;
use crate::registry::{all_permit, copy_ids, filters_pass, own_then_global, absent_from, distinct, effective_level, targets, LoggerManager};
use crate::sinks::{is_line_for, ConsoleHandler, FileHandler, FileWrite, RotatingFileHandler, RotatingWrite, StreamDestination, StreamHandler};

verus! {

/// A batched network handler's gate. Its queue and sending loop belong to
/// the embedding program, which feeds them the records handed out here.
#[derive(Debug)]
pub struct NetworkHandler {
    pub level: LogLevel,
    pub flush_level: LogLevel,
}

impl NetworkHandler {
    /// Passes every level from `Debug` up; asks for a flush on `Error` and above.
    pub fn new() -> (r: NetworkHandler)
        ensures
            r.level == LogLevel::Debug,
            r.flush_level == LogLevel::Error,
    {
        NetworkHandler { level: LogLevel::Debug, flush_level: LogLevel::Error }
    }

    pub fn set_level(&mut self, level: LogLevel)
        ensures
            final(self).level == level,
            final(self).flush_level == old(self).flush_level,
    {
        self.level = level;
    }

    pub fn set_flush_level(&mut self, level: LogLevel)
        ensures
            final(self).flush_level == level,
            final(self).level == old(self).level,
    {
        self.flush_level = level;
    }

    pub fn get_flush_level(&self) -> (r: LogLevel)
        ensures
            r == self.flush_level,
    {
        self.flush_level
    }
}

/// A handler that discards every record.
#[derive(Debug, Clone, Copy, PartialEq, Eq, Structural)]
pub struct NullHandler;

impl NullHandler {
    pub fn new() -> (r: NullHandler) {
        NullHandler
    }
}

impl Default for NullHandler {
    fn default() -> (r: NullHandler) {
        NullHandler
    }
}

/// The handlers a `Logging` can hold.
#[derive(Debug)]
pub enum Handler {
    /// Discards everything.
    Null(NullHandler),
    Console(ConsoleHandler),
    Memory(MemoryHandler),
    Stream(StreamHandler),
    File(FileHandler),
    RotatingFile(RotatingFileHandler),
    Network(NetworkHandler),
}

/// Work for the embedding program: the output a handler produced.
#[derive(Debug)]
#[allow(inconsistent_fields)]
pub enum Output {
    /// Write `text` to the stream and flush it.
    Stream { handler: usize, destination: StreamDestination, text: String },
    /// Append to the handler's file, flushing if asked.
    File { handler: usize, write: FileWrite },
    /// Run the rollover steps, then append, flushing if asked.
    RotatingFile { handler: usize, write: RotatingWrite },
    /// Offer the record to the handler's queue; `flush` asks for an
    /// immediate batch.
    Network { handler: usize, record: LogRecord, flush: bool },
}

/// The handler an output is for.
pub open spec fn output_handler(o: Output) -> usize {
    match o {
        Output::Stream { handler, .. } => handler,
        Output::File { handler, .. } => handler,
        Output::RotatingFile { handler, .. } => handler,
        Output::Network { handler, .. } => handler,
    }
}

/// Handlers of the same variant.
pub open spec fn same_kind(a: Handler, b: Handler) -> bool {
    match (a, b) {
        (Handler::Null(_), Handler::Null(_)) => true,
        (Handler::Console(_), Handler::Console(_)) => true,
        (Handler::Memory(_), Handler::Memory(_)) => true,
        (Handler::Stream(_), Handler::Stream(_)) => true,
        (Handler::File(_), Handler::File(_)) => true,
        (Handler::RotatingFile(_), Handler::RotatingFile(_)) => true,
        (Handler::Network(_), Handler::Network(_)) => true,
        _ => false,
    }
}

/// What handler `before` becomes (`after`) when it receives `r`: a memory
/// handler captures it, a rotating handler updates its size accounting,
/// every other handler is left as it was.
pub open spec fn received(before: Handler, after: Handler, r: LogRecord) -> bool {
    &&& same_kind(before, after)
    &&& match before {
        Handler::Memory(m) => {
            &&& after->Memory_0.level == m.level
            &&& captures(m.records@, m.level, r, after->Memory_0.records@)
        },
        Handler::RotatingFile(f) => {
            let g = after->RotatingFile_0;
            &&& g.level == f.level
            &&& g.flush_level == f.flush_level
            &&& g.formatter == f.formatter
            &&& g.rotation.max_bytes == f.rotation.max_bytes
            &&& g.rotation.backup_count == f.rotation.backup_count
            &&& !passes_level(r, f.level) ==> g.rotation == f.rotation
            &&& passes_level(r, f.level) ==> exists|line: Seq<char>|
                is_line_for(line, f.formatter, r) && g.rotation.current_size == size_after(
                    f.rotation,
                    (encode_utf8(line).len() as usize) as int,
                )
        },
        _ => after == before,
    }
}

/// The level gate of a handler; a null handler has none.
pub open spec fn gate_of(h: Handler) -> Option<LogLevel> {
    match h {
        Handler::Null(_) => None,
        Handler::Console(c) => Some(c.level),
        Handler::Memory(m) => Some(m.level),
        Handler::Stream(s) => Some(s.level),
        Handler::File(f) => Some(f.level),
        Handler::RotatingFile(f) => Some(f.level),
        Handler::Network(n) => Some(n.level),
    }
}

/// The formatter of a handler that formats.
pub open spec fn formatter_of(h: Handler) -> Option<PythonFormatter> {
    match h {
        Handler::Console(c) => Some(c.formatter),
        Handler::Stream(s) => Some(s.formatter),
        Handler::File(f) => Some(f.formatter),
        Handler::RotatingFile(f) => Some(f.formatter),
        _ => None,
    }
}

/// The flush level of a handler that has one.
pub open spec fn flush_gate_of(h: Handler) -> Option<LogLevel> {
    match h {
        Handler::File(f) => Some(f.flush_level),
        Handler::RotatingFile(f) => Some(f.flush_level),
        Handler::Network(n) => Some(n.flush_level),
        _ => None,
    }
}

/// Whether handler `h` has output for `r`: the stream, console, file,
/// rotating and network handlers do when `r` passes their level gate.
pub open spec fn produces(h: Handler, r: LogRecord) -> bool {
    match h {
        Handler::Console(c) => passes_level(r, c.level),
        Handler::Stream(s) => passes_level(r, s.level),
        Handler::File(f) => passes_level(r, f.level),
        Handler::RotatingFile(f) => passes_level(r, f.level),
        Handler::Network(n) => passes_level(r, n.level),
        _ => false,
    }
}

/// Output `o` is what handler `h` makes of `r`.
pub open spec fn output_fits(o: Output, h: Handler, r: LogRecord) -> bool {
    match (o, h) {
        (Output::Stream { destination, text, .. }, Handler::Stream(s)) => destination == s.destination
            && is_line_for(text@, s.formatter, r),
        (Output::Stream { destination, text, .. }, Handler::Console(c)) => destination
            == StreamDestination::Stdout && is_line_for(text@, c.formatter, r),
        (Output::File { write, .. }, Handler::File(f)) => is_line_for(write.text@, f.formatter, r)
            && write.flush == (r.levelno >= level_value(f.flush_level)),
        (Output::RotatingFile { write, .. }, Handler::RotatingFile(f)) => {
            &&& is_line_for(write.text@, f.formatter, r)
            &&& write.flush == (r.levelno >= level_value(f.flush_level))
            &&& write.bytes == encode_utf8(write.text@).len() as usize
            &&& needs_rollover(f.rotation, write.bytes as int) ==> write.steps@ == rollover_plan(
                f.rotation.backup_count as nat,
            )
            &&& !needs_rollover(f.rotation, write.bytes as int) ==> write.steps@.len() == 0
        },
        (Output::Network { record, flush, .. }, Handler::Network(n)) => same_record(record, r) && flush
            == (r.levelno >= level_value(n.flush_level)),
        _ => false,
    }
}

/// The clock reading, thread and process a record is stamped with.
#[derive(Debug, Clone)]
pub struct RecordContext {
    pub now: Timestamp,
    pub thread: ThreadInfo,
    pub process: u32,
}

/// Loggers and the handlers they name, by index.
#[derive(Debug)]
pub struct Logging {
    pub manager: LoggerManager,
    pub handlers: Vec<Handler>,
    /// The filters of each handler, by the handler's index.
    pub handler_filters: Vec<Vec<FilterRule>>,
}

/// Whether the filters of handler `id` let `r` through.
pub open spec fn handler_passes(s: Logging, id: int, r: LogRecord) -> bool {
    all_permit(s.handler_filters@[id]@, r)
}

/// `after` is `before` once `r`, from logger `i`, went to its targets and
/// produced `outs`.
pub open spec fn emitted(before: Logging, after: Logging, i: int, r: LogRecord, outs: Seq<Output>) -> bool {
    let t = targets(before.manager.loggers@, i, r);
    &&& after.manager == before.manager
    &&& after.handler_filters == before.handler_filters
    &&& after.handlers@.len() == before.handlers@.len()
    &&& forall|id: usize|
        id < before.handlers@.len() && !(t.contains(id) && handler_passes(before, id as int, r))
            ==> #[trigger] after.handlers@[id as int] == before.handlers@[id as int]
    &&& forall|id: usize|
        id < before.handlers@.len() && t.contains(id) && handler_passes(before, id as int, r) ==> received(
            #[trigger] before.handlers@[id as int],
            after.handlers@[id as int],
            r,
        )
    &&& forall|j: int| 0 <= j < outs.len() ==> t.contains(output_handler(#[trigger] outs[j]))
        && handler_passes(before, output_handler(outs[j]) as int, r)
    &&& forall|j: int|
        0 <= j < outs.len() ==> output_fits(
            #[trigger] outs[j],
            before.handlers@[output_handler(outs[j]) as int],
            r,
        )
    &&& forall|a: int, b: int|
        0 <= a < b < outs.len() ==> output_handler(#[trigger] outs[a]) != output_handler(
            #[trigger] outs[b],
        )
    &&& forall|id: usize|
        id < before.handlers@.len() && t.contains(id) && handler_passes(before, id as int, r) && produces(
            #[trigger] before.handlers@[id as int],
            r,
        ) ==> exists|j: int| 0 <= j < outs.len() && output_handler(#[trigger] outs[j]) == id
    &&& t.len() == 0 ==> outs.len() == 0 && after.handlers@ == before.handlers@
}

/// Loggers name only existing handlers, and none twice.
pub open spec fn handler_lists_ok(l: Seq<crate::registry::Logger>, n: int) -> bool {
    &&& forall|i: int, k: int|
        0 <= i < l.len() && 0 <= k < l[i].handlers@.len() ==> #[trigger] l[i].handlers@[k] < n
    &&& forall|i: int| 0 <= i < l.len() ==> distinct(#[trigger] l[i].handlers@)
}

/// Changing loggers without touching their handler lists keeps those lists sound.
proof fn lemma_same_handler_lists(before: Seq<crate::registry::Logger>, after: Seq<crate::registry::Logger>, n: int)
    requires
        handler_lists_ok(before, n),
        after.len() == before.len(),
        forall|i: int| 0 <= i < before.len() ==> #[trigger] after[i].handlers == before[i].handlers,
    ensures
        handler_lists_ok(after, n),
{
    assert forall|a: int, k: int|
        0 <= a < after.len() && 0 <= k < after[a].handlers@.len() implies #[trigger] after[a].handlers@[k] < n by {
        assert(after[a].handlers == before[a].handlers);
    }
    assert forall|a: int| 0 <= a < after.len() implies distinct(#[trigger] after[a].handlers@) by {
        assert(after[a].handlers == before[a].handlers);
    }
}

proof fn lemma_absent_from(s: Seq<usize>, e: Seq<usize>)
    ensures
        forall|x: usize| absent_from(s, e).contains(x) <==> s.contains(x) && !e.contains(x),
        distinct(s) ==> distinct(absent_from(s, e)),
    decreases s.len(),
{
    if s.len() > 0 {
        let p = s.drop_last();
        lemma_absent_from(p, e);
        assert forall|x: usize| s.contains(x) <==> p.contains(x) || x == s.last() by {
            if s.contains(x) {
                let w = choose|w: int| 0 <= w < s.len() && s[w] == x;
                if w < s.len() - 1 {
                    assert(p[w] == x);
                }
            }
            if p.contains(x) {
                let w = choose|w: int| 0 <= w < p.len() && p[w] == x;
                assert(s[w] == x);
            }
            if x == s.last() {
                assert(s[s.len() - 1] == x);
            }
        }
        let a0 = absent_from(p, e);
        if e.contains(s.last()) {
            assert(absent_from(s, e) == a0);
        } else {
            assert(absent_from(s, e) == a0.push(s.last()));
            assert forall|x: usize| a0.push(s.last()).contains(x) <==> a0.contains(x) || x == s.last() by {
                if a0.push(s.last()).contains(x) {
                    let w = choose|w: int| 0 <= w < a0.len() + 1 && a0.push(s.last())[w] == x;
                    if w < a0.len() {
                        assert(a0[w] == x);
                    }
                }
                if a0.contains(x) {
                    let w = choose|w: int| 0 <= w < a0.len() && a0[w] == x;
                    assert(a0.push(s.last())[w] == x);
                }
                if x == s.last() {
                    assert(a0.push(s.last())[a0.len() as int] == x);
                }
            }
        }
        if distinct(s) {
            assert(distinct(p)) by {
                assert forall|a: int, b: int| 0 <= a < b < p.len() implies p[a] != p[b] by {
                    assert(s[a] == p[a] && s[b] == p[b]);
                }
            }
            assert(!p.contains(s.last())) by {
                if p.contains(s.last()) {
                    let w = choose|w: int| 0 <= w < p.len() && p[w] == s.last();
                    assert(s[w] == s[s.len() - 1]);
                }
            }
            let a = absent_from(p, e);
            if !e.contains(s.last()) {
                assert forall|x: int, y: int| 0 <= x < y < a.push(s.last()).len() implies a.push(
                    s.last(),
                )[x] != a.push(s.last())[y] by {
                    if y == a.len() {
                        assert(a.contains(a[x]));
                    }
                }
            }
        }
    }
}

/// The targets of a record hold each handler at most once, and every
/// target is a handler that the logger or the root holds.
pub proof fn lemma_targets_distinct(m: LoggerManager, i: int, r: LogRecord)
    requires
        0 <= i < m.loggers@.len(),
        m.loggers@.len() > 0,
        distinct(m.loggers@[i].handlers@),
        distinct(m.loggers@[0].handlers@),
    ensures
        distinct(targets(m.loggers@, i, r)),
        forall|x: usize|
            targets(m.loggers@, i, r).contains(x) ==> m.loggers@[i].handlers@.contains(x)
                || m.loggers@[0].handlers@.contains(x),
{
    let own = m.loggers@[i].handlers@;
    let global = m.loggers@[0].handlers@;
    lemma_absent_from(global, own);
    let t = targets(m.loggers@, i, r);
    let a = absent_from(global, own);
    if t == own + a {
        assert forall|x: int, y: int| 0 <= x < y < t.len() implies t[x] != t[y] by {
            if y >= own.len() && x < own.len() {
                assert(a.contains(t[y]));
                assert(own.contains(t[x]));
            }
            if x >= own.len() {
                assert(t[x] == a[x - own.len()] && t[y] == a[y - own.len()]);
            }
        }
        assert forall|x: usize| t.contains(x) implies own.contains(x) || global.contains(x) by {
            let w = choose|w: int| 0 <= w < t.len() && t[w] == x;
            if w < own.len() {
                assert(own[w] == x);
            } else {
                assert(a[w - own.len()] == x);
                assert(a.contains(x));
            }
        }
    }
}

/// Delivers `record` to one handler.
fn deliver(h: &mut Handler, id: usize, record: &LogRecord) -> (o: Option<Output>)
    ensures
        received(*old(h), *final(h), *record),
        o is Some <==> produces(*old(h), *record),
        o matches Some(out) ==> output_handler(out) == id && output_fits(out, *old(h), *record),
{
    match h {
        Handler::Null(_) => None,
        Handler::Console(c) => match c.emit(record) {
            Some(text) => Some(Output::Stream { handler: id, destination: StreamDestination::Stdout, text }),
            None => None,
        },
        Handler::Memory(m) => {
            m.emit(record);
            None
        },
        Handler::Stream(s) => match s.emit(record) {
            Some(text) => Some(Output::Stream { handler: id, destination: s.destination, text }),
            None => None,
        },
        Handler::File(f) => match f.emit(record) {
            Some(write) => Some(Output::File { handler: id, write }),
            None => None,
        },
        Handler::RotatingFile(f) => match f.emit(record) {
            Some(write) => {
                assert(is_line_for(write.text@, old(h)->RotatingFile_0.formatter, *record));
                Some(Output::RotatingFile { handler: id, write })
            },
            None => None,
        },
        Handler::Network(n) => {
            if record.levelno >= n.level.value() as i32 {
                let flush = record.levelno >= n.flush_level.value() as i32;
                Some(Output::Network { handler: id, record: record.duplicate(), flush })
            } else {
                None
            }
        },
    }
}

impl Logging {
    /// Every handler a logger names exists, and no logger names one twice.
    pub open spec fn wf(self) -> bool {
        let l = self.manager.loggers@;
        &&& self.manager.wf()
        &&& self.handler_filters@.len() == self.handlers@.len()
        &&& handler_lists_ok(l, self.handlers@.len() as int)
    }

    /// A root logger and no handlers.
    pub fn new() -> (r: Logging)
        ensures
            r.wf(),
            r.manager.loggers@.len() == 1,
            r.handlers@.len() == 0,
    {
        Logging { manager: LoggerManager::new(), handlers: Vec::new(), handler_filters: Vec::new() }
    }

    /// The logger named `name`, created with its ancestors when new.
    pub fn get_logger(&mut self, name: &str) -> (r: usize)
        requires
            old(self).wf(),
        ensures
            final(self).wf(),
            r < final(self).manager.loggers@.len(),
            final(self).manager.loggers@[r as int].name@ == name@,
            final(self).handlers == old(self).handlers,
            old(self).manager.loggers@.len() <= final(self).manager.loggers@.len(),
            final(self).manager.loggers@.subrange(0, old(self).manager.loggers@.len() as int)
                == old(self).manager.loggers@,
            forall|k: int|
                old(self).manager.loggers@.len() <= k < final(self).manager.loggers@.len()
                    ==> (#[trigger] final(self).manager.loggers@[k]).is_fresh()
                    && final(self).manager.loggers@[k].name@.len() <= name@.len(),
            crate::registry::registered(old(self).manager.loggers@, name@)
                ==> final(self).manager.loggers@ == old(self).manager.loggers@,
    {
        let ghost before = self.manager.loggers@;
        let r = self.manager.get_logger(name);
        proof {
            let l = self.manager.loggers@;
            assert forall|i: int, k: int|
                0 <= i < l.len() && 0 <= k < l[i].handlers@.len() implies #[trigger] l[i].handlers@[k]
                < self.handlers@.len() by {
                if i < before.len() {
                    assert(l[i] == l.subrange(0, before.len() as int)[i]);
                } else {
                    assert(l[i].is_fresh());
                }
            }
            assert forall|i: int| 0 <= i < l.len() implies distinct(#[trigger] l[i].handlers@) by {
                if i < before.len() {
                    assert(l[i] == l.subrange(0, before.len() as int)[i]);
                } else {
                    assert(l[i].is_fresh());
                }
            }
        }
        r
    }

    /// The root logger's index.
    pub fn get_root_logger(&self) -> (r: usize)
        requires
            self.wf(),
        ensures
            r == 0,
    {
        self.manager.get_root_logger()
    }

    /// Adds a handler to the table and returns its index.
    pub fn add_handler(&mut self, h: Handler) -> (r: usize)
        requires
            old(self).wf(),
        ensures
            final(self).wf(),
            r == old(self).handlers@.len(),
            final(self).handlers@ == old(self).handlers@.push(h),
            final(self).manager == old(self).manager,
            final(self).handler_filters@.len() == old(self).handler_filters@.len() + 1,
            final(self).handler_filters@.subrange(0, r as int) == old(self).handler_filters@,
            final(self).handler_filters@[r as int]@.len() == 0,
    {
        self.handlers.push(h);
        self.handler_filters.push(Vec::new());
        assert(self.handler_filters@.subrange(0, old(self).handler_filters@.len() as int) =~= old(self).handler_filters@);
        self.handlers.len() - 1
    }

    /// Sets the level gate of handler `id` (a null handler has none).
    pub fn set_handler_level(&mut self, id: usize, level: LogLevel)
        requires
            old(self).wf(),
            id < old(self).handlers@.len(),
        ensures
            final(self).wf(),
            final(self).manager == old(self).manager,
            final(self).handler_filters == old(self).handler_filters,
            final(self).handlers@.len() == old(self).handlers@.len(),
            forall|k: int| 0 <= k < old(self).handlers@.len() && k != id
                ==> final(self).handlers@[k] == old(self).handlers@[k],
            same_kind(final(self).handlers@[id as int], old(self).handlers@[id as int]),
            gate_of(old(self).handlers@[id as int]) is Some ==> gate_of(final(self).handlers@[id as int]) == Some(level),
            gate_of(old(self).handlers@[id as int]) is None ==> final(self).handlers@[id as int] == old(self).handlers@[id as int],
    {
        match &mut self.handlers[id] {
            Handler::Null(_) => {},
            Handler::Console(c) => c.level = level,
            Handler::Memory(m) => m.set_level(level),
            Handler::Stream(h) => h.set_level(level),
            Handler::File(h) => h.set_level(level),
            Handler::RotatingFile(h) => h.set_level(level),
            Handler::Network(h) => h.set_level(level),
        }
    }

    /// Sets the flush level of handler `id`: the level from which a record
    /// forces a flush. Only file, rotating file and network handlers have one.
    pub fn set_handler_flush_level(&mut self, id: usize, level: LogLevel)
        requires
            old(self).wf(),
            id < old(self).handlers@.len(),
        ensures
            final(self).wf(),
            final(self).manager == old(self).manager,
            final(self).handler_filters == old(self).handler_filters,
            final(self).handlers@.len() == old(self).handlers@.len(),
            forall|k: int| 0 <= k < old(self).handlers@.len() && k != id
                ==> final(self).handlers@[k] == old(self).handlers@[k],
            flush_gate_of(old(self).handlers@[id as int]) is Some ==> same_kind(
                final(self).handlers@[id as int],
                old(self).handlers@[id as int],
            ) && flush_gate_of(final(self).handlers@[id as int]) == Some(level) && gate_of(
                final(self).handlers@[id as int],
            ) == gate_of(old(self).handlers@[id as int]),
            flush_gate_of(old(self).handlers@[id as int]) is None ==> final(self).handlers@[id as int]
                == old(self).handlers@[id as int],
    {
        match &mut self.handlers[id] {
            Handler::File(h) => h.set_flush_level(level),
            Handler::RotatingFile(h) => h.set_flush_level(level),
            Handler::Network(h) => h.set_flush_level(level),
            _ => {},
        }
    }

    /// Gives handler `id` a formatter; null, memory and network handlers
    /// format nothing and stay as they are.
    pub fn set_handler_formatter(&mut self, id: usize, formatter: PythonFormatter)
        requires
            old(self).wf(),
            id < old(self).handlers@.len(),
        ensures
            final(self).wf(),
            final(self).manager == old(self).manager,
            final(self).handler_filters == old(self).handler_filters,
            final(self).handlers@.len() == old(self).handlers@.len(),
            forall|k: int| 0 <= k < old(self).handlers@.len() && k != id
                ==> final(self).handlers@[k] == old(self).handlers@[k],
            same_kind(final(self).handlers@[id as int], old(self).handlers@[id as int]),
            gate_of(final(self).handlers@[id as int]) == gate_of(old(self).handlers@[id as int]),
            formatter_of(old(self).handlers@[id as int]) is Some ==> formatter_of(
                final(self).handlers@[id as int],
            ) == Some(formatter),
            formatter_of(old(self).handlers@[id as int]) is None ==> final(self).handlers@[id as int]
                == old(self).handlers@[id as int],
    {
        match &mut self.handlers[id] {
            Handler::Console(h) => h.set_formatter(formatter),
            Handler::Stream(h) => h.set_formatter(formatter),
            Handler::File(h) => h.set_formatter(formatter),
            Handler::RotatingFile(h) => h.set_formatter(formatter),
            _ => {},
        }
    }

    /// Appends a filter to handler `id`; a record it rejects leaves that
    /// handler untouched.
    pub fn add_handler_filter(&mut self, id: usize, filter: FilterRule)
        requires
            old(self).wf(),
            id < old(self).handlers@.len(),
        ensures
            final(self).wf(),
            final(self).manager == old(self).manager,
            final(self).handlers == old(self).handlers,
            final(self).handler_filters@.len() == old(self).handler_filters@.len(),
            final(self).handler_filters@[id as int]@ == old(self).handler_filters@[id as int]@.push(filter),
            forall|k: int| 0 <= k < old(self).handler_filters@.len() && k != id
                ==> final(self).handler_filters@[k] == old(self).handler_filters@[k],
    {
        self.handler_filters[id].push(filter);
    }

    /// Attaches handler `id` to logger `logger`; attaching to the root adds
    /// it to the global set.
    pub fn attach(&mut self, logger: usize, id: usize)
        requires
            old(self).wf(),
            logger < old(self).manager.loggers@.len(),
            id < old(self).handlers@.len(),
        ensures
            final(self).wf(),
            final(self).handlers == old(self).handlers,
            final(self).manager.loggers@.len() == old(self).manager.loggers@.len(),
            final(self).manager.loggers@[logger as int].handlers@.contains(id),
            old(self).manager.loggers@[logger as int].handlers@.contains(id)
                ==> final(self).manager.loggers@[logger as int].handlers@ == old(self).manager.loggers@[logger as int].handlers@,
            !old(self).manager.loggers@[logger as int].handlers@.contains(id)
                ==> final(self).manager.loggers@[logger as int].handlers@ == old(self).manager.loggers@[logger as int].handlers@.push(id),
            final(self).manager.loggers@[logger as int].name == old(self).manager.loggers@[logger as int].name,
            final(self).manager.loggers@[logger as int].level == old(self).manager.loggers@[logger as int].level,
            final(self).manager.loggers@[logger as int].filters == old(self).manager.loggers@[logger as int].filters,
            final(self).manager.loggers@[logger as int].parent == old(self).manager.loggers@[logger as int].parent,
            final(self).manager.loggers@[logger as int].propagate == old(self).manager.loggers@[logger as int].propagate,
            forall|k: int| 0 <= k < old(self).manager.loggers@.len() && k != logger
                ==> final(self).manager.loggers@[k] == old(self).manager.loggers@[k],
    {
        let ghost o = self.manager.loggers@;
        self.manager.add_handler(logger, id);
        proof {
            let l = self.manager.loggers@;
            assert forall|i: int, k: int|
                0 <= i < l.len() && 0 <= k < l[i].handlers@.len() implies #[trigger] l[i].handlers@[k]
                < self.handlers@.len() by {
                if i != logger {
                    assert(l[i] == o[i]);
                } else if k < o[i].handlers@.len() {
                    assert(l[i].handlers@[k] == o[i].handlers@[k]);
                }
            }
            assert forall|i: int| 0 <= i < l.len() implies distinct(#[trigger] l[i].handlers@) by {
                if i != logger {
                    assert(l[i] == o[i]);
                } else if !o[i].handlers@.contains(id) {
                    let hs = l[i].handlers@;
                    assert(distinct(o[i].handlers@));
                    assert forall|a: int, b: int| 0 <= a < b < hs.len() implies hs[a] != hs[b] by {
                        if b == hs.len() - 1 {
                            assert(o[i].handlers@.contains(hs[a]) ==> hs[a] != id);
                            assert(o[i].handlers@[a] == hs[a]);
                        } else {
                            assert(o[i].handlers@[a] == hs[a] && o[i].handlers@[b] == hs[b]);
                        }
                    }
                }
            }
            if o[logger as int].handlers@.contains(id) {
            } else {
                assert(l[logger as int].handlers@[o[logger as int].handlers@.len() as int] == id);
            }
        }
    }

    /// Sets logger `i`'s own level.
    pub fn set_level(&mut self, i: usize, level: LogLevel)
        requires
            old(self).wf(),
            i < old(self).manager.loggers@.len(),
        ensures
            final(self).wf(),
            final(self).handlers == old(self).handlers,
            final(self).manager.loggers@.len() == old(self).manager.loggers@.len(),
            final(self).manager.loggers@[i as int].level == level,
            final(self).manager.loggers@[i as int].name == old(self).manager.loggers@[i as int].name,
            final(self).manager.loggers@[i as int].handlers == old(self).manager.loggers@[i as int].handlers,
            final(self).manager.loggers@[i as int].filters == old(self).manager.loggers@[i as int].filters,
            final(self).manager.loggers@[i as int].parent == old(self).manager.loggers@[i as int].parent,
            final(self).manager.loggers@[i as int].propagate == old(self).manager.loggers@[i as int].propagate,
            forall|k: int| 0 <= k < old(self).manager.loggers@.len() && k != i
                ==> final(self).manager.loggers@[k] == old(self).manager.loggers@[k],
    {
        let ghost o = self.manager.loggers@;
        self.manager.set_level(i, level);
        proof {
            lemma_same_handler_lists(o, self.manager.loggers@, self.handlers@.len() as int);
        }
    }

    /// Turns forwarding to the global handlers on or off for logger `i`.
    pub fn set_propagate(&mut self, i: usize, propagate: bool)
        requires
            old(self).wf(),
            i < old(self).manager.loggers@.len(),
        ensures
            final(self).wf(),
            final(self).handlers == old(self).handlers,
            final(self).manager.loggers@.len() == old(self).manager.loggers@.len(),
            final(self).manager.loggers@[i as int].propagate == propagate,
            final(self).manager.loggers@[i as int].name == old(self).manager.loggers@[i as int].name,
            final(self).manager.loggers@[i as int].level == old(self).manager.loggers@[i as int].level,
            final(self).manager.loggers@[i as int].handlers == old(self).manager.loggers@[i as int].handlers,
            final(self).manager.loggers@[i as int].filters == old(self).manager.loggers@[i as int].filters,
            final(self).manager.loggers@[i as int].parent == old(self).manager.loggers@[i as int].parent,
            forall|k: int| 0 <= k < old(self).manager.loggers@.len() && k != i
                ==> final(self).manager.loggers@[k] == old(self).manager.loggers@[k],
    {
        let ghost o = self.manager.loggers@;
        self.manager.set_propagate(i, propagate);
        proof {
            lemma_same_handler_lists(o, self.manager.loggers@, self.handlers@.len() as int);
        }
    }

    /// Appends a filter to logger `i`.
    pub fn add_filter(&mut self, i: usize, filter: FilterRule)
        requires
            old(self).wf(),
            i < old(self).manager.loggers@.len(),
        ensures
            final(self).wf(),
            final(self).handlers == old(self).handlers,
            final(self).manager.loggers@.len() == old(self).manager.loggers@.len(),
            final(self).manager.loggers@[i as int].filters@ == old(self).manager.loggers@[i as int].filters@.push(filter),
            final(self).manager.loggers@[i as int].name == old(self).manager.loggers@[i as int].name,
            final(self).manager.loggers@[i as int].level == old(self).manager.loggers@[i as int].level,
            final(self).manager.loggers@[i as int].handlers == old(self).manager.loggers@[i as int].handlers,
            final(self).manager.loggers@[i as int].parent == old(self).manager.loggers@[i as int].parent,
            final(self).manager.loggers@[i as int].propagate == old(self).manager.loggers@[i as int].propagate,
            forall|k: int| 0 <= k < old(self).manager.loggers@.len() && k != i
                ==> final(self).manager.loggers@[k] == old(self).manager.loggers@[k],
    {
        let ghost o = self.manager.loggers@;
        self.manager.add_filter(i, filter);
        proof {
            lemma_same_handler_lists(o, self.manager.loggers@, self.handlers@.len() as int);
        }
    }

    /// Detaches every handler from the global set.
    pub fn clear_handlers(&mut self)
        requires
            old(self).wf(),
        ensures
            final(self).wf(),
            final(self).handlers == old(self).handlers,
            final(self).manager.loggers@.len() == old(self).manager.loggers@.len(),
            final(self).manager.loggers@[0].handlers@.len() == 0,
            final(self).manager.loggers@[0].name == old(self).manager.loggers@[0].name,
            final(self).manager.loggers@[0].level == old(self).manager.loggers@[0].level,
            final(self).manager.loggers@[0].filters == old(self).manager.loggers@[0].filters,
            final(self).manager.loggers@[0].parent == old(self).manager.loggers@[0].parent,
            final(self).manager.loggers@[0].propagate == old(self).manager.loggers@[0].propagate,
            forall|k: int| 0 < k < old(self).manager.loggers@.len()
                ==> final(self).manager.loggers@[k] == old(self).manager.loggers@[k],
    {
        let ghost o = self.manager.loggers@;
        self.manager.loggers[0].handlers = Vec::new();
        proof {
            let l = self.manager.loggers@;
            assert forall|k: int| 0 < k < l.len() implies #[trigger] crate::registry::parent_ok(l, k) by {
                assert(crate::registry::parent_ok(o, k));
            }
            assert forall|a: int, b: int| 0 <= a < b < l.len() implies #[trigger] crate::registry::names_differ(l, a, b) by {
                assert(crate::registry::names_differ(o, a, b));
            }
            assert forall|a: int, k: int|
                0 <= a < l.len() && 0 <= k < l[a].handlers@.len() implies #[trigger] l[a].handlers@[k]
                < self.handlers@.len() by {
                assert(l[a].handlers == o[a].handlers);
            }
            assert forall|a: int| 0 <= a < l.len() implies distinct(#[trigger] l[a].handlers@) by {
                if a > 0 {
                    assert(l[a].handlers == o[a].handlers);
                }
            }
        }
    }

    /// The level that gates logger `i`.
    pub fn get_effective_level(&self, i: usize) -> (r: LogLevel)
        requires
            self.wf(),
            i < self.manager.loggers@.len(),
        ensures
            r == effective_level(self.manager.loggers@, i as int),
    {
        self.manager.get_effective_level(i)
    }

    /// The logger one level below `logger`, named `<name>.<suffix>` (just
    /// `suffix` when the logger's name is empty), created when new.
    pub fn get_child(&mut self, logger: usize, suffix: &str) -> (r: usize)
        requires
            old(self).wf(),
            logger < old(self).manager.loggers@.len(),
        ensures
            final(self).wf(),
            r < final(self).manager.loggers@.len(),
            final(self).manager.loggers@[r as int].name@ == child_name(
                old(self).manager.loggers@[logger as int].name@,
                suffix@,
            ),
            final(self).handlers == old(self).handlers,
    {
        let mut name = self.manager.loggers[logger].name.clone();
        if name.as_str().unicode_len() == 0 {
            name = String::from_str(suffix);
        } else {
            crate::text::push_char(&mut name, '.');
            name.append(suffix);
        }
        self.get_logger(name.as_str())
    }

    /// Logs `msg` at `Error` with the traceback text on the lines after it.
    pub fn exception(&mut self, logger: usize, msg: &str, traceback: &str, ctx: &RecordContext) -> (outs: Vec<Output>)
        requires
            old(self).wf(),
            logger < old(self).manager.loggers@.len(),
        ensures
            final(self).wf(),
            !enabled_at(*old(self), logger as int, LogLevel::Error) ==> outs@.len() == 0 && *final(self) == *old(self),
            enabled_at(*old(self), logger as int, LogLevel::Error) ==> exists|r: LogRecord|
                stamped(r, *old(self), logger as int, LogLevel::Error, msg@ + seq!['\n'] + traceback@, *ctx)
                && emitted(*old(self), *final(self), logger as int, r, outs@),
    {
        if !self.manager.is_enabled_for(logger, LogLevel::Error) {
            return Vec::new();
        }
        let mut text = String::from_str(msg);
        crate::text::push_char(&mut text, '\n');
        text.append(traceback);
        assert(text@ =~= msg@ + seq!['\n'] + traceback@);
        let r = create_log_record(
            self.manager.loggers[logger].name.clone(),
            LogLevel::Error,
            text,
            ctx.now,
            &ctx.thread,
            ctx.process,
        );
        let outs = self.emit_record(logger, &r);
        assert(stamped(r, *old(self), logger as int, LogLevel::Error, msg@ + seq!['\n'] + traceback@, *ctx));
        outs
    }

    /// Whether logger `i` passes records at `level`.
    pub fn is_enabled_for(&self, i: usize, level: LogLevel) -> (r: bool)
        requires
            self.wf(),
            i < self.manager.loggers@.len(),
        ensures
            r == (level_value(level) >= level_value(effective_level(self.manager.loggers@, i as int))),
    {
        self.manager.is_enabled_for(i, level)
    }

    /// Sends `record` from logger `logger` through its filters to every
    /// handler it reaches, each once, and returns the outputs to perform.
    pub fn emit_record(&mut self, logger: usize, record: &LogRecord) -> (outs: Vec<Output>)
        requires
            old(self).wf(),
            logger < old(self).manager.loggers@.len(),
        ensures
            final(self).wf(),
            emitted(*old(self), *final(self), logger as int, *record, outs@),
    {
        let t = self.manager.route(logger, record);
        let ghost l = self.manager.loggers@;
        proof {
            assert(distinct(l[logger as int].handlers@));
            assert(distinct(l[0].handlers@));
            lemma_targets_distinct(self.manager, logger as int, *record);
        }
        let mut outs: Vec<Output> = Vec::new();
        let mut j: usize = 0;
        while j < t.len()
            invariant
                self.wf(),
                self.manager == old(self).manager,
                l == self.manager.loggers@,
                t@ == targets(l, logger as int, *record),
                distinct(t@),
                forall|x: usize| t@.contains(x) ==> l[logger as int].handlers@.contains(x) || l[0].handlers@.contains(x),
                logger < l.len(),
                j <= t.len(),
                self.handlers@.len() == old(self).handlers@.len(),
                self.handler_filters == old(self).handler_filters,
                forall|id: usize|
                    id < self.handlers@.len() && !(t@.subrange(0, j as int).contains(id) && handler_passes(*old(self), id as int, *record))
                        ==> #[trigger] self.handlers@[id as int] == old(self).handlers@[id as int],
                forall|id: usize|
                    id < self.handlers@.len() && t@.subrange(0, j as int).contains(id) && handler_passes(*old(self), id as int, *record)
                        ==> received(#[trigger] old(self).handlers@[id as int], self.handlers@[id as int], *record),
                forall|k: int| 0 <= k < outs@.len() ==> t@.subrange(0, j as int).contains(output_handler(#[trigger] outs@[k]))
                    && handler_passes(*old(self), output_handler(outs@[k]) as int, *record),
                forall|k: int|
                    0 <= k < outs@.len() ==> output_fits(
                        #[trigger] outs@[k],
                        old(self).handlers@[output_handler(outs@[k]) as int],
                        *record,
                    ),
                forall|a: int, b: int|
                    0 <= a < b < outs@.len() ==> output_handler(#[trigger] outs@[a]) != output_handler(
                        #[trigger] outs@[b],
                    ),
                forall|x: usize|
                    x < old(self).handlers@.len() && t@.subrange(0, j as int).contains(x) && handler_passes(*old(self), x as int, *record) && produces(
                        #[trigger] old(self).handlers@[x as int],
                        *record,
                    ) ==> exists|k: int| 0 <= k < outs@.len() && output_handler(#[trigger] outs@[k]) == x,
                t@.len() == 0 ==> outs@.len() == 0,
            decreases t.len() - j,
        {
            let id = t[j];
            proof {
                assert(t@.contains(id));
                if l[logger as int].handlers@.contains(id) {
                    let w = choose|w: int| 0 <= w < l[logger as int].handlers@.len() && l[logger as int].handlers@[w] == id;
                    assert(l[logger as int].handlers@[w] < self.handlers@.len());
                } else {
                    let w = choose|w: int| 0 <= w < l[0].handlers@.len() && l[0].handlers@[w] == id;
                    assert(l[0].handlers@[w] < self.handlers@.len());
                }
                assert(!t@.subrange(0, j as int).contains(id)) by {
                    if t@.subrange(0, j as int).contains(id) {
                        let w = choose|w: int| 0 <= w < j && t@.subrange(0, j as int)[w] == id;
                        assert(t@[w] == t@[j as int]);
                    }
                }
            }
            let ghost hs = self.handlers@;
            let ghost pre = t@.subrange(0, j as int);
            let ghost pre1 = t@.subrange(0, j + 1);
            let pass = filters_pass(&self.handler_filters[id], record);
            let o = if pass {
                deliver(&mut self.handlers[id], id, record)
            } else {
                None
            };
            proof {
                assert forall|x: int| 0 <= x < self.handlers@.len() && x != id implies self.handlers@[x] == hs[x] by {}
                assert(hs[id as int] == old(self).handlers@[id as int]);
                assert(pass == handler_passes(*old(self), id as int, *record));
                if pass {
                    assert(received(old(self).handlers@[id as int], self.handlers@[id as int], *record));
                } else {
                    assert(self.handlers@ == hs);
                }

                assert forall|x: usize| pre1.contains(x) <==> pre.contains(x) || x == id by {
                    if pre1.contains(x) {
                        let w = choose|w: int| 0 <= w < pre1.len() && pre1[w] == x;
                        if w < j {
                            assert(pre[w] == x);
                        }
                    }
                    if pre.contains(x) {
                        let w = choose|w: int| 0 <= w < pre.len() && pre[w] == x;
                        assert(pre1[w] == x);
                    }
                    if x == id {
                        assert(pre1[j as int] == x);
                    }
                }
                assert forall|x: usize|
                    x < self.handlers@.len() && pre1.contains(x) && handler_passes(*old(self), x as int, *record) implies received(
                    #[trigger] old(self).handlers@[x as int],
                    self.handlers@[x as int],
                    *record,
                ) by {
                    if x != id {
                        assert(pre.contains(x));
                        assert(received(old(self).handlers@[x as int], hs[x as int], *record));
                    }
                }
                assert forall|x: usize|
                    x < self.handlers@.len() && !(pre1.contains(x) && handler_passes(*old(self), x as int, *record)) implies #[trigger] self.handlers@[x as int]
                    == old(self).handlers@[x as int] by {
                    if x != id {
                        assert(!(pre.contains(x) && handler_passes(*old(self), x as int, *record)));
                        assert(hs[x as int] == old(self).handlers@[x as int]);
                    }
                }
            }
            let ghost prev_outs = outs@;
            match o {
                Some(out) => {
                    outs.push(out);
                    proof {
                        assert(outs@.last() == out);
                        assert forall|a: int, b: int|
                            0 <= a < b < outs@.len() implies output_handler(#[trigger] outs@[a]) != output_handler(
                            #[trigger] outs@[b],
                        ) by {
                            if b == outs@.len() - 1 {
                                assert(prev_outs[a] == outs@[a]);
                                assert(pre.contains(output_handler(prev_outs[a])));
                            } else {
                                assert(prev_outs[a] == outs@[a] && prev_outs[b] == outs@[b]);
                            }
                        }
                        assert(output_handler(outs@[outs@.len() - 1]) == id);
                    }
                },
                None => {},
            }
            proof {
                assert forall|k: int| 0 <= k < outs@.len() implies pre1.contains(output_handler(#[trigger] outs@[k]))
                    && handler_passes(*old(self), output_handler(outs@[k]) as int, *record) by {
                    if k < prev_outs.len() {
                        assert(prev_outs[k] == outs@[k]);
                    }
                }
                assert forall|k: int|
                    0 <= k < outs@.len() implies output_fits(
                    #[trigger] outs@[k],
                    old(self).handlers@[output_handler(outs@[k]) as int],
                    *record,
                ) by {
                    if k < prev_outs.len() {
                        assert(prev_outs[k] == outs@[k]);
                    }
                }
                assert forall|x: usize|
                    x < old(self).handlers@.len() && pre1.contains(x) && handler_passes(*old(self), x as int, *record) && produces(
                    #[trigger] old(self).handlers@[x as int],
                    *record,
                ) implies exists|k: int| 0 <= k < outs@.len() && output_handler(#[trigger] outs@[k]) == x by {
                    if x == id {
                        assert(output_handler(outs@[outs@.len() - 1]) == x);
                    } else {
                        assert(pre.contains(x));
                        let k = choose|k: int| 0 <= k < prev_outs.len() && output_handler(#[trigger] prev_outs[k]) == x;
                        assert(outs@[k] == prev_outs[k]);
                    }
                }
            }
            j = j + 1;
        }
        let n = self.handlers.len();
        proof {
            assert(t@.subrange(0, t@.len() as int) =~= t@);
            if t@.len() == 0 {
                assert forall|k: int| 0 <= k < self.handlers@.len() implies self.handlers@[k] == old(self).handlers@[k] by {
                    let u = k as usize;
                    assert(u as int == k);
                    assert(!t@.subrange(0, j as int).contains(u));
                }
                assert(self.handlers@ =~= old(self).handlers@);
            }
        }
        outs
    }

    /// Logs `msg` at `level` from logger `logger`. Below the logger's
    /// effective level nothing happens: no record is built and nothing
    /// changes. Otherwise a record stamped from `ctx` is emitted.
    pub fn log(&mut self, logger: usize, level: LogLevel, msg: &str, ctx: &RecordContext) -> (outs: Vec<Output>)
        requires
            old(self).wf(),
            logger < old(self).manager.loggers@.len(),
        ensures
            final(self).wf(),
            !enabled_at(*old(self), logger as int, level) ==> outs@.len() == 0 && *final(self) == *old(self),
            enabled_at(*old(self), logger as int, level) ==> exists|r: LogRecord|
                stamped(r, *old(self), logger as int, level, msg@, *ctx)
                && emitted(*old(self), *final(self), logger as int, r, outs@),
    {
        if !self.manager.is_enabled_for(logger, level) {
            return Vec::new();
        }
        let r = create_log_record(
            self.manager.loggers[logger].name.clone(),
            level,
            String::from_str(msg),
            ctx.now,
            &ctx.thread,
            ctx.process,
        );
        self.emit_record(logger, &r)
    }

    /// Logs a `%`-style message: `template` with `args` substituted. The
    /// substitution runs only when the level is enabled.
    pub fn log_args(
        &mut self,
        logger: usize,
        level: LogLevel,
        template: &str,
        args: &Vec<LogArg>,
        ctx: &RecordContext,
    ) -> (outs: Vec<Output>)
        requires
            old(self).wf(),
            logger < old(self).manager.loggers@.len(),
        ensures
            final(self).wf(),
            !enabled_at(*old(self), logger as int, level) ==> outs@.len() == 0 && *final(self) == *old(self),
            enabled_at(*old(self), logger as int, level) ==> exists|r: LogRecord|
                stamped(r, *old(self), logger as int, level, message_text(template@, args@), *ctx)
                && emitted(*old(self), *final(self), logger as int, r, outs@),
    {
        if !self.manager.is_enabled_for(logger, level) {
            return Vec::new();
        }
        let msg = format_message(template, args);
        let r = create_log_record(
            self.manager.loggers[logger].name.clone(),
            level,
            msg,
            ctx.now,
            &ctx.thread,
            ctx.process,
        );
        self.emit_record(logger, &r)
    }

    /// Logs the message that `make` produces; `make` is called only when
    /// the level is enabled.
    pub fn log_with<F: FnOnce() -> String>(
        &mut self,
        logger: usize,
        level: LogLevel,
        make: F,
        ctx: &RecordContext,
    ) -> (outs: Vec<Output>)
        requires
            old(self).wf(),
            logger < old(self).manager.loggers@.len(),
            make.requires(()),
        ensures
            final(self).wf(),
            !enabled_at(*old(self), logger as int, level) ==> outs@.len() == 0 && *final(self) == *old(self),
            enabled_at(*old(self), logger as int, level) ==> exists|m: String, r: LogRecord|
                make.ensures((), m) && stamped(r, *old(self), logger as int, level, m@, *ctx)
                && emitted(*old(self), *final(self), logger as int, r, outs@),
    {
        if !self.manager.is_enabled_for(logger, level) {
            return Vec::new();
        }
        let msg = make();
        let ghost gm = msg;
        let r = create_log_record(
            self.manager.loggers[logger].name.clone(),
            level,
            msg,
            ctx.now,
            &ctx.thread,
            ctx.process,
        );
        let outs = self.emit_record(logger, &r);
        assert(make.ensures((), gm) && stamped(r, *old(self), logger as int, level, gm@, *ctx));
        outs
    }

    pub fn debug(&mut self, logger: usize, msg: &str, ctx: &RecordContext) -> (outs: Vec<Output>)
        requires
            old(self).wf(),
            logger < old(self).manager.loggers@.len(),
        ensures
            final(self).wf(),
            !enabled_at(*old(self), logger as int, LogLevel::Debug) ==> outs@.len() == 0 && *final(self) == *old(self),
            enabled_at(*old(self), logger as int, LogLevel::Debug) ==> exists|r: LogRecord|
                stamped(r, *old(self), logger as int, LogLevel::Debug, msg@, *ctx)
                && emitted(*old(self), *final(self), logger as int, r, outs@),
    {
        self.log(logger, LogLevel::Debug, msg, ctx)
    }

    pub fn info(&mut self, logger: usize, msg: &str, ctx: &RecordContext) -> (outs: Vec<Output>)
        requires
            old(self).wf(),
            logger < old(self).manager.loggers@.len(),
        ensures
            final(self).wf(),
            !enabled_at(*old(self), logger as int, LogLevel::Info) ==> outs@.len() == 0 && *final(self) == *old(self),
            enabled_at(*old(self), logger as int, LogLevel::Info) ==> exists|r: LogRecord|
                stamped(r, *old(self), logger as int, LogLevel::Info, msg@, *ctx)
                && emitted(*old(self), *final(self), logger as int, r, outs@),
    {
        self.log(logger, LogLevel::Info, msg, ctx)
    }

    pub fn warning(&mut self, logger: usize, msg: &str, ctx: &RecordContext) -> (outs: Vec<Output>)
        requires
            old(self).wf(),
            logger < old(self).manager.loggers@.len(),
        ensures
            final(self).wf(),
            !enabled_at(*old(self), logger as int, LogLevel::Warning) ==> outs@.len() == 0 && *final(self) == *old(self),
            enabled_at(*old(self), logger as int, LogLevel::Warning) ==> exists|r: LogRecord|
                stamped(r, *old(self), logger as int, LogLevel::Warning, msg@, *ctx)
                && emitted(*old(self), *final(self), logger as int, r, outs@),
    {
        self.log(logger, LogLevel::Warning, msg, ctx)
    }

    pub fn error(&mut self, logger: usize, msg: &str, ctx: &RecordContext) -> (outs: Vec<Output>)
        requires
            old(self).wf(),
            logger < old(self).manager.loggers@.len(),
        ensures
            final(self).wf(),
            !enabled_at(*old(self), logger as int, LogLevel::Error) ==> outs@.len() == 0 && *final(self) == *old(self),
            enabled_at(*old(self), logger as int, LogLevel::Error) ==> exists|r: LogRecord|
                stamped(r, *old(self), logger as int, LogLevel::Error, msg@, *ctx)
                && emitted(*old(self), *final(self), logger as int, r, outs@),
    {
        self.log(logger, LogLevel::Error, msg, ctx)
    }

    pub fn critical(&mut self, logger: usize, msg: &str, ctx: &RecordContext) -> (outs: Vec<Output>)
        requires
            old(self).wf(),
            logger < old(self).manager.loggers@.len(),
        ensures
            final(self).wf(),
            !enabled_at(*old(self), logger as int, LogLevel::Critical) ==> outs@.len() == 0 && *final(self) == *old(self),
            enabled_at(*old(self), logger as int, LogLevel::Critical) ==> exists|r: LogRecord|
                stamped(r, *old(self), logger as int, LogLevel::Critical, msg@, *ctx)
                && emitted(*old(self), *final(self), logger as int, r, outs@),
    {
        self.log(logger, LogLevel::Critical, msg, ctx)
    }

    /// The handlers a flush of logger `logger` reaches: its own, and the
    /// global ones too when it propagates.
    pub fn flush_targets(&self, logger: usize) -> (r: Vec<usize>)
        requires
            self.wf(),
            logger < self.manager.loggers@.len(),
        ensures
            ({
                let l = self.manager.loggers@;
                let own = l[logger as int].handlers@;
                r@ == if l[logger as int].propagate {
                    own + absent_from(l[0].handlers@, own)
                } else {
                    own
                }
            }),
    {
        let lg = &self.manager.loggers[logger];
        if lg.propagate {
            own_then_global(&lg.handlers, &self.manager.loggers[0].handlers)
        } else {
            copy_ids(&lg.handlers)
        }
    }

    /// Every handler index, for a flush of everything.
    pub fn all_handlers(&self) -> (r: Vec<usize>)
        ensures
            r@.len() == self.handlers@.len(),
            forall|k: int| 0 <= k < r@.len() ==> r@[k] == k,
    {
        let mut out: Vec<usize> = Vec::new();
        let mut k: usize = 0;
        while k < self.handlers.len()
            invariant
                k <= self.handlers.len(),
                out@.len() == k,
                forall|q: int| 0 <= q < k ==> out@[q] == q,
            decreases self.handlers.len() - k,
        {
            out.push(k);
            k = k + 1;
        }
        out
    }
}

/// The name of a child logger.
pub open spec fn child_name(parent: Seq<char>, suffix: Seq<char>) -> Seq<char> {
    if parent.len() == 0 {
        suffix
    } else {
        parent + seq!['.'] + suffix
    }
}

/// Whether logger `i` passes records at `level`.
pub open spec fn enabled_at(s: Logging, i: int, level: LogLevel) -> bool {
    level_value(level) >= level_value(effective_level(s.manager.loggers@, i))
}

/// `r` is the record a call at `level` with message `msg` makes on logger
/// `i`, stamped from `ctx`.
pub open spec fn stamped(r: LogRecord, s: Logging, i: int, level: LogLevel, msg: Seq<char>, ctx: RecordContext) -> bool {
    &&& fresh_record(r, s.manager.loggers@[i].name@, level, msg)
    &&& r.created == ctx.now.secs
    &&& r.msecs == ctx.now.millis % 1000
    &&& r.thread == ctx.thread.id
    &&& r.thread_name@ == crate::record::chosen_thread_name(ctx.thread)
    &&& r.process == ctx.process
}

/// The handlers logger `i` reaches before its filters are consulted.
pub open spec fn reach(l: Seq<crate::registry::Logger>, i: int) -> Seq<usize> {
    let own = l[i].handlers@;
    let global = l[0].handlers@;
    if own.len() == 0 {
        global
    } else if l[i].propagate {
        own + absent_from(global, own)
    } else {
        own
    }
}

/// A filter that rejects the record stops it before any handler; filters
/// that let every record through change nothing about where it goes.
pub proof fn lemma_filters_gate(l: Seq<crate::registry::Logger>, i: int, r: LogRecord)
    requires
        0 <= i < l.len(),
    ensures
        (exists|k: int| 0 <= k < l[i].filters@.len() && !(#[trigger] l[i].filters@[k]).permits(r))
            ==> targets(l, i, r).len() == 0,
        (forall|k: int| 0 <= k < l[i].filters@.len() ==> #[trigger] l[i].filters@[k] == FilterRule::AllowAll)
            ==> targets(l, i, r) == reach(l, i),
{
}

} // verus!
