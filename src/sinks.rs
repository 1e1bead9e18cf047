use vstd::prelude::*;

use crate::formatter::PythonFormatter;
use crate::level::{level_value, LogLevel};
use crate::memory::passes_level;
use crate::record::LogRecord;
use crate::rotation::{needs_rollover, rollover_plan, FileOp, RotationState};
use crate::template::render;
use vstd::utf8::encode_utf8;

verus! {

/// Where a stream handler writes.
#[derive(Debug, Clone, Copy, PartialEq, Eq, Structural)]
pub enum StreamDestination {
    Stdout,
    Stderr,
}

/// The line a handler writes for `r`: the formatter's text and a newline,
/// for some rendering `a` of the record's local time.
pub open spec fn is_line_for(line: Seq<char>, f: PythonFormatter, r: LogRecord) -> bool {
    exists|a: Seq<char>| line == render(f.format_string@, r, a) + seq!['\n']
}

/// The layout of stream and file handlers:
/// `%(asctime)s - %(name)s - %(levelname)s - %(message)s`, with
/// millisecond time after a comma.
pub open spec fn is_plain_layout(f: PythonFormatter) -> bool {
    &&& f.format_string@ == "%(asctime)s - %(name)s - %(levelname)s - %(message)s"@
    &&& f.date_format matches Some(d) && d@ == "%Y-%m-%d %H:%M:%S,%3f"@
}

/// The layout of console and rotating file handlers, with thread details
/// and millisecond time after a dot.
pub open spec fn is_thread_layout(f: PythonFormatter) -> bool {
    &&& f.format_string@
        == "[%(asctime)s] [Thread-%(thread)d %(threadName)s] %(levelname)s %(name)s - %(message)s"@
    &&& f.date_format matches Some(d) && d@ == "%Y-%m-%d %H:%M:%S%.3f"@
}

fn plain_layout() -> (r: PythonFormatter)
    ensures
        is_plain_layout(r),
{
    PythonFormatter::with_date_format(
        String::from_str("%(asctime)s - %(name)s - %(levelname)s - %(message)s"),
        String::from_str("%Y-%m-%d %H:%M:%S,%3f"),
    )
}

/// A formatter with the layout of console and rotating file handlers.
pub fn thread_layout() -> (r: PythonFormatter)
    ensures
        is_thread_layout(r),
{
    PythonFormatter::with_date_format(
        String::from_str(
            "[%(asctime)s] [Thread-%(thread)d %(threadName)s] %(levelname)s %(name)s - %(message)s",
        ),
        String::from_str("%Y-%m-%d %H:%M:%S%.3f"),
    )
}

/// The formatted line for `record`, newline included.
fn line_for(f: &PythonFormatter, record: &LogRecord) -> (r: String)
    ensures
        is_line_for(r@, *f, *record),
{
    let mut s = f.render_record(record);
    let ghost a = choose|a: Seq<char>| s@ == render(f.format_string@, *record, a);
    crate::text::push_char(&mut s, '\n');
    assert(s@ == render(f.format_string@, *record, a) + seq!['\n']);
    s
}

/// Writes each passing record to standard output or standard error and
/// flushes the stream after it.
#[derive(Debug)]
pub struct StreamHandler {
    pub destination: StreamDestination,
    pub level: LogLevel,
    pub formatter: PythonFormatter,
}

impl StreamHandler {
    /// A handler on standard error that passes every level from `Debug` up.
    pub fn new() -> (r: StreamHandler)
        ensures
            r.destination == StreamDestination::Stderr,
            r.level == LogLevel::Debug,
            is_plain_layout(r.formatter),
    {
        StreamHandler::stderr()
    }

    pub fn stdout() -> (r: StreamHandler)
        ensures
            r.destination == StreamDestination::Stdout,
            r.level == LogLevel::Debug,
            is_plain_layout(r.formatter),
    {
        StreamHandler { destination: StreamDestination::Stdout, level: LogLevel::Debug, formatter: plain_layout() }
    }

    pub fn stderr() -> (r: StreamHandler)
        ensures
            r.destination == StreamDestination::Stderr,
            r.level == LogLevel::Debug,
            is_plain_layout(r.formatter),
    {
        StreamHandler { destination: StreamDestination::Stderr, level: LogLevel::Debug, formatter: plain_layout() }
    }

    pub fn set_level(&mut self, level: LogLevel)
        ensures
            final(self).level == level,
            final(self).destination == old(self).destination,
            final(self).formatter == old(self).formatter,
    {
        self.level = level;
    }

    pub fn set_formatter(&mut self, formatter: PythonFormatter)
        ensures
            final(self).formatter == formatter,
            final(self).level == old(self).level,
            final(self).destination == old(self).destination,
    {
        self.formatter = formatter;
    }

    /// The line to write for `record`, or `None` when its level is below
    /// the handler's.
    pub fn emit(&self, record: &LogRecord) -> (r: Option<String>)
        ensures
            r is None <==> !passes_level(*record, self.level),
            r matches Some(t) ==> is_line_for(t@, self.formatter, *record),
    {
        if record.levelno >= self.level.value() as i32 {
            Some(line_for(&self.formatter, record))
        } else {
            None
        }
    }
}

/// Writes each passing record to standard output with thread details, and
/// flushes after it.
#[derive(Debug)]
pub struct ConsoleHandler {
    pub level: LogLevel,
    pub formatter: PythonFormatter,
}

impl ConsoleHandler {
    /// Passes `Warning` and above.
    pub fn new() -> (r: ConsoleHandler)
        ensures
            r.level == LogLevel::Warning,
            is_thread_layout(r.formatter),
    {
        ConsoleHandler { level: LogLevel::Warning, formatter: thread_layout() }
    }

    pub fn with_level(level: LogLevel) -> (r: ConsoleHandler)
        ensures
            r.level == level,
            is_thread_layout(r.formatter),
    {
        ConsoleHandler { level, formatter: thread_layout() }
    }

    pub fn with_formatter(level: LogLevel, formatter: PythonFormatter) -> (r: ConsoleHandler)
        ensures
            r.level == level,
            r.formatter == formatter,
    {
        ConsoleHandler { level, formatter }
    }

    pub fn set_formatter(&mut self, formatter: PythonFormatter)
        ensures
            final(self).formatter == formatter,
            final(self).level == old(self).level,
    {
        self.formatter = formatter;
    }

    /// The line to write for `record`, or `None` when its level is below
    /// the handler's.
    pub fn emit(&self, record: &LogRecord) -> (r: Option<String>)
        ensures
            r is None <==> !passes_level(*record, self.level),
            r matches Some(t) ==> is_line_for(t@, self.formatter, *record),
    {
        if record.levelno >= self.level.value() as i32 {
            Some(line_for(&self.formatter, record))
        } else {
            None
        }
    }
}

impl Default for ConsoleHandler {
    fn default() -> (r: ConsoleHandler)
        ensures
            r.level == LogLevel::Warning,
    {
        ConsoleHandler::new()
    }
}

impl Default for StreamHandler {
    fn default() -> (r: StreamHandler)
        ensures
            r.destination == StreamDestination::Stderr,
            r.level == LogLevel::Debug,
    {
        StreamHandler::new()
    }
}

/// Appends each passing record to a file through a buffer, and flushes
/// only for records at or above the flush level.
#[derive(Debug)]
pub struct FileHandler {
    pub level: LogLevel,
    pub flush_level: LogLevel,
    pub formatter: PythonFormatter,
}

/// A line to append, and whether the buffer must be flushed after it.
#[derive(Debug)]
pub struct FileWrite {
    pub text: String,
    pub flush: bool,
}

impl FileHandler {
    /// Passes every level from `Debug` up; flushes on `Error` and above.
    pub fn new() -> (r: FileHandler)
        ensures
            r.level == LogLevel::Debug,
            r.flush_level == LogLevel::Error,
            is_plain_layout(r.formatter),
    {
        FileHandler { level: LogLevel::Debug, flush_level: LogLevel::Error, formatter: plain_layout() }
    }

    pub fn set_level(&mut self, level: LogLevel)
        ensures
            final(self).level == level,
            final(self).flush_level == old(self).flush_level,
            final(self).formatter == old(self).formatter,
    {
        self.level = level;
    }

    pub fn set_flush_level(&mut self, level: LogLevel)
        ensures
            final(self).flush_level == level,
            final(self).level == old(self).level,
            final(self).formatter == old(self).formatter,
    {
        self.flush_level = level;
    }

    pub fn get_flush_level(&self) -> (r: LogLevel)
        ensures
            r == self.flush_level,
    {
        self.flush_level
    }

    pub fn set_formatter(&mut self, formatter: PythonFormatter)
        ensures
            final(self).formatter == formatter,
            final(self).level == old(self).level,
            final(self).flush_level == old(self).flush_level,
    {
        self.formatter = formatter;
    }

    /// Whether writing `record` forces a flush.
    pub fn should_flush(&self, record: &LogRecord) -> (r: bool)
        ensures
            r == (record.levelno >= level_value(self.flush_level)),
    {
        record.levelno >= self.flush_level.value() as i32
    }

    /// What to append for `record`, or `None` when its level is below the
    /// handler's.
    pub fn emit(&self, record: &LogRecord) -> (r: Option<FileWrite>)
        ensures
            r is None <==> !passes_level(*record, self.level),
            r matches Some(w) ==> is_line_for(w.text@, self.formatter, *record) && w.flush == (
            record.levelno >= level_value(self.flush_level)),
    {
        if record.levelno >= self.level.value() as i32 {
            Some(FileWrite { text: line_for(&self.formatter, record), flush: self.should_flush(record) })
        } else {
            None
        }
    }
}

/// A file handler that rolls the file over by size.
#[derive(Debug)]
pub struct RotatingFileHandler {
    pub level: LogLevel,
    pub flush_level: LogLevel,
    pub formatter: PythonFormatter,
    pub rotation: RotationState,
}

/// The rollover steps to run (possibly none), then the line to append.
#[derive(Debug)]
pub struct RotatingWrite {
    pub steps: Vec<FileOp>,
    pub text: String,
    /// The line's length in bytes.
    pub bytes: u64,
    pub flush: bool,
}

impl RotatingFileHandler {
    /// Rolls over past `max_bytes` (never when it is 0), keeping
    /// `backup_count` backups; `current_size` is the size the file has when
    /// it is opened.
    pub fn new(max_bytes: u64, backup_count: u32, current_size: u64) -> (r: RotatingFileHandler)
        ensures
            r.level == LogLevel::Debug,
            r.flush_level == LogLevel::Error,
            r.rotation == (RotationState { max_bytes, backup_count, current_size }),
            is_thread_layout(r.formatter),
    {
        RotatingFileHandler {
            level: LogLevel::Debug,
            flush_level: LogLevel::Error,
            formatter: thread_layout(),
            rotation: RotationState::new(max_bytes, backup_count, current_size),
        }
    }

    /// The same, with a level and a formatter of the caller's.
    pub fn with_formatter(
        max_bytes: u64,
        backup_count: u32,
        current_size: u64,
        level: LogLevel,
        formatter: PythonFormatter,
    ) -> (r: RotatingFileHandler)
        ensures
            r.level == level,
            r.flush_level == LogLevel::Error,
            r.formatter == formatter,
            r.rotation == (RotationState { max_bytes, backup_count, current_size }),
    {
        RotatingFileHandler {
            level,
            flush_level: LogLevel::Error,
            formatter,
            rotation: RotationState::new(max_bytes, backup_count, current_size),
        }
    }

    pub fn set_level(&mut self, level: LogLevel)
        ensures
            final(self).level == level,
            final(self).flush_level == old(self).flush_level,
            final(self).formatter == old(self).formatter,
            final(self).rotation == old(self).rotation,
    {
        self.level = level;
    }

    pub fn set_flush_level(&mut self, level: LogLevel)
        ensures
            final(self).flush_level == level,
            final(self).level == old(self).level,
            final(self).formatter == old(self).formatter,
            final(self).rotation == old(self).rotation,
    {
        self.flush_level = level;
    }

    pub fn get_flush_level(&self) -> (r: LogLevel)
        ensures
            r == self.flush_level,
    {
        self.flush_level
    }

    pub fn set_formatter(&mut self, formatter: PythonFormatter)
        ensures
            final(self).formatter == formatter,
            final(self).level == old(self).level,
            final(self).flush_level == old(self).flush_level,
            final(self).rotation == old(self).rotation,
    {
        self.formatter = formatter;
    }

    /// What to do for `record`: nothing when its level is below the
    /// handler's; else roll over first when the line's bytes would take the
    /// file past the limit, then append the line.
    pub fn emit(&mut self, record: &LogRecord) -> (r: Option<RotatingWrite>)
        ensures
            final(self).level == old(self).level,
            final(self).flush_level == old(self).flush_level,
            final(self).formatter == old(self).formatter,
            final(self).rotation.max_bytes == old(self).rotation.max_bytes,
            final(self).rotation.backup_count == old(self).rotation.backup_count,
            r is None <==> !passes_level(*record, old(self).level),
            r is None ==> final(self).rotation == old(self).rotation,
            r matches Some(w) ==> {
                &&& is_line_for(w.text@, old(self).formatter, *record)
                &&& w.flush == (record.levelno >= level_value(old(self).flush_level))
                &&& w.bytes == encode_utf8(w.text@).len() as usize
                &&& needs_rollover(old(self).rotation, w.bytes as int)
                    ==> w.steps@ == rollover_plan(old(self).rotation.backup_count as nat)
                    && final(self).rotation.current_size == w.bytes
                &&& !needs_rollover(old(self).rotation, w.bytes as int) ==> w.steps@.len() == 0
                    && final(self).rotation.current_size == crate::rotation::add_capped(
                    old(self).rotation.current_size as int,
                    w.bytes as int,
                )
            },
    {
        if record.levelno < self.level.value() as i32 {
            return None;
        }
        let text = line_for(&self.formatter, record);
        let bytes = text.as_str().len() as u64;
        let steps = self.rotation.prepare_write(bytes);
        let flush = record.levelno >= self.flush_level.value() as i32;
        Some(RotatingWrite { steps, text, bytes, flush })
    }
}

} // verus!
