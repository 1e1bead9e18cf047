use vstd::prelude::*;

use std::fmt::Write;

use crate::record::LogRecord;
use crate::template::{render, render_template};

verus! {

/// Turns a record into one line of text. Implemented by the formatters of
/// this crate and open to callers' own.
pub trait Formatter {
    /// Whether `out` is a text this formatter may make of `record`.
    spec fn formats(&self, record: LogRecord, out: Seq<char>) -> bool;

    fn format(&self, record: &LogRecord) -> (r: String)
        ensures
            self.formats(*record, r@);
}

/// Formats as `[LEVELNAME] logger_name: message`.
pub struct DefaultFormatter;

/// The text `DefaultFormatter` makes of a record.
pub open spec fn default_layout(r: LogRecord) -> Seq<char> {
    seq!['['] + r.levelname@ + seq![']', ' '] + r.name@ + seq![':', ' '] + r.msg@
}

impl DefaultFormatter {
    /// `[LEVELNAME] logger_name: message` for `record`.
    pub fn layout(record: &LogRecord) -> (r: String)
        ensures
            r@ == default_layout(*record),
    {
        let mut s = String::new();
        crate::text::push_char(&mut s, '[');
        s.append(record.levelname.as_str());
        crate::text::push_char(&mut s, ']');
        crate::text::push_char(&mut s, ' ');
        s.append(record.name.as_str());
        crate::text::push_char(&mut s, ':');
        crate::text::push_char(&mut s, ' ');
        s.append(record.msg.as_str());
        assert(s@ =~= default_layout(*record));
        s
    }
}

impl Formatter for DefaultFormatter {
    open spec fn formats(&self, record: LogRecord, out: Seq<char>) -> bool {
        out == default_layout(record)
    }

    fn format(&self, record: &LogRecord) -> (r: String) {
        DefaultFormatter::layout(record)
    }
}

/// Formats with a `%(field)s` template, as the host language's standard
/// logging module does; `%(asctime)s` is the record's local time rendered
/// with `date_format`, or with `%Y-%m-%d %H:%M:%S` when none is given.
#[derive(Debug)]
pub struct PythonFormatter {
    pub format_string: String,
    pub date_format: Option<String>,
}

/// Relies on `chrono::Local::timestamp_opt` and `DateTime::format`: the
/// local time of an instant rendered with a strftime pattern. The result
/// depends on the machine's time zone, so nothing is stated of it; a
/// pattern that chrono cannot render leaves what was written so far.
#[verifier::external_body]
fn local_time_text(secs: i64, nanos: u32, pattern: &str) -> String {
    let when = chrono::TimeZone::timestamp_opt(&chrono::Local, secs, nanos)
        .single()
        .unwrap_or_else(chrono::Local::now);
    let mut out = String::new();
    let _ = write!(out, "{}", when.format(pattern));
    out
}

impl PythonFormatter {
    pub fn new(format_string: String) -> (r: Self)
        ensures
            r.format_string == format_string,
            r.date_format.is_none(),
    {
        PythonFormatter { format_string, date_format: None }
    }

    pub fn with_date_format(format_string: String, date_format: String) -> (r: Self)
        ensures
            r.format_string == format_string,
            r.date_format == Some(date_format),
    {
        PythonFormatter { format_string, date_format: Some(date_format) }
    }

    /// The template rendered for `record`, with `asctime` as the record's time.
    pub fn format_with_asctime(&self, record: &LogRecord, asctime: &str) -> (r: String)
        ensures
            r@ == render(self.format_string@, *record, asctime@),
    {
        render_template(self.format_string.as_str(), record, asctime)
    }

    /// What the record's local time is rendered from: the strftime
    /// pattern (the date format, else `%Y-%m-%d %H:%M:%S`), the whole
    /// seconds, and the nanoseconds of its milliseconds.
    pub fn asctime_request(&self, record: &LogRecord) -> (r: (String, i64, u32))
        ensures
            r.0@ == match self.date_format {
                Some(f) => f@,
                None => "%Y-%m-%d %H:%M:%S"@,
            },
            r.1 == record.created,
            r.2 == if record.msecs < 1000 {
                record.msecs * 1_000_000
            } else {
                0
            },
    {
        let nanos: u32 = if record.msecs < 1000 {
            record.msecs * 1_000_000
        } else {
            0
        };
        let pattern = match &self.date_format {
            Some(f) => f.clone(),
            None => String::from_str("%Y-%m-%d %H:%M:%S"),
        };
        (pattern, record.created, nanos)
    }

    /// The record's creation time as local time text, rendered from what
    /// `asctime_request` gives; the text depends on the machine's time zone.
    pub fn asctime(&self, record: &LogRecord) -> String {
        let (pattern, secs, nanos) = self.asctime_request(record);
        local_time_text(secs, nanos, pattern.as_str())
    }

    /// The template rendered for `record`; whatever local time text the
    /// clock library gives, only `%(asctime)s` depends on it.
    pub fn render_record(&self, record: &LogRecord) -> (r: String)
        ensures
            exists|a: Seq<char>| r@ == render(self.format_string@, *record, a),
    {
        let a = self.asctime(record);
        self.format_with_asctime(record, a.as_str())
    }
}

impl Formatter for PythonFormatter {
    /// The template rendered for `record`, for some local time text.
    open spec fn formats(&self, record: LogRecord, out: Seq<char>) -> bool {
        exists|a: Seq<char>| out == render(self.format_string@, record, a)
    }

    fn format(&self, record: &LogRecord) -> (r: String) {
        self.render_record(record)
    }
}

} // verus!
