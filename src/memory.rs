use vstd::prelude::*;

use crate::level::{level_value, LogLevel};
use crate::record::{same_record, LogRecord};

verus! {

/// Captures records in memory, in the order they arrive.
#[derive(Debug)]
pub struct MemoryHandler {
    pub level: LogLevel,
    pub records: Vec<LogRecord>,
}

/// Whether a record passes a handler's level gate.
pub open spec fn passes_level(r: LogRecord, level: LogLevel) -> bool {
    r.levelno >= level_value(level)
}

/// The capture goes from `before` to `after` when `r` arrives: a record
/// with the fields of `r` joins at the end if its level is high enough,
/// and nothing changes otherwise.
pub open spec fn captures(before: Seq<LogRecord>, level: LogLevel, r: LogRecord, after: Seq<LogRecord>) -> bool {
    if passes_level(r, level) {
        &&& after.len() == before.len() + 1
        &&& after.subrange(0, before.len() as int) == before
        &&& same_record(after.last(), r)
    } else {
        after == before
    }
}

/// The `(logger name, level number, message)` view of a record.
pub open spec fn record_tuple(r: LogRecord) -> (Seq<char>, i32, Seq<char>) {
    (r.name@, r.levelno, r.msg@)
}

/// The view of a returned tuple.
pub open spec fn tuple_of(t: (String, i32, String)) -> (Seq<char>, i32, Seq<char>) {
    (t.0@, t.1, t.2@)
}

/// Each record's message followed by a newline.
pub open spec fn text_of(rs: Seq<LogRecord>) -> Seq<char>
    decreases rs.len(),
{
    if rs.len() == 0 {
        Seq::empty()
    } else {
        text_of(rs.drop_last()) + rs.last().msg@ + seq!['\n']
    }
}

impl MemoryHandler {
    /// An empty capture that accepts every level.
    pub fn new() -> (r: MemoryHandler)
        ensures
            r.level == LogLevel::NotSet,
            r.records@.len() == 0,
    {
        MemoryHandler { level: LogLevel::NotSet, records: Vec::new() }
    }

    pub fn set_level(&mut self, level: LogLevel)
        ensures
            final(self).level == level,
            final(self).records == old(self).records,
    {
        self.level = level;
    }

    /// Keeps `record` if it passes the level gate.
    pub fn emit(&mut self, record: &LogRecord)
        ensures
            captures(old(self).records@, old(self).level, *record, final(self).records@),
            final(self).level == old(self).level,
    {
        if record.levelno >= self.level.value() as i32 {
            self.records.push(record.duplicate());
            assert(self.records@.subrange(0, old(self).records@.len() as int) =~= old(self).records@);
        }
    }

    /// Copies of the captured records, in order.
    pub fn get_records(&self) -> (r: Vec<LogRecord>)
        ensures
            r@.len() == self.records@.len(),
            forall|i: int|
                0 <= i < r@.len() ==> crate::record::same_record(#[trigger] r@[i], self.records@[i]),
    {
        let mut out: Vec<LogRecord> = Vec::new();
        let mut i: usize = 0;
        while i < self.records.len()
            invariant
                i <= self.records.len(),
                out@.len() == i,
                forall|k: int| 0 <= k < i ==> crate::record::same_record(#[trigger] out@[k], self.records@[k]),
            decreases self.records.len() - i,
        {
            out.push(self.records[i].duplicate());
            i = i + 1;
        }
        out
    }

    /// `(logger name, level number, message)` of each captured record, in order.
    pub fn get_record_tuples(&self) -> (r: Vec<(String, i32, String)>)
        ensures
            r@.len() == self.records@.len(),
            forall|i: int| #![trigger r@[i]] 0 <= i < r@.len() ==> tuple_of(r@[i]) == record_tuple(self.records@[i]),
    {
        let mut out: Vec<(String, i32, String)> = Vec::new();
        let mut i: usize = 0;
        while i < self.records.len()
            invariant
                i <= self.records.len(),
                out@.len() == i,
                forall|k: int| #![trigger out@[k]] 0 <= k < i ==> tuple_of(out@[k]) == record_tuple(self.records@[k]),
            decreases self.records.len() - i,
        {
            let r = &self.records[i];
            out.push((r.name.clone(), r.levelno, r.msg.clone()));
            i = i + 1;
        }
        out
    }

    /// The captured messages, each followed by a newline.
    pub fn get_text(&self) -> (r: String)
        ensures
            r@ == text_of(self.records@),
    {
        let mut out = String::new();
        let mut i: usize = 0;
        while i < self.records.len()
            invariant
                i <= self.records.len(),
                out@ == text_of(self.records@.subrange(0, i as int)),
            decreases self.records.len() - i,
        {
            out.append(self.records[i].msg.as_str());
            crate::text::push_char(&mut out, '\n');
            proof {
                let s = self.records@.subrange(0, i + 1);
                assert(s.drop_last() =~= self.records@.subrange(0, i as int));
            }
            i = i + 1;
        }
        assert(self.records@.subrange(0, self.records@.len() as int) =~= self.records@);
        out
    }

    /// Forgets every captured record.
    pub fn clear(&mut self)
        ensures
            final(self).records@.len() == 0,
            final(self).level == old(self).level,
    {
        self.records = Vec::new();
    }
}

/// Emitting records that all pass the level gate to an empty capture, one
/// after another (`states[j + 1]` is what the capture holds once `rs[j]` is
/// emitted), leaves exactly those records' `(name, level, message)` tuples
/// in emission order.
pub proof fn lemma_memory_round_trip(
    level: LogLevel,
    rs: Seq<LogRecord>,
    states: Seq<Seq<LogRecord>>,
)
    requires
        states.len() == rs.len() + 1,
        states[0].len() == 0,
        forall|j: int| 0 <= j < rs.len() ==> passes_level(#[trigger] rs[j], level),
        forall|j: int|
            0 <= j < rs.len() ==> captures(#[trigger] states[j], level, rs[j], states[j + 1]),
    ensures
        states.last().len() == rs.len(),
        forall|j: int|
            0 <= j < rs.len() ==> record_tuple(#[trigger] states.last()[j]) == record_tuple(rs[j]),
    decreases rs.len(),
{
    if rs.len() > 0 {
        let n = rs.len() - 1;
        lemma_memory_round_trip(level, rs.drop_last(), states.drop_last());
        assert(passes_level(rs[n], level));
        assert(captures(states[n], level, rs[n], states[n + 1]));
        let last = states.last();
        let prev = states[n];
        assert forall|j: int| 0 <= j < rs.len() implies record_tuple(#[trigger] last[j]) == record_tuple(
            rs[j],
        ) by {
            if j < n {
                assert(last[j] == last.subrange(0, prev.len() as int)[j]);
                assert(prev == states.drop_last().last());
                assert(rs.drop_last()[j] == rs[j]);
            }
        }
    }
}

} // verus!
