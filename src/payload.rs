use vstd::prelude::*;

use crate::level::{level_of_number, severity_of, LogLevel};
use crate::record::LogRecord;

verus! {

/// A value in a record's outgoing key/value form.
#[derive(Debug, Clone, PartialEq, Eq)]
pub enum Scalar {
    Text(String),
    Int(i64),
    Nat(u64),
}

fn clone_scalar(v: &Scalar) -> (r: Scalar)
    ensures
        r == *v,
{
    match v {
        Scalar::Text(t) => Scalar::Text(t.clone()),
        Scalar::Int(n) => Scalar::Int(*n),
        Scalar::Nat(n) => Scalar::Nat(*n),
    }
}

/// The key/value pairs a record is sent as: the static context first, then
/// the record's own fields, then its extra pairs; a later key overrides an
/// earlier one when the receiver builds a map.
pub open spec fn record_fields_spec(r: LogRecord, context: Seq<(String, Scalar)>) -> Seq<(Seq<char>, Scalar)> {
    context.map_values(|p: (String, Scalar)| (p.0@, p.1)) + seq![
        ("name"@, Scalar::Text(r.name)),
        ("levelno"@, Scalar::Int(r.levelno as i64)),
        ("levelname"@, Scalar::Text(r.levelname)),
        ("msg"@, Scalar::Text(r.msg)),
        ("created"@, Scalar::Int(r.created)),
        ("msecs"@, Scalar::Int(r.msecs as i64)),
        ("thread"@, Scalar::Nat(r.thread)),
        ("threadName"@, Scalar::Text(r.thread_name)),
        ("process"@, Scalar::Int(r.process as i64)),
        ("pathname"@, Scalar::Text(r.pathname)),
        ("lineno"@, Scalar::Int(r.lineno as i64)),
        ("funcName"@, Scalar::Text(r.func_name)),
    ] + r.extra@.map_values(|p: (String, String)| (p.0@, Scalar::Text(p.1)))
}

/// The view of a list of outgoing pairs.
pub open spec fn fields_view(v: Seq<(String, Scalar)>) -> Seq<(Seq<char>, Scalar)> {
    v.map_values(|p: (String, Scalar)| (p.0@, p.1))
}

proof fn lemma_view_push(v: Seq<(String, Scalar)>, x: (String, Scalar))
    ensures
        fields_view(v.push(x)) == fields_view(v).push((x.0@, x.1)),
{
    assert(fields_view(v.push(x)) =~= fields_view(v).push((x.0@, x.1)));
}

fn push_pair(out: &mut Vec<(String, Scalar)>, key: &str, value: Scalar)
    ensures
        fields_view(final(out)@) == fields_view(old(out)@).push((key@, value)),
{
    out.push((String::from_str(key), value));
    assert(fields_view(out@) =~= fields_view(old(out)@).push((key@, value)));
}

/// The key/value pairs `record` is sent as by the JSON handler.
pub fn record_fields(record: &LogRecord, context: &Vec<(String, Scalar)>) -> (r: Vec<(String, Scalar)>)
    ensures
        fields_view(r@) == record_fields_spec(*record, context@),
{
    let mut out: Vec<(String, Scalar)> = Vec::new();
    let mut i: usize = 0;
    while i < context.len()
        invariant
            i <= context.len(),
            fields_view(out@) == fields_view(context@.subrange(0, i as int)),
        decreases context.len() - i,
    {
        let (k, v) = &context[i];
        let ghost before = out@;
        out.push((k.clone(), clone_scalar(v)));
        proof {
            lemma_view_push(before, (*k, *v));
            assert(context@.subrange(0, i + 1) =~= context@.subrange(0, i as int).push(context@[i as int]));
            lemma_view_push(context@.subrange(0, i as int), context@[i as int]);
        }
        i = i + 1;
        assert(fields_view(out@) =~= fields_view(context@.subrange(0, i as int)));
    }
    assert(context@.subrange(0, context@.len() as int) =~= context@);
    let ghost base = fields_view(out@);
    push_pair(&mut out, "name", Scalar::Text(record.name.clone()));
    push_pair(&mut out, "levelno", Scalar::Int(record.levelno as i64));
    push_pair(&mut out, "levelname", Scalar::Text(record.levelname.clone()));
    push_pair(&mut out, "msg", Scalar::Text(record.msg.clone()));
    push_pair(&mut out, "created", Scalar::Int(record.created));
    push_pair(&mut out, "msecs", Scalar::Int(record.msecs as i64));
    push_pair(&mut out, "thread", Scalar::Nat(record.thread));
    push_pair(&mut out, "threadName", Scalar::Text(record.thread_name.clone()));
    push_pair(&mut out, "process", Scalar::Int(record.process as i64));
    push_pair(&mut out, "pathname", Scalar::Text(record.pathname.clone()));
    push_pair(&mut out, "lineno", Scalar::Int(record.lineno as i64));
    push_pair(&mut out, "funcName", Scalar::Text(record.func_name.clone()));
    let ghost mid = fields_view(out@);
    let ghost ex = record.extra@.map_values(|p: (String, String)| (p.0@, Scalar::Text(p.1)));
    let mut k: usize = 0;
    while k < record.extra.len()
        invariant
            k <= record.extra.len(),
            ex == record.extra@.map_values(|p: (String, String)| (p.0@, Scalar::Text(p.1))),
            fields_view(out@) == mid + ex.subrange(0, k as int),
        decreases record.extra.len() - k,
    {
        let (a, b) = &record.extra[k];
        assert(ex[k as int] == (a@, Scalar::Text(*b)));
        let ghost before = out@;
        out.push((a.clone(), Scalar::Text(b.clone())));
        proof {
            lemma_view_push(before, (*a, Scalar::Text(*b)));
            assert(ex.subrange(0, k + 1) =~= ex.subrange(0, k as int).push(ex[k as int]));
        }
        k = k + 1;
        assert(fields_view(out@) =~= mid + ex.subrange(0, k as int));
    }
    assert(ex.subrange(0, ex.len() as int) =~= ex);
    assert(fields_view(out@) =~= record_fields_spec(*record, context@));
    out
}

/// A record in the shape of the OpenTelemetry log data model.
#[derive(Debug, Clone)]
pub struct OtlpRecord {
    pub time_unix_nano: i128,
    pub severity_number: u8,
    pub severity_text: String,
    pub body: String,
    /// Attribute name and text value, in order.
    pub attributes: Vec<(String, String)>,
}

/// The OpenTelemetry form of `record`: its time in nanoseconds, the
/// severity number of its level, its level name and message, and the
/// logger name and thread as attributes.
pub fn otlp_record(record: &LogRecord) -> (r: OtlpRecord)
    ensures
        r.time_unix_nano == record.created * 1_000_000_000 + record.msecs * 1_000_000,
        r.severity_number == severity_of(level_of_number(record.levelno as int)),
        r.severity_text == record.levelname,
        r.body == record.msg,
        r.attributes@.len() == 3,
        r.attributes@[0].0@ == "logger.name"@ && r.attributes@[0].1 == record.name,
        r.attributes@[1].0@ == "thread.id"@ && r.attributes@[1].1@ == crate::text::dec(record.thread as nat),
        r.attributes@[2].0@ == "thread.name"@ && r.attributes@[2].1 == record.thread_name,
{
    let level = if record.levelno < 0 {
        LogLevel::NotSet
    } else {
        LogLevel::from_usize(record.levelno as usize)
    };
    let mut attributes: Vec<(String, String)> = Vec::new();
    attributes.push((String::from_str("logger.name"), record.name.clone()));
    attributes.push((String::from_str("thread.id"), crate::text::decimal(record.thread)));
    attributes.push((String::from_str("thread.name"), record.thread_name.clone()));
    OtlpRecord {
        time_unix_nano: record.created as i128 * 1_000_000_000 + record.msecs as i128 * 1_000_000,
        severity_number: level.otlp_severity(),
        severity_text: record.levelname.clone(),
        body: record.msg.clone(),
        attributes,
    }
}

} // verus!
