use vstd::prelude::*;
use vstd::string::StringSliceAdditionalSpecFns;
use vstd::utf8::encode_utf8;

use crate::payload::OtlpRecord;

verus! {

/// Base-128 varint: seven bits per byte, low bits first, the high bit set
/// on every byte but the last.
pub open spec fn varint(n: nat) -> Seq<u8>
    decreases n,
{
    if n < 128 {
        seq![n as u8]
    } else {
        seq![(n % 128 + 128) as u8] + varint(n / 128)
    }
}

/// The key of field `field` with wire type `wire`.
pub open spec fn field_key(field: nat, wire: nat) -> Seq<u8> {
    varint(field * 8 + wire)
}

/// A length-delimited field.
pub open spec fn len_field(field: nat, body: Seq<u8>) -> Seq<u8> {
    field_key(field, 2) + varint(body.len()) + body
}

/// A varint field.
pub open spec fn varint_field(field: nat, n: nat) -> Seq<u8> {
    field_key(field, 0) + varint(n)
}

/// `k` little-endian bytes of `n`.
pub open spec fn le_bytes(n: nat, k: nat) -> Seq<u8>
    decreases k,
{
    if k == 0 {
        Seq::empty()
    } else {
        seq![(n % 256) as u8] + le_bytes(n / 256, (k - 1) as nat)
    }
}

/// A fixed 64-bit field.
pub open spec fn fixed64_field(field: nat, n: nat) -> Seq<u8> {
    field_key(field, 1) + le_bytes(n, 8)
}

/// An `AnyValue` holding a string.
pub open spec fn any_string(s: Seq<char>) -> Seq<u8> {
    len_field(1, encode_utf8(s))
}

/// A `KeyValue` with a string value.
pub open spec fn key_value(k: Seq<char>, v: Seq<char>) -> Seq<u8> {
    len_field(1, encode_utf8(k)) + len_field(2, any_string(v))
}

/// The attributes of a log record, each as field 6.
pub open spec fn attribute_fields(a: Seq<(String, String)>) -> Seq<u8>
    decreases a.len(),
{
    if a.len() == 0 {
        Seq::empty()
    } else {
        attribute_fields(a.drop_last()) + len_field(6, key_value(a.last().0@, a.last().1@))
    }
}

/// A time in nanoseconds, kept within what a fixed 64-bit field holds.
pub open spec fn clamp_time(t: int) -> nat {
    if t < 0 {
        0
    } else if t > u64::MAX {
        u64::MAX as nat
    } else {
        t as nat
    }
}

/// An OTLP `LogRecord` message.
pub open spec fn log_record_message(o: OtlpRecord) -> Seq<u8> {
    fixed64_field(1, clamp_time(o.time_unix_nano as int)) + varint_field(2, o.severity_number as nat)
        + len_field(3, encode_utf8(o.severity_text@)) + len_field(5, any_string(o.body@))
        + attribute_fields(o.attributes@)
}

/// The log records of a batch, each as field 2 of the scope's logs.
pub open spec fn record_fields_of(rs: Seq<OtlpRecord>) -> Seq<u8>
    decreases rs.len(),
{
    if rs.len() == 0 {
        Seq::empty()
    } else {
        record_fields_of(rs.drop_last()) + len_field(2, log_record_message(rs.last()))
    }
}

/// An `ExportLogsServiceRequest` with one resource, named by its
/// `service.name` attribute, and one scope, named `scope`.
pub open spec fn export_request(service: Seq<char>, scope: Seq<char>, rs: Seq<OtlpRecord>) -> Seq<u8> {
    let resource = len_field(1, key_value("service.name"@, service));
    let scope_logs = len_field(1, len_field(1, encode_utf8(scope))) + record_fields_of(rs);
    len_field(1, len_field(1, resource) + len_field(2, scope_logs))
}

fn push_varint(out: &mut Vec<u8>, n: u64)
    ensures
        final(out)@ == old(out)@ + varint(n as nat),
    decreases n,
{
    if n < 128 {
        out.push(n as u8);
        assert(final(out)@ =~= old(out)@ + varint(n as nat));
    } else {
        out.push((n % 128 + 128) as u8);
        let ghost mid = out@;
        push_varint(out, n / 128);
        assert(final(out)@ =~= old(out)@ + varint(n as nat));
    }
}

fn push_all(out: &mut Vec<u8>, b: &[u8])
    ensures
        final(out)@ == old(out)@ + b@,
{
    let mut i: usize = 0;
    while i < b.len()
        invariant
            i <= b.len(),
            out@ == old(out)@ + b@.subrange(0, i as int),
        decreases b.len() - i,
    {
        out.push(b[i]);
        i = i + 1;
        assert(out@ =~= old(out)@ + b@.subrange(0, i as int));
    }
    assert(b@.subrange(0, b@.len() as int) =~= b@);
}

fn push_len_field(out: &mut Vec<u8>, field: u64, body: &Vec<u8>)
    requires
        field < 0x1000_0000_0000_0000,
    ensures
        final(out)@ == old(out)@ + len_field(field as nat, body@),
{
    push_varint(out, field * 8 + 2);
    push_varint(out, body.len() as u64);
    push_all(out, body.as_slice());
    assert(final(out)@ =~= old(out)@ + len_field(field as nat, body@));
}

fn text_bytes(s: &str) -> (r: Vec<u8>)
    ensures
        r@ == encode_utf8(s@),
{
    let mut out: Vec<u8> = Vec::new();
    push_all(&mut out, s.as_bytes());
    assert(out@ =~= encode_utf8(s@));
    out
}

fn any_string_bytes(s: &str) -> (r: Vec<u8>)
    ensures
        r@ == any_string(s@),
{
    let mut out: Vec<u8> = Vec::new();
    push_len_field(&mut out, 1, &text_bytes(s));
    assert(out@ =~= any_string(s@));
    out
}

fn key_value_bytes(k: &str, v: &str) -> (r: Vec<u8>)
    ensures
        r@ == key_value(k@, v@),
{
    let mut out: Vec<u8> = Vec::new();
    push_len_field(&mut out, 1, &text_bytes(k));
    push_len_field(&mut out, 2, &any_string_bytes(v));
    assert(out@ =~= key_value(k@, v@));
    out
}

/// The bytes of one OTLP `LogRecord` message.
pub fn encode_log_record(o: &OtlpRecord) -> (r: Vec<u8>)
    ensures
        r@ == log_record_message(*o),
{
    let mut out: Vec<u8> = Vec::new();
    push_varint(&mut out, 9);
    let t: u64 = if o.time_unix_nano < 0 {
        0
    } else if o.time_unix_nano > u64::MAX as i128 {
        u64::MAX
    } else {
        o.time_unix_nano as u64
    };
    let mut n = t;
    let mut k: usize = 0;
    let ghost start = out@;
    while k < 8
        invariant
            k <= 8,
            out@ + le_bytes(n as nat, (8 - k) as nat) == start + le_bytes(t as nat, 8),
        decreases 8 - k,
    {
        let ghost before = out@;
        out.push((n % 256) as u8);
        assert(out@ + le_bytes((n / 256) as nat, (8 - k - 1) as nat) =~= before + le_bytes(
            n as nat,
            (8 - k) as nat,
        ));
        n = n / 256;
        k = k + 1;
    }
    assert(out@ =~= start + le_bytes(t as nat, 8));
    push_varint(&mut out, 16);
    push_varint(&mut out, o.severity_number as u64);
    push_len_field(&mut out, 3, &text_bytes(o.severity_text.as_str()));
    push_len_field(&mut out, 5, &any_string_bytes(o.body.as_str()));
    let ghost head = out@;
    let mut i: usize = 0;
    while i < o.attributes.len()
        invariant
            i <= o.attributes.len(),
            out@ == head + attribute_fields(o.attributes@.subrange(0, i as int)),
        decreases o.attributes.len() - i,
    {
        let (a, b) = &o.attributes[i];
        push_len_field(&mut out, 6, &key_value_bytes(a.as_str(), b.as_str()));
        proof {
            assert(o.attributes@.subrange(0, i + 1).drop_last() =~= o.attributes@.subrange(0, i as int));
        }
        i = i + 1;
        assert(out@ =~= head + attribute_fields(o.attributes@.subrange(0, i as int)));
    }
    assert(o.attributes@.subrange(0, o.attributes@.len() as int) =~= o.attributes@);
    assert(varint(9) =~= field_key(1, 1));
    assert(varint(16) =~= field_key(2, 0));
    assert(out@ =~= log_record_message(*o));
    out
}

/// The bytes of an OTLP `ExportLogsServiceRequest` carrying `records` for
/// service `service`, under the instrumentation scope `scope`.
pub fn encode_export_request(service: &str, scope: &str, records: &Vec<OtlpRecord>) -> (r: Vec<u8>)
    ensures
        r@ == export_request(service@, scope@, records@),
{
    let mut resource: Vec<u8> = Vec::new();
    push_len_field(&mut resource, 1, &key_value_bytes("service.name", service));
    let mut scope_logs: Vec<u8> = Vec::new();
    let mut scope_msg: Vec<u8> = Vec::new();
    push_len_field(&mut scope_msg, 1, &text_bytes(scope));
    push_len_field(&mut scope_logs, 1, &scope_msg);
    let ghost head = scope_logs@;
    let mut i: usize = 0;
    while i < records.len()
        invariant
            i <= records.len(),
            scope_logs@ == head + record_fields_of(records@.subrange(0, i as int)),
        decreases records.len() - i,
    {
        push_len_field(&mut scope_logs, 2, &encode_log_record(&records[i]));
        proof {
            assert(records@.subrange(0, i + 1).drop_last() =~= records@.subrange(0, i as int));
        }
        i = i + 1;
        assert(scope_logs@ =~= head + record_fields_of(records@.subrange(0, i as int)));
    }
    assert(records@.subrange(0, records@.len() as int) =~= records@);
    let mut resource_logs: Vec<u8> = Vec::new();
    push_len_field(&mut resource_logs, 1, &resource);
    push_len_field(&mut resource_logs, 2, &scope_logs);
    let mut out: Vec<u8> = Vec::new();
    push_len_field(&mut out, 1, &resource_logs);
    assert(out@ =~= export_request(service@, scope@, records@));
    out
}

} // verus!
