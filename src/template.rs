use vstd::prelude::*;

use crate::record::LogRecord;
use crate::text::{
    append_chars, chars_of, dec, dec_signed, pad, push_char, push_decimal, push_decimal_signed,
    push_padded, push_zero_padded, zero_pad,
};

verus! {

/// A record field that a format template can name.
#[derive(Debug, Clone, Copy, PartialEq, Eq, Structural)]
pub enum Field {
    Name,
    LevelName,
    ThreadName,
    Msecs,
    LevelNo,
    PathName,
    FileName,
    Module,
    LineNo,
    FuncName,
    Created,
    RelativeCreated,
    Thread,
    ProcessName,
    Process,
    Message,
    AscTime,
}

/// A recognised placeholder: the field, its alignment and width, and the
/// index just past it in the template.
#[derive(Debug, Clone, Copy, PartialEq, Eq, Structural)]
pub struct Spot {
    pub field: Field,
    pub left: bool,
    pub width: usize,
    pub end: usize,
}


/// The field a placeholder key names.
pub open spec fn key_field(key: Seq<char>) -> Option<Field> {
    if key == "name"@ {
        Some(Field::Name)
    } else if key == "levelname"@ {
        Some(Field::LevelName)
    } else if key == "threadName"@ {
        Some(Field::ThreadName)
    } else if key == "msecs"@ {
        Some(Field::Msecs)
    } else if key == "levelno"@ {
        Some(Field::LevelNo)
    } else if key == "pathname"@ {
        Some(Field::PathName)
    } else if key == "filename"@ {
        Some(Field::FileName)
    } else if key == "module"@ {
        Some(Field::Module)
    } else if key == "lineno"@ {
        Some(Field::LineNo)
    } else if key == "funcName"@ {
        Some(Field::FuncName)
    } else if key == "created"@ {
        Some(Field::Created)
    } else if key == "relativeCreated"@ {
        Some(Field::RelativeCreated)
    } else if key == "thread"@ {
        Some(Field::Thread)
    } else if key == "processName"@ {
        Some(Field::ProcessName)
    } else if key == "process"@ {
        Some(Field::Process)
    } else if key == "message"@ {
        Some(Field::Message)
    } else if key == "asctime"@ {
        Some(Field::AscTime)
    } else {
        None
    }
}

/// The conversion character that must follow a field's closing parenthesis.
pub open spec fn conversion(f: Field) -> char {
    match f {
        Field::Msecs | Field::LevelNo | Field::LineNo | Field::Thread | Field::Process => 'd',
        Field::Created | Field::RelativeCreated => 'f',
        _ => 's',
    }
}

/// Fields that take an optional `-` and a space-padding width.
pub open spec fn is_aligned(f: Field) -> bool {
    f == Field::Name || f == Field::LevelName || f == Field::ThreadName
}

pub open spec fn is_digit(c: char) -> bool {
    '0' <= c && c <= '9'
}

pub open spec fn digit_value(c: char) -> nat {
    if c == '1' {
        1
    } else if c == '2' {
        2
    } else if c == '3' {
        3
    } else if c == '4' {
        4
    } else if c == '5' {
        5
    } else if c == '6' {
        6
    } else if c == '7' {
        7
    } else if c == '8' {
        8
    } else if c == '9' {
        9
    } else {
        0
    }
}

/// First index at or after `k` that holds no digit.
pub open spec fn digits_end(t: Seq<char>, k: int) -> int
    decreases t.len() - k,
{
    if 0 <= k < t.len() && is_digit(t[k]) {
        digits_end(t, k + 1)
    } else {
        k
    }
}

/// The number written by the digits `t[q..e]`.
pub open spec fn digits_value(t: Seq<char>, q: int, e: int) -> nat
    decreases e - q,
{
    if e <= q {
        0
    } else {
        digits_value(t, q, e - 1) * 10 + digit_value(t[e - 1])
    }
}

/// First index at or after `k` that holds `)`, or the length when none does.
pub open spec fn close_paren(t: Seq<char>, k: int) -> int
    decreases t.len() - k,
{
    if k >= t.len() {
        t.len() as int
    } else if t[k] == ')' {
        k
    } else {
        close_paren(t, k + 1)
    }
}

/// What follows the closing parenthesis at `c - 1` for field `f`.
pub open spec fn parse_suffix(t: Seq<char>, c: int, f: Field) -> Option<Spot> {
    if is_aligned(f) {
        let left = c < t.len() && t[c] == '-';
        let q = if left { c + 1 } else { c };
        let e = digits_end(t, q);
        if e < t.len() && t[e] == 's' {
            Some(Spot { field: f, left, width: width_value(t, q, e) as usize, end: (e + 1) as usize })
        } else {
            None
        }
    } else if f == Field::Msecs {
        let q = if c < t.len() && t[c] == '0' { c + 1 } else { c };
        let e = digits_end(t, q);
        if e < t.len() && t[e] == 'd' {
            Some(Spot { field: f, left: false, width: width_value(t, q, e) as usize, end: (e + 1) as usize })
        } else {
            None
        }
    } else if c < t.len() && t[c] == conversion(f) {
        Some(Spot { field: f, left: false, width: 0, end: (c + 1) as usize })
    } else {
        None
    }
}

/// The placeholder that starts at index `i`, if one does.
pub open spec fn parse_at(t: Seq<char>, i: int) -> Option<Spot> {
    if 0 <= i && i + 1 < t.len() && t[i] == '%' && t[i + 1] == '(' {
        let c = close_paren(t, i + 2);
        if c < t.len() {
            match key_field(t.subrange(i + 2, c)) {
                Some(f) => parse_suffix(t, c + 1, f),
                None => None,
            }
        } else {
            None
        }
    } else {
        None
    }
}

/// The text a placeholder stands for, given the record and its rendered time.
pub open spec fn piece(s: Spot, r: LogRecord, asctime: Seq<char>) -> Seq<char> {
    match s.field {
        Field::Name => pad(r.name@, s.left, s.width as nat),
        Field::LevelName => pad(r.levelname@, s.left, s.width as nat),
        Field::ThreadName => pad(r.thread_name@, s.left, s.width as nat),
        Field::Msecs => zero_pad(dec(r.msecs as nat), s.width as nat),
        Field::LevelNo => dec_signed(r.levelno as int),
        Field::PathName => r.pathname@,
        Field::FileName => r.filename@,
        Field::Module => r.module@,
        Field::LineNo => dec(r.lineno as nat),
        Field::FuncName => r.func_name@,
        Field::Created => dec_signed(r.created as int) + seq!['.'] + zero_pad(dec(r.msecs as nat), 3),
        Field::RelativeCreated => dec(r.relative_created as nat),
        Field::Thread => dec(r.thread as nat),
        Field::ProcessName => r.process_name@,
        Field::Process => dec(r.process as nat),
        Field::Message => r.msg@,
        Field::AscTime => asctime,
    }
}

/// The template from index `i` on, with every recognised placeholder
/// replaced and everything else copied as it stands.
pub open spec fn render_from(t: Seq<char>, i: int, r: LogRecord, asctime: Seq<char>) -> Seq<char>
    decreases t.len() - i,
{
    if i < 0 || i >= t.len() {
        Seq::empty()
    } else {
        match parse_at(t, i) {
            Some(s) => if i < s.end && s.end <= t.len() {
                piece(s, r, asctime) + render_from(t, s.end as int, r, asctime)
            } else {
                Seq::empty()
            },
            None => seq![t[i]] + render_from(t, i + 1, r, asctime),
        }
    }
}

/// The whole template rendered for record `r`.
pub open spec fn render(t: Seq<char>, r: LogRecord, asctime: Seq<char>) -> Seq<char> {
    render_from(t, 0, r, asctime)
}

proof fn lemma_digits_end_bounds(t: Seq<char>, k: int)
    requires
        0 <= k <= t.len(),
    ensures
        k <= digits_end(t, k) <= t.len(),
        forall|j: int| k <= j < digits_end(t, k) ==> is_digit(t[j]),
    decreases t.len() - k,
{
    if k < t.len() && is_digit(t[k]) {
        lemma_digits_end_bounds(t, k + 1);
    }
}

proof fn lemma_close_paren_bounds(t: Seq<char>, k: int)
    requires
        0 <= k,
    ensures
        k <= close_paren(t, k) <= t.len() || (k > t.len() && close_paren(t, k) == t.len()),
    decreases t.len() - k,
{
    if k < t.len() && t[k] != ')' {
        lemma_close_paren_bounds(t, k + 1);
    }
}

fn scan_digits(t: &Vec<char>, k: usize) -> (e: usize)
    requires
        k <= t.len(),
    ensures
        e == digits_end(t@, k as int),
        k <= e <= t.len(),
{
    proof {
        lemma_digits_end_bounds(t@, k as int);
    }
    let mut j = k;
    while j < t.len() && '0' <= t[j] && t[j] <= '9'
        invariant
            k <= j <= t.len(),
            digits_end(t@, j as int) == digits_end(t@, k as int),
        decreases t.len() - j,
    {
        j = j + 1;
    }
    j
}

fn digit_of(c: char) -> (d: usize)
    ensures
        d == digit_value(c),
{
    if c == '1' {
        1
    } else if c == '2' {
        2
    } else if c == '3' {
        3
    } else if c == '4' {
        4
    } else if c == '5' {
        5
    } else if c == '6' {
        6
    } else if c == '7' {
        7
    } else if c == '8' {
        8
    } else if c == '9' {
        9
    } else {
        0
    }
}

/// The width the digits `t[q..e]` give: their number, or 0 when it does
/// not fit in a `usize`.
pub open spec fn width_value(t: Seq<char>, q: int, e: int) -> nat {
    if digits_value(t, q, e) <= usize::MAX {
        digits_value(t, q, e)
    } else {
        0
    }
}

fn read_width(t: &Vec<char>, q: usize, e: usize) -> (w: usize)
    requires
        q <= e <= t.len(),
    ensures
        w == width_value(t@, q as int, e as int),
{
    let mut w: usize = 0;
    let mut big = false;
    let mut j = q;
    while j < e
        invariant
            q <= j <= e,
            e <= t.len(),
            big ==> digits_value(t@, q as int, j as int) > usize::MAX,
            !big ==> w == digits_value(t@, q as int, j as int),
        decreases e - j,
    {
        let d = digit_of(t[j]);
        proof {
            assert(digits_value(t@, q as int, j + 1) == digits_value(t@, q as int, j as int) * 10
                + digit_value(t@[j as int]));
        }
        if !big {
            if w > (usize::MAX - d) / 10 {
                big = true;
            } else {
                w = w * 10 + d;
            }
        }
        j = j + 1;
    }
    if big {
        0
    } else {
        w
    }
}

fn find_close(t: &Vec<char>, k: usize) -> (c: usize)
    requires
        k <= t.len(),
    ensures
        c == close_paren(t@, k as int),
        k <= c <= t.len(),
{
    proof {
        lemma_close_paren_bounds(t@, k as int);
    }
    let mut j = k;
    while j < t.len() && t[j] != ')'
        invariant
            k <= j <= t.len(),
            close_paren(t@, j as int) == close_paren(t@, k as int),
        decreases t.len() - j,
    {
        j = j + 1;
    }
    j
}

/// True when `t[from..to]` spells `key`.
fn spells(t: &Vec<char>, from: usize, to: usize, key: &str) -> (r: bool)
    requires
        from <= to <= t.len(),
    ensures
        r == (t@.subrange(from as int, to as int) == key@),
{
    let n = key.unicode_len();
    if to - from != n {
        return false;
    }
    let mut j: usize = 0;
    while j < n
        invariant
            n == key@.len(),
            to - from == n,
            to <= t.len(),
            j <= n,
            forall|m: int| 0 <= m < j ==> t@[from + m] == key@[m],
        decreases n - j,
    {
        if t[from + j] != key.get_char(j) {
            assert(t@.subrange(from as int, to as int)[j as int] != key@[j as int]);
            return false;
        }
        j = j + 1;
    }
    assert(t@.subrange(from as int, to as int) =~= key@);
    true
}

fn field_named(t: &Vec<char>, from: usize, to: usize) -> (r: Option<Field>)
    requires
        from <= to <= t.len(),
    ensures
        r == key_field(t@.subrange(from as int, to as int)),
{
    if spells(t, from, to, "name") {
        Some(Field::Name)
    } else if spells(t, from, to, "levelname") {
        Some(Field::LevelName)
    } else if spells(t, from, to, "threadName") {
        Some(Field::ThreadName)
    } else if spells(t, from, to, "msecs") {
        Some(Field::Msecs)
    } else if spells(t, from, to, "levelno") {
        Some(Field::LevelNo)
    } else if spells(t, from, to, "pathname") {
        Some(Field::PathName)
    } else if spells(t, from, to, "filename") {
        Some(Field::FileName)
    } else if spells(t, from, to, "module") {
        Some(Field::Module)
    } else if spells(t, from, to, "lineno") {
        Some(Field::LineNo)
    } else if spells(t, from, to, "funcName") {
        Some(Field::FuncName)
    } else if spells(t, from, to, "created") {
        Some(Field::Created)
    } else if spells(t, from, to, "relativeCreated") {
        Some(Field::RelativeCreated)
    } else if spells(t, from, to, "thread") {
        Some(Field::Thread)
    } else if spells(t, from, to, "processName") {
        Some(Field::ProcessName)
    } else if spells(t, from, to, "process") {
        Some(Field::Process)
    } else if spells(t, from, to, "message") {
        Some(Field::Message)
    } else if spells(t, from, to, "asctime") {
        Some(Field::AscTime)
    } else {
        None
    }
}

fn conversion_of(f: Field) -> (c: char)
    ensures
        c == conversion(f),
{
    match f {
        Field::Msecs | Field::LevelNo | Field::LineNo | Field::Thread | Field::Process => 'd',
        Field::Created | Field::RelativeCreated => 'f',
        _ => 's',
    }
}

fn suffix_at(t: &Vec<char>, c: usize, f: Field) -> (r: Option<Spot>)
    requires
        c <= t.len(),
    ensures
        r == parse_suffix(t@, c as int, f),
        r matches Some(s) ==> c < s.end <= t.len(),
{
    if f == Field::Name || f == Field::LevelName || f == Field::ThreadName {
        let left = c < t.len() && t[c] == '-';
        let q = if left { c + 1 } else { c };
        let e = scan_digits(t, q);
        if e < t.len() && t[e] == 's' {
            let width = read_width(t, q, e);
            Some(Spot { field: f, left, width, end: e + 1 })
        } else {
            None
        }
    } else if f == Field::Msecs {
        let q = if c < t.len() && t[c] == '0' { c + 1 } else { c };
        let e = scan_digits(t, q);
        if e < t.len() && t[e] == 'd' {
            let width = read_width(t, q, e);
            Some(Spot { field: f, left: false, width, end: e + 1 })
        } else {
            None
        }
    } else if c < t.len() && t[c] == conversion_of(f) {
        Some(Spot { field: f, left: false, width: 0, end: c + 1 })
    } else {
        None
    }
}

/// The placeholder that starts at index `i` of `t`, if one does.
pub fn placeholder_at(t: &Vec<char>, i: usize) -> (r: Option<Spot>)
    requires
        i <= t.len(),
    ensures
        r == parse_at(t@, i as int),
        r matches Some(s) ==> i < s.end <= t.len(),
{
    if i < t.len() && t.len() - i > 1 && t[i] == '%' && t[i + 1] == '(' {
        let c = find_close(t, i + 2);
        if c < t.len() {
            match field_named(t, i + 2, c) {
                Some(f) => suffix_at(t, c + 1, f),
                None => None,
            }
        } else {
            None
        }
    } else {
        None
    }
}

fn push_piece(out: &mut String, s: Spot, r: &LogRecord, asctime: &str)
    ensures
        final(out)@ == old(out)@ + piece(s, *r, asctime@),
{
    match s.field {
        Field::Name => push_padded(out, &chars_of(r.name.as_str()), s.left, s.width),
        Field::LevelName => push_padded(out, &chars_of(r.levelname.as_str()), s.left, s.width),
        Field::ThreadName => push_padded(out, &chars_of(r.thread_name.as_str()), s.left, s.width),
        Field::Msecs => {
            let mut d = String::new();
            push_decimal(&mut d, r.msecs as u64);
            push_zero_padded(out, &chars_of(d.as_str()), s.width);
        },
        Field::LevelNo => push_decimal_signed(out, r.levelno as i64),
        Field::PathName => out.append(r.pathname.as_str()),
        Field::FileName => out.append(r.filename.as_str()),
        Field::Module => out.append(r.module.as_str()),
        Field::LineNo => push_decimal(out, r.lineno as u64),
        Field::FuncName => out.append(r.func_name.as_str()),
        Field::Created => {
            push_decimal_signed(out, r.created);
            push_char(out, '.');
            let mut d = String::new();
            push_decimal(&mut d, r.msecs as u64);
            push_zero_padded(out, &chars_of(d.as_str()), 3);
            assert(final(out)@ =~= old(out)@ + piece(s, *r, asctime@));
        },
        Field::RelativeCreated => push_decimal(out, r.relative_created),
        Field::Thread => push_decimal(out, r.thread),
        Field::ProcessName => out.append(r.process_name.as_str()),
        Field::Process => push_decimal(out, r.process as u64),
        Field::Message => out.append(r.msg.as_str()),
        Field::AscTime => out.append(asctime),
    }
}

/// Renders `template` for `record`, with `asctime` standing for the
/// record's time. Recognised placeholders are `%(key)` followed by the
/// key's conversion character; `name`, `levelname` and `threadName` accept
/// `-` and a width before `s`, `msecs` a zero-padding width before `d`.
/// Anything else is copied unchanged.
pub fn render_template(template: &str, record: &LogRecord, asctime: &str) -> (r: String)
    ensures
        r@ == render(template@, *record, asctime@),
{
    let t = chars_of(template);
    let mut out = String::new();
    let mut i: usize = 0;
    while i < t.len()
        invariant
            t@ == template@,
            i <= t.len(),
            out@ + render_from(t@, i as int, *record, asctime@) == render(t@, *record, asctime@),
        decreases t.len() - i,
    {
        let ghost before = out@;
        match placeholder_at(&t, i) {
            Some(s) => {
                push_piece(&mut out, s, record, asctime);
                assert(out@ + render_from(t@, s.end as int, *record, asctime@) =~= before
                    + render_from(t@, i as int, *record, asctime@));
                i = s.end;
            },
            None => {
                push_char(&mut out, t[i]);
                assert(out@ + render_from(t@, i + 1, *record, asctime@) =~= before
                    + render_from(t@, i as int, *record, asctime@));
                i = i + 1;
            },
        }
    }
    assert(out@ =~= render(template@, *record, asctime@));
    out
}

} // verus!
