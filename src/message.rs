use vstd::prelude::*;

use crate::text::{chars_of, dec_signed, push_char, push_decimal_signed};

verus! {

/// An argument for `%`-style message substitution.
#[derive(Debug, Clone)]
pub enum LogArg {
    Int(i64),
    Str(String),
}

/// `p` in front of the text in `o`, if there is any.
pub open spec fn prefixed(p: Seq<char>, o: Option<Seq<char>>) -> Option<Seq<char>> {
    match o {
        Some(s) => Some(p + s),
        None => None,
    }
}

/// The template from index `i` on with arguments from `k` on substituted:
/// `%%` is a percent sign, `%s` takes any argument, `%d` and `%i` take an
/// integer. `None` when a conversion is unknown or unfinished, an argument
/// is missing or of the wrong kind, or arguments are left over.
pub open spec fn substitute(t: Seq<char>, i: int, args: Seq<LogArg>, k: int) -> Option<Seq<char>>
    decreases t.len() - i,
{
    if i < 0 || i >= t.len() {
        if k == args.len() {
            Some(Seq::empty())
        } else {
            None
        }
    } else if t[i] != '%' {
        prefixed(seq![t[i]], substitute(t, i + 1, args, k))
    } else if i + 1 >= t.len() {
        None
    } else if t[i + 1] == '%' {
        prefixed(seq!['%'], substitute(t, i + 2, args, k))
    } else if t[i + 1] == 's' || t[i + 1] == 'd' || t[i + 1] == 'i' {
        if k < 0 || k >= args.len() {
            None
        } else {
            match args[k] {
                LogArg::Int(n) => prefixed(dec_signed(n as int), substitute(t, i + 2, args, k + 1)),
                LogArg::Str(s) => if t[i + 1] == 's' {
                    prefixed(s@, substitute(t, i + 2, args, k + 1))
                } else {
                    None
                },
            }
        }
    } else {
        None
    }
}

/// The message a call produces: the template itself when there are no
/// arguments, else the substitution (empty text when it fails).
pub open spec fn message_text(t: Seq<char>, args: Seq<LogArg>) -> Seq<char> {
    if args.len() == 0 {
        t
    } else {
        match substitute(t, 0, args, 0) {
            Some(s) => s,
            None => Seq::empty(),
        }
    }
}

/// `%`-style substitution of `args` into `template`.
pub fn percent_format(template: &str, args: &Vec<LogArg>) -> (r: Option<String>)
    ensures
        r matches Some(s) ==> substitute(template@, 0, args@, 0) == Some(s@),
        r is None ==> substitute(template@, 0, args@, 0) is None,
{
    let t = chars_of(template);
    let mut out = String::new();
    let mut i: usize = 0;
    let mut k: usize = 0;
    while i < t.len()
        invariant
            t@ == template@,
            i <= t.len(),
            k <= args.len(),
            substitute(t@, 0, args@, 0) == prefixed(out@, substitute(t@, i as int, args@, k as int)),
        decreases t.len() - i,
    {
        let ghost before = out@;
        if t[i] != '%' {
            push_char(&mut out, t[i]);
            assert(out@ == before + seq![t@[i as int]]);
            assert(before + seq![t@[i as int]] + substitute(t@, i + 1, args@, k as int)->0 =~= before + (
            seq![t@[i as int]] + substitute(t@, i + 1, args@, k as int)->0));
            i = i + 1;
        } else if i + 1 >= t.len() {
            return None;
        } else if t[i + 1] == '%' {
            push_char(&mut out, '%');
            assert(before + seq!['%'] + substitute(t@, i + 2, args@, k as int)->0 =~= before + (
            seq!['%'] + substitute(t@, i + 2, args@, k as int)->0));
            i = i + 2;
        } else if t[i + 1] == 's' || t[i + 1] == 'd' || t[i + 1] == 'i' {
            if k >= args.len() {
                return None;
            }
            match &args[k] {
                LogArg::Int(n) => {
                    push_decimal_signed(&mut out, *n);
                    assert(before + dec_signed(*n as int) + substitute(t@, i + 2, args@, k + 1)->0
                        =~= before + (dec_signed(*n as int) + substitute(
                        t@,
                        i + 2,
                        args@,
                        k + 1,
                    )->0));
                },
                LogArg::Str(s) => {
                    if t[i + 1] != 's' {
                        return None;
                    }
                    out.append(s.as_str());
                    assert(before + s@ + substitute(t@, i + 2, args@, k + 1)->0 =~= before + (s@
                        + substitute(t@, i + 2, args@, k + 1)->0));
                },
            }
            i = i + 2;
            k = k + 1;
        } else {
            return None;
        }
    }
    if k == args.len() {
        assert(out@ + Seq::<char>::empty() =~= out@);
        Some(out)
    } else {
        None
    }
}

/// The message for a logging call: `template` unchanged without
/// arguments, else with them substituted, or empty text when they do not
/// fit the template.
pub fn format_message(template: &str, args: &Vec<LogArg>) -> (r: String)
    ensures
        r@ == message_text(template@, args@),
{
    if args.len() == 0 {
        return String::from_str(template);
    }
    match percent_format(template, args) {
        Some(s) => s,
        None => String::new(),
    }
}

} // verus!
