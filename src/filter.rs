use vstd::prelude::*;

use crate::record::LogRecord;

verus! {

/// Decides whether a record goes on to the handlers.
pub trait Filter {
    /// Whether the filter lets `record` through.
    spec fn permits(&self, record: LogRecord) -> bool;

    fn filter(&self, record: &LogRecord) -> (r: bool)
        ensures
            r == self.permits(*record);
}

/// A filter that lets every record through.
pub struct AllowAllFilter;

impl Filter for AllowAllFilter {
    open spec fn permits(&self, record: LogRecord) -> bool {
        true
    }

    fn filter(&self, record: &LogRecord) -> (r: bool) {
        true
    }
}

/// The filters a logger can hold.
#[derive(Debug, Clone)]
pub enum FilterRule {
    /// Lets every record through.
    AllowAll,
    /// Stops every record.
    DenyAll,
    /// Lets through records whose numeric level is at least this.
    MinLevel(i32),
    /// Lets through records of the named logger and its descendants: the
    /// record's name equals the prefix, or starts with it followed by `.`.
    /// An empty prefix lets everything through.
    Name(String),
}

/// `name` is `prefix` itself or a dotted descendant of it.
pub open spec fn in_subtree(prefix: Seq<char>, name: Seq<char>) -> bool {
    prefix.len() == 0 || name == prefix || (name.len() > prefix.len()
        && name.subrange(0, prefix.len() as int) == prefix && name[prefix.len() as int] == '.')
}

/// Whether `s` starts with `p`.
fn starts_with(s: &Vec<char>, p: &Vec<char>) -> (r: bool)
    ensures
        r == (p@.len() <= s@.len() && s@.subrange(0, p@.len() as int) == p@),
{
    if p.len() > s.len() {
        return false;
    }
    let mut i: usize = 0;
    while i < p.len()
        invariant
            p.len() <= s.len(),
            i <= p.len(),
            forall|j: int| 0 <= j < i ==> s@[j] == p@[j],
        decreases p.len() - i,
    {
        if s[i] != p[i] {
            assert(s@.subrange(0, p@.len() as int)[i as int] != p@[i as int]);
            return false;
        }
        i = i + 1;
    }
    assert(s@.subrange(0, p@.len() as int) =~= p@);
    true
}

impl Filter for FilterRule {
    open spec fn permits(&self, record: LogRecord) -> bool {
        match self {
            FilterRule::AllowAll => true,
            FilterRule::DenyAll => false,
            FilterRule::MinLevel(n) => record.levelno >= *n,
            FilterRule::Name(p) => in_subtree(p@, record.name@),
        }
    }

    fn filter(&self, record: &LogRecord) -> (r: bool) {
        match self {
            FilterRule::AllowAll => true,
            FilterRule::DenyAll => false,
            FilterRule::MinLevel(n) => record.levelno >= *n,
            FilterRule::Name(p) => {
                let pv = crate::text::chars_of(p.as_str());
                let nv = crate::text::chars_of(record.name.as_str());
                if pv.len() == 0 {
                    true
                } else if starts_with(&nv, &pv) {
                    if nv.len() == pv.len() {
                        assert(nv@ =~= pv@);
                        true
                    } else {
                        nv[pv.len()] == '.'
                    }
                } else {
                    proof {
                        if nv@ == pv@ {
                            assert(nv@.subrange(0, pv@.len() as int) =~= pv@);
                        }
                    }
                    false
                }
            },
        }
    }
}

} // verus!
