use vstd::prelude::*;

use crate::filter::{Filter, FilterRule};
use crate::level::{level_name, level_value, LogLevel};
use crate::record::{LogRecord, Timestamp};

verus! {

/// A named node of the logger hierarchy. Handlers are named by their index
/// in the handler table of the owning `Logging`; the parent by its index
/// in the registry.
#[derive(Debug)]
pub struct Logger {
    pub name: String,
    pub level: LogLevel,
    pub handlers: Vec<usize>,
    pub filters: Vec<FilterRule>,
    pub parent: Option<usize>,
    pub propagate: bool,
}

/// Index of the last `.` in `n`, or -1 when there is none.
pub open spec fn last_dot(n: Seq<char>) -> int
    decreases n.len(),
{
    if n.len() == 0 {
        -1
    } else if n.last() == '.' {
        n.len() - 1
    } else {
        last_dot(n.drop_last())
    }
}

/// The name of a logger's parent: everything before the last `.`, or
/// `root` for a name without a dot.
pub open spec fn parent_name(n: Seq<char>) -> Seq<char> {
    if last_dot(n) < 0 {
        "root"@
    } else {
        n.subrange(0, last_dot(n))
    }
}

/// Every filter in `fs` lets `r` through.
pub open spec fn all_permit(fs: Seq<FilterRule>, r: LogRecord) -> bool {
    forall|k: int| 0 <= k < fs.len() ==> #[trigger] fs[k].permits(r)
}

/// The entries of `s` that do not occur in `excl`, in order.
pub open spec fn absent_from(s: Seq<usize>, excl: Seq<usize>) -> Seq<usize>
    decreases s.len(),
{
    if s.len() == 0 {
        Seq::empty()
    } else if excl.contains(s.last()) {
        absent_from(s.drop_last(), excl)
    } else {
        absent_from(s.drop_last(), excl).push(s.last())
    }
}

/// No entry occurs twice.
pub open spec fn distinct(s: Seq<usize>) -> bool {
    forall|a: int, b: int| 0 <= a < b < s.len() ==> s[a] != s[b]
}

proof fn lemma_last_dot_bounds(n: Seq<char>)
    ensures
        -1 <= last_dot(n) < n.len(),
        last_dot(n) >= 0 ==> n[last_dot(n)] == '.',
        forall|j: int| last_dot(n) < j < n.len() ==> n[j] != '.',
    decreases n.len(),
{
    if n.len() > 0 && n.last() != '.' {
        lemma_last_dot_bounds(n.drop_last());
        assert(forall|j: int| 0 <= j < n.len() - 1 ==> n.drop_last()[j] == n[j]);
    }
}

/// Runs `filters` in order on `record` and stops at the first that rejects.
pub fn filters_pass(filters: &Vec<FilterRule>, record: &LogRecord) -> (r: bool)
    ensures
        r == all_permit(filters@, *record),
{
    let mut i: usize = 0;
    while i < filters.len()
        invariant
            i <= filters.len(),
            forall|k: int| 0 <= k < i ==> #[trigger] filters@[k].permits(*record),
        decreases filters.len() - i,
    {
        if !filters[i].filter(record) {
            return false;
        }
        i = i + 1;
    }
    true
}

impl Logger {
    /// A logger with no level (it inherits), no handlers or filters, no
    /// parent, and propagation on.
    pub fn new(name: &str) -> (r: Logger)
        ensures
            r.name@ == name@,
            r.is_fresh(),
            r.parent.is_none(),
    {
        Logger {
            name: String::from_str(name),
            level: LogLevel::NotSet,
            handlers: Vec::new(),
            filters: Vec::new(),
            parent: None,
            propagate: true,
        }
    }

    /// The state every logger starts in.
    pub open spec fn is_fresh(self) -> bool {
        &&& self.level == LogLevel::NotSet
        &&& self.handlers@.len() == 0
        &&& self.filters@.len() == 0
        &&& self.propagate
    }

    /// A minimal record from this logger, stamped with `now`: no thread or
    /// process information, empty location.
    pub fn make_log_record(&self, level: LogLevel, msg: &str, now: Timestamp) -> (r: LogRecord)
        ensures
            crate::record::fresh_record(r, self.name@, level, msg@),
            r.created == now.secs,
            r.msecs == now.millis % 1000,
            r.thread == 0,
            r.thread_name@.len() == 0,
            r.process == 0,
    {
        LogRecord {
            name: self.name.clone(),
            levelno: level.value() as i32,
            levelname: level.name(),
            pathname: String::new(),
            filename: String::new(),
            module: String::new(),
            lineno: 0,
            func_name: String::new(),
            created: now.secs,
            msecs: now.millis % 1000,
            relative_created: 0,
            thread: 0,
            thread_name: String::new(),
            process_name: String::new(),
            process: 0,
            msg: String::from_str(msg),
            exc_text: None,
            stack_info: None,
            task_name: None,
            extra: Vec::new(),
        }
    }

    /// Sets the logger's own level; `NotSet` makes it inherit again.
    pub fn set_level(&mut self, level: LogLevel)
        ensures
            final(self).level == level,
            final(self).name == old(self).name,
            final(self).handlers == old(self).handlers,
            final(self).filters == old(self).filters,
            final(self).parent == old(self).parent,
            final(self).propagate == old(self).propagate,
    {
        self.level = level;
    }

    /// Attaches handler `id`, unless it is attached already.
    pub fn add_handler(&mut self, id: usize)
        ensures
            old(self).handlers@.contains(id) ==> final(self).handlers@ == old(self).handlers@,
            !old(self).handlers@.contains(id) ==> final(self).handlers@ == old(
                self,
            ).handlers@.push(id),
            final(self).name == old(self).name,
            final(self).level == old(self).level,
            final(self).filters == old(self).filters,
            final(self).parent == old(self).parent,
            final(self).propagate == old(self).propagate,
    {
        let mut i: usize = 0;
        while i < self.handlers.len()
            invariant
                i <= self.handlers.len(),
                forall|k: int| 0 <= k < i ==> self.handlers@[k] != id,
            decreases self.handlers.len() - i,
        {
            if self.handlers[i] == id {
                return;
            }
            i = i + 1;
        }
        self.handlers.push(id);
    }

    /// Detaches handler `id`; the others keep their order.
    pub fn remove_handler(&mut self, id: usize)
        ensures
            final(self).handlers@ == old(self).handlers@.filter(|h: usize| h != id),
            final(self).name == old(self).name,
            final(self).level == old(self).level,
            final(self).filters == old(self).filters,
            final(self).parent == old(self).parent,
            final(self).propagate == old(self).propagate,
    {
        let mut kept: Vec<usize> = Vec::new();
        let mut i: usize = 0;
        let ghost hs = self.handlers@;
        while i < self.handlers.len()
            invariant
                self.handlers@ == hs,
                i <= hs.len(),
                kept@ == hs.subrange(0, i as int).filter(|h: usize| h != id),
            decreases hs.len() - i,
        {
            proof {
                reveal(Seq::filter);
                assert(hs.subrange(0, i + 1).drop_last() =~= hs.subrange(0, i as int));
            }
            if self.handlers[i] != id {
                kept.push(self.handlers[i]);
            }
            i = i + 1;
        }
        assert(hs.subrange(0, hs.len() as int) =~= hs);
        self.handlers = kept;
    }

    /// Appends a filter; filters run in the order they were added.
    pub fn add_filter(&mut self, filter: FilterRule)
        ensures
            final(self).filters@ == old(self).filters@.push(filter),
            final(self).name == old(self).name,
            final(self).level == old(self).level,
            final(self).handlers == old(self).handlers,
            final(self).parent == old(self).parent,
            final(self).propagate == old(self).propagate,
    {
        self.filters.push(filter);
    }

    /// Removes the filter at position `index`, if there is one.
    pub fn remove_filter(&mut self, index: usize)
        ensures
            index < old(self).filters@.len() ==> final(self).filters@ == old(
                self,
            ).filters@.remove(index as int),
            index >= old(self).filters@.len() ==> final(self).filters@ == old(self).filters@,
            final(self).name == old(self).name,
            final(self).level == old(self).level,
            final(self).handlers == old(self).handlers,
            final(self).parent == old(self).parent,
            final(self).propagate == old(self).propagate,
    {
        if index < self.filters.len() {
            self.filters.remove(index);
        }
    }

    /// Runs the filters in order and stops at the first that rejects.
    pub fn passes_filters(&self, record: &LogRecord) -> (r: bool)
        ensures
            r == all_permit(self.filters@, *record),
    {
        filters_pass(&self.filters, record)
    }
}

/// The registry of all loggers, indexed by creation order. Index 0 is the
/// root logger; every other logger's parent was registered before it.
#[derive(Debug)]
pub struct LoggerManager {
    pub loggers: Vec<Logger>,
}

impl Default for LoggerManager {
    fn default() -> (r: LoggerManager)
        ensures
            r.wf(),
            r.loggers@.len() == 1,
    {
        LoggerManager::new()
    }
}

/// The level that gates logger `i`: its own level, else its nearest
/// ancestor's, else `Warning`.
pub open spec fn effective_level(l: Seq<Logger>, i: int) -> LogLevel
    decreases i,
{
    if i < 0 || i >= l.len() {
        LogLevel::Warning
    } else if l[i].level != LogLevel::NotSet {
        l[i].level
    } else {
        match l[i].parent {
            Some(p) => if (p as int) < i {
                effective_level(l, p as int)
            } else {
                LogLevel::Warning
            },
            None => LogLevel::Warning,
        }
    }
}

/// Whether the registry holds a logger named `n`.
pub open spec fn registered(l: Seq<Logger>, n: Seq<char>) -> bool {
    exists|i: int| 0 <= i < l.len() && #[trigger] l[i].name@ == n
}

/// The handlers that a record from logger `i` reaches: none if a filter of
/// the logger rejects it; the global set (the root's handlers) when the
/// logger has none of its own; else its own, followed, when it propagates,
/// by the global ones it does not hold itself.
pub open spec fn targets(l: Seq<Logger>, i: int, r: LogRecord) -> Seq<usize> {
    let own = l[i].handlers@;
    let global = l[0].handlers@;
    if !all_permit(l[i].filters@, r) {
        Seq::empty()
    } else if own.len() == 0 {
        global
    } else if l[i].propagate {
        own + absent_from(global, own)
    } else {
        own
    }
}

/// Logger `i` has an earlier parent, named as `parent_name` says.
pub open spec fn parent_ok(l: Seq<Logger>, i: int) -> bool {
    &&& l[i].parent.is_some()
    &&& (l[i].parent->0 as int) < i
    &&& l[l[i].parent->0 as int].name@ == parent_name(l[i].name@)
}

/// Loggers `i` and `j` have different names.
pub open spec fn names_differ(l: Seq<Logger>, i: int, j: int) -> bool {
    l[i].name@ != l[j].name@
}

impl LoggerManager {
    /// Well-formed: the root sits at index 0, names are distinct, and each
    /// other logger's parent is an earlier logger named by `parent_name`.
    pub open spec fn wf(self) -> bool {
        let l = self.loggers@;
        &&& l.len() > 0
        &&& l[0].name@ == "root"@
        &&& l[0].parent.is_none()
        &&& forall|i: int| 0 < i < l.len() ==> #[trigger] parent_ok(l, i)
        &&& forall|i: int, j: int| 0 <= i < j < l.len() ==> #[trigger] names_differ(l, i, j)
    }

    /// A registry holding only the root logger.
    pub fn new() -> (r: LoggerManager)
        ensures
            r.wf(),
            r.loggers@.len() == 1,
            r.loggers@[0].is_fresh(),
    {
        let mut loggers: Vec<Logger> = Vec::new();
        loggers.push(Logger::new("root"));
        LoggerManager { loggers }
    }

    /// Number of registered loggers.
    pub fn len(&self) -> (r: usize)
        ensures
            r == self.loggers@.len(),
    {
        self.loggers.len()
    }

    /// Index of the logger named `name`, if registered.
    pub fn find(&self, name: &String) -> (r: Option<usize>)
        ensures
            r matches Some(i) ==> i < self.loggers@.len() && self.loggers@[i as int].name@
                == name@,
            r is None ==> !registered(self.loggers@, name@),
    {
        let mut i: usize = 0;
        while i < self.loggers.len()
            invariant
                i <= self.loggers.len(),
                forall|k: int| 0 <= k < i ==> self.loggers@[k].name@ != name@,
            decreases self.loggers.len() - i,
        {
            if self.loggers[i].name == *name {
                return Some(i);
            }
            i = i + 1;
        }
        None
    }

    /// The logger named `name`, created with its whole ancestor chain if it
    /// is not registered yet. The same name always gives the same index.
    pub fn get_logger(&mut self, name: &str) -> (r: usize)
        requires
            old(self).wf(),
        ensures
            final(self).wf(),
            r < final(self).loggers@.len(),
            final(self).loggers@[r as int].name@ == name@,
            old(self).loggers@.len() <= final(self).loggers@.len(),
            final(self).loggers@.subrange(0, old(self).loggers@.len() as int) == old(self).loggers@,
            registered(old(self).loggers@, name@) ==> final(self).loggers@ == old(self).loggers@,
            forall|k: int|
                old(self).loggers@.len() <= k < final(self).loggers@.len() ==> {
                    &&& (#[trigger] final(self).loggers@[k]).is_fresh()
                    &&& final(self).loggers@[k].name@.len() <= name@.len()
                },
        decreases name@.len(),
    {
        let key = String::from_str(name);
        match self.find(&key) {
            Some(i) => {
                return i;
            },
            None => {},
        }
        proof {
            lemma_last_dot_bounds(name@);
            assert(self.loggers@[0].name@ == "root"@);
        }
        let ghost before = self.loggers@;
        let dot = last_dot_of(name);
        let parent: usize = match dot {
            Some(k) => self.get_logger(name.substring_char(0, k)),
            None => 0,
        };
        let ghost mid = self.loggers@;
        proof {
            assert forall|k: int| 0 <= k < mid.len() implies mid[k].name@ != name@ by {
                if k < before.len() {
                    assert(mid[k] == mid.subrange(0, before.len() as int)[k]);
                }
            }
        }
        let mut lg = Logger::new(name);
        lg.parent = Some(parent);
        self.loggers.push(lg);
        let r = self.loggers.len() - 1;
        proof {
            let l = self.loggers@;
            assert(l.subrange(0, mid.len() as int) =~= mid);
            assert(l.subrange(0, before.len() as int) =~= before) by {
                assert(mid.subrange(0, before.len() as int) == before);
            }
            assert forall|i: int, j: int| 0 <= i < j < l.len() implies #[trigger] names_differ(l, i, j) by {
                if j < mid.len() {
                    assert(l[i] == mid[i] && l[j] == mid[j]);
                    assert(names_differ(mid, i, j));
                } else {
                    assert(l[i] == mid[i]);
                }
            }
            assert forall|i: int| 0 < i < l.len() implies #[trigger] parent_ok(l, i) by {
                if i < mid.len() {
                    assert(l[i] == mid[i]);
                    assert(parent_ok(mid, i));
                    assert(l[l[i].parent->0 as int] == mid[mid[i].parent->0 as int]);
                } else {
                    assert(l[parent as int] == mid[parent as int]);
                }
            }
        }
        r
    }

    /// The root logger's index.
    pub fn get_root_logger(&self) -> (r: usize)
        requires
            self.wf(),
        ensures
            r == 0,
            self.loggers@[r as int].name@ == "root"@,
    {
        0
    }

    /// The level that gates logger `i`.
    pub fn get_effective_level(&self, i: usize) -> (r: LogLevel)
        requires
            self.wf(),
            i < self.loggers@.len(),
        ensures
            r == effective_level(self.loggers@, i as int),
            r != LogLevel::NotSet,
    {
        proof {
            lemma_effective_is_set(self.loggers@, i as int);
        }
        let mut j = i;
        while self.loggers[j].level == LogLevel::NotSet && self.loggers[j].parent.is_some()
            invariant
                self.wf(),
                j < self.loggers@.len(),
                effective_level(self.loggers@, j as int) == effective_level(
                    self.loggers@,
                    i as int,
                ),
            decreases j,
        {
            let p = self.loggers[j].parent.unwrap();
            assert(j > 0);
            assert(parent_ok(self.loggers@, j as int));
            j = p;
        }
        if self.loggers[j].level == LogLevel::NotSet {
            LogLevel::Warning
        } else {
            self.loggers[j].level
        }
    }

    /// Whether a record at `level` from logger `i` gets past the level gate.
    pub fn is_enabled_for(&self, i: usize, level: LogLevel) -> (r: bool)
        requires
            self.wf(),
            i < self.loggers@.len(),
        ensures
            r == (level_value(level) >= level_value(effective_level(self.loggers@, i as int))),
    {
        level.is_at_least(self.get_effective_level(i))
    }

    /// Sets logger `i`'s own level.
    pub fn set_level(&mut self, i: usize, level: LogLevel)
        requires
            old(self).wf(),
            i < old(self).loggers@.len(),
        ensures
            final(self).wf(),
            final(self).loggers@.len() == old(self).loggers@.len(),
            forall|k: int| 0 <= k < old(self).loggers@.len() && k != i
                ==> final(self).loggers@[k] == old(self).loggers@[k],
            final(self).loggers@[i as int].level == level,
            final(self).loggers@[i as int].name == old(self).loggers@[i as int].name,
            final(self).loggers@[i as int].handlers == old(self).loggers@[i as int].handlers,
            final(self).loggers@[i as int].filters == old(self).loggers@[i as int].filters,
            final(self).loggers@[i as int].parent == old(self).loggers@[i as int].parent,
            final(self).loggers@[i as int].propagate == old(self).loggers@[i as int].propagate,
    {
        self.loggers[i].level = level;
        proof {
            let l = self.loggers@;
            let o = old(self).loggers@;
            assert forall|k: int| 0 < k < l.len() implies #[trigger] parent_ok(l, k) by {
                assert(parent_ok(o, k));
            }
            assert forall|a: int, b: int| 0 <= a < b < l.len() implies #[trigger] names_differ(l, a, b) by {
                assert(names_differ(o, a, b));
            }
        }
    }

    /// Turns forwarding to the global handlers on or off for logger `i`.
    pub fn set_propagate(&mut self, i: usize, propagate: bool)
        requires
            old(self).wf(),
            i < old(self).loggers@.len(),
        ensures
            final(self).wf(),
            final(self).loggers@.len() == old(self).loggers@.len(),
            forall|k: int| 0 <= k < old(self).loggers@.len() && k != i
                ==> final(self).loggers@[k] == old(self).loggers@[k],
            final(self).loggers@[i as int].propagate == propagate,
            final(self).loggers@[i as int].name == old(self).loggers@[i as int].name,
            final(self).loggers@[i as int].level == old(self).loggers@[i as int].level,
            final(self).loggers@[i as int].handlers == old(self).loggers@[i as int].handlers,
            final(self).loggers@[i as int].filters == old(self).loggers@[i as int].filters,
            final(self).loggers@[i as int].parent == old(self).loggers@[i as int].parent,
    {
        self.loggers[i].propagate = propagate;
        proof {
            let l = self.loggers@;
            let o = old(self).loggers@;
            assert forall|k: int| 0 < k < l.len() implies #[trigger] parent_ok(l, k) by {
                assert(parent_ok(o, k));
            }
            assert forall|a: int, b: int| 0 <= a < b < l.len() implies #[trigger] names_differ(l, a, b) by {
                assert(names_differ(o, a, b));
            }
        }
    }

    /// Attaches handler `id` to logger `i` (to the global set when `i` is
    /// the root), unless it is attached there already.
    pub fn add_handler(&mut self, i: usize, id: usize)
        requires
            old(self).wf(),
            i < old(self).loggers@.len(),
        ensures
            final(self).wf(),
            final(self).loggers@.len() == old(self).loggers@.len(),
            forall|k: int| 0 <= k < old(self).loggers@.len() && k != i
                ==> final(self).loggers@[k] == old(self).loggers@[k],
            old(self).loggers@[i as int].handlers@.contains(id) ==> final(self).loggers@[i as int].handlers@ == old(self).loggers@[i as int].handlers@,
            !old(self).loggers@[i as int].handlers@.contains(id) ==> final(self).loggers@[i as int].handlers@ == old(self).loggers@[i as int].handlers@.push(id),
            final(self).loggers@[i as int].name == old(self).loggers@[i as int].name,
            final(self).loggers@[i as int].level == old(self).loggers@[i as int].level,
            final(self).loggers@[i as int].filters == old(self).loggers@[i as int].filters,
            final(self).loggers@[i as int].parent == old(self).loggers@[i as int].parent,
            final(self).loggers@[i as int].propagate == old(self).loggers@[i as int].propagate,
    {
        self.loggers[i].add_handler(id);
        proof {
            let l = self.loggers@;
            let o = old(self).loggers@;
            assert forall|k: int| 0 < k < l.len() implies #[trigger] parent_ok(l, k) by {
                assert(parent_ok(o, k));
            }
            assert forall|a: int, b: int| 0 <= a < b < l.len() implies #[trigger] names_differ(l, a, b) by {
                assert(names_differ(o, a, b));
            }
        }
    }

    /// Appends a filter to logger `i`.
    pub fn add_filter(&mut self, i: usize, filter: FilterRule)
        requires
            old(self).wf(),
            i < old(self).loggers@.len(),
        ensures
            final(self).wf(),
            final(self).loggers@.len() == old(self).loggers@.len(),
            forall|k: int| 0 <= k < old(self).loggers@.len() && k != i
                ==> final(self).loggers@[k] == old(self).loggers@[k],
            final(self).loggers@[i as int].filters@ == old(self).loggers@[i as int].filters@.push(filter),
            final(self).loggers@[i as int].name == old(self).loggers@[i as int].name,
            final(self).loggers@[i as int].level == old(self).loggers@[i as int].level,
            final(self).loggers@[i as int].handlers == old(self).loggers@[i as int].handlers,
            final(self).loggers@[i as int].parent == old(self).loggers@[i as int].parent,
            final(self).loggers@[i as int].propagate == old(self).loggers@[i as int].propagate,
    {
        self.loggers[i].add_filter(filter);
        proof {
            let l = self.loggers@;
            let o = old(self).loggers@;
            assert forall|k: int| 0 < k < l.len() implies #[trigger] parent_ok(l, k) by {
                assert(parent_ok(o, k));
            }
            assert forall|a: int, b: int| 0 <= a < b < l.len() implies #[trigger] names_differ(l, a, b) by {
                assert(names_differ(o, a, b));
            }
        }
    }

    /// The handlers a record from logger `i` is to reach, in order.
    pub fn route(&self, i: usize, record: &LogRecord) -> (r: Vec<usize>)
        requires
            self.wf(),
            i < self.loggers@.len(),
        ensures
            r@ == targets(self.loggers@, i as int, *record),
    {
        let lg = &self.loggers[i];
        let global = &self.loggers[0].handlers;
        if !lg.passes_filters(record) {
            Vec::new()
        } else if lg.handlers.len() == 0 {
            copy_ids(global)
        } else if lg.propagate {
            own_then_global(&lg.handlers, global)
        } else {
            copy_ids(&lg.handlers)
        }
    }
}

/// A copy of a list of handler indices.
pub fn copy_ids(v: &Vec<usize>) -> (r: Vec<usize>)
    ensures
        r@ == v@,
{
    let mut out: Vec<usize> = Vec::new();
    let mut k: usize = 0;
    while k < v.len()
        invariant
            k <= v.len(),
            out@ == v@.subrange(0, k as int),
        decreases v.len() - k,
    {
        out.push(v[k]);
        k = k + 1;
        assert(out@ =~= v@.subrange(0, k as int));
    }
    assert(v@.subrange(0, v.len() as int) =~= v@);
    out
}

/// `own`, followed by the entries of `global` that `own` does not hold.
pub fn own_then_global(own: &Vec<usize>, global: &Vec<usize>) -> (r: Vec<usize>)
    ensures
        r@ == own@ + absent_from(global@, own@),
{
    let mut out = copy_ids(own);
    let mut k: usize = 0;
    while k < global.len()
        invariant
            k <= global.len(),
            out@ == own@ + absent_from(global@.subrange(0, k as int), own@),
        decreases global.len() - k,
    {
        let h = global[k];
        let mut seen = false;
        let mut m: usize = 0;
        while m < own.len()
            invariant
                m <= own.len(),
                seen == own@.subrange(0, m as int).contains(h),
            decreases own.len() - m,
        {
            proof {
                let s = own@.subrange(0, m + 1);
                let s0 = own@.subrange(0, m as int);
                if s.contains(h) {
                    let w = choose|w: int| 0 <= w < s.len() && s[w] == h;
                    if w < m {
                        assert(s0[w] == h);
                    }
                }
                if s0.contains(h) {
                    let w = choose|w: int| 0 <= w < s0.len() && s0[w] == h;
                    assert(s[w] == h);
                }
                if own@[m as int] == h {
                    assert(s[m as int] == h);
                }
            }
            if own[m] == h {
                seen = true;
            }
            m = m + 1;
        }
        assert(own@.subrange(0, own.len() as int) =~= own@);
        if !seen {
            out.push(h);
        }
        proof {
            assert(global@.subrange(0, k + 1).drop_last() =~= global@.subrange(0, k as int));
        }
        k = k + 1;
        assert(out@ =~= own@ + absent_from(global@.subrange(0, k as int), own@));
    }
    assert(global@.subrange(0, global.len() as int) =~= global@);
    out
}

/// Position of the last `.` of `name`, if it has one.
fn last_dot_of(name: &str) -> (r: Option<usize>)
    ensures
        r matches Some(k) ==> k as int == last_dot(name@) && k < name@.len(),
        r is None ==> last_dot(name@) < 0,
{
    proof {
        lemma_last_dot_bounds(name@);
    }
    let n = name.unicode_len();
    let mut j = n;
    assert(name@.subrange(0, n as int) =~= name@);
    while j > 0
        invariant
            n == name@.len(),
            j <= n,
            last_dot(name@) == last_dot(name@.subrange(0, j as int)),
        decreases j,
    {
        let c = name.get_char(j - 1);
        proof {
            let s = name@.subrange(0, j as int);
            assert(s.drop_last() =~= name@.subrange(0, j - 1));
        }
        if c == '.' {
            return Some(j - 1);
        }
        j = j - 1;
    }
    None
}

/// Every dotted prefix of a registered logger's name is registered too, and
/// each logger other than the root points at the logger named by
/// `parent_name`: requesting `a.b.c` leaves `a.b`, `a` and the root in
/// place as its chain of parents.
pub proof fn lemma_hierarchy(m: LoggerManager, i: int)
    requires
        m.wf(),
        0 <= i < m.loggers@.len(),
    ensures
        forall|k: int|
            0 <= k < m.loggers@[i].name@.len() && m.loggers@[i].name@[k] == '.' ==> registered(
                m.loggers@,
                #[trigger] m.loggers@[i].name@.subrange(0, k),
            ),
        i > 0 ==> m.loggers@[m.loggers@[i].parent->0 as int].name@ == parent_name(
            m.loggers@[i].name@,
        ),
        i > 0 ==> registered(m.loggers@, parent_name(m.loggers@[i].name@)),
    decreases i,
{
    let l = m.loggers@;
    let n = l[i].name@;
    if i == 0 {
        reveal_strlit("root");
        return;
    }
    assert(parent_ok(l, i));
    let p = l[i].parent->0 as int;
    lemma_hierarchy(m, p);
    lemma_last_dot_bounds(n);
    let d = last_dot(n);
    assert forall|k: int| 0 <= k < n.len() && n[k] == '.' implies registered(
        l,
        #[trigger] n.subrange(0, k),
    ) by {
        assert(k <= d);
        if k == d {
            assert(l[p].name@ == n.subrange(0, k));
        } else {
            assert(l[p].name@ == n.subrange(0, d));
            assert(l[p].name@[k] == '.');
            assert(l[p].name@.subrange(0, k) =~= n.subrange(0, k));
        }
    }
}

/// Logger `j`'s effective level depends only on the loggers up to `j`.
pub proof fn lemma_effective_prefix(a: Seq<Logger>, b: Seq<Logger>, j: int)
    requires
        0 <= j < a.len(),
        j < b.len(),
        forall|k: int| 0 <= k <= j ==> a[k] == b[k],
    ensures
        effective_level(a, j) == effective_level(b, j),
    decreases j,
{
    if a[j].level == LogLevel::NotSet {
        match a[j].parent {
            Some(p) => if (p as int) < j {
                lemma_effective_prefix(a, b, p as int);
            },
            None => {},
        }
    }
}

/// A logger without a level of its own takes its parent's effective level.
pub proof fn lemma_inherits(m: LoggerManager, i: int)
    requires
        m.wf(),
        0 < i < m.loggers@.len(),
        m.loggers@[i].level == LogLevel::NotSet,
    ensures
        effective_level(m.loggers@, i) == effective_level(
            m.loggers@,
            m.loggers@[i].parent->0 as int,
        ),
{
    assert(parent_ok(m.loggers@, i));
}

/// Giving logger `i` a level of its own makes that its effective level and
/// changes no earlier logger's (its ancestors are all earlier).
pub proof fn lemma_set_level_effect(before: LoggerManager, after: LoggerManager, i: int, level: LogLevel)
    requires
        before.wf(),
        0 <= i < before.loggers@.len(),
        level != LogLevel::NotSet,
        after.loggers@.len() == before.loggers@.len(),
        forall|k: int| 0 <= k < before.loggers@.len() && k != i ==> after.loggers@[k] == before.loggers@[k],
        after.loggers@[i].level == level,
    ensures
        effective_level(after.loggers@, i) == level,
        forall|j: int| 0 <= j < i ==> effective_level(after.loggers@, j) == effective_level(
            before.loggers@,
            j,
        ),
{
    assert forall|j: int| 0 <= j < i implies effective_level(after.loggers@, j) == effective_level(
        before.loggers@,
        j,
    ) by {
        lemma_effective_prefix(after.loggers@, before.loggers@, j);
    }
}

proof fn lemma_effective_is_set(l: Seq<Logger>, i: int)
    ensures
        effective_level(l, i) != LogLevel::NotSet,
    decreases i,
{
    if 0 <= i < l.len() && l[i].level == LogLevel::NotSet {
        match l[i].parent {
            Some(p) => if (p as int) < i {
                lemma_effective_is_set(l, p as int);
            },
            None => {},
        }
    }
}

} // verus!
