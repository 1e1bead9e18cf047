use vstd::prelude::*;
use vstd::utf8::encode_utf8;

verus! {

/// One step of a rollover. Index 0 is the active log file, index `k > 0`
/// the backup `<file>.k`.
#[derive(Debug, Clone, Copy, PartialEq, Eq, Structural)]
pub enum FileOp {
    /// Push buffered bytes of the active file to disk.
    Flush,
    /// Empty the active file in place.
    Truncate,
    /// Delete every backup whose index is above this one.
    RemoveAbove(u32),
    /// Rename a file if it exists, replacing any file at the target.
    Rename(u32, u32),
    /// Open the active file, creating it empty if it does not exist.
    Reopen,
}

/// A set of files, by index, with their contents.
pub type Files = Map<int, Seq<char>>;

/// The files after one step.
pub open spec fn apply_op(fs: Files, op: FileOp) -> Files {
    match op {
        FileOp::Flush => fs,
        FileOp::Truncate => fs.insert(0, Seq::empty()),
        FileOp::RemoveAbove(k) => keep_upto(fs, k as int),
        FileOp::Rename(from, to) => if fs.contains_key(from as int) {
            fs.remove(from as int).insert(to as int, fs[from as int])
        } else {
            fs
        },
        FileOp::Reopen => if fs.contains_key(0) {
            fs
        } else {
            fs.insert(0, Seq::empty())
        },
    }
}

/// The files whose index is at most `k`.
pub open spec fn keep_upto(fs: Files, k: int) -> Files {
    Map::new(|x: int| fs.contains_key(x) && x <= k, |x: int| fs[x])
}

/// The files after the steps `ops`, in order.
pub open spec fn apply_ops(fs: Files, ops: Seq<FileOp>) -> Files
    decreases ops.len(),
{
    if ops.len() == 0 {
        fs
    } else {
        apply_op(apply_ops(fs, ops.drop_last()), ops.last())
    }
}

/// Renames that move backups `bc-1, bc-2, ...` up by one, `m` of them.
pub open spec fn shifts(bc: nat, m: nat) -> Seq<FileOp>
    decreases m,
{
    if m == 0 {
        Seq::empty()
    } else {
        shifts(bc, (m - 1) as nat).push(FileOp::Rename((bc - m) as u32, (bc - m + 1) as u32))
    }
}

/// The steps of a rollover that keeps `bc` backups: with none, the active
/// file is truncated in place; else every backup from `.bc` up goes (the
/// oldest kept one and any beyond the count), the others move up by one
/// from the highest down, the active file becomes `.1` and a fresh active
/// file is opened.
pub open spec fn rollover_plan(bc: nat) -> Seq<FileOp> {
    if bc == 0 {
        seq![FileOp::Flush, FileOp::Truncate]
    } else {
        seq![FileOp::Flush, FileOp::RemoveAbove((bc - 1) as u32)] + shifts(bc, (bc - 1) as nat) + seq![
            FileOp::Rename(0, 1),
            FileOp::Reopen,
        ]
    }
}

/// The steps of a rollover that keeps `backup_count` backups.
pub fn rollover_steps(backup_count: u32) -> (r: Vec<FileOp>)
    ensures
        r@ == rollover_plan(backup_count as nat),
{
    let mut ops: Vec<FileOp> = Vec::new();
    ops.push(FileOp::Flush);
    if backup_count == 0 {
        ops.push(FileOp::Truncate);
        assert(ops@ =~= rollover_plan(0));
        return ops;
    }
    ops.push(FileOp::RemoveAbove(backup_count - 1));
    let ghost head = ops@;
    let mut m: u32 = 0;
    while m < backup_count - 1
        invariant
            backup_count > 0,
            m <= backup_count - 1,
            ops@ == head + shifts(backup_count as nat, m as nat),
        decreases backup_count - 1 - m,
    {
        ops.push(FileOp::Rename(backup_count - m - 1, backup_count - m));
        m = m + 1;
        assert(ops@ =~= head + shifts(backup_count as nat, m as nat));
    }
    ops.push(FileOp::Rename(0, 1));
    ops.push(FileOp::Reopen);
    assert(ops@ =~= rollover_plan(backup_count as nat));
    ops
}

proof fn lemma_apply_concat(fs: Files, a: Seq<FileOp>, b: Seq<FileOp>)
    ensures
        apply_ops(fs, a + b) == apply_ops(apply_ops(fs, a), b),
    decreases b.len(),
{
    if b.len() == 0 {
        assert(a + b =~= a);
    } else {
        lemma_apply_concat(fs, a, b.drop_last());
        assert((a + b).drop_last() =~= a + b.drop_last());
        assert((a + b).last() == b.last());
    }
}

/// The files after the removal of `.bc` and `m` upward moves.
pub open spec fn shifted(fs: Files, bc: nat, m: nat) -> Files {
    apply_ops(fs.remove(bc as int), shifts(bc, m))
}

proof fn lemma_shifts(fs: Files, bc: nat, m: nat)
    requires
        0 < bc <= u32::MAX,
        m <= bc - 1,
        forall|k: int| fs.contains_key(k) ==> 0 <= k <= bc,
    ensures
        forall|k: int|
            0 <= k < bc - m ==> (#[trigger] shifted(fs, bc, m).contains_key(k) == fs.contains_key(k)
                && (fs.contains_key(k) ==> shifted(fs, bc, m)[k] == fs[k])),
        !shifted(fs, bc, m).contains_key(bc - m),
        forall|k: int|
            bc - m < k <= bc ==> (#[trigger] shifted(fs, bc, m).contains_key(k) == fs.contains_key(k - 1)
                && (fs.contains_key(k - 1) ==> shifted(fs, bc, m)[k] == fs[k - 1])),
        forall|k: int| #[trigger] shifted(fs, bc, m).contains_key(k) ==> 0 <= k <= bc,
    decreases m,
{
    if m == 0 {
        assert(shifts(bc, 0) =~= Seq::<FileOp>::empty());
        assert(shifted(fs, bc, 0) == fs.remove(bc as int));
    } else {
        lemma_shifts(fs, bc, (m - 1) as nat);
        let s = shifts(bc, m);
        let x = fs.remove(bc as int);
        assert(s.drop_last() == shifts(bc, (m - 1) as nat));
        assert(s.last() == FileOp::Rename((bc - m) as u32, (bc - m + 1) as u32));
        let prev = shifted(fs, bc, (m - 1) as nat);
        let g = shifted(fs, bc, m);
        assert(g == apply_op(prev, s.last()));
        let j = bc - m;
        assert((j as u32) as int == j);
        assert(((j + 1) as u32) as int == j + 1);
        if prev.contains_key(j) {
            assert(g == prev.remove(j).insert(j + 1, prev[j]));
            assert(prev[j] == fs[j]);
        } else {
            assert(g == prev);
        }
        assert forall|k: int| 0 <= k < bc - m implies (#[trigger] g.contains_key(k) == fs.contains_key(k)
            && (fs.contains_key(k) ==> g[k] == fs[k])) by {
            assert(prev.contains_key(k) == fs.contains_key(k));
        }
        assert forall|k: int| bc - m < k <= bc implies (#[trigger] g.contains_key(k) == fs.contains_key(k - 1)
            && (fs.contains_key(k - 1) ==> g[k] == fs[k - 1])) by {
            if k > j + 1 {
                assert(prev.contains_key(k) == fs.contains_key(k - 1));
            }
        }
        assert forall|k: int| #[trigger] g.contains_key(k) implies 0 <= k <= bc by {
            if k != j + 1 {
                assert(prev.contains_key(k));
            }
        }
    }
}

/// What a rollover does to the files. With no backups kept, the active
/// file is emptied in place and nothing else changes, so no backup appears.
/// Else the active file's content becomes `.1`, each backup `.k` below the
/// count becomes `.k+1`, the active file starts empty, and no backup above
/// `bc` remains, whatever existed before.
pub proof fn lemma_rollover(fs: Files, bc: nat)
    requires
        bc <= u32::MAX,
        fs.contains_key(0),
        forall|k: int| fs.contains_key(k) ==> 0 <= k,
    ensures
        ({
            let g = apply_ops(fs, rollover_plan(bc));
            &&& g.contains_key(0) && g[0] == Seq::<char>::empty()
            &&& bc == 0 ==> g == fs.insert(0, Seq::<char>::empty())
            &&& bc > 0 ==> forall|k: int| g.contains_key(k) ==> 0 <= k <= bc
            &&& bc > 0 ==> g.contains_key(1) && g[1] == fs[0]
            &&& forall|k: int| 2 <= k <= bc ==> (#[trigger] g.contains_key(k) == fs.contains_key(k - 1)
                && (fs.contains_key(k - 1) ==> g[k] == fs[k - 1]))
        }),
{
    let plan = rollover_plan(bc);
    if bc == 0 {
        assert(plan.drop_last() =~= seq![FileOp::Flush]);
        assert(plan.drop_last().drop_last() =~= Seq::<FileOp>::empty());
        assert(apply_ops(fs, plan.drop_last().drop_last()) == fs);
        assert(apply_ops(fs, plan.drop_last()) == fs);
    } else {
        let head = seq![FileOp::Flush, FileOp::RemoveAbove((bc - 1) as u32)];
        let m = (bc - 1) as nat;
        let mid = shifts(bc, m);
        let f1 = keep_upto(fs, bc as int);
        assert(bc - m == 1);
        lemma_shifts(f1, bc, m);
        let tail = seq![FileOp::Rename(0, 1), FileOp::Reopen];
        lemma_apply_concat(fs, head + mid, tail);
        lemma_apply_concat(fs, head, mid);
        assert(head.drop_last() =~= seq![FileOp::Flush]);
        assert(head.drop_last().drop_last() =~= Seq::<FileOp>::empty());
        assert(apply_ops(fs, head.drop_last().drop_last()) == fs);
        assert(apply_ops(fs, head.drop_last()) == fs);
        assert(((bc - 1) as u32) as int == bc - 1);
        assert(apply_ops(fs, head) == keep_upto(fs, bc - 1));
        assert(keep_upto(fs, bc - 1) =~= f1.remove(bc as int));
        assert(apply_ops(fs, head + mid) == shifted(f1, bc, m));
        let x = apply_ops(fs, head + mid);
        assert(shifted(f1, bc, m).contains_key(0) == f1.contains_key(0));
        assert(x.contains_key(0));
        assert(apply_ops(x, tail.drop_last().drop_last()) == x);
        assert(tail.drop_last() =~= seq![FileOp::Rename(0, 1)]);
        assert(tail.drop_last().drop_last() =~= Seq::<FileOp>::empty());
        let y = apply_ops(x, tail.drop_last());
        assert(y == apply_op(x, FileOp::Rename(0, 1)));
        assert(y == x.remove(0).insert(1, x[0]));
        let g = apply_ops(fs, plan);
        assert(plan == (head + mid) + tail);
        assert(g == apply_op(y, FileOp::Reopen));
        assert(g == y.insert(0, Seq::<char>::empty()));
        assert(x[0] == fs[0]);
        assert forall|k: int| 2 <= k <= bc implies (#[trigger] g.contains_key(k) == fs.contains_key(k - 1)
            && (fs.contains_key(k - 1) ==> g[k] == fs[k - 1])) by {
            assert(shifted(f1, bc, m).contains_key(k) == f1.contains_key(k - 1));
        }
        assert forall|k: int| g.contains_key(k) implies 0 <= k <= bc by {
            if k > 1 {
                assert(shifted(f1, bc, m).contains_key(k));
            }
        }
    }
}

/// Size bookkeeping of a file that rolls over once a write would take it
/// past `max_bytes` (never, when `max_bytes` is 0).
#[derive(Debug, Clone, Copy, PartialEq, Eq, Structural)]
pub struct RotationState {
    pub max_bytes: u64,
    pub backup_count: u32,
    /// Bytes written since the last rollover.
    pub current_size: u64,
}

/// Whether writing `n` more bytes calls for a rollover first.
pub open spec fn needs_rollover(s: RotationState, n: int) -> bool {
    s.max_bytes > 0 && s.current_size + n > s.max_bytes
}

/// `a + b`, or the largest `u64` when that does not fit.
pub open spec fn add_capped(a: int, b: int) -> int {
    if a + b > u64::MAX {
        u64::MAX as int
    } else {
        a + b
    }
}

/// The size after writing `n` bytes: `n` when a rollover came first, else
/// the old size plus `n`.
pub open spec fn size_after(s: RotationState, n: int) -> int {
    if needs_rollover(s, n) {
        n
    } else {
        add_capped(s.current_size as int, n)
    }
}

impl RotationState {
    pub fn new(max_bytes: u64, backup_count: u32, current_size: u64) -> (r: RotationState)
        ensures
            r == (RotationState { max_bytes, backup_count, current_size }),
    {
        RotationState { max_bytes, backup_count, current_size }
    }

    /// Whether writing `n` more bytes calls for a rollover first.
    pub fn should_rollover(&self, n: u64) -> (r: bool)
        ensures
            r == needs_rollover(*self, n as int),
    {
        self.max_bytes > 0 && (self.current_size > self.max_bytes || n > self.max_bytes
            - self.current_size)
    }

    /// Accounts for a write of `n` bytes: the rollover steps to run before
    /// it (none when the file has room), and the new size.
    pub fn prepare_write(&mut self, n: u64) -> (steps: Vec<FileOp>)
        ensures
            final(self).max_bytes == old(self).max_bytes,
            final(self).backup_count == old(self).backup_count,
            final(self).current_size == size_after(*old(self), n as int),
            needs_rollover(*old(self), n as int) ==> steps@ == rollover_plan(
                old(self).backup_count as nat,
            ) && final(self).current_size == n,
            !needs_rollover(*old(self), n as int) ==> steps@.len() == 0
                && final(self).current_size == add_capped(old(self).current_size as int, n as int),
    {
        let steps = if self.should_rollover(n) {
            self.current_size = 0;
            rollover_steps(self.backup_count)
        } else {
            Vec::new()
        };
        self.current_size = if self.current_size > u64::MAX - n {
            u64::MAX
        } else {
            self.current_size + n
        };
        steps
    }
}

/// Bytes of a line.
pub open spec fn blen(line: Seq<char>) -> int {
    encode_utf8(line).len() as int
}

/// One line written to a rotating file: roll over first when the line's
/// bytes call for it, then append the line to the active file.
pub open spec fn write_step(st: RotationState, fs: Files, line: Seq<char>) -> (RotationState, Files, nat) {
    let n = blen(line);
    let rolled = needs_rollover(st, n);
    let g = if rolled {
        apply_ops(fs, rollover_plan(st.backup_count as nat))
    } else {
        fs
    };
    (
        RotationState { current_size: size_after(st, n) as u64, ..st },
        g.insert(0, g[0] + line),
        if rolled {
            1nat
        } else {
            0nat
        },
    )
}

/// The state, files and number of rollovers after writing `lines` in order.
pub open spec fn write_run(st: RotationState, fs: Files, lines: Seq<Seq<char>>) -> (RotationState, Files, nat)
    decreases lines.len(),
{
    if lines.len() == 0 {
        (st, fs, 0nat)
    } else {
        let (s1, f1, c1) = write_run(st, fs, lines.drop_last());
        let (s2, f2, c2) = write_step(s1, f1, lines.last());
        (s2, f2, c1 + c2)
    }
}

/// All lines joined.
pub open spec fn joined(lines: Seq<Seq<char>>) -> Seq<char>
    decreases lines.len(),
{
    if lines.len() == 0 {
        Seq::empty()
    } else {
        joined(lines.drop_last()) + lines.last()
    }
}

/// Total bytes of the lines.
pub open spec fn total_bytes(lines: Seq<Seq<char>>) -> int
    decreases lines.len(),
{
    if lines.len() == 0 {
        0
    } else {
        total_bytes(lines.drop_last()) + blen(lines.last())
    }
}

proof fn lemma_run_below_limit(st: RotationState, lines: Seq<Seq<char>>)
    requires
        st.current_size == 0,
        st.max_bytes > 0,
        total_bytes(lines) <= st.max_bytes,
    ensures
        ({
            let (s, f, c) = write_run(st, map![0int => Seq::<char>::empty()], lines);
            &&& c == 0
            &&& s == RotationState { current_size: total_bytes(lines) as u64, ..st }
            &&& f == map![0int => joined(lines)]
        }),
    decreases lines.len(),
{
    if lines.len() > 0 {
        let p = lines.drop_last();
        assert(blen(lines.last()) >= 0);
        assert(total_bytes(p) >= 0) by {
            lemma_total_nonneg(p);
        }
        lemma_run_below_limit(st, p);
        let (s1, f1, c1) = write_run(st, map![0int => Seq::<char>::empty()], p);
        assert(!needs_rollover(s1, blen(lines.last())));
        assert(f1.insert(0, f1[0] + lines.last()) =~= map![0int => joined(lines)]);
    }
}

proof fn lemma_total_nonneg(lines: Seq<Seq<char>>)
    ensures
        total_bytes(lines) >= 0,
    decreases lines.len(),
{
    if lines.len() > 0 {
        lemma_total_nonneg(lines.drop_last());
    }
}

/// Starting from an empty file with no backups, writing lines that each
/// fit the limit until their total first exceeds it rolls over exactly
/// once: `.1` then holds everything written before the last line, the
/// active file holds the last line, and no `.2` exists.
pub proof fn lemma_first_rollover(st: RotationState, lines: Seq<Seq<char>>)
    requires
        st.current_size == 0,
        st.max_bytes > 0,
        st.backup_count >= 1,
        lines.len() >= 1,
        forall|j: int| 0 <= j < lines.len() ==> blen(#[trigger] lines[j]) <= st.max_bytes,
        total_bytes(lines.drop_last()) <= st.max_bytes,
        total_bytes(lines) > st.max_bytes,
    ensures
        ({
            let (s, f, c) = write_run(st, map![0int => Seq::<char>::empty()], lines);
            &&& c == 1
            &&& f.contains_key(1) && f[1] == joined(lines.drop_last())
            &&& f.contains_key(0) && f[0] == lines.last()
            &&& !f.contains_key(2)
            &&& s.current_size == blen(lines.last())
        }),
{
    let p = lines.drop_last();
    let fs0 = map![0int => Seq::<char>::empty()];
    lemma_run_below_limit(st, p);
    let (s1, f1, c1) = write_run(st, fs0, p);
    let n = blen(lines.last());
    assert(n <= st.max_bytes) by {
        assert(lines.last() == lines[lines.len() - 1]);
    }
    assert(needs_rollover(s1, n));
    lemma_rollover(f1, st.backup_count as nat);
    let g = apply_ops(f1, rollover_plan(st.backup_count as nat));
    assert(g[0] + lines.last() =~= lines.last());
    assert(f1 == map![0int => joined(p)]);
    assert(!f1.contains_key(2 - 1));
    if st.backup_count >= 2 {
        assert(g.contains_key(2) == f1.contains_key(2 - 1));
    } else {
        assert(g.contains_key(2) ==> 2 <= st.backup_count);
    }
}

/// However many lines are written, no backup above the count ever
/// exists when none did at the start.
pub proof fn lemma_run_bounded(st: RotationState, fs: Files, lines: Seq<Seq<char>>)
    requires
        st.backup_count > 0,
        fs.contains_key(0),
        forall|k: int| fs.contains_key(k) ==> 0 <= k <= st.backup_count,
    ensures
        ({
            let (s, f, c) = write_run(st, fs, lines);
            &&& s.backup_count == st.backup_count
            &&& s.max_bytes == st.max_bytes
            &&& f.contains_key(0)
            &&& forall|k: int| f.contains_key(k) ==> 0 <= k <= st.backup_count
        }),
    decreases lines.len(),
{
    if lines.len() > 0 {
        lemma_run_bounded(st, fs, lines.drop_last());
        let (s1, f1, c1) = write_run(st, fs, lines.drop_last());
        if needs_rollover(s1, blen(lines.last())) {
            lemma_rollover(f1, s1.backup_count as nat);
        }
    }
}

/// With no backups kept, a run of writes never creates a backup; a write
/// that rolls over leaves the active file holding just that line.
pub proof fn lemma_run_without_backups(st: RotationState, fs: Files, lines: Seq<Seq<char>>)
    requires
        st.backup_count == 0,
        fs.dom() == set![0int],
    ensures
        ({
            let (s, f, c) = write_run(st, fs, lines);
            &&& f.dom() == set![0int]
            &&& s.backup_count == 0
            &&& lines.len() > 0 && needs_rollover(write_run(st, fs, lines.drop_last()).0, blen(lines.last()))
                ==> f[0] == lines.last()
        }),
    decreases lines.len(),
{
    if lines.len() > 0 {
        lemma_run_without_backups(st, fs, lines.drop_last());
        let (s1, f1, c1) = write_run(st, fs, lines.drop_last());
        assert(f1.contains_key(0));
        if needs_rollover(s1, blen(lines.last())) {
            lemma_rollover(f1, 0);
            let g = apply_ops(f1, rollover_plan(0));
            assert(g[0] + lines.last() =~= lines.last());
            assert(g.insert(0, g[0] + lines.last()).dom() =~= set![0int]);
        } else {
            assert(f1.insert(0, f1[0] + lines.last()).dom() =~= set![0int]);
        }
    }
}

} // verus!
