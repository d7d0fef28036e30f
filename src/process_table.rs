//! Processes, the table that maps pids to them, and the pid allocator.
use crate::errno::{Errno, Error};
use crate::file_table::FileTable;
use crate::vm::ProcessVM;
use std::collections::BTreeMap;
use vstd::prelude::*;

verus! {

broadcast use vstd::std_specs::btree::group_btree_axioms;

#[allow(non_camel_case_types)]
pub type pid_t = u32;

/// Where a user task starts: its entry point and its initial stack pointer.
#[derive(Clone, Copy, Debug, PartialEq, Eq, Structural)]
pub struct Task {
    pub user_entry_addr: usize,
    pub user_stack_addr: usize,
}

/// The resource limits of a process: the sizes its stack, heap and mmap
/// regions may reach.
#[derive(Clone, Copy, Debug, PartialEq, Eq, Structural)]
pub struct ResourceLimits {
    pub stack_size: usize,
    pub heap_size: usize,
    pub mmap_size: usize,
}

/// A process. Parent and children are named by pid and resolved through
/// the process table.
pub struct Process {
    pub pid: pid_t,
    pub cwd: String,
    pub parent: Option<pid_t>,
    pub children: Vec<pid_t>,
    pub vm: ProcessVM,
    pub files: FileTable,
    pub rlimits: ResourceLimits,
    pub task: Task,
}

impl Process {
    pub fn get_pid(&self) -> (r: pid_t)
        ensures
            r == self.pid,
    {
        self.pid
    }

    pub fn get_cwd(&self) -> (r: &str)
        ensures
            r@ == self.cwd@,
    {
        self.cwd.as_str()
    }

    pub fn get_files(&self) -> (r: &FileTable)
        ensures
            *r == self.files,
    {
        &self.files
    }
}

/// The live processes, by pid.
pub struct ProcessTable {
    map: BTreeMap<pid_t, Process>,
    /// A number above every pid the table has held.
    bound: u64,
}

impl View for ProcessTable {
    type V = Map<pid_t, Process>;

    closed spec fn view(&self) -> Map<pid_t, Process> {
        self.map@
    }
}

impl ProcessTable {
    /// Every pid in the table lies below the recorded bound.
    pub closed spec fn wf(&self) -> bool {
        forall|k: pid_t| #[trigger] self.map@.contains_key(k) ==> k < self.bound
    }

    /// An empty table.
    pub fn new() -> (r: ProcessTable)
        ensures
            r@ == Map::<pid_t, Process>::empty(),
            r.wf(),
    {
        ProcessTable { map: BTreeMap::new(), bound: 0 }
    }

    /// Whether every pid in the table is certainly below `n`: a `true` is
    /// always right; a `false` comes where some pid the table has held, even
    /// one since removed, reaches `n`.
    pub fn pids_below(&self, n: u32) -> (r: bool)
        requires
            self.wf(),
        ensures
            r ==> pids_below(self@, n),
    {
        self.bound <= n as u64
    }

    /// How many processes the table holds.
    pub fn len(&self) -> (r: usize)
        ensures
            r == self@.len(),
    {
        self.map.len()
    }
}

/// Publishes `process` under `pid`, replacing any earlier entry.
pub fn put(table: &mut ProcessTable, pid: pid_t, process: Process)
    requires
        old(table).wf(),
    ensures
        final(table)@ == old(table)@.insert(pid, process),
        final(table).wf(),
{
    table.map.insert(pid, process);
    if table.bound <= pid as u64 {
        table.bound = pid as u64 + 1;
    }
}

/// Drops the entry of `pid`, if any.
pub fn remove(table: &mut ProcessTable, pid: pid_t)
    requires
        old(table).wf(),
    ensures
        final(table)@ == old(table)@.remove(pid),
        final(table).wf(),
{
    table.map.remove(&pid);
}

/// The process published under `pid`, or `ENOENT`.
pub fn get(table: &ProcessTable, pid: pid_t) -> (r: Result<&Process, Error>)
    ensures
        table@.contains_key(pid) ==> r is Ok && *r->Ok_0 == table@[pid],
        !table@.contains_key(pid) ==> r is Err && r->Err_0.errno == Errno::ENOENT,
{
    match table.map.get(&pid) {
        Some(p) => Ok(p),
        None => Err(Error::new(Errno::ENOENT, "process not found")),
    }
}

/// The source of pids: a counter that starts at 1, as pid 0 is the idle
/// process's.
pub struct PidAllocator {
    next: u32,
}

impl PidAllocator {
    pub closed spec fn spec_next(&self) -> u32 {
        self.next
    }

    pub open spec fn wf(&self) -> bool {
        self.spec_next() >= 1
    }

    /// The pid that the next allocation hands out.
    pub fn next(&self) -> (r: u32)
        ensures
            r == self.spec_next(),
    {
        self.next
    }

    pub fn new() -> (r: PidAllocator)
        ensures
            r.wf(),
            r.spec_next() == 1,
    {
        PidAllocator { next: 1 }
    }
}

/// Hands out the next pid. Pids are not reused; the counter must not be
/// exhausted.
pub fn alloc_pid(pids: &mut PidAllocator) -> (r: u32)
    requires
        old(pids).wf(),
        old(pids).spec_next() < u32::MAX,
    ensures
        r == old(pids).spec_next(),
        r > 0,
        final(pids).spec_next() == r + 1,
        final(pids).wf(),
{
    let r = pids.next;
    pids.next = pids.next + 1;
    r
}

/// Returns `pid` to the allocator. Pids are not recycled, so this keeps the
/// counter as it is; pid 0 belongs to the idle process and is never freed.
pub fn free_pid(pids: &mut PidAllocator, pid: u32)
    ensures
        final(pids).spec_next() == old(pids).spec_next(),
{
    if pid == 0 {
        return;
    }
}

/// Every pid the table holds was handed out before `next`.
pub open spec fn pids_below(table: Map<pid_t, Process>, next: u32) -> bool {
    forall|k: pid_t| #[trigger] table.contains_key(k) ==> k < next
}

/// A pid drawn from an allocator is positive and differs from every pid
/// drawn before, all of which lie below the allocator's counter.
pub proof fn alloc_pid_fresh(a: PidAllocator, earlier: Set<u32>, p: u32)
    requires
        a.wf(),
        forall|q: u32| #[trigger] earlier.contains(q) ==> q < a.spec_next(),
        p == a.spec_next(),
    ensures
        p > 0,
        !earlier.contains(p),
{
}

/// Two pids drawn one after the other are positive and strictly increasing,
/// so no pid is handed out twice and none is 0.
pub proof fn alloc_pid_increasing(a: PidAllocator, b: PidAllocator, c: PidAllocator, p1: u32, p2: u32)
    requires
        a.wf(),
        p1 == a.spec_next(),
        b.spec_next() == p1 + 1,
        p2 == b.spec_next(),
        c.spec_next() == p2 + 1,
    ensures
        0 < p1 < p2,
        b.wf() && c.wf(),
{
}

/// The pids of any run of successive draws from a well-formed allocator,
/// each one more than the one before as `alloc_pid` promises, are positive
/// and strictly increasing, so no two of them are equal and none is 0.
pub proof fn alloc_pids_strictly_increase(a: PidAllocator, drawn: Seq<u32>)
    requires
        a.wf(),
        drawn.len() > 0 ==> drawn[0] == a.spec_next(),
        forall|i: int| 0 <= i < drawn.len() - 1 ==> #[trigger] drawn[i + 1] == drawn[i] + 1,
    ensures
        forall|i: int| 0 <= i < drawn.len() ==> #[trigger] drawn[i] > 0,
        forall|i: int, j: int| 0 <= i < j < drawn.len() ==> #[trigger] drawn[i] < #[trigger] drawn[j],
    decreases drawn.len(),
{
    if drawn.len() > 1 {
        let front = drawn.drop_last();
        assert forall|i: int| 0 <= i < front.len() - 1 implies #[trigger] front[i + 1] == front[i] + 1 by {
            assert(drawn[i + 1] == drawn[i] + 1);
        }
        alloc_pids_strictly_increase(a, front);
        let k = drawn.len() - 1;
        assert(drawn[(k - 1) + 1] == drawn[k - 1] + 1);
        assert(drawn[k] == drawn[k - 1] + 1);
        assert forall|i: int, j: int| 0 <= i < j < drawn.len() implies #[trigger] drawn[i] < #[trigger] drawn[j] by {
            if j < k {
                assert(front[i] < front[j]);
            } else if i < k - 1 {
                assert(front[i] < front[k - 1]);
            }
        }
        assert forall|i: int| 0 <= i < drawn.len() implies #[trigger] drawn[i] > 0 by {
            if i < k {
                assert(front[i] > 0);
            } else {
                assert(front[k - 1] > 0);
            }
        }
    }
}

} // verus!
