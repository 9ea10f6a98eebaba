use vstd::prelude::*;

verus! {

/// Number of slots in the process table.
pub const PROCS_MAX: usize = 8;

/// Size in bytes of the kernel stack that each process slot owns.
pub const STACK_SIZE: usize = 4096;

/// The callee-saved registers of a suspended process, in the order in which
/// the context switch stores them: return address, stack pointer, `s0`..`s11`.
#[derive(Clone, Copy, PartialEq, Eq, Structural, Debug)]
pub struct ProcessContext {
    pub ra: u32,
    pub sp: u32,
    pub s0: u32,
    pub s1: u32,
    pub s2: u32,
    pub s3: u32,
    pub s4: u32,
    pub s5: u32,
    pub s6: u32,
    pub s7: u32,
    pub s8: u32,
    pub s9: u32,
    pub s10: u32,
    pub s11: u32,
}

/// The all-zero register set.
pub open spec fn zero_context() -> ProcessContext {
    ProcessContext {
        ra: 0, sp: 0, s0: 0, s1: 0, s2: 0, s3: 0, s4: 0, s5: 0,
        s6: 0, s7: 0, s8: 0, s9: 0, s10: 0, s11: 0,
    }
}

impl ProcessContext {
    /// A context with every register zero.
    pub fn new() -> (c: ProcessContext)
        ensures
            c == zero_context(),
    {
        ProcessContext {
            ra: 0, sp: 0, s0: 0, s1: 0, s2: 0, s3: 0, s4: 0, s5: 0,
            s6: 0, s7: 0, s8: 0, s9: 0, s10: 0, s11: 0,
        }
    }
}

/// Life cycle of a process slot.
#[derive(Clone, Copy, PartialEq, Eq, Structural, Debug)]
pub enum ProcessState {
    Unused,
    Runnable,
    Running,
}

/// One entry of the process table. The stack memory itself belongs to the
/// machine layer; the table records where it ends through the saved `sp`.
#[derive(Clone, Copy, Debug)]
pub struct Process {
    pid: i32,
    state: ProcessState,
    context: ProcessContext,
}

impl Process {
    pub closed spec fn spec_pid(&self) -> i32 {
        self.pid
    }

    pub closed spec fn spec_state(&self) -> ProcessState {
        self.state
    }

    pub closed spec fn spec_context(&self) -> ProcessContext {
        self.context
    }

    /// An unused slot: pid 0, zero registers.
    pub fn new() -> (p: Process)
        ensures
            p.pid() == 0,
            p.state() == ProcessState::Unused,
            p.context() == zero_context(),
    {
        Process { pid: 0, state: ProcessState::Unused, context: ProcessContext::new() }
    }

    /// The process that runs before the scheduler first switches: pid -1, never in the table.
    pub fn idle() -> (p: Process)
        ensures
            p.pid() == -1,
            p.state() == ProcessState::Unused,
            p.context() == zero_context(),
    {
        Process { pid: -1, state: ProcessState::Unused, context: ProcessContext::new() }
    }

    #[verifier::when_used_as_spec(spec_pid)]
    pub fn pid(&self) -> (r: i32)
        ensures
            r == self.spec_pid(),
    {
        self.pid
    }

    #[verifier::when_used_as_spec(spec_state)]
    pub fn state(&self) -> (r: ProcessState)
        ensures
            r == self.spec_state(),
    {
        self.state
    }

    #[verifier::when_used_as_spec(spec_context)]
    pub fn context(&self) -> (r: ProcessContext)
        ensures
            r == self.spec_context(),
    {
        self.context
    }
}


/// A process is a scheduling candidate when it is runnable and has a real pid.
pub open spec fn is_candidate(p: Process) -> bool {
    p.state() == ProcessState::Runnable && p.pid() > 0
}

/// The first slot at index `k` or later that is unused.
pub open spec fn first_unused_from(t: Seq<Process>, k: int) -> Option<int>
    decreases t.len() - k,
{
    if k < 0 || k >= t.len() {
        None
    } else if t[k].state() == ProcessState::Unused {
        Some(k)
    } else {
        first_unused_from(t, k + 1)
    }
}

/// The first slot at index `k` or later that is a scheduling candidate.
pub open spec fn next_candidate_from(t: Seq<Process>, k: int) -> Option<int>
    decreases t.len() - k,
{
    if k < 0 || k >= t.len() {
        None
    } else if is_candidate(t[k]) {
        Some(k)
    } else {
        next_candidate_from(t, k + 1)
    }
}

/// `b` is `a` with only its state changed, to `s`.
pub open spec fn restated(a: Process, b: Process, s: ProcessState) -> bool {
    &&& b.pid() == a.pid()
    &&& b.context() == a.context()
    &&& b.state() == s
}

/// A table slot is consistent with its index: unused slots keep pid 0,
/// every other slot carries pid `index + 1`.
pub open spec fn slot_consistent(p: Process, i: int) -> bool {
    if p.state() == ProcessState::Unused {
        p.pid() == 0
    } else {
        p.pid() == i + 1
    }
}

/// The decision taken by one scheduling step: suspend `prev` (the idle
/// process when `None`) and resume table slot `next`.
#[derive(Clone, Copy, PartialEq, Eq, Structural, Debug)]
pub struct ContextSwitch {
    pub prev: Option<usize>,
    pub next: usize,
}

/// The process table, the running process (`None`: the idle process that
/// booted the kernel) and the idle process itself.
pub struct ProcessManager {
    procs: Vec<Process>,
    current: Option<usize>,
    idle: Process,
}

impl ProcessManager {
    pub closed spec fn table(&self) -> Seq<Process> {
        self.procs@
    }

    pub closed spec fn spec_running(&self) -> Option<usize> {
        self.current
    }

    pub closed spec fn spec_idle_process(&self) -> Process {
        self.idle
    }

    /// The saved registers of `who` (the idle process when `None`).
    pub open spec fn context_of(&self, who: Option<usize>) -> ProcessContext {
        match who {
            Some(i) => self.table()[i as int].context(),
            None => self.idle_process().context(),
        }
    }

    /// Well-formedness: eight slots, each consistent with its index, and a
    /// table slot is running exactly when it is the current process.
    pub open spec fn wf(&self) -> bool {
        &&& self.table().len() == PROCS_MAX
        &&& forall|i: int| 0 <= i < PROCS_MAX ==> slot_consistent(#[trigger] self.table()[i], i)
        &&& forall|i: int|
            0 <= i < PROCS_MAX ==> ((#[trigger] self.table()[i]).state() == ProcessState::Running
                <==> self.running() == Some(i as usize))
        &&& (self.running() matches Some(c) ==> c < PROCS_MAX)
    }

    /// A fresh manager: every slot unused, the idle process running.
    pub fn new() -> (m: ProcessManager)
        ensures
            m.wf(),
            m.running() is None,
            m.idle_process().pid() == -1,
            m.idle_process().state() == ProcessState::Unused,
            m.idle_process().context() == zero_context(),
            forall|i: int|
                0 <= i < PROCS_MAX ==> {
                    &&& (#[trigger] m.table()[i]).pid() == 0
                    &&& m.table()[i].state() == ProcessState::Unused
                    &&& m.table()[i].context() == zero_context()
                },
    {
        let mut procs: Vec<Process> = Vec::new();
        let mut i: usize = 0;
        while i < PROCS_MAX
            invariant
                i <= PROCS_MAX,
                procs@.len() == i,
                forall|j: int|
                    0 <= j < i ==> {
                        &&& (#[trigger] procs@[j]).pid() == 0
                        &&& procs@[j].state() == ProcessState::Unused
                        &&& procs@[j].context() == zero_context()
                    },
            decreases PROCS_MAX - i,
        {
            procs.push(Process::new());
            i = i + 1;
        }
        ProcessManager { procs, current: None, idle: Process::idle() }
    }

    #[verifier::when_used_as_spec(spec_running)]
    pub fn running(&self) -> (r: Option<usize>)
        ensures
            r == self.spec_running(),
    {
        self.current
    }

    #[verifier::when_used_as_spec(spec_idle_process)]
    pub fn idle_process(&self) -> (r: Process)
        ensures
            r == self.spec_idle_process(),
    {
        self.idle
    }

    /// The table entry in slot `i`.
    pub fn process(&self, i: usize) -> (r: Process)
        requires
            self.wf(),
            i < PROCS_MAX,
        ensures
            r == self.table()[i as int],
    {
        self.procs[i]
    }

    /// Claims the first unused slot for a process that starts at `pc` on the
    /// stack that ends at `stack_tops[slot]`; `None` when every slot is taken.
    pub fn create_process(&mut self, pc: u32, stack_tops: &[u32; PROCS_MAX]) -> (r: Option<()>)
        requires
            old(self).wf(),
        ensures
            final(self).wf(),
            final(self).running() == old(self).running(),
            final(self).idle_process() == old(self).idle_process(),
            r is None <==> forall|k: int|
                0 <= k < PROCS_MAX ==> (#[trigger] old(self).table()[k]).state()
                    != ProcessState::Unused,
            forall|i: int|
                0 <= i < PROCS_MAX && (#[trigger] old(self).table()[i]).state()
                    == ProcessState::Unused && (forall|k: int|
                    0 <= k < i ==> (#[trigger] old(self).table()[k]).state()
                        != ProcessState::Unused) ==> {
                    &&& r is Some
                    &&& final(self).table()[i].pid() == i + 1
                    &&& final(self).table()[i].state() == ProcessState::Runnable
                    &&& final(self).table()[i].context().ra == pc
                    &&& final(self).table()[i].context().sp == stack_tops[i]
                },
            match first_unused_from(old(self).table(), 0) {
                None => {
                    &&& r is None
                    &&& final(self).table() == old(self).table()
                },
                Some(i) => {
                    &&& r is Some
                    &&& final(self).table().len() == old(self).table().len()
                    &&& final(self).table()[i].pid() == i + 1
                    &&& final(self).table()[i].state() == ProcessState::Runnable
                    &&& final(self).table()[i].context() == (ProcessContext {
                        ra: pc,
                        sp: stack_tops[i],
                        ..old(self).table()[i].context()
                    })
                    &&& forall|j: int|
                        0 <= j < PROCS_MAX && j != i ==> #[trigger] final(self).table()[j]
                            == old(self).table()[j]
                },
            },
    {
        proof {
            law_first_unused_is_first_fit(self.table(), 0);
        }
        let mut i: usize = 0;
        while i < PROCS_MAX
            invariant
                self.wf(),
                *self == *old(self),
                i <= PROCS_MAX,
                first_unused_from(self.table(), 0) == first_unused_from(self.table(), i as int),
            decreases PROCS_MAX - i,
        {
            let p = self.procs[i];
            if p.state == ProcessState::Unused {
                assert(first_unused_from(self.table(), i as int) == Some(i as int));
                proof { law_first_unused_is_first_fit(self.table(), 0); }
                assert forall|i2: int|
                    0 <= i2 < PROCS_MAX && (#[trigger] self.table()[i2]).state()
                        == ProcessState::Unused && (forall|k: int|
                        0 <= k < i2 ==> (#[trigger] self.table()[k]).state()
                            != ProcessState::Unused) implies i2 == i as int by {
                    if i2 > i {
                        assert(self.table()[i as int].state() == ProcessState::Unused);
                    }
                }
                let claimed = Process {
                    pid: (i + 1) as i32,
                    state: ProcessState::Runnable,
                    context: ProcessContext { ra: pc, sp: stack_tops[i], ..p.context },
                };
                self.procs.set(i, claimed);
                return Some(());
            }
            i = i + 1;
        }
        None
    }

    /// One scheduling decision, scanning the table from slot `start`: the
    /// first candidate becomes the running process and the process it
    /// replaces becomes runnable again. `None` when no slot from `start` on
    /// is a candidate; the manager is then unchanged. (The running process is
    /// never a candidate, since it is not runnable; the scan still stops on it
    /// without switching.) After the switch the suspended process resumes its
    /// own scan at `next + 1`.
    pub fn yield_process(&mut self, start: usize) -> (r: Option<ContextSwitch>)
        requires
            old(self).wf(),
            start <= PROCS_MAX,
        ensures
            final(self).wf(),
            final(self).table().len() == old(self).table().len(),
            r is None <==> forall|k: int|
                start <= k < PROCS_MAX ==> !((#[trigger] old(self).table()[k]).state()
                    == ProcessState::Runnable && old(self).table()[k].pid() > 0),
            r matches Some(sw) ==> {
                &&& start <= sw.next < PROCS_MAX
                &&& sw.prev == old(self).running()
                &&& old(self).table()[sw.next as int].state() == ProcessState::Runnable
                &&& old(self).table()[sw.next as int].pid() > 0
                &&& forall|k: int|
                    start <= k < sw.next ==> !((#[trigger] old(self).table()[k]).state()
                        == ProcessState::Runnable && old(self).table()[k].pid() > 0)
                &&& final(self).running() == Some(sw.next)
                &&& final(self).table()[sw.next as int].state() == ProcessState::Running
            },
            match next_candidate_from(old(self).table(), start as int) {
                None => {
                    &&& r is None
                    &&& final(self).table() == old(self).table()
                    &&& final(self).running() == old(self).running()
                    &&& final(self).idle_process() == old(self).idle_process()
                },
                Some(j) => {
                    &&& r == Some(ContextSwitch { prev: old(self).running(), next: j as usize })
                    &&& final(self).running() == Some(j as usize)
                    &&& restated(old(self).table()[j], final(self).table()[j], ProcessState::Running)
                    &&& forall|k: int|
                        0 <= k < PROCS_MAX && k != j && old(self).running() != Some(k as usize)
                            ==> #[trigger] final(self).table()[k] == old(self).table()[k]
                    &&& match old(self).running() {
                        Some(p) => {
                            &&& restated(
                                old(self).table()[p as int],
                                final(self).table()[p as int],
                                ProcessState::Runnable,
                            )
                            &&& final(self).idle_process() == old(self).idle_process()
                        },
                        None => restated(
                            old(self).idle_process(),
                            final(self).idle_process(),
                            ProcessState::Runnable,
                        ),
                    }
                },
            },
    {
        proof {
            law_next_candidate_is_first_fit(self.table(), start as int);
        }
        let mut j: usize = start;
        while j < PROCS_MAX
            invariant
                self.wf(),
                *self == *old(self),
                start <= j <= PROCS_MAX,
                next_candidate_from(self.table(), start as int) == next_candidate_from(
                    self.table(),
                    j as int,
                ),
            decreases PROCS_MAX - j,
        {
            let p = self.procs[j];
            if p.state == ProcessState::Runnable && p.pid > 0 {
                let ghost before = self.table();
                assert(next_candidate_from(before, j as int) == Some(j as int));
                proof {
                    law_next_candidate_is_first_fit(before, start as int);
                }
                let is_running = match self.current {
                    Some(c) => c == j,
                    None => false,
                };
                if is_running {
                    return None;
                }
                let prev = self.current;
                self.current = Some(j);
                self.procs.set(j, Process { state: ProcessState::Running, ..p });
                match prev {
                    Some(k) => {
                        let q = self.procs[k];
                        self.procs.set(k, Process { state: ProcessState::Runnable, ..q });
                    },
                    None => {
                        self.idle.state = ProcessState::Runnable;
                    },
                }
                proof {
                    assert forall|i: int| 0 <= i < PROCS_MAX implies #[trigger] slot_consistent(
                        self.table()[i],
                        i,
                    ) && (self.table()[i].state() == ProcessState::Running <==> self.running()
                        == Some(i as usize)) by {
                        assert(slot_consistent(before[i], i));
                        assert(before[i].state() == ProcessState::Running <==> prev == Some(
                            i as usize,
                        ));
                    }
                }
                return Some(ContextSwitch { prev, next: j });
            }
            j = j + 1;
        }
        None
    }

    /// The saved registers of `who` (the idle process when `None`), in place,
    /// for the machine layer to store into and load from during a switch.
    /// Nothing else of the manager changes.
    pub fn context_mut(&mut self, who: Option<usize>) -> (ctx: &mut ProcessContext)
        requires
            old(self).wf(),
            who matches Some(i) ==> i < PROCS_MAX,
        ensures
            *ctx == old(self).context_of(who),
            final(self).wf(),
            final(self).running() == old(self).running(),
            final(self).context_of(who) == *final(ctx),
            final(self).table().len() == old(self).table().len(),
            forall|k: int|
                0 <= k < PROCS_MAX ==> {
                    &&& (#[trigger] final(self).table()[k]).pid() == old(self).table()[k].pid()
                    &&& final(self).table()[k].state() == old(self).table()[k].state()
                    &&& (who != Some(k as usize) ==> final(self).table()[k] == old(self).table()[k])
                },
            final(self).idle_process().pid() == old(self).idle_process().pid(),
            final(self).idle_process().state() == old(self).idle_process().state(),
            who is Some ==> final(self).idle_process() == old(self).idle_process(),
    {
        match who {
            Some(i) => &mut self.procs[i].context,
            None => &mut self.idle.context,
        }
    }
}


/// The scan for a free slot is first-fit: it yields the lowest unused slot at
/// or after `k`, and `None` exactly when every slot from `k` on is in use.
pub proof fn law_first_unused_is_first_fit(t: Seq<Process>, k: int)
    requires
        0 <= k,
    ensures
        match first_unused_from(t, k) {
            Some(i) => {
                &&& k <= i < t.len()
                &&& t[i].state() == ProcessState::Unused
                &&& forall|m: int| k <= m < i ==> #[trigger] t[m].state() != ProcessState::Unused
            },
            None => forall|m: int| k <= m < t.len() ==> #[trigger] t[m].state() != ProcessState::Unused,
        },
    decreases t.len() - k,
{
    if k < t.len() && t[k].state() != ProcessState::Unused {
        law_first_unused_is_first_fit(t, k + 1);
    }
}

/// A process is a scheduling candidate exactly when it is runnable and its
/// pid is positive, whatever the pid.
pub proof fn law_candidate_is_runnable_with_pid(p: Process)
    ensures
        is_candidate(p) <==> (p.state() == ProcessState::Runnable && p.pid() > 0),
{
}

/// The scheduler's scan yields the lowest slot at or after `k` that is
/// runnable with a positive pid, and `None` exactly when there is no such slot.
pub proof fn law_next_candidate_is_first_fit(t: Seq<Process>, k: int)
    requires
        0 <= k,
    ensures
        match next_candidate_from(t, k) {
            Some(j) => {
                &&& k <= j < t.len()
                &&& t[j].state() == ProcessState::Runnable
                &&& t[j].pid() > 0
                &&& forall|m: int|
                    k <= m < j ==> !((#[trigger] t[m]).state() == ProcessState::Runnable && t[m].pid()
                        > 0)
            },
            None => forall|m: int|
                k <= m < t.len() ==> !((#[trigger] t[m]).state() == ProcessState::Runnable && t[m].pid()
                    > 0),
        },
    decreases t.len() - k,
{
    if k < t.len() && !is_candidate(t[k]) {
        law_next_candidate_is_first_fit(t, k + 1);
    }
}

/// At most one table process is running at any time.
pub proof fn law_single_running(m: &ProcessManager, i: int, j: int)
    requires
        m.wf(),
        0 <= i < PROCS_MAX,
        0 <= j < PROCS_MAX,
        m.table()[i].state() == ProcessState::Running,
        m.table()[j].state() == ProcessState::Running,
    ensures
        i == j,
{
}

/// Every process in use carries a positive pid of its own: no two slots in
/// use share a pid.
pub proof fn law_pids_distinct(m: &ProcessManager, i: int, j: int)
    requires
        m.wf(),
        0 <= i < PROCS_MAX,
        0 <= j < PROCS_MAX,
        i != j,
        m.table()[i].state() != ProcessState::Unused,
        m.table()[j].state() != ProcessState::Unused,
    ensures
        m.table()[i].pid() > 0,
        m.table()[i].pid() != m.table()[j].pid(),
{
    assert(slot_consistent(m.table()[i], i));
    assert(slot_consistent(m.table()[j], j));
}

/// Creating a process fails only when every slot of the table is in use.
pub proof fn law_create_fails_only_when_full(m: &ProcessManager)
    requires
        m.wf(),
        first_unused_from(m.table(), 0) is None,
    ensures
        forall|i: int| 0 <= i < PROCS_MAX ==> #[trigger] m.table()[i].state() != ProcessState::Unused,
{
    law_first_unused_is_first_fit(m.table(), 0);
}

} // verus!
