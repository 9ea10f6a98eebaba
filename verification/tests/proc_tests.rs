use lib::proc::{ContextSwitch, Process, ProcessContext, ProcessManager, ProcessState, PROCS_MAX};

fn tops() -> [u32; PROCS_MAX] {
    [0x1000, 0x2000, 0x3000, 0x4000, 0x5000, 0x6000, 0x7000, 0x8000]
}

fn zero() -> ProcessContext {
    ProcessContext::new()
}

#[test]
fn context_new_is_zero() {
    let c = ProcessContext::new();
    assert_eq!(c.ra, 0);
    assert_eq!(c.sp, 0);
    assert_eq!(c.s0, 0);
    assert_eq!(c.s11, 0);
}

#[test]
fn process_new_is_unused() {
    let p = Process::new();
    assert_eq!(p.pid(), 0);
    assert_eq!(p.state(), ProcessState::Unused);
    assert_eq!(p.context(), zero());
}

#[test]
fn idle_process_has_pid_minus_one() {
    let p = Process::idle();
    assert_eq!(p.pid(), -1);
    assert_eq!(p.state(), ProcessState::Unused);
}

#[test]
fn manager_new_has_all_slots_unused() {
    let m = ProcessManager::new();
    assert_eq!(m.running(), None);
    assert_eq!(m.idle_process().pid(), -1);
    for i in 0..PROCS_MAX {
        let p = m.process(i);
        assert_eq!(p.pid(), 0);
        assert_eq!(p.state(), ProcessState::Unused);
    }
}

#[test]
fn create_process_claims_first_slot() {
    let mut m = ProcessManager::new();
    assert_eq!(m.create_process(0x8020_0000, &tops()), Some(()));
    let p = m.process(0);
    assert_eq!(p.pid(), 1);
    assert_eq!(p.state(), ProcessState::Runnable);
    assert_eq!(p.context().ra, 0x8020_0000);
    assert_eq!(p.context().sp, 0x1000);
    assert_eq!(p.context().s0, 0);
    assert_eq!(m.process(1).state(), ProcessState::Unused);
    assert_eq!(m.create_process(0x8020_0100, &tops()), Some(()));
    let q = m.process(1);
    assert_eq!(q.pid(), 2);
    assert_eq!(q.context().ra, 0x8020_0100);
    assert_eq!(q.context().sp, 0x2000);
}

#[test]
fn create_process_fails_when_table_full() {
    let mut m = ProcessManager::new();
    for i in 0..PROCS_MAX {
        assert_eq!(m.create_process(i as u32, &tops()), Some(()));
    }
    assert_eq!(m.create_process(99, &tops()), None);
    for i in 0..PROCS_MAX {
        assert_eq!(m.process(i).pid(), (i + 1) as i32);
        assert_eq!(m.process(i).context().ra, i as u32);
    }
}

#[test]
fn pids_are_distinct() {
    let mut m = ProcessManager::new();
    for _ in 0..5 {
        m.create_process(7, &tops());
    }
    for i in 0..5 {
        for j in 0..5 {
            if i != j {
                assert_ne!(m.process(i).pid(), m.process(j).pid());
            }
        }
    }
}

#[test]
fn yield_without_processes_does_nothing() {
    let mut m = ProcessManager::new();
    assert_eq!(m.yield_process(0), None);
    assert_eq!(m.running(), None);
    assert_eq!(m.idle_process().state(), ProcessState::Unused);
}

#[test]
fn first_yield_leaves_idle_process() {
    let mut m = ProcessManager::new();
    m.create_process(0xA, &tops());
    m.create_process(0xB, &tops());
    let sw = m.yield_process(0);
    assert_eq!(sw, Some(ContextSwitch { prev: None, next: 0 }));
    assert_eq!(m.running(), Some(0));
    assert_eq!(m.process(0).state(), ProcessState::Running);
    assert_eq!(m.process(1).state(), ProcessState::Runnable);
    assert_eq!(m.idle_process().state(), ProcessState::Runnable);
}

#[test]
fn yield_switches_between_two_processes() {
    let mut m = ProcessManager::new();
    m.create_process(0xA, &tops());
    m.create_process(0xB, &tops());
    m.yield_process(0);
    // Process 1 (slot 0) yields: slot 0 is running, slot 1 is the candidate.
    let sw = m.yield_process(0);
    assert_eq!(sw, Some(ContextSwitch { prev: Some(0), next: 1 }));
    assert_eq!(m.process(0).state(), ProcessState::Runnable);
    assert_eq!(m.process(1).state(), ProcessState::Running);
    assert_eq!(m.process(0).pid(), 1);
    assert_eq!(m.process(0).context().ra, 0xA);
    // Process 2 yields: slot 0 is the candidate again.
    let sw = m.yield_process(0);
    assert_eq!(sw, Some(ContextSwitch { prev: Some(1), next: 0 }));
    // Process 1 resumes its own scan after slot 0 and finds slot 1.
    let sw = m.yield_process(1);
    assert_eq!(sw, Some(ContextSwitch { prev: Some(0), next: 1 }));
    // Process 2 resumes its scan after slot 1: nothing left.
    assert_eq!(m.yield_process(2), None);
    assert_eq!(m.running(), Some(1));
}

#[test]
fn yield_past_the_table_does_nothing() {
    let mut m = ProcessManager::new();
    m.create_process(0xA, &tops());
    assert_eq!(m.yield_process(PROCS_MAX), None);
    assert_eq!(m.running(), None);
}

#[test]
fn single_process_keeps_running() {
    let mut m = ProcessManager::new();
    m.create_process(0xA, &tops());
    m.yield_process(0);
    assert_eq!(m.yield_process(0), None);
    assert_eq!(m.running(), Some(0));
    assert_eq!(m.process(0).state(), ProcessState::Running);
}

#[test]
fn context_mut_stores_registers() {
    let mut m = ProcessManager::new();
    m.create_process(0xA, &tops());
    {
        let c = m.context_mut(Some(0));
        c.s0 = 42;
        c.ra = 0xBEEF;
    }
    assert_eq!(m.process(0).context().s0, 42);
    assert_eq!(m.process(0).context().ra, 0xBEEF);
    assert_eq!(m.process(0).context().sp, 0x1000);
    assert_eq!(m.process(0).pid(), 1);
    {
        let c = m.context_mut(None);
        c.sp = 0x9999;
    }
    assert_eq!(m.idle_process().context().sp, 0x9999);
}

#[test]
fn only_one_process_runs() {
    let mut m = ProcessManager::new();
    for _ in 0..3 {
        m.create_process(1, &tops());
    }
    for start in [0usize, 0, 1, 2, 0] {
        m.yield_process(start);
        let running = (0..PROCS_MAX)
            .filter(|&i| m.process(i).state() == ProcessState::Running)
            .count();
        assert!(running <= 1);
    }
}
