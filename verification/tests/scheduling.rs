use rblx_godot::capability::CapabilityTableBuilder;
use rblx_godot::coordlock::GlobalLock;
use rblx_godot::identity::{SecurityContext, ThreadIdentity};
use rblx_godot::refgraph::{ObjectGraph, StrongHandle};
use rblx_godot::scheduler::{
    ExecOutcome, ParallelDispatch, TaskScheduler, ThreadState, UnitExecutor, WaitCondition,
};

fn iden(owner: u64) -> ThreadIdentity {
    ThreadIdentity { security_level: SecurityContext::RobloxScriptSecurity, owning_unit: owner }
}

/// Completes every unit and records the order in which threads ran.
struct RecordingExec {
    order: Vec<u64>,
}

impl UnitExecutor for RecordingExec {
    fn execute(&mut self, _unit: u64, thread: u64, _identity: ThreadIdentity) -> ExecOutcome {
        self.order.push(thread);
        ExecOutcome::Completed
    }
}

/// Unit 1 writes the shared cell; every other unit records what it reads.
struct MemoryExec {
    x: i64,
    observed: Vec<(u64, i64)>,
}

impl UnitExecutor for MemoryExec {
    fn execute(&mut self, unit: u64, thread: u64, _identity: ThreadIdentity) -> ExecOutcome {
        if unit == 1 {
            self.x = 1;
        } else {
            self.observed.push((thread, self.x));
        }
        ExecOutcome::Completed
    }
}

/// Yields on the first resumption of a unit, completes on the next.
struct YieldOnceExec {
    wait: WaitCondition,
    started: Vec<u64>,
}

impl UnitExecutor for YieldOnceExec {
    fn execute(&mut self, _unit: u64, thread: u64, _identity: ThreadIdentity) -> ExecOutcome {
        if self.started.contains(&thread) {
            ExecOutcome::Completed
        } else {
            self.started.push(thread);
            ExecOutcome::Yielded { wait: self.wait }
        }
    }
}

#[test]
fn synchronized_tasks_run_in_enqueue_order() {
    let mut s = TaskScheduler::new();
    let mut other = TaskScheduler::new();
    let t1 = s.defer(10, iden(1), ParallelDispatch::Synchronized);
    // another interpreter state defers a Parallel task concurrently; its
    // scheduler is a separate value and cannot reorder this one
    other.defer(99, iden(9), ParallelDispatch::Parallel);
    let t2 = s.defer(11, iden(1), ParallelDispatch::Synchronized);
    let t3 = s.defer(12, iden(1), ParallelDispatch::Synchronized);
    let mut exec = RecordingExec { order: Vec::new() };
    let mut glock = GlobalLock::new(true);
    let report = s.frame_step(0, &Vec::new(), &mut exec, &mut glock);
    assert_eq!(exec.order, vec![t1, t2, t3]);
    assert_eq!(report.executed.len(), 3);
    assert_eq!(report.executed[0].0, t1);
    assert_eq!(report.executed[1].0, t2);
    assert_eq!(report.executed[2].0, t3);
    assert!(matches!(s.thread_state(t1), ThreadState::Completed));
    assert!(matches!(s.thread_state(t2), ThreadState::Completed));
    assert!(matches!(s.thread_state(t3), ThreadState::Completed));
}

#[test]
fn synchronized_runs_before_parallel_so_parallel_observes_writes() {
    let mut s = TaskScheduler::new();
    // Synchronized task A writes the cell; Parallel task B reads it
    let a = s.defer(1, iden(1), ParallelDispatch::Synchronized);
    let b = s.defer(2, iden(2), ParallelDispatch::Parallel);
    let mut exec = MemoryExec { x: 0, observed: Vec::new() };
    let mut glock = GlobalLock::new(true);
    s.frame_step(0, &Vec::new(), &mut exec, &mut glock);
    // after one frame step, B observed A's write
    assert_eq!(exec.observed, vec![(b, 1)]);
    assert!(matches!(s.thread_state(a), ThreadState::Completed));
}

#[test]
fn cancel_script_twice_is_idempotent() {
    let mut s = TaskScheduler::new();
    let t1 = s.defer(10, iden(42), ParallelDispatch::Synchronized);
    let t2 = s.defer(11, iden(42), ParallelDispatch::Parallel);
    let t3 = s.defer(12, iden(7), ParallelDispatch::Synchronized);
    s.add_cleanup(t1, 100);
    s.add_cleanup(t1, 101);
    s.add_cleanup(t2, 200);
    let first = s.cancel_script(42);
    assert_eq!(first, vec![100, 101, 200]);
    let states_after_first: Vec<ThreadState> =
        (0..s.thread_count() as u64).map(|i| s.thread_state(i)).collect();
    let second = s.cancel_script(42);
    assert!(second.is_empty());
    let states_after_second: Vec<ThreadState> =
        (0..s.thread_count() as u64).map(|i| s.thread_state(i)).collect();
    assert_eq!(states_after_first, states_after_second);
    assert!(matches!(s.thread_state(t1), ThreadState::Cancelled));
    assert!(matches!(s.thread_state(t2), ThreadState::Cancelled));
    assert!(matches!(s.thread_state(t3), ThreadState::Pending));
}

#[test]
fn cancelling_terminal_thread_is_a_race_not_an_error() {
    let mut s = TaskScheduler::new();
    let t = s.defer(10, iden(1), ParallelDispatch::Synchronized);
    let mut exec = RecordingExec { order: Vec::new() };
    let mut glock = GlobalLock::new(true);
    s.frame_step(0, &Vec::new(), &mut exec, &mut glock);
    assert!(matches!(s.thread_state(t), ThreadState::Completed));
    let (unwind, cleanups) = s.cancel(t);
    assert!(!unwind);
    assert!(cleanups.is_empty());
    assert!(matches!(s.thread_state(t), ThreadState::Completed));
}

#[test]
fn cancelled_pending_thread_is_skipped() {
    let mut s = TaskScheduler::new();
    let t = s.defer(10, iden(1), ParallelDispatch::Synchronized);
    s.cancel(t);
    let mut exec = RecordingExec { order: Vec::new() };
    let mut glock = GlobalLock::new(true);
    let report = s.frame_step(0, &Vec::new(), &mut exec, &mut glock);
    assert!(report.executed.is_empty());
    assert!(exec.order.is_empty());
    assert!(matches!(s.thread_state(t), ThreadState::Cancelled));
}

#[test]
fn yielded_thread_parks_and_wakes_on_time() {
    let mut s = TaskScheduler::new();
    let t = s.defer(10, iden(1), ParallelDispatch::Synchronized);
    let mut exec = YieldOnceExec {
        wait: WaitCondition::Time { deadline_usec: 50 },
        started: Vec::new(),
    };
    let mut glock = GlobalLock::new(true);
    s.frame_step(0, &Vec::new(), &mut exec, &mut glock);
    assert!(matches!(s.thread_state(t), ThreadState::Yielded { .. }));
    assert_eq!(s.parked_len(), 1);
    // too early: the thread stays parked
    s.frame_step(49, &Vec::new(), &mut exec, &mut glock);
    assert!(matches!(s.thread_state(t), ThreadState::Yielded { .. }));
    // the instant has passed: the thread resumes and completes
    s.frame_step(50, &Vec::new(), &mut exec, &mut glock);
    assert!(matches!(s.thread_state(t), ThreadState::Completed));
    assert_eq!(s.parked_len(), 0);
}

#[test]
fn yielded_thread_wakes_on_signal() {
    let mut s = TaskScheduler::new();
    let t = s.defer(10, iden(1), ParallelDispatch::Parallel);
    let mut exec = YieldOnceExec {
        wait: WaitCondition::Signal { signal: 77 },
        started: Vec::new(),
    };
    let mut glock = GlobalLock::new(false);
    s.frame_step(0, &Vec::new(), &mut exec, &mut glock);
    assert!(matches!(s.thread_state(t), ThreadState::Yielded { .. }));
    // an unrelated signal does not wake it
    s.frame_step(1, &vec![76], &mut exec, &mut glock);
    assert!(matches!(s.thread_state(t), ThreadState::Yielded { .. }));
    s.frame_step(2, &vec![76, 77], &mut exec, &mut glock);
    assert!(matches!(s.thread_state(t), ThreadState::Completed));
}

/// Faults unit one, completes everything else.
struct FaultExec;

impl UnitExecutor for FaultExec {
    fn execute(&mut self, unit: u64, _thread: u64, _identity: ThreadIdentity) -> ExecOutcome {
        if unit == 1 {
            ExecOutcome::Faulted { message: String::from("attempt to index nil") }
        } else {
            ExecOutcome::Completed
        }
    }
}

#[test]
fn fault_is_logged_and_terminal_for_that_thread_only() {
    let mut s = TaskScheduler::new();
    let bad = s.defer(1, iden(1), ParallelDispatch::Synchronized);
    let good = s.defer(2, iden(1), ParallelDispatch::Synchronized);
    let mut exec = FaultExec;
    let mut glock = GlobalLock::new(true);
    s.frame_step(0, &Vec::new(), &mut exec, &mut glock);
    assert!(matches!(s.thread_state(bad), ThreadState::Faulted));
    // the frame went on: the fault was scoped to one logical thread
    assert!(matches!(s.thread_state(good), ThreadState::Completed));
    assert_eq!(s.log_len(), 1);
    let (_severity, message) = s.log_entry(0);
    assert_eq!(message, "attempt to index nil");
}

#[test]
fn identity_travels_with_the_thread() {
    let mut s = TaskScheduler::new();
    let t = s.defer(
        10,
        ThreadIdentity { security_level: SecurityContext::PluginSecurity, owning_unit: 5 },
        ParallelDispatch::Synchronized,
    );
    let carried = s.get_thread_identity(t);
    assert_eq!(carried.owning_unit, 5);
    assert_eq!(carried.security_level, SecurityContext::PluginSecurity);
}

#[test]
fn frame_restores_the_exclusivity_flag() {
    let mut s = TaskScheduler::new();
    s.defer(10, iden(1), ParallelDispatch::Synchronized);
    let mut exec = RecordingExec { order: Vec::new() };
    let mut glock = GlobalLock::new(false);
    s.frame_step(0, &Vec::new(), &mut exec, &mut glock);
    assert!(!glock.get_exclusive());
    let mut glock2 = GlobalLock::new(true);
    s.defer(10, iden(1), ParallelDispatch::Synchronized);
    s.frame_step(0, &Vec::new(), &mut exec, &mut glock2);
    assert!(glock2.get_exclusive());
}

/// Units write to and read from an object in the shared graph: unit one
/// writes the first field, every other unit records what it reads.
struct GraphExec {
    g: ObjectGraph,
    h: StrongHandle,
    seen: Vec<i64>,
}

impl UnitExecutor for GraphExec {
    fn execute(&mut self, unit: u64, _thread: u64, _identity: ThreadIdentity) -> ExecOutcome {
        if unit == 1 {
            self.g.write_field(&self.h, 0, 1);
        } else {
            self.seen.push(self.g.read_field(&self.h, 0));
        }
        ExecOutcome::Completed
    }
}

#[test]
fn parallel_task_from_another_actor_observes_synchronized_write() {
    // one shared object graph, two interpreter states
    let mut g = ObjectGraph::new();
    let w = g.new_cyclic_begin();
    let slot = w.index();
    let h = g.new_cyclic_commit(
        slot,
        CapabilityTableBuilder::new(0).output(),
        vec![0],
        Vec::new(),
        Vec::new(),
    );
    let mut main_state = TaskScheduler::new();
    let mut actor_state = TaskScheduler::new();
    // Synchronized task A writes X on the main state; Parallel task B,
    // deferred from a different actor, reads X
    main_state.defer(1, iden(1), ParallelDispatch::Synchronized);
    actor_state.defer(2, iden(2), ParallelDispatch::Parallel);
    let mut exec = GraphExec { g, h, seen: Vec::new() };
    let mut glock = GlobalLock::new(true);
    main_state.frame_step(0, &Vec::new(), &mut exec, &mut glock);
    actor_state.frame_step(0, &Vec::new(), &mut exec, &mut glock);
    // after the frame, B observed A's write
    assert_eq!(exec.seen, vec![1]);
}
