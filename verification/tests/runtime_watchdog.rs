use rblx_godot::coordlock::GlobalLock;
use rblx_godot::flags::{FastFlag, FastFlagValue};
use rblx_godot::identity::{SecurityContext, ThreadIdentity};
use rblx_godot::scheduler::{
    ExecOutcome, ParallelDispatch, TaskScheduler, ThreadState, UnitExecutor,
};
use rblx_godot::vm::RblxVM;
use rblx_godot::watchdog::{Watchdog, HARD_TIMEOUT_USEC, SOFT_TIMEOUT_USEC};

fn iden(owner: u64) -> ThreadIdentity {
    ThreadIdentity { security_level: SecurityContext::RobloxScriptSecurity, owning_unit: owner }
}

/// Returns the timeout fault whenever an interrupt is pending, the way a
/// unit looping without yielding is cut short at a safepoint.
struct InterruptibleExec {
    interrupted: bool,
}

impl UnitExecutor for InterruptibleExec {
    fn execute(&mut self, _unit: u64, _thread: u64, _identity: ThreadIdentity) -> ExecOutcome {
        if self.interrupted {
            ExecOutcome::Faulted {
                message: String::from("script exhausted maximum execution time"),
            }
        } else {
            ExecOutcome::Completed
        }
    }
}

#[test]
fn watchdog_boundaries() {
    let w = Watchdog::new_timeout(100, 1000);
    assert!(!w.check(1000));
    assert!(!w.check(1099));
    assert!(w.check(1100));
    assert!(w.check(5000));
    // a clock that went backwards has not expired the period
    assert!(!w.check(999));
}

#[test]
fn watchdog_trip_and_reset() {
    let mut w = Watchdog::new_timeout(100, 0);
    w.trip();
    assert!(w.check(0));
    w.reset(500);
    assert!(!w.check(500));
    assert!(w.check(600));
}

#[test]
fn vm_defaults() {
    let vm = RblxVM::new(None, 0);
    assert!(vm.get_global_lock_state());
    assert_eq!(vm.state_count(), 1);
    assert!(vm.state_live(0));
    assert!(!vm.interrupt_pending(0));
    assert!(vm.flags().get_bool(FastFlag::VSync));
    assert_eq!(vm.flags().get_int(FastFlag::PlaceVersion), 1);
    assert_eq!(vm.flags().get_string(FastFlag::GameName), "rblx-godot");
    let fps = vm.flags().get_float(FastFlag::TargetFPS);
    assert_eq!(f64::from_bits(fps.bits), 60.0);
}

#[test]
fn vm_flag_table_overrides_defaults() {
    let table = vec![
        (FastFlag::IsStudio, FastFlagValue::Bool(true)),
        (FastFlag::PlaceId, FastFlagValue::Int(1234)),
        (FastFlag::PlaceId, FastFlagValue::Int(5678)),
    ];
    let vm = RblxVM::new(Some(table), 0);
    assert!(vm.flags().get_bool(FastFlag::IsStudio));
    // a later entry for the same flag wins
    assert_eq!(vm.flags().get_int(FastFlag::PlaceId), 5678);
    // untouched flags keep their defaults
    assert!(vm.flags().get_bool(FastFlag::IsClient));
}

#[test]
fn vm_flag_writes_demand_parallel_mode() {
    let mut vm = RblxVM::new(None, 0);
    vm.set_global_lock_state(false);
    vm.set_flag_value(FastFlag::GameId, FastFlagValue::Int(9));
    assert_eq!(vm.flags().get_int(FastFlag::GameId), 9);
    vm.set_global_lock_state(true);
    assert!(vm.get_global_lock_state());
}

#[test]
fn vm_sub_states_and_enumeration() {
    let mut vm = RblxVM::new(None, 0);
    let a = vm.create_sub_state(500);
    let b = vm.create_sub_state(501);
    assert_eq!(vm.get_all_states(), vec![a, b, 0]);
    vm.release_state(a);
    assert_eq!(vm.get_all_states(), vec![b, 0]);
    assert!(!vm.state_live(a));
    assert!(vm.state_live(0));
}

#[test]
fn hard_timeout_interrupts_and_faults_the_runaway_thread() {
    let mut vm = RblxVM::new(None, 0);
    let mut s = TaskScheduler::new();
    let t = s.defer(1, iden(1), ParallelDispatch::Synchronized);
    // the unit has been looping past the hard timeout; the driver consults
    // the watchdog before resuming
    let soft = vm.watchdog_check(HARD_TIMEOUT_USEC);
    assert!(soft);
    assert!(vm.interrupt_pending(0));
    let mut exec = InterruptibleExec { interrupted: vm.interrupt_pending(0) };
    let mut glock = GlobalLock::new(true);
    s.frame_step(HARD_TIMEOUT_USEC, &Vec::new(), &mut exec, &mut glock);
    assert!(matches!(s.thread_state(t), ThreadState::Faulted));
    assert_eq!(s.log_len(), 1);
    let (_severity, message) = s.log_entry(0);
    assert_eq!(message, "script exhausted maximum execution time");
    // the handled timeout is confirmed and the interrupts removed
    vm.watchdog_reset(HARD_TIMEOUT_USEC + 1);
    assert!(!vm.interrupt_pending(0));
}

#[test]
fn unit_within_soft_budget_trips_neither_timer() {
    let mut vm = RblxVM::new(None, 0);
    // well inside the frame budget: no trip, no interrupt, no soft signal
    let soft = vm.watchdog_check(SOFT_TIMEOUT_USEC / 2);
    assert!(!soft);
    assert!(!vm.interrupt_pending(0));
    // past the soft budget but inside the hard one: yield to the host frame,
    // but nothing is interrupted
    let soft2 = vm.watchdog_check(SOFT_TIMEOUT_USEC + 1);
    assert!(soft2);
    assert!(!vm.interrupt_pending(0));
}

#[test]
fn watchdog_trip_reaches_every_live_state() {
    let mut vm = RblxVM::new(None, 0);
    let a = vm.create_sub_state(7);
    let b = vm.create_sub_state(8);
    vm.release_state(b);
    vm.watchdog_trip();
    assert!(vm.interrupt_pending(0));
    assert!(vm.interrupt_pending(a));
    assert!(!vm.interrupt_pending(b));
}
