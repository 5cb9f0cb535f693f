//! The cooperative task scheduler of one interpreter state. Logical threads
//! move through the lifecycle Pending, Running, zero or more rounds of
//! Yielded and Running again, and finally Completed, Faulted or Cancelled.
//! Synchronized tasks execute in strict enqueue order; parallel tasks follow
//! in their own enqueue order; parked threads are resumed first come, first
//! served once their wait condition holds. A unit that raises an error is
//! caught at the unit boundary, logged, and terminal for its thread only.
//!
//! The embedded interpreter is a collaborator: the scheduler decides which
//! thread runs next, and the host resumes the unit and reports how the
//! resumption ended. Nothing is assumed of that report; every guarantee
//! below holds whatever the host answers.

use vstd::prelude::*;

use crate::coordlock::GlobalLock;
use crate::enums::MessageType;
use crate::identity::ThreadIdentity;

verus! {

/// The dispatch mode of a deferred task: Synchronized tasks run under the
/// process-wide exclusivity flag and observe a total order; Parallel tasks
/// run concurrently across actors, serialized only by per-object locks.
#[derive(Clone, Copy, PartialEq, Eq, Structural, Debug)]
pub enum ParallelDispatch {
    Synchronized,
    Parallel,
}

/// What a parked thread waits for: an instant of the host clock, or a
/// signal identified by number.
#[derive(Clone, Copy, PartialEq, Eq, Structural, Debug)]
pub enum WaitCondition {
    Time { deadline_usec: u64 },
    Signal { signal: u64 },
}

/// The lifecycle state of a logical thread.
#[derive(Clone, Copy, PartialEq, Eq, Structural, Debug)]
pub enum ThreadState {
    Pending,
    Running,
    Yielded { wait: WaitCondition },
    Completed,
    Faulted,
    Cancelled,
}

/// Whether a thread has reached a terminal state.
pub open spec fn spec_terminal(s: ThreadState) -> bool {
    s is Completed || s is Faulted || s is Cancelled
}

/// One schedulable continuation of script execution, tagged with the
/// identity it runs under and the cleanup handlers its owner registered.
#[derive(Clone, Debug)]
pub struct LogicalThread {
    /// The thread's number, equal to its position in the scheduler's record.
    pub id: u64,
    /// The compiled executable unit this thread runs.
    pub unit: u64,
    /// The identity the thread carries for downstream authorization.
    pub identity: ThreadIdentity,
    /// How the thread is dispatched.
    pub mode: ParallelDispatch,
    /// Where the thread stands in its lifecycle.
    pub state: ThreadState,
    /// Cleanup handlers to run when the thread is cancelled, in
    /// registration order.
    pub cleanups: Vec<u64>,
}

/// How one resumption of a unit ended, as the host reports it. A watchdog
/// interruption arrives as a fault and takes the fault path.
#[derive(Clone, Debug)]
pub enum ExecOutcome {
    Completed,
    Yielded { wait: WaitCondition },
    Faulted { message: String },
}

/// The state a thread takes after a resumption with the given outcome.
pub open spec fn spec_state_after(o: ExecOutcome) -> ThreadState {
    match o {
        ExecOutcome::Completed => ThreadState::Completed,
        ExecOutcome::Yielded { wait } => ThreadState::Yielded { wait },
        ExecOutcome::Faulted { .. } => ThreadState::Faulted,
    }
}

/// The embedded interpreter as the scheduler sees it: the host resumes the
/// given unit on the given thread and reports how the resumption ended.
/// Script code can do anything, so nothing is promised of the report.
pub trait UnitExecutor {
    fn execute(&mut self, unit: u64, thread: u64, identity: ThreadIdentity) -> ExecOutcome;
}

/// A thread with its lifecycle state replaced.
pub open spec fn spec_with_state(t: LogicalThread, s: ThreadState) -> LogicalThread {
    LogicalThread { state: s, ..t }
}

/// Whether the thread with the given number exists and is ready to start.
pub open spec fn spec_runnable(threads: Seq<LogicalThread>, id: u64) -> bool {
    id < threads.len() && threads[id as int].state is Pending
}

/// Whether a wait condition holds at the given instant with the given
/// signals fired.
pub open spec fn spec_wait_met(w: WaitCondition, now_usec: u64, signals: Seq<u64>) -> bool {
    match w {
        WaitCondition::Time { deadline_usec } => now_usec >= deadline_usec,
        WaitCondition::Signal { signal } => signals.contains(signal),
    }
}

/// Whether the thread with the given number is parked and its wait
/// condition now holds.
pub open spec fn spec_due(
    threads: Seq<LogicalThread>,
    id: u64,
    now_usec: u64,
    signals: Seq<u64>,
) -> bool {
    &&& id < threads.len()
    &&& threads[id as int].state matches ThreadState::Yielded { wait } && spec_wait_met(
        wait,
        now_usec,
        signals,
    )
}

/// The queue entries that are ready to start, in queue order.
pub open spec fn spec_runnable_ids(threads: Seq<LogicalThread>, q: Seq<u64>) -> Seq<u64>
    decreases q.len(),
{
    if q.len() == 0 {
        Seq::empty()
    } else if spec_runnable(threads, q[0]) {
        seq![q[0]] + spec_runnable_ids(threads, q.drop_first())
    } else {
        spec_runnable_ids(threads, q.drop_first())
    }
}

/// The parked entries whose wait condition holds, in parking order.
pub open spec fn spec_due_ids(
    threads: Seq<LogicalThread>,
    q: Seq<u64>,
    now_usec: u64,
    signals: Seq<u64>,
) -> Seq<u64>
    decreases q.len(),
{
    if q.len() == 0 {
        Seq::empty()
    } else if spec_due(threads, q[0], now_usec, signals) {
        seq![q[0]] + spec_due_ids(threads, q.drop_first(), now_usec, signals)
    } else {
        spec_due_ids(threads, q.drop_first(), now_usec, signals)
    }
}

/// The parked entries that stay parked: still yielded and not yet due.
pub open spec fn spec_survivor_ids(
    threads: Seq<LogicalThread>,
    q: Seq<u64>,
    now_usec: u64,
    signals: Seq<u64>,
) -> Seq<u64>
    decreases q.len(),
{
    if q.len() == 0 {
        Seq::empty()
    } else if q[0] < threads.len() && threads[q[0] as int].state is Yielded && !spec_due(
        threads,
        q[0],
        now_usec,
        signals,
    ) {
        seq![q[0]] + spec_survivor_ids(threads, q.drop_first(), now_usec, signals)
    } else {
        spec_survivor_ids(threads, q.drop_first(), now_usec, signals)
    }
}

/// The thread numbers of a trace, in execution order.
pub open spec fn spec_trace_ids(trace: Seq<(u64, ExecOutcome)>) -> Seq<u64> {
    trace.map_values(|p: (u64, ExecOutcome)| p.0)
}

/// The threads of a trace that ended the frame parked, in execution order.
pub open spec fn spec_yield_ids(trace: Seq<(u64, ExecOutcome)>) -> Seq<u64>
    decreases trace.len(),
{
    if trace.len() == 0 {
        Seq::empty()
    } else if trace[0].1 is Yielded {
        seq![trace[0].0] + spec_yield_ids(trace.drop_first())
    } else {
        spec_yield_ids(trace.drop_first())
    }
}

/// The log entries a trace produces: one error entry per fault, in
/// execution order, so no fault is ever silently dropped.
pub open spec fn spec_fault_entries(trace: Seq<(u64, ExecOutcome)>) -> Seq<
    (MessageType, Seq<char>),
>
    decreases trace.len(),
{
    if trace.len() == 0 {
        Seq::empty()
    } else {
        (match trace[0].1 {
            ExecOutcome::Faulted { message } => seq![(MessageType::MessageError, message@)],
            _ => Seq::empty(),
        }) + spec_fault_entries(trace.drop_first())
    }
}

/// Whether a thread is freshly created: ready to start, with no cleanup
/// handlers yet, carrying the given unit, identity and mode.
pub open spec fn spec_fresh_thread(
    t: LogicalThread,
    id: u64,
    unit: u64,
    identity: ThreadIdentity,
    mode: ParallelDispatch,
) -> bool {
    &&& t.id == id
    &&& t.unit == unit
    &&& t.identity == identity
    &&& t.mode == mode
    &&& t.state is Pending
    &&& t.cleanups@ == Seq::<u64>::empty()
}

/// Whether a sequence of thread numbers has no repeats.
pub open spec fn spec_distinct(q: Seq<u64>) -> bool {
    forall|i: int, j: int| 0 <= i < j < q.len() ==> q[i] != q[j]
}

/// Whether every entry points at a recorded thread.
pub open spec fn spec_in_bounds(q: Seq<u64>, n: int) -> bool {
    forall|i: int| 0 <= i < q.len() ==> (#[trigger] q[i]) < n
}

/// Whether every queued thread has the given dispatch mode.
pub open spec fn spec_all_mode(
    threads: Seq<LogicalThread>,
    q: Seq<u64>,
    m: ParallelDispatch,
) -> bool {
    forall|i: int| 0 <= i < q.len() ==> threads[#[trigger] q[i] as int].mode == m
}

/// Whether `after` is `before` cancelled: same thread, terminal Cancelled
/// state, cleanup handlers handed out and cleared.
pub open spec fn spec_cancelled_version(before: LogicalThread, after: LogicalThread) -> bool {
    &&& after.id == before.id
    &&& after.unit == before.unit
    &&& after.identity == before.identity
    &&& after.mode == before.mode
    &&& after.state is Cancelled
    &&& after.cleanups@ == Seq::<u64>::empty()
}

/// Whether cancelling the given owner's script touches this thread: its
/// identity traces to the owner and it has not already ended.
pub open spec fn spec_cancel_target(t: LogicalThread, owner: u64) -> bool {
    t.identity.owning_unit == owner && !spec_terminal(t.state)
}

/// How a whole thread record changes when one owner's script is cancelled:
/// every thread of that owner that has not ended is cancelled, every other
/// thread is untouched.
pub open spec fn spec_cancel_all_rel(
    before: Seq<LogicalThread>,
    after: Seq<LogicalThread>,
    owner: u64,
) -> bool {
    &&& after.len() == before.len()
    &&& forall|i: int|
        0 <= i < before.len() ==> if spec_cancel_target(before[i], owner) {
            spec_cancelled_version(before[i], #[trigger] after[i])
        } else {
            after[i] == before[i]
        }
}

/// The cleanup handlers that cancelling an owner's script hands back to the
/// host: those of every affected thread, in thread order.
pub open spec fn spec_owned_cleanups(threads: Seq<LogicalThread>, owner: u64) -> Seq<u64>
    decreases threads.len(),
{
    if threads.len() == 0 {
        Seq::empty()
    } else {
        (if spec_cancel_target(threads[0], owner) {
            threads[0].cleanups@
        } else {
            Seq::empty()
        }) + spec_owned_cleanups(threads.drop_first(), owner)
    }
}

proof fn lemma_no_targets_no_cleanups(threads: Seq<LogicalThread>, owner: u64)
    requires
        forall|i: int| 0 <= i < threads.len() ==> !spec_cancel_target(#[trigger] threads[i], owner),
    ensures
        spec_owned_cleanups(threads, owner) == Seq::<u64>::empty(),
    decreases threads.len(),
{
    if threads.len() > 0 {
        lemma_no_targets_no_cleanups(threads.drop_first(), owner);
        assert(spec_owned_cleanups(threads, owner) =~= Seq::<u64>::empty());
    }
}

/// Cancelling a script is idempotent: after one cancellation, a second one
/// for the same owner changes no thread and hands back no cleanup work, so
/// two calls produce the same final state set as one, with no double
/// release.
pub proof fn lemma_cancel_script_idempotent(
    a: Seq<LogicalThread>,
    b: Seq<LogicalThread>,
    c: Seq<LogicalThread>,
    owner: u64,
)
    requires
        spec_cancel_all_rel(a, b, owner),
        spec_cancel_all_rel(b, c, owner),
    ensures
        c == b,
        spec_owned_cleanups(b, owner) == Seq::<u64>::empty(),
{
    assert forall|i: int| 0 <= i < b.len() implies !spec_cancel_target(#[trigger] b[i], owner) by {
        if spec_cancel_target(a[i], owner) {
            assert(spec_cancelled_version(a[i], b[i]));
        } else {
            assert(b[i] == a[i]);
        }
    }
    assert(c =~= b);
    lemma_no_targets_no_cleanups(b, owner);
}

proof fn lemma_runnable_ids_agree(t1: Seq<LogicalThread>, t2: Seq<LogicalThread>, q: Seq<u64>)
    requires
        t1.len() == t2.len(),
        forall|i: int|
            0 <= i < q.len() ==> (#[trigger] q[i]) < t1.len() && t1[q[i] as int] == t2[q[i] as int],
    ensures
        spec_runnable_ids(t1, q) == spec_runnable_ids(t2, q),
    decreases q.len(),
{
    if q.len() > 0 {
        assert(q[0] < t1.len() && t1[q[0] as int] == t2[q[0] as int]);
        assert forall|i: int|
            0 <= i < q.drop_first().len() implies (#[trigger] q.drop_first()[i]) < t1.len()
            && t1[q.drop_first()[i] as int] == t2[q.drop_first()[i] as int] by {
            assert(q.drop_first()[i] == q[i + 1]);
        }
        lemma_runnable_ids_agree(t1, t2, q.drop_first());
    }
}

proof fn lemma_due_ids_agree(
    t1: Seq<LogicalThread>,
    t2: Seq<LogicalThread>,
    q: Seq<u64>,
    now_usec: u64,
    signals: Seq<u64>,
)
    requires
        t1.len() == t2.len(),
        forall|i: int|
            0 <= i < q.len() ==> (#[trigger] q[i]) < t1.len() && t1[q[i] as int] == t2[q[i] as int],
    ensures
        spec_due_ids(t1, q, now_usec, signals) == spec_due_ids(t2, q, now_usec, signals),
        spec_survivor_ids(t1, q, now_usec, signals) == spec_survivor_ids(t2, q, now_usec, signals),
    decreases q.len(),
{
    if q.len() > 0 {
        assert(q[0] < t1.len() && t1[q[0] as int] == t2[q[0] as int]);
        assert forall|i: int|
            0 <= i < q.drop_first().len() implies (#[trigger] q.drop_first()[i]) < t1.len()
            && t1[q.drop_first()[i] as int] == t2[q.drop_first()[i] as int] by {
            assert(q.drop_first()[i] == q[i + 1]);
        }
        lemma_due_ids_agree(t1, t2, q.drop_first(), now_usec, signals);
    }
}

/// Every selected entry comes from the scanned list; entries keep their
/// defining property; a selection from a list with no repeats has none.
proof fn lemma_runnable_ids_elems(t: Seq<LogicalThread>, q: Seq<u64>)
    ensures
        forall|j: int|
            0 <= j < spec_runnable_ids(t, q).len() ==> q.contains(
                #[trigger] spec_runnable_ids(t, q)[j],
            ) && spec_runnable(t, spec_runnable_ids(t, q)[j]),
    decreases q.len(),
{
    if q.len() > 0 {
        lemma_runnable_ids_elems(t, q.drop_first());
        let r = spec_runnable_ids(t, q);
        let sub = spec_runnable_ids(t, q.drop_first());
        assert forall|j: int|
            0 <= j < r.len() implies q.contains(#[trigger] r[j]) && spec_runnable(t, r[j]) by {
            if spec_runnable(t, q[0]) && j == 0 {
                assert(r[0] == q[0]);
                assert(q[0] == q[0]);
            } else {
                let k = if spec_runnable(t, q[0]) {
                    j - 1
                } else {
                    j
                };
                assert(r[j] == sub[k]);
                assert(q.drop_first().contains(sub[k]) && spec_runnable(t, sub[k]));
                let w = choose|w: int| 0 <= w < q.drop_first().len() && q.drop_first()[w] == sub[k];
                assert(q[w + 1] == sub[k]);
            }
        }
    }
}

proof fn lemma_due_ids_elems(t: Seq<LogicalThread>, q: Seq<u64>, now_usec: u64, signals: Seq<u64>)
    ensures
        forall|j: int|
            0 <= j < spec_due_ids(t, q, now_usec, signals).len() ==> q.contains(
                #[trigger] spec_due_ids(t, q, now_usec, signals)[j],
            ) && spec_due(t, spec_due_ids(t, q, now_usec, signals)[j], now_usec, signals),
    decreases q.len(),
{
    if q.len() > 0 {
        lemma_due_ids_elems(t, q.drop_first(), now_usec, signals);
        let r = spec_due_ids(t, q, now_usec, signals);
        let sub = spec_due_ids(t, q.drop_first(), now_usec, signals);
        assert forall|j: int|
            0 <= j < r.len() implies q.contains(#[trigger] r[j]) && spec_due(
            t,
            r[j],
            now_usec,
            signals,
        ) by {
            if spec_due(t, q[0], now_usec, signals) && j == 0 {
                assert(r[0] == q[0]);
                assert(q[0] == q[0]);
            } else {
                let k = if spec_due(t, q[0], now_usec, signals) {
                    j - 1
                } else {
                    j
                };
                assert(r[j] == sub[k]);
                let w = choose|w: int| 0 <= w < q.drop_first().len() && q.drop_first()[w] == sub[k];
                assert(q[w + 1] == sub[k]);
            }
        }
    }
}

proof fn lemma_survivor_ids_elems(
    t: Seq<LogicalThread>,
    q: Seq<u64>,
    now_usec: u64,
    signals: Seq<u64>,
)
    ensures
        forall|j: int|
            0 <= j < spec_survivor_ids(t, q, now_usec, signals).len() ==> q.contains(
                #[trigger] spec_survivor_ids(t, q, now_usec, signals)[j],
            ) && spec_survivor_ids(t, q, now_usec, signals)[j] < t.len() && t[spec_survivor_ids(
                t,
                q,
                now_usec,
                signals,
            )[j] as int].state is Yielded && !spec_due(
                t,
                spec_survivor_ids(t, q, now_usec, signals)[j],
                now_usec,
                signals,
            ),
    decreases q.len(),
{
    if q.len() > 0 {
        lemma_survivor_ids_elems(t, q.drop_first(), now_usec, signals);
        let r = spec_survivor_ids(t, q, now_usec, signals);
        let sub = spec_survivor_ids(t, q.drop_first(), now_usec, signals);
        let keep0 = q[0] < t.len() && t[q[0] as int].state is Yielded && !spec_due(
            t,
            q[0],
            now_usec,
            signals,
        );
        assert forall|j: int|
            0 <= j < r.len() implies q.contains(#[trigger] r[j]) && r[j] < t.len() && t[r[
            j] as int].state is Yielded && !spec_due(t, r[j], now_usec, signals) by {
            if keep0 && j == 0 {
                assert(r[0] == q[0]);
                assert(q[0] == q[0]);
            } else {
                let k = if keep0 {
                    j - 1
                } else {
                    j
                };
                assert(r[j] == sub[k]);
                let w = choose|w: int| 0 <= w < q.drop_first().len() && q.drop_first()[w] == sub[k];
                assert(q[w + 1] == sub[k]);
            }
        }
    }
}

proof fn lemma_runnable_ids_distinct(t: Seq<LogicalThread>, q: Seq<u64>)
    requires
        spec_distinct(q),
    ensures
        spec_distinct(spec_runnable_ids(t, q)),
    decreases q.len(),
{
    if q.len() > 0 {
        lemma_distinct_drop_first(q);
        lemma_runnable_ids_distinct(t, q.drop_first());
        if spec_runnable(t, q[0]) {
            lemma_runnable_ids_elems(t, q.drop_first());
            let r = spec_runnable_ids(t, q);
            let sub = spec_runnable_ids(t, q.drop_first());
            assert forall|i: int, j: int| 0 <= i < j < r.len() implies r[i] != r[j] by {
                if i == 0 {
                    assert(r[j] == sub[j - 1]);
                    assert(q.drop_first().contains(sub[j - 1]));
                } else {
                    assert(r[i] == sub[i - 1] && r[j] == sub[j - 1]);
                }
            }
        }
    }
}

proof fn lemma_due_ids_distinct(t: Seq<LogicalThread>, q: Seq<u64>, now_usec: u64, signals: Seq<u64>)
    requires
        spec_distinct(q),
    ensures
        spec_distinct(spec_due_ids(t, q, now_usec, signals)),
        spec_distinct(spec_survivor_ids(t, q, now_usec, signals)),
    decreases q.len(),
{
    if q.len() > 0 {
        lemma_distinct_drop_first(q);
        lemma_due_ids_distinct(t, q.drop_first(), now_usec, signals);
        lemma_due_ids_elems(t, q.drop_first(), now_usec, signals);
        lemma_survivor_ids_elems(t, q.drop_first(), now_usec, signals);
        if spec_due(t, q[0], now_usec, signals) {
            let r = spec_due_ids(t, q, now_usec, signals);
            let sub = spec_due_ids(t, q.drop_first(), now_usec, signals);
            assert forall|i: int, j: int| 0 <= i < j < r.len() implies r[i] != r[j] by {
                if i == 0 {
                    assert(r[j] == sub[j - 1]);
                    assert(q.drop_first().contains(sub[j - 1]));
                } else {
                    assert(r[i] == sub[i - 1] && r[j] == sub[j - 1]);
                }
            }
        }
        if q[0] < t.len() && t[q[0] as int].state is Yielded && !spec_due(
            t,
            q[0],
            now_usec,
            signals,
        ) {
            let r = spec_survivor_ids(t, q, now_usec, signals);
            let sub = spec_survivor_ids(t, q.drop_first(), now_usec, signals);
            assert forall|i: int, j: int| 0 <= i < j < r.len() implies r[i] != r[j] by {
                if i == 0 {
                    assert(r[j] == sub[j - 1]);
                    assert(q.drop_first().contains(sub[j - 1]));
                } else {
                    assert(r[i] == sub[i - 1] && r[j] == sub[j - 1]);
                }
            }
        }
    }
}

/// In a list with no repeats, the front entry does not recur later.
proof fn lemma_distinct_drop_first(q: Seq<u64>)
    requires
        spec_distinct(q),
        q.len() > 0,
    ensures
        spec_distinct(q.drop_first()),
        !q.drop_first().contains(q[0]),
{
    assert forall|i: int, j: int|
        0 <= i < j < q.drop_first().len() implies q.drop_first()[i] != q.drop_first()[j] by {
        assert(q.drop_first()[i] == q[i + 1] && q.drop_first()[j] == q[j + 1]);
    }
    if q.drop_first().contains(q[0]) {
        let w = choose|w: int| 0 <= w < q.drop_first().len() && q.drop_first()[w] == q[0];
        assert(q[w + 1] == q[0]);
        assert(false);
    }
}

/// Two halves of a repeat-free list share no entry.
proof fn lemma_distinct_concat_disjoint(a: Seq<u64>, b: Seq<u64>)
    requires
        spec_distinct(a + b),
    ensures
        spec_distinct(a),
        spec_distinct(b),
        forall|x: u64| a.contains(x) ==> !b.contains(x),
{
    let all = a + b;
    assert forall|i: int, j: int| 0 <= i < j < a.len() implies a[i] != a[j] by {
        assert(all[i] == a[i] && all[j] == a[j]);
    }
    assert forall|i: int, j: int| 0 <= i < j < b.len() implies b[i] != b[j] by {
        assert(all[a.len() + i] == b[i] && all[a.len() + j] == b[j]);
    }
    assert forall|x: u64| a.contains(x) implies !b.contains(x) by {
        if a.contains(x) && b.contains(x) {
            let i = choose|i: int| 0 <= i < a.len() && a[i] == x;
            let j = choose|j: int| 0 <= j < b.len() && b[j] == x;
            assert(all[i] == x && all[a.len() + j] == x);
            assert(false);
        }
    }
}

/// Fault entries distribute over traces run one after another.
proof fn lemma_fault_entries_concat(a: Seq<(u64, ExecOutcome)>, b: Seq<(u64, ExecOutcome)>)
    ensures
        spec_fault_entries(a + b) == spec_fault_entries(a) + spec_fault_entries(b),
    decreases a.len(),
{
    if a.len() == 0 {
        assert(a + b =~= b);
        assert(spec_fault_entries(a) + spec_fault_entries(b) =~= spec_fault_entries(b));
    } else {
        assert((a + b)[0] == a[0]);
        assert((a + b).drop_first() =~= a.drop_first() + b);
        lemma_fault_entries_concat(a.drop_first(), b);
        assert(spec_fault_entries(a + b) =~= spec_fault_entries(a) + spec_fault_entries(b));
    }
}

/// Parked survivors of traces run one after another.
proof fn lemma_yield_ids_concat(a: Seq<(u64, ExecOutcome)>, b: Seq<(u64, ExecOutcome)>)
    ensures
        spec_yield_ids(a + b) == spec_yield_ids(a) + spec_yield_ids(b),
    decreases a.len(),
{
    if a.len() == 0 {
        assert(a + b =~= b);
        assert(spec_yield_ids(a) + spec_yield_ids(b) =~= spec_yield_ids(b));
    } else {
        assert((a + b)[0] == a[0]);
        assert((a + b).drop_first() =~= a.drop_first() + b);
        lemma_yield_ids_concat(a.drop_first(), b);
        assert(spec_yield_ids(a + b) =~= spec_yield_ids(a) + spec_yield_ids(b));
    }
}

/// A thread that ended a trace parked was executed in that trace.
proof fn lemma_yield_ids_in_trace(t: Seq<(u64, ExecOutcome)>)
    ensures
        forall|j: int|
            0 <= j < spec_yield_ids(t).len() ==> spec_trace_ids(t).contains(
                #[trigger] spec_yield_ids(t)[j],
            ),
    decreases t.len(),
{
    if t.len() > 0 {
        lemma_yield_ids_in_trace(t.drop_first());
        let r = spec_yield_ids(t);
        let sub = spec_yield_ids(t.drop_first());
        assert forall|j: int|
            0 <= j < r.len() implies spec_trace_ids(t).contains(#[trigger] r[j]) by {
            if t[0].1 is Yielded && j == 0 {
                assert(spec_trace_ids(t)[0] == t[0].0);
            } else {
                let k = if t[0].1 is Yielded {
                    j - 1
                } else {
                    j
                };
                assert(r[j] == sub[k]);
                assert(spec_trace_ids(t.drop_first()).contains(sub[k]));
                let w = choose|w: int|
                    0 <= w < spec_trace_ids(t.drop_first()).len() && spec_trace_ids(
                        t.drop_first(),
                    )[w] == sub[k];
                assert(spec_trace_ids(t)[w + 1] == spec_trace_ids(t.drop_first())[w]);
            }
        }
    }
}

proof fn lemma_distinct_push_fresh(a: Seq<u64>, b: Seq<u64>, id: u64, n: int)
    requires
        spec_distinct(a + b),
        spec_in_bounds(a + b, n),
        n <= id,
    ensures
        spec_distinct(a.push(id) + b),
{
    let old_all = a + b;
    let new_all = a.push(id) + b;
    let p = a.len() as int;
    assert forall|i: int, j: int| 0 <= i < j < new_all.len() implies new_all[i] != new_all[j] by {
        if i < p {
            assert(new_all[i] == old_all[i]);
        } else if i > p {
            assert(new_all[i] == old_all[i - 1]);
        }
        if j < p {
            assert(new_all[j] == old_all[j]);
        } else if j > p {
            assert(new_all[j] == old_all[j - 1]);
        }
        if i == p {
            assert(new_all[j] == old_all[j - 1] && old_all[j - 1] < n);
        } else if j == p {
            assert(new_all[i] == old_all[i] && old_all[i] < n);
        }
    }
}

proof fn lemma_yield_ids_distinct(t: Seq<(u64, ExecOutcome)>)
    requires
        spec_distinct(spec_trace_ids(t)),
    ensures
        spec_distinct(spec_yield_ids(t)),
    decreases t.len(),
{
    if t.len() > 0 {
        let ids = spec_trace_ids(t);
        let sub_ids = spec_trace_ids(t.drop_first());
        assert forall|i: int, j: int|
            0 <= i < j < sub_ids.len() implies sub_ids[i] != sub_ids[j] by {
            assert(sub_ids[i] == ids[i + 1] && sub_ids[j] == ids[j + 1]);
        }
        lemma_yield_ids_distinct(t.drop_first());
        lemma_yield_ids_in_trace(t.drop_first());
        if t[0].1 is Yielded {
            let r = spec_yield_ids(t);
            let sub = spec_yield_ids(t.drop_first());
            assert forall|i: int, j: int| 0 <= i < j < r.len() implies r[i] != r[j] by {
                if i == 0 {
                    assert(r[j] == sub[j - 1]);
                    assert(sub_ids.contains(sub[j - 1]));
                    let w = choose|w: int| 0 <= w < sub_ids.len() && sub_ids[w] == sub[j - 1];
                    assert(ids[w + 1] == sub[j - 1] && ids[0] == t[0].0);
                } else {
                    assert(r[i] == sub[i - 1] && r[j] == sub[j - 1]);
                }
            }
        }
    }
}

proof fn lemma_contains_split(a: Seq<u64>, b: Seq<u64>)
    ensures
        forall|x: u64| #[trigger] (a + b).contains(x) <==> a.contains(x) || b.contains(x),
{
    assert forall|x: u64| #[trigger] (a + b).contains(x) implies a.contains(x) || b.contains(
        x,
    ) by {
        let w = choose|w: int| 0 <= w < (a + b).len() && (a + b)[w] == x;
        if w < a.len() {
            assert(a[w] == x);
        } else {
            assert(b[w - a.len()] == x);
        }
    }
    assert forall|x: u64| a.contains(x) || b.contains(x) implies #[trigger] (a + b).contains(
        x,
    ) by {
        if a.contains(x) {
            let w = choose|w: int| 0 <= w < a.len() && a[w] == x;
            assert((a + b)[w] == x);
        } else {
            let w = choose|w: int| 0 <= w < b.len() && b[w] == x;
            assert((a + b)[a.len() + w] == x);
        }
    }
}

proof fn lemma_distinct_concat_parts(a: Seq<u64>, b: Seq<u64>)
    requires
        spec_distinct(a),
        spec_distinct(b),
        forall|x: u64| a.contains(x) ==> !b.contains(x),
    ensures
        spec_distinct(a + b),
{
    assert forall|i: int, j: int| 0 <= i < j < (a + b).len() implies (a + b)[i] != (a + b)[j] by {
        if i < a.len() && j >= a.len() {
            assert((a + b)[i] == a[i] && (a + b)[j] == b[j - a.len()]);
            assert(a.contains(a[i]));
            if a[i] == b[j - a.len()] {
                assert(b.contains(a[i]));
            }
        } else if i < a.len() {
            assert((a + b)[i] == a[i] && (a + b)[j] == a[j]);
        } else {
            assert((a + b)[i] == b[i - a.len()] && (a + b)[j] == b[j - a.len()]);
        }
    }
}

proof fn lemma_runnable_ids_subset_contains(t: Seq<LogicalThread>, q: Seq<u64>)
    ensures
        forall|x: u64|
            #[trigger] spec_runnable_ids(t, q).contains(x) ==> q.contains(x) && spec_runnable(t, x),
{
    lemma_runnable_ids_elems(t, q);
    assert forall|x: u64|
        #[trigger] spec_runnable_ids(t, q).contains(x) implies q.contains(x) && spec_runnable(
        t,
        x,
    ) by {
        let j = choose|j: int|
            0 <= j < spec_runnable_ids(t, q).len() && spec_runnable_ids(t, q)[j] == x;
        assert(q.contains(spec_runnable_ids(t, q)[j]));
    }
}

proof fn lemma_due_ids_subset_contains(
    t: Seq<LogicalThread>,
    q: Seq<u64>,
    now_usec: u64,
    signals: Seq<u64>,
)
    ensures
        forall|x: u64|
            #[trigger] spec_due_ids(t, q, now_usec, signals).contains(x) ==> q.contains(x)
                && spec_due(t, x, now_usec, signals),
{
    lemma_due_ids_elems(t, q, now_usec, signals);
    assert forall|x: u64|
        #[trigger] spec_due_ids(t, q, now_usec, signals).contains(x) implies q.contains(x)
        && spec_due(t, x, now_usec, signals) by {
        let r = spec_due_ids(t, q, now_usec, signals);
        let j = choose|j: int| 0 <= j < r.len() && r[j] == x;
        assert(q.contains(r[j]));
    }
}

proof fn lemma_survivor_ids_subset_contains(
    t: Seq<LogicalThread>,
    q: Seq<u64>,
    now_usec: u64,
    signals: Seq<u64>,
)
    ensures
        forall|x: u64|
            #[trigger] spec_survivor_ids(t, q, now_usec, signals).contains(x) ==> q.contains(x) && x
                < t.len() && t[x as int].state is Yielded && !spec_due(t, x, now_usec, signals),
{
    lemma_survivor_ids_elems(t, q, now_usec, signals);
    assert forall|x: u64|
        #[trigger] spec_survivor_ids(t, q, now_usec, signals).contains(x) implies q.contains(x)
        && x < t.len() && t[x as int].state is Yielded && !spec_due(t, x, now_usec, signals) by {
        let r = spec_survivor_ids(t, q, now_usec, signals);
        let j = choose|j: int| 0 <= j < r.len() && r[j] == x;
        assert(q.contains(r[j]));
    }
}

proof fn lemma_yield_ids_subset_contains(t: Seq<(u64, ExecOutcome)>)
    ensures
        forall|x: u64|
            #[trigger] spec_yield_ids(t).contains(x) ==> spec_trace_ids(t).contains(x),
{
    lemma_yield_ids_in_trace(t);
    assert forall|x: u64|
        #[trigger] spec_yield_ids(t).contains(x) implies spec_trace_ids(t).contains(x) by {
        let j = choose|j: int| 0 <= j < spec_yield_ids(t).len() && spec_yield_ids(t)[j] == x;
        assert(spec_trace_ids(t).contains(spec_yield_ids(t)[j]));
    }
}

/// One resumption-end report applied to a thread state.
fn state_after_exec(o: &ExecOutcome) -> (s: ThreadState)
    ensures
        s == spec_state_after(*o),
{
    match o {
        ExecOutcome::Completed => ThreadState::Completed,
        ExecOutcome::Yielded { wait } => ThreadState::Yielded { wait: *wait },
        ExecOutcome::Faulted { .. } => ThreadState::Faulted,
    }
}

/// Whether the given signal is among those fired this frame.
fn signal_fired(signals: &Vec<u64>, s: u64) -> (r: bool)
    ensures
        r == signals@.contains(s),
{
    let n = signals.len();
    let mut k: usize = 0;
    while k < n
        invariant
            0 <= k <= n,
            n == signals@.len(),
            forall|i: int| 0 <= i < k ==> signals@[i] != s,
        decreases n - k,
    {
        if signals[k] == s {
            return true;
        }
        k = k + 1;
    }
    proof {
        if signals@.contains(s) {
            let w = choose|w: int| 0 <= w < signals@.len() && signals@[w] == s;
            assert(false);
        }
    }
    false
}

/// Whether a wait condition holds at the given instant with the given
/// signals fired.
fn wait_met(w: &WaitCondition, now_usec: u64, signals: &Vec<u64>) -> (r: bool)
    ensures
        r == spec_wait_met(*w, now_usec, signals@),
{
    match w {
        WaitCondition::Time { deadline_usec } => now_usec >= *deadline_usec,
        WaitCondition::Signal { signal } => signal_fired(signals, *signal),
    }
}

/// The per-interpreter-state scheduler: the record of every logical thread
/// it ever spawned, the pending queues partitioned by dispatch mode, the
/// parked threads, and the fault log for the collaborator log sink.
#[derive(Debug)]
pub struct TaskScheduler {
    threads: Vec<LogicalThread>,
    sync_queue: Vec<u64>,
    par_queue: Vec<u64>,
    yielded: Vec<u64>,
    log: Vec<(MessageType, String)>,
}

impl TaskScheduler {
    /// The record of every thread, by number.
    pub closed spec fn threads(&self) -> Seq<LogicalThread> {
        self.threads@
    }

    /// The pending Synchronized queue, in enqueue order.
    pub closed spec fn sync_queue(&self) -> Seq<u64> {
        self.sync_queue@
    }

    /// The pending Parallel queue, in enqueue order.
    pub closed spec fn par_queue(&self) -> Seq<u64> {
        self.par_queue@
    }

    /// The parked threads, in parking order.
    pub closed spec fn parked(&self) -> Seq<u64> {
        self.yielded@
    }

    /// The fault log, oldest first: the severity and the view of each
    /// message.
    pub closed spec fn log(&self) -> Seq<(MessageType, Seq<char>)> {
        self.log@.map_values(|p: (MessageType, String)| (p.0, p.1@))
    }

    /// Scheduler well-formedness: thread numbers equal positions, queue
    /// entries point at recorded threads of the right mode, and no thread
    /// sits in two queues or twice in one.
    pub open spec fn wf(&self) -> bool {
        &&& self.threads().len() <= u64::MAX
        &&& forall|i: int|
            0 <= i < self.threads().len() ==> (#[trigger] self.threads()[i]).id == i
        &&& spec_in_bounds(self.sync_queue(), self.threads().len() as int)
        &&& spec_in_bounds(self.par_queue(), self.threads().len() as int)
        &&& spec_in_bounds(self.parked(), self.threads().len() as int)
        &&& spec_all_mode(self.threads(), self.sync_queue(), ParallelDispatch::Synchronized)
        &&& spec_all_mode(self.threads(), self.par_queue(), ParallelDispatch::Parallel)
        &&& spec_distinct(self.sync_queue() + self.par_queue() + self.parked())
    }

    /// An empty scheduler with no threads, no queued work and no log.
    pub fn new() -> (s: TaskScheduler)
        ensures
            s.wf(),
            s.threads() == Seq::<LogicalThread>::empty(),
            s.sync_queue() == Seq::<u64>::empty(),
            s.par_queue() == Seq::<u64>::empty(),
            s.parked() == Seq::<u64>::empty(),
            s.log() == Seq::<(MessageType, Seq<char>)>::empty(),
    {
        let s = TaskScheduler {
            threads: Vec::new(),
            sync_queue: Vec::new(),
            par_queue: Vec::new(),
            yielded: Vec::new(),
            log: Vec::new(),
        };
        proof {
            assert(s.sync_queue() + s.par_queue() + s.parked() =~= Seq::<u64>::empty());
        }
        s
    }

    /// Schedules a compiled unit for the next scheduling step under the
    /// given identity and dispatch mode, and returns the new thread's
    /// number. The thread starts Pending at the back of its mode's queue;
    /// nothing else changes.
    pub fn defer(&mut self, unit: u64, identity: ThreadIdentity, mode: ParallelDispatch) -> (id:
        u64)
        requires
            old(self).wf(),
            old(self).threads().len() < u64::MAX,
        ensures
            final (self).wf(),
            id == old(self).threads().len(),
            final (self).threads().len() == old(self).threads().len() + 1,
            forall|i: int|
                0 <= i < old(self).threads().len() ==> final (self).threads()[i] == old(
                    self,
                ).threads()[i],
            spec_fresh_thread(final (self).threads()[id as int], id, unit, identity, mode),
            mode == ParallelDispatch::Synchronized ==> final (self).sync_queue() == old(
                self,
            ).sync_queue().push(id) && final (self).par_queue() == old(self).par_queue(),
            mode == ParallelDispatch::Parallel ==> final (self).par_queue() == old(
                self,
            ).par_queue().push(id) && final (self).sync_queue() == old(self).sync_queue(),
            final (self).parked() == old(self).parked(),
            final (self).log() == old(self).log(),
    {
        let id = self.threads.len() as u64;
        let thread = LogicalThread {
            id,
            unit,
            identity,
            mode,
            state: ThreadState::Pending,
            cleanups: Vec::new(),
        };
        self.threads.push(thread);
        match mode {
            ParallelDispatch::Synchronized => self.sync_queue.push(id),
            ParallelDispatch::Parallel => self.par_queue.push(id),
        }
        proof {
            let osq = old(self).sync_queue();
            let opq = old(self).par_queue();
            let opk = old(self).parked();
            let n = old(self).threads().len() as int;
            if mode == ParallelDispatch::Synchronized {
                assert(osq + opq + opk =~= osq + (opq + opk));
                lemma_distinct_push_fresh(osq, opq + opk, id, n);
                assert(self.sync_queue() + self.par_queue() + self.parked() =~= osq.push(id) + (
                opq + opk));
            } else {
                assert(osq + opq + opk =~= (osq + opq) + opk);
                lemma_distinct_push_fresh(osq + opq, opk, id, n);
                assert(self.sync_queue() + self.par_queue() + self.parked() =~= (osq + opq).push(
                    id,
                ) + opk);
                assert((osq + opq).push(id) =~= osq + opq.push(id));
            }
        }
        id
    }

    /// Registers a cleanup handler (such as a signal disconnect) that must
    /// run if the thread is cancelled.
    pub fn add_cleanup(&mut self, id: u64, handler: u64)
        requires
            old(self).wf(),
            id < old(self).threads().len(),
        ensures
            final (self).wf(),
            final (self).threads().len() == old(self).threads().len(),
            forall|i: int|
                0 <= i < old(self).threads().len() && i != id as int ==> final (self).threads()[i]
                    == old(self).threads()[i],
            final (self).threads()[id as int] == (LogicalThread {
                cleanups: final (self).threads()[id as int].cleanups,
                ..old(self).threads()[id as int]
            }),
            final (self).threads()[id as int].cleanups@ == old(self).threads()[
                id as int
            ].cleanups@.push(handler),
            final (self).sync_queue() == old(self).sync_queue(),
            final (self).par_queue() == old(self).par_queue(),
            final (self).parked() == old(self).parked(),
            final (self).log() == old(self).log(),
    {
        let n = self.threads.len();
        assert(id < n as u64);
        let i = id as usize;
        self.threads[i].cleanups.push(handler);
    }

    /// Transitions one thread to Cancelled. Cancelling a thread that has
    /// already ended is a race, not an error: nothing changes and no cleanup
    /// work comes back. Otherwise the thread's cleanup handlers are handed
    /// back in registration order for the host to run before returning, and
    /// the first component reports whether an in-flight native continuation
    /// must be unwound through the interpreter's own cancellation primitive.
    pub fn cancel(&mut self, id: u64) -> (r: (bool, Vec<u64>))
        requires
            old(self).wf(),
            id < old(self).threads().len(),
        ensures
            final (self).wf(),
            final (self).threads().len() == old(self).threads().len(),
            spec_terminal(old(self).threads()[id as int].state) ==> *final (self) == *old(self)
                && r.1@ == Seq::<u64>::empty() && r.0 == false,
            !spec_terminal(old(self).threads()[id as int].state) ==> {
                &&& spec_cancelled_version(
                    old(self).threads()[id as int],
                    final (self).threads()[id as int],
                )
                &&& r.1@ == old(self).threads()[id as int].cleanups@
                &&& r.0 == (old(self).threads()[id as int].state is Running)
            },
            forall|i: int|
                0 <= i < old(self).threads().len() && i != id as int ==> final (self).threads()[i]
                    == old(self).threads()[i],
            final (self).sync_queue() == old(self).sync_queue(),
            final (self).par_queue() == old(self).par_queue(),
            final (self).parked() == old(self).parked(),
            final (self).log() == old(self).log(),
    {
        let n = self.threads.len();
        assert(id < n as u64);
        let i = id as usize;
        let st = self.threads[i].state;
        proof {
            assert(st == old(self).threads()[id as int].state);
        }
        let terminal = match st {
            ThreadState::Completed => true,
            ThreadState::Faulted => true,
            ThreadState::Cancelled => true,
            _ => false,
        };
        if terminal {
            proof {
                assert(spec_terminal(old(self).threads()[id as int].state));
            }
            return (false, Vec::new());
        }
        let was_running = match st {
            ThreadState::Running => true,
            _ => false,
        };
        let mut handed: Vec<u64> = Vec::new();
        core::mem::swap(&mut handed, &mut self.threads[i].cleanups);
        self.threads[i].state = ThreadState::Cancelled;
        (was_running, handed)
    }

    /// Cancels every logical thread whose identity traces to the given
    /// owning unit, and hands back all their cleanup handlers in thread
    /// order. Idempotent: a second call for the same owner finds only
    /// terminal threads, changes nothing and hands back nothing, so it is
    /// safe to call again, or from within one of the threads it cancels.
    pub fn cancel_script(&mut self, owner: u64) -> (cleanups: Vec<u64>)
        requires
            old(self).wf(),
        ensures
            final (self).wf(),
            spec_cancel_all_rel(old(self).threads(), final (self).threads(), owner),
            cleanups@ == spec_owned_cleanups(old(self).threads(), owner),
            final (self).sync_queue() == old(self).sync_queue(),
            final (self).par_queue() == old(self).par_queue(),
            final (self).parked() == old(self).parked(),
            final (self).log() == old(self).log(),
    {
        let ghost initial = self.threads();
        let n = self.threads.len();
        let mut collected: Vec<u64> = Vec::new();
        let mut i: usize = 0;
        proof {
            assert(initial.subrange(0, n as int) =~= initial);
            assert(Seq::<u64>::empty() + spec_owned_cleanups(initial, owner) =~= spec_owned_cleanups(
                initial,
                owner,
            ));
        }
        while i < n
            invariant
                self.wf(),
                n == initial.len(),
                self.threads().len() == n,
                0 <= i <= n,
                forall|k: int| i <= k < n ==> self.threads()[k] == initial[k],
                forall|k: int|
                    0 <= k < i ==> if spec_cancel_target(initial[k], owner) {
                        spec_cancelled_version(initial[k], #[trigger] self.threads()[k])
                    } else {
                        self.threads()[k] == initial[k]
                    },
                spec_owned_cleanups(initial, owner) == collected@ + spec_owned_cleanups(
                    initial.subrange(i as int, n as int),
                    owner,
                ),
                self.sync_queue() == old(self).sync_queue(),
                self.par_queue() == old(self).par_queue(),
                self.parked() == old(self).parked(),
                self.log() == old(self).log(),
            decreases n - i,
        {
            let ghost remaining = initial.subrange(i as int, n as int);
            proof {
                assert(remaining[0] == initial[i as int]);
                assert(remaining.drop_first() =~= initial.subrange(i + 1, n as int));
            }
            let matches_owner = self.threads[i].identity.owning_unit == owner;
            let terminal = match self.threads[i].state {
                ThreadState::Completed => true,
                ThreadState::Faulted => true,
                ThreadState::Cancelled => true,
                _ => false,
            };
            if matches_owner && !terminal {
                let mut taken: Vec<u64> = Vec::new();
                core::mem::swap(&mut taken, &mut self.threads[i].cleanups);
                collected.append(&mut taken);
                self.threads[i].state = ThreadState::Cancelled;
            }
            i = i + 1;
        }
        proof {
            assert(initial.subrange(n as int, n as int) =~= Seq::<LogicalThread>::empty());
            assert(collected@ =~= spec_owned_cleanups(initial, owner));
        }
        collected
    }

    /// Dispatches, in list order, every listed thread that is ready to
    /// start: each goes Pending, Running, and then wherever the host's
    /// report sends it; a fault is appended to the log. Returns the
    /// execution trace and the threads that ended the pass parked.
    fn run_ready<E: UnitExecutor>(&mut self, queue: &Vec<u64>, exec: &mut E) -> (r: (
        Vec<(u64, ExecOutcome)>,
        Vec<u64>,
    ))
        requires
            spec_in_bounds(queue@, old(self).threads().len() as int),
            spec_distinct(queue@),
        ensures
            final (self).threads().len() == old(self).threads().len(),
            forall|k: int|
                0 <= k < old(self).threads().len() ==> final (self).threads()[k] == spec_with_state(
                    old(self).threads()[k],
                    final (self).threads()[k].state,
                ),
            spec_trace_ids(r.0@) == spec_runnable_ids(old(self).threads(), queue@),
            r.1@ == spec_yield_ids(r.0@),
            forall|j: int|
                0 <= j < r.0@.len() ==> final (self).threads()[#[trigger] r.0@[j].0 as int]
                    == spec_with_state(
                    old(self).threads()[r.0@[j].0 as int],
                    spec_state_after(r.0@[j].1),
                ),
            forall|i: u64|
                i < old(self).threads().len() && !spec_trace_ids(r.0@).contains(i)
                    ==> final (self).threads()[i as int] == old(self).threads()[i as int],
            final (self).sync_queue() == old(self).sync_queue(),
            final (self).par_queue() == old(self).par_queue(),
            final (self).parked() == old(self).parked(),
            final (self).log() == old(self).log() + spec_fault_entries(r.0@),
    {
        let ghost initial = self.threads();
        let ghost qv = queue@;
        let mut trace: Vec<(u64, ExecOutcome)> = Vec::new();
        let mut fresh: Vec<u64> = Vec::new();
        let n = queue.len();
        let mut k: usize = 0;
        proof {
            assert(qv.subrange(0, n as int) =~= qv);
            assert(spec_trace_ids(trace@) =~= Seq::<u64>::empty());
            assert(spec_trace_ids(trace@) + spec_runnable_ids(initial, qv) =~= spec_runnable_ids(
                initial,
                qv,
            ));
            assert(self.log() + spec_fault_entries(trace@) =~= self.log());
        }
        while k < n
            invariant
                0 <= k <= n,
                n == qv.len(),
                queue@ == qv,
                spec_in_bounds(qv, initial.len() as int),
                spec_distinct(qv),
                self.threads().len() == initial.len(),
                forall|m: int|
                    0 <= m < initial.len() ==> self.threads()[m] == spec_with_state(
                        initial[m],
                        self.threads()[m].state,
                    ),
                spec_trace_ids(trace@) + spec_runnable_ids(
                    self.threads(),
                    qv.subrange(k as int, n as int),
                ) == spec_runnable_ids(initial, qv),
                fresh@ == spec_yield_ids(trace@),
                forall|j: int|
                    0 <= j < trace@.len() ==> qv.subrange(0, k as int).contains(
                        #[trigger] trace@[j].0,
                    ),
                forall|j: int|
                    0 <= j < trace@.len() ==> self.threads()[#[trigger] trace@[j].0 as int]
                        == spec_with_state(
                        initial[trace@[j].0 as int],
                        spec_state_after(trace@[j].1),
                    ),
                forall|i: u64|
                    i < initial.len() && !spec_trace_ids(trace@).contains(i)
                        ==> self.threads()[i as int] == initial[i as int],
                self.sync_queue() == old(self).sync_queue(),
                self.par_queue() == old(self).par_queue(),
                self.parked() == old(self).parked(),
                self.log() == old(self).log() + spec_fault_entries(trace@),
            decreases n - k,
        {
            let id = queue[k];
            let tl = self.threads.len();
            assert(id < tl as u64);
            let i = id as usize;
            let ghost cur0 = self.threads();
            let ghost remaining = qv.subrange(k as int, n as int);
            proof {
                assert(remaining[0] == id);
                assert(remaining.drop_first() =~= qv.subrange(k + 1, n as int));
                // the thread about to run was not run before in this pass
                if spec_trace_ids(trace@).contains(id) {
                    let j = choose|j: int|
                        0 <= j < trace@.len() && #[trigger] trace@[j].0 == id;
                    assert(qv.subrange(0, k as int).contains(id));
                    let w = choose|w: int| 0 <= w < k && qv.subrange(0, k as int)[w] == id;
                    assert(qv[w] == id && qv[k as int] == id);
                    assert(false);
                }
            }
            let st = self.threads[i].state;
            let runnable = match st {
                ThreadState::Pending => true,
                _ => false,
            };
            if runnable {
                self.threads[i].state = ThreadState::Running;
                let unit = self.threads[i].unit;
                let iden = self.threads[i].identity;
                let outcome = exec.execute(unit, id, iden);
                let ns = state_after_exec(&outcome);
                self.threads[i].state = ns;
                let ghost before_push = trace@;
                let ghost pre_log = self.log();
                if let ExecOutcome::Faulted { message } = &outcome {
                    self.log.push((MessageType::MessageError, message.clone()));
                    proof {
                        assert(self.log() =~= pre_log.push((MessageType::MessageError, message@)));
                    }
                }
                let is_yield = match &outcome {
                    ExecOutcome::Yielded { .. } => true,
                    _ => false,
                };
                if is_yield {
                    fresh.push(id);
                }
                trace.push((id, outcome));
                proof {
                    let p = trace@.last();
                    assert(trace@ =~= before_push + seq![p]);
                    lemma_yield_ids_concat(before_push, seq![p]);
                    lemma_fault_entries_concat(before_push, seq![p]);
                    assert(seq![p].drop_first() =~= Seq::<(u64, ExecOutcome)>::empty());
                    assert(spec_yield_ids(Seq::<(u64, ExecOutcome)>::empty())
                        == Seq::<u64>::empty());
                    assert(spec_fault_entries(Seq::<(u64, ExecOutcome)>::empty())
                        == Seq::<(MessageType, Seq<char>)>::empty());
                    assert(spec_trace_ids(trace@) =~= spec_trace_ids(before_push).push(id));
                    assert(fresh@ =~= spec_yield_ids(trace@));
                    assert(self.log() =~= old(self).log() + spec_fault_entries(trace@));
                    // the rest of the list is unaffected by this state change
                    lemma_distinct_drop_first(remaining);
                    assert forall|m: int|
                        0 <= m < remaining.drop_first().len() implies (#[trigger] remaining
                            .drop_first()[m]) < cur0.len() && cur0[remaining
                            .drop_first()[m] as int] == self.threads()[remaining
                            .drop_first()[m] as int] by {
                        assert(remaining.drop_first()[m] == qv[k + 1 + m]);
                        assert(remaining.drop_first()[m] != id);
                    }
                    lemma_runnable_ids_agree(cur0, self.threads(), remaining.drop_first());
                    assert(spec_runnable(cur0, id));
                    assert(spec_runnable_ids(cur0, remaining) == seq![id] + spec_runnable_ids(
                        cur0,
                        remaining.drop_first(),
                    ));
                    assert(qv.subrange(0, k + 1) =~= qv.subrange(0, k as int).push(id));
                    assert(spec_trace_ids(trace@) + spec_runnable_ids(
                        self.threads(),
                        qv.subrange(k + 1, n as int),
                    ) =~= spec_runnable_ids(initial, qv));
                    // every executed thread lies in the processed prefix
                    assert(qv.subrange(0, k + 1)[k as int] == id);
                    assert forall|j: int|
                        0 <= j < trace@.len() implies qv.subrange(0, k + 1).contains(
                        #[trigger] trace@[j].0,
                    ) by {
                        if j < before_push.len() {
                            assert(trace@[j] == before_push[j]);
                            let w = choose|w: int|
                                0 <= w < k && qv.subrange(0, k as int)[w] == before_push[j].0;
                            assert(qv.subrange(0, k + 1)[w] == before_push[j].0);
                        } else {
                            assert(trace@[j].0 == id);
                        }
                    }
                    // threads outside the trace keep their old value
                    assert(spec_trace_ids(trace@)[before_push.len() as int] == id);
                    assert forall|i2: u64|
                        i2 < initial.len() && !spec_trace_ids(trace@).contains(i2)
                            implies self.threads()[i2 as int] == initial[i2 as int] by {
                        if spec_trace_ids(before_push).contains(i2) {
                            let w = choose|w: int|
                                0 <= w < before_push.len() && spec_trace_ids(before_push)[w] == i2;
                            assert(spec_trace_ids(trace@)[w] == i2);
                        }
                        assert(i2 != id);
                    }
                }
            } else {
                proof {
                    assert(qv.subrange(0, k + 1) =~= qv.subrange(0, k as int).push(id));
                    assert(spec_runnable_ids(self.threads(), remaining) == spec_runnable_ids(
                        self.threads(),
                        remaining.drop_first(),
                    ));
                    assert forall|j: int|
                        0 <= j < trace@.len() implies qv.subrange(0, k + 1).contains(
                        #[trigger] trace@[j].0,
                    ) by {
                        let w = choose|w: int|
                            0 <= w < k && qv.subrange(0, k as int)[w] == trace@[j].0;
                        assert(qv.subrange(0, k + 1)[w] == trace@[j].0);
                    }
                }
            }
            k = k + 1;
        }
        proof {
            assert(qv.subrange(n as int, n as int) =~= Seq::<u64>::empty());
            assert(spec_trace_ids(trace@) + Seq::<u64>::empty() =~= spec_trace_ids(trace@));
        }
        (trace, fresh)
    }

    /// Resumes, in parking order, every listed thread whose wait condition
    /// now holds; threads still waiting are kept, in order, as survivors;
    /// threads that ended some other way while parked are dropped. Returns
    /// the execution trace, the threads that parked again, and the
    /// survivors.
    fn resume_due<E: UnitExecutor>(
        &mut self,
        parked: &Vec<u64>,
        now_usec: u64,
        signals: &Vec<u64>,
        exec: &mut E,
    ) -> (r: (Vec<(u64, ExecOutcome)>, Vec<u64>, Vec<u64>))
        requires
            spec_in_bounds(parked@, old(self).threads().len() as int),
            spec_distinct(parked@),
        ensures
            final (self).threads().len() == old(self).threads().len(),
            forall|k: int|
                0 <= k < old(self).threads().len() ==> final (self).threads()[k] == spec_with_state(
                    old(self).threads()[k],
                    final (self).threads()[k].state,
                ),
            spec_trace_ids(r.0@) == spec_due_ids(old(self).threads(), parked@, now_usec, signals@),
            r.1@ == spec_yield_ids(r.0@),
            r.2@ == spec_survivor_ids(old(self).threads(), parked@, now_usec, signals@),
            forall|j: int|
                0 <= j < r.0@.len() ==> final (self).threads()[#[trigger] r.0@[j].0 as int]
                    == spec_with_state(
                    old(self).threads()[r.0@[j].0 as int],
                    spec_state_after(r.0@[j].1),
                ),
            forall|i: u64|
                i < old(self).threads().len() && !spec_trace_ids(r.0@).contains(i)
                    ==> final (self).threads()[i as int] == old(self).threads()[i as int],
            final (self).sync_queue() == old(self).sync_queue(),
            final (self).par_queue() == old(self).par_queue(),
            final (self).parked() == old(self).parked(),
            final (self).log() == old(self).log() + spec_fault_entries(r.0@),
    {
        let ghost initial = self.threads();
        let ghost qv = parked@;
        let ghost sv = signals@;
        let mut trace: Vec<(u64, ExecOutcome)> = Vec::new();
        let mut fresh: Vec<u64> = Vec::new();
        let mut survivors: Vec<u64> = Vec::new();
        let n = parked.len();
        let mut k: usize = 0;
        proof {
            assert(qv.subrange(0, n as int) =~= qv);
            assert(spec_trace_ids(trace@) =~= Seq::<u64>::empty());
            assert(spec_trace_ids(trace@) + spec_due_ids(initial, qv, now_usec, sv)
                =~= spec_due_ids(initial, qv, now_usec, sv));
            assert(survivors@ + spec_survivor_ids(initial, qv, now_usec, sv) =~= spec_survivor_ids(
                initial,
                qv,
                now_usec,
                sv,
            ));
            assert(self.log() + spec_fault_entries(trace@) =~= self.log());
        }
        while k < n
            invariant
                0 <= k <= n,
                n == qv.len(),
                parked@ == qv,
                signals@ == sv,
                spec_in_bounds(qv, initial.len() as int),
                spec_distinct(qv),
                self.threads().len() == initial.len(),
                forall|m: int|
                    0 <= m < initial.len() ==> self.threads()[m] == spec_with_state(
                        initial[m],
                        self.threads()[m].state,
                    ),
                spec_trace_ids(trace@) + spec_due_ids(
                    self.threads(),
                    qv.subrange(k as int, n as int),
                    now_usec,
                    sv,
                ) == spec_due_ids(initial, qv, now_usec, sv),
                survivors@ + spec_survivor_ids(
                    self.threads(),
                    qv.subrange(k as int, n as int),
                    now_usec,
                    sv,
                ) == spec_survivor_ids(initial, qv, now_usec, sv),
                fresh@ == spec_yield_ids(trace@),
                forall|j: int|
                    0 <= j < trace@.len() ==> qv.subrange(0, k as int).contains(
                        #[trigger] trace@[j].0,
                    ),
                forall|j: int|
                    0 <= j < trace@.len() ==> self.threads()[#[trigger] trace@[j].0 as int]
                        == spec_with_state(
                        initial[trace@[j].0 as int],
                        spec_state_after(trace@[j].1),
                    ),
                forall|i: u64|
                    i < initial.len() && !spec_trace_ids(trace@).contains(i)
                        ==> self.threads()[i as int] == initial[i as int],
                self.sync_queue() == old(self).sync_queue(),
                self.par_queue() == old(self).par_queue(),
                self.parked() == old(self).parked(),
                self.log() == old(self).log() + spec_fault_entries(trace@),
            decreases n - k,
        {
            let id = parked[k];
            let tl = self.threads.len();
            assert(id < tl as u64);
            let i = id as usize;
            let ghost cur0 = self.threads();
            let ghost remaining = qv.subrange(k as int, n as int);
            proof {
                assert(remaining[0] == id);
                assert(remaining.drop_first() =~= qv.subrange(k + 1, n as int));
                if spec_trace_ids(trace@).contains(id) {
                    let j = choose|j: int| 0 <= j < trace@.len() && #[trigger] trace@[j].0 == id;
                    assert(qv.subrange(0, k as int).contains(id));
                    let w = choose|w: int| 0 <= w < k && qv.subrange(0, k as int)[w] == id;
                    assert(qv[w] == id && qv[k as int] == id);
                    assert(false);
                }
            }
            let st = self.threads[i].state;
            let mut due = false;
            let mut parked_still = false;
            if let ThreadState::Yielded { wait } = st {
                if wait_met(&wait, now_usec, signals) {
                    due = true;
                } else {
                    parked_still = true;
                }
            }
            proof {
                assert(due == spec_due(cur0, id, now_usec, sv));
                assert(parked_still == (cur0[id as int].state is Yielded && !spec_due(
                    cur0,
                    id,
                    now_usec,
                    sv,
                )));
            }
            if due {
                self.threads[i].state = ThreadState::Running;
                let unit = self.threads[i].unit;
                let iden = self.threads[i].identity;
                let outcome = exec.execute(unit, id, iden);
                let ns = state_after_exec(&outcome);
                self.threads[i].state = ns;
                let ghost before_push = trace@;
                let ghost pre_log = self.log();
                if let ExecOutcome::Faulted { message } = &outcome {
                    self.log.push((MessageType::MessageError, message.clone()));
                    proof {
                        assert(self.log() =~= pre_log.push((MessageType::MessageError, message@)));
                    }
                }
                let is_yield = match &outcome {
                    ExecOutcome::Yielded { .. } => true,
                    _ => false,
                };
                if is_yield {
                    fresh.push(id);
                }
                trace.push((id, outcome));
                proof {
                    let p = trace@.last();
                    assert(trace@ =~= before_push + seq![p]);
                    lemma_yield_ids_concat(before_push, seq![p]);
                    lemma_fault_entries_concat(before_push, seq![p]);
                    assert(seq![p].drop_first() =~= Seq::<(u64, ExecOutcome)>::empty());
                    assert(spec_yield_ids(Seq::<(u64, ExecOutcome)>::empty())
                        == Seq::<u64>::empty());
                    assert(spec_fault_entries(Seq::<(u64, ExecOutcome)>::empty())
                        == Seq::<(MessageType, Seq<char>)>::empty());
                    assert(spec_trace_ids(trace@) =~= spec_trace_ids(before_push).push(id));
                    assert(fresh@ =~= spec_yield_ids(trace@));
                    assert(self.log() =~= old(self).log() + spec_fault_entries(trace@));
                    lemma_distinct_drop_first(remaining);
                    assert forall|m: int|
                        0 <= m < remaining.drop_first().len() implies (#[trigger] remaining
                            .drop_first()[m]) < cur0.len() && cur0[remaining
                            .drop_first()[m] as int] == self.threads()[remaining
                            .drop_first()[m] as int] by {
                        assert(remaining.drop_first()[m] == qv[k + 1 + m]);
                        assert(remaining.drop_first()[m] != id);
                    }
                    lemma_due_ids_agree(cur0, self.threads(), remaining.drop_first(), now_usec, sv);
                    assert(spec_due_ids(cur0, remaining, now_usec, sv) == seq![id] + spec_due_ids(
                        cur0,
                        remaining.drop_first(),
                        now_usec,
                        sv,
                    ));
                    assert(spec_survivor_ids(cur0, remaining, now_usec, sv) == spec_survivor_ids(
                        cur0,
                        remaining.drop_first(),
                        now_usec,
                        sv,
                    ));
                    assert(qv.subrange(0, k + 1) =~= qv.subrange(0, k as int).push(id));
                    assert(spec_trace_ids(trace@) + spec_due_ids(
                        self.threads(),
                        qv.subrange(k + 1, n as int),
                        now_usec,
                        sv,
                    ) =~= spec_due_ids(initial, qv, now_usec, sv));
                    assert(qv.subrange(0, k + 1)[k as int] == id);
                    assert forall|j: int|
                        0 <= j < trace@.len() implies qv.subrange(0, k + 1).contains(
                        #[trigger] trace@[j].0,
                    ) by {
                        if j < before_push.len() {
                            assert(trace@[j] == before_push[j]);
                            let w = choose|w: int|
                                0 <= w < k && qv.subrange(0, k as int)[w] == before_push[j].0;
                            assert(qv.subrange(0, k + 1)[w] == before_push[j].0);
                        } else {
                            assert(trace@[j].0 == id);
                        }
                    }
                    assert(spec_trace_ids(trace@)[before_push.len() as int] == id);
                    assert forall|i2: u64|
                        i2 < initial.len() && !spec_trace_ids(trace@).contains(i2)
                            implies self.threads()[i2 as int] == initial[i2 as int] by {
                        if spec_trace_ids(before_push).contains(i2) {
                            let w = choose|w: int|
                                0 <= w < before_push.len() && spec_trace_ids(before_push)[w] == i2;
                            assert(spec_trace_ids(trace@)[w] == i2);
                        }
                        assert(i2 != id);
                    }
                }
            } else {
                if parked_still {
                    survivors.push(id);
                }
                proof {
                    assert(qv.subrange(0, k + 1) =~= qv.subrange(0, k as int).push(id));
                    assert(spec_due_ids(self.threads(), remaining, now_usec, sv) == spec_due_ids(
                        self.threads(),
                        remaining.drop_first(),
                        now_usec,
                        sv,
                    ));
                    if parked_still {
                        assert(spec_survivor_ids(self.threads(), remaining, now_usec, sv)
                            == seq![id] + spec_survivor_ids(
                            self.threads(),
                            remaining.drop_first(),
                            now_usec,
                            sv,
                        ));
                        assert(survivors@ + spec_survivor_ids(
                            self.threads(),
                            remaining.drop_first(),
                            now_usec,
                            sv,
                        ) =~= spec_survivor_ids(initial, qv, now_usec, sv));
                    } else {
                        assert(spec_survivor_ids(self.threads(), remaining, now_usec, sv)
                            == spec_survivor_ids(
                            self.threads(),
                            remaining.drop_first(),
                            now_usec,
                            sv,
                        ));
                    }
                    assert forall|j: int|
                        0 <= j < trace@.len() implies qv.subrange(0, k + 1).contains(
                        #[trigger] trace@[j].0,
                    ) by {
                        let w = choose|w: int|
                            0 <= w < k && qv.subrange(0, k as int)[w] == trace@[j].0;
                        assert(qv.subrange(0, k + 1)[w] == trace@[j].0);
                    }
                }
            }
            k = k + 1;
        }
        proof {
            assert(qv.subrange(n as int, n as int) =~= Seq::<u64>::empty());
            assert(spec_trace_ids(trace@) + Seq::<u64>::empty() =~= spec_trace_ids(trace@));
            assert(survivors@ + Seq::<u64>::empty() =~= survivors@);
        }
        (trace, fresh, survivors)
    }

    /// One scheduling tick. First every due Synchronized task runs to
    /// completion in strict enqueue order, with the process-wide flag held
    /// exclusive so no other logical thread observes a partially mutated
    /// graph; the flag then drops to parallel mode and the Parallel tasks
    /// are dispatched in their enqueue order; finally every parked thread
    /// whose wait condition is now satisfied (its instant has passed or its
    /// signal fired) is resumed, first parked first. Both queues are
    /// drained; threads that yielded during the tick are parked behind the
    /// survivors; every fault is logged. Yielding never blocks the driving
    /// thread: a yielded thread is simply parked and the tick moves on. The
    /// tick begins and ends at a barrier — no coordination lock held — and
    /// the flag leaves in the mode it arrived in.
    pub fn frame_step<E: UnitExecutor>(
        &mut self,
        now_usec: u64,
        signals: &Vec<u64>,
        exec: &mut E,
        glock: &mut GlobalLock,
    ) -> (report: FrameReport)
        requires
            old(self).wf(),
            old(glock).held() == 0,
        ensures
            *final (glock) == *old(glock),
            final (self).wf(),
            final (self).threads().len() == old(self).threads().len(),
            spec_trace_ids(report.executed@) == spec_runnable_ids(
                old(self).threads(),
                old(self).sync_queue(),
            ) + spec_runnable_ids(old(self).threads(), old(self).par_queue()) + spec_due_ids(
                old(self).threads(),
                old(self).parked(),
                now_usec,
                signals@,
            ),
            forall|j: int|
                0 <= j < report.executed@.len() ==> final (self).threads()[
                    #[trigger] report.executed@[j].0 as int
                ] == spec_with_state(
                    old(self).threads()[report.executed@[j].0 as int],
                    spec_state_after(report.executed@[j].1),
                ),
            forall|i: u64|
                i < old(self).threads().len() && !spec_trace_ids(report.executed@).contains(i)
                    ==> final (self).threads()[i as int] == old(self).threads()[i as int],
            final (self).sync_queue() == Seq::<u64>::empty(),
            final (self).par_queue() == Seq::<u64>::empty(),
            final (self).parked() == spec_survivor_ids(
                old(self).threads(),
                old(self).parked(),
                now_usec,
                signals@,
            ) + spec_yield_ids(report.executed@),
            final (self).log() == old(self).log() + spec_fault_entries(report.executed@),
    {
        let ghost t0 = old(self).threads();
        let ghost sq0 = old(self).sync_queue();
        let ghost pq0 = old(self).par_queue();
        let ghost pk0 = old(self).parked();
        let ghost sv = signals@;
        proof {
            assert((sq0 + pq0 + pk0) =~= (sq0 + pq0) + pk0);
            lemma_distinct_concat_disjoint(sq0 + pq0, pk0);
            lemma_distinct_concat_disjoint(sq0, pq0);
            lemma_contains_split(sq0, pq0);
        }
        let mut sq: Vec<u64> = Vec::new();
        core::mem::swap(&mut sq, &mut self.sync_queue);
        let mut pq: Vec<u64> = Vec::new();
        core::mem::swap(&mut pq, &mut self.par_queue);
        let mut pk: Vec<u64> = Vec::new();
        core::mem::swap(&mut pk, &mut self.yielded);
        let ghost log0 = self.log();
        let was_exclusive = glock.get_exclusive();
        glock.set_exclusive(true);
        let (t1, mut y1) = self.run_ready(&sq, exec);
        glock.set_exclusive(false);
        let ghost m1 = self.threads();
        proof {
            // ids run in the first phase come from the Synchronized queue
            lemma_runnable_ids_subset_contains(t0, sq0);
            // so the Parallel queue saw no change
            assert forall|m: int|
                0 <= m < pq0.len() implies (#[trigger] pq0[m]) < t0.len() && t0[pq0[m] as int]
                == m1[pq0[m] as int] by {
                assert(pq0.contains(pq0[m]));
                if spec_trace_ids(t1@).contains(pq0[m]) {
                    assert(sq0.contains(pq0[m]));
                    assert((sq0 + pq0).contains(pq0[m]));
                }
            }
            lemma_runnable_ids_agree(t0, m1, pq0);
            // nor did the parked list
            assert forall|m: int|
                0 <= m < pk0.len() implies (#[trigger] pk0[m]) < t0.len() && t0[pk0[m] as int]
                == m1[pk0[m] as int] by {
                assert(pk0.contains(pk0[m]));
                if spec_trace_ids(t1@).contains(pk0[m]) {
                    assert(sq0.contains(pk0[m]));
                    assert((sq0 + pq0).contains(pk0[m]));
                }
            }
        }
        let (t2, mut y2) = self.run_ready(&pq, exec);
        let ghost m2 = self.threads();
        proof {
            lemma_runnable_ids_subset_contains(m1, pq0);
            assert(spec_trace_ids(t2@) == spec_runnable_ids(t0, pq0));
            // the parked list is still untouched after the second phase
            assert forall|m: int|
                0 <= m < pk0.len() implies (#[trigger] pk0[m]) < t0.len() && t0[pk0[m] as int]
                == m2[pk0[m] as int] by {
                assert(pk0.contains(pk0[m]));
                if spec_trace_ids(t2@).contains(pk0[m]) {
                    assert(pq0.contains(pk0[m]));
                    assert((sq0 + pq0).contains(pk0[m]));
                }
            }
            lemma_due_ids_agree(t0, m2, pk0, now_usec, sv);
        }
        let (t3, mut y3, survivors) = self.resume_due(&pk, now_usec, signals, exec);
        glock.set_exclusive(was_exclusive);
        proof {
            lemma_due_ids_subset_contains(m2, pk0, now_usec, sv);
            assert(spec_trace_ids(t3@) == spec_due_ids(t0, pk0, now_usec, sv));
            assert(survivors@ == spec_survivor_ids(t0, pk0, now_usec, sv));
        }
        self.yielded = survivors;
        self.yielded.append(&mut y1);
        self.yielded.append(&mut y2);
        self.yielded.append(&mut y3);
        let mut executed = t1;
        let ghost t1v = executed@;
        let ghost t2v = t2@;
        let ghost t3v = t3@;
        let mut t2 = t2;
        let mut t3 = t3;
        executed.append(&mut t2);
        executed.append(&mut t3);
        proof {
            let tv = executed@;
            assert(tv =~= (t1v + t2v) + t3v);
            // the combined trace and its projections
            assert(spec_trace_ids(tv) =~= (spec_trace_ids(t1v) + spec_trace_ids(t2v))
                + spec_trace_ids(t3v));
            lemma_yield_ids_concat(t1v + t2v, t3v);
            lemma_yield_ids_concat(t1v, t2v);
            lemma_fault_entries_concat(t1v + t2v, t3v);
            lemma_fault_entries_concat(t1v, t2v);
            assert(self.parked() =~= spec_survivor_ids(t0, pk0, now_usec, sv) + spec_yield_ids(
                tv,
            ));
            assert(self.log() =~= old(self).log() + spec_fault_entries(tv));
            assert(spec_trace_ids(tv) =~= spec_runnable_ids(t0, sq0) + spec_runnable_ids(t0, pq0)
                + spec_due_ids(t0, pk0, now_usec, sv));
            lemma_contains_split(spec_trace_ids(t1v) + spec_trace_ids(t2v), spec_trace_ids(t3v));
            lemma_contains_split(spec_trace_ids(t1v), spec_trace_ids(t2v));
            lemma_runnable_ids_subset_contains(m1, pq0);
            lemma_due_ids_subset_contains(m2, pk0, now_usec, sv);
            // each dispatched thread carries its own phase's update to the end
            assert forall|j: int|
                0 <= j < tv.len() implies self.threads()[#[trigger] tv[j].0 as int]
                == spec_with_state(t0[tv[j].0 as int], spec_state_after(tv[j].1)) by {
                let x = tv[j].0;
                if j < t1v.len() {
                    assert(tv[j] == t1v[j]);
                    assert(spec_trace_ids(t1v)[j] == x);
                    assert(spec_trace_ids(t1v).contains(x));
                    assert(sq0.contains(x));
                    if spec_trace_ids(t2v).contains(x) {
                        assert(pq0.contains(x));
                        assert((sq0 + pq0).contains(x));
                    }
                    if spec_trace_ids(t3v).contains(x) {
                        assert(pk0.contains(x));
                        assert((sq0 + pq0).contains(x));
                    }
                    assert(m1[x as int] == spec_with_state(t0[x as int], spec_state_after(tv[j].1)));
                    assert(m2[x as int] == m1[x as int]);
                    assert(self.threads()[x as int] == m2[x as int]);
                } else if j < t1v.len() + t2v.len() {
                    assert(tv[j] == t2v[j - t1v.len()]);
                    assert(spec_trace_ids(t2v)[j - t1v.len()] == x);
                    assert(spec_trace_ids(t2v).contains(x));
                    assert(pq0.contains(x));
                    if spec_trace_ids(t3v).contains(x) {
                        assert(pk0.contains(x));
                        assert((sq0 + pq0).contains(x));
                    }
                    assert(m2[x as int] == spec_with_state(m1[x as int], spec_state_after(tv[j].1)));
                    assert(m1[x as int] == t0[x as int] || spec_trace_ids(t1v).contains(x));
                    if spec_trace_ids(t1v).contains(x) {
                        assert(sq0.contains(x));
                        assert((sq0 + pq0).contains(x));
                        assert(false);
                    }
                    assert(self.threads()[x as int] == m2[x as int]);
                } else {
                    assert(tv[j] == t3v[j - t1v.len() - t2v.len()]);
                    assert(spec_trace_ids(t3v)[j - t1v.len() - t2v.len()] == x);
                    assert(spec_trace_ids(t3v).contains(x));
                    assert(pk0.contains(x));
                    assert(self.threads()[x as int] == spec_with_state(
                        m2[x as int],
                        spec_state_after(tv[j].1),
                    ));
                    if spec_trace_ids(t1v).contains(x) {
                        assert(sq0.contains(x));
                        assert((sq0 + pq0).contains(x));
                        assert(false);
                    }
                    if spec_trace_ids(t2v).contains(x) {
                        assert(pq0.contains(x));
                        assert((sq0 + pq0).contains(x));
                        assert(false);
                    }
                    assert(m2[x as int] == t0[x as int]);
                }
            }
            // threads never dispatched are untouched
            assert forall|i: u64|
                i < t0.len() && !spec_trace_ids(tv).contains(i) implies self.threads()[i as int]
                == t0[i as int] by {
                if spec_trace_ids(t1v).contains(i) {
                    let w = choose|w: int|
                        0 <= w < t1v.len() && spec_trace_ids(t1v)[w] == i;
                    assert(spec_trace_ids(tv)[w] == i);
                    assert(false);
                }
                if spec_trace_ids(t2v).contains(i) {
                    let w = choose|w: int|
                        0 <= w < t2v.len() && spec_trace_ids(t2v)[w] == i;
                    assert(spec_trace_ids(tv)[t1v.len() + w] == i);
                    assert(false);
                }
                if spec_trace_ids(t3v).contains(i) {
                    let w = choose|w: int|
                        0 <= w < t3v.len() && spec_trace_ids(t3v)[w] == i;
                    assert(spec_trace_ids(tv)[t1v.len() + t2v.len() + w] == i);
                    assert(false);
                }
            }
            // well-formedness of the new parked list
            lemma_runnable_ids_distinct(t0, sq0);
            lemma_runnable_ids_distinct(t0, pq0);
            lemma_due_ids_distinct(t0, pk0, now_usec, sv);
            lemma_yield_ids_distinct(t1v);
            lemma_yield_ids_distinct(t2v);
            lemma_yield_ids_distinct(t3v);
            lemma_yield_ids_subset_contains(t1v);
            lemma_yield_ids_subset_contains(t2v);
            lemma_yield_ids_subset_contains(t3v);
            lemma_runnable_ids_subset_contains(t0, sq0);
            lemma_runnable_ids_subset_contains(t0, pq0);
            lemma_due_ids_subset_contains(t0, pk0, now_usec, sv);
            lemma_survivor_ids_subset_contains(t0, pk0, now_usec, sv);
            let su = spec_survivor_ids(t0, pk0, now_usec, sv);
            let yi1 = spec_yield_ids(t1v);
            let yi2 = spec_yield_ids(t2v);
            let yi3 = spec_yield_ids(t3v);
            assert forall|x: u64| su.contains(x) implies !yi1.contains(x) by {
                if yi1.contains(x) {
                    assert(sq0.contains(x) && pk0.contains(x));
                    assert((sq0 + pq0).contains(x));
                }
            }
            lemma_distinct_concat_parts(su, yi1);
            lemma_contains_split(su, yi1);
            assert forall|x: u64| (su + yi1).contains(x) implies !yi2.contains(x) by {
                if yi2.contains(x) {
                    assert(pq0.contains(x));
                    if su.contains(x) {
                        assert(pk0.contains(x));
                        assert((sq0 + pq0).contains(x));
                    }
                    if yi1.contains(x) {
                        assert(sq0.contains(x));
                        assert((sq0 + pq0).contains(x));
                    }
                }
            }
            lemma_distinct_concat_parts(su + yi1, yi2);
            lemma_contains_split(su + yi1, yi2);
            assert forall|x: u64| ((su + yi1) + yi2).contains(x) implies !yi3.contains(x) by {
                if yi3.contains(x) {
                    assert(spec_due(t0, x, now_usec, sv));
                    assert(pk0.contains(x));
                    if su.contains(x) {
                        assert(!spec_due(t0, x, now_usec, sv));
                    }
                    if yi1.contains(x) {
                        assert(sq0.contains(x));
                        assert((sq0 + pq0).contains(x));
                    }
                    if yi2.contains(x) {
                        assert(pq0.contains(x));
                        assert((sq0 + pq0).contains(x));
                    }
                }
            }
            lemma_distinct_concat_parts((su + yi1) + yi2, yi3);
            assert(self.parked() =~= ((su + yi1) + yi2) + yi3);
            assert(spec_distinct(self.parked()));
            assert forall|m: int|
                0 <= m < self.parked().len() implies (#[trigger] self.parked()[m])
                < self.threads().len() by {
                let x = self.parked()[m];
                assert(self.parked().contains(x));
                lemma_contains_split((su + yi1) + yi2, yi3);
                if su.contains(x) {
                } else if yi1.contains(x) {
                    assert(sq0.contains(x) && spec_runnable(t0, x));
                } else if yi2.contains(x) {
                    assert(pq0.contains(x) && spec_runnable(t0, x));
                } else {
                    assert(yi3.contains(x));
                    assert(spec_due(t0, x, now_usec, sv));
                }
            }
            assert(self.sync_queue() + self.par_queue() + self.parked() =~= self.parked());
            crate::coordlock::lemma_global_lock_eq(*glock, *old(glock));
        }
        FrameReport { executed }
    }

    /// How many logical threads this scheduler has ever spawned.
    pub fn thread_count(&self) -> (n: usize)
        ensures
            n == self.threads().len(),
    {
        self.threads.len()
    }

    /// The lifecycle state of one thread.
    pub fn thread_state(&self, id: u64) -> (s: ThreadState)
        requires
            id < self.threads().len(),
        ensures
            s == self.threads()[id as int].state,
    {
        let n = self.threads.len();
        assert(id < n as u64);
        self.threads[id as usize].state
    }

    /// The identity one thread carries.
    pub fn get_thread_identity(&self, id: u64) -> (r: ThreadIdentity)
        requires
            id < self.threads().len(),
        ensures
            r == self.threads()[id as int].identity,
    {
        let n = self.threads.len();
        assert(id < n as u64);
        self.threads[id as usize].identity
    }

    /// How many entries the fault log holds.
    pub fn log_len(&self) -> (n: usize)
        ensures
            n == self.log().len(),
    {
        self.log.len()
    }

    /// One fault-log entry: its severity and a copy of its message.
    pub fn log_entry(&self, i: usize) -> (r: (MessageType, String))
        requires
            i < self.log().len(),
        ensures
            r.0 == self.log()[i as int].0,
            r.1@ == self.log()[i as int].1,
    {
        let entry = &self.log[i];
        (entry.0, entry.1.clone())
    }

    /// How many tasks wait in the Synchronized queue.
    pub fn sync_queue_len(&self) -> (n: usize)
        ensures
            n == self.sync_queue().len(),
    {
        self.sync_queue.len()
    }

    /// How many tasks wait in the Parallel queue.
    pub fn par_queue_len(&self) -> (n: usize)
        ensures
            n == self.par_queue().len(),
    {
        self.par_queue.len()
    }

    /// How many threads are parked.
    pub fn parked_len(&self) -> (n: usize)
        ensures
            n == self.parked().len(),
    {
        self.yielded.len()
    }
}

/// What one scheduling tick did: every dispatched thread paired with the
/// outcome the host reported for it, in execution order.
pub struct FrameReport {
    pub executed: Vec<(u64, ExecOutcome)>,
}

/// Synchronized tasks run in strict enqueue order: while every queued task
/// is still ready to start, the ready entries of the queue are the queue
/// itself, so a scheduling tick dispatches them exactly in enqueue order,
/// before any Parallel task and before any resumed thread. Schedulers of
/// different interpreter states are separate values, so deferring work on
/// one cannot reorder another's queue.
pub proof fn lemma_synchronized_fifo(threads: Seq<LogicalThread>, q: Seq<u64>)
    requires
        forall|i: int| 0 <= i < q.len() ==> spec_runnable(threads, #[trigger] q[i]),
    ensures
        spec_runnable_ids(threads, q) == q,
    decreases q.len(),
{
    if q.len() > 0 {
        assert(spec_runnable(threads, q[0]));
        assert forall|i: int|
            0 <= i < q.drop_first().len() implies spec_runnable(
            threads,
            #[trigger] q.drop_first()[i],
        ) by {
            assert(q.drop_first()[i] == q[i + 1]);
        }
        lemma_synchronized_fifo(threads, q.drop_first());
        assert(spec_runnable_ids(threads, q) =~= q);
    }
}

} // verus!
