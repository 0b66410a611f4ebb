//! The shared process slot and the critical sections that read or mutate it.
//!
//! The store tracks at most one child process, identified by its process id.
//! Every operation of the lifecycle (start, stop, liveness query, monitor
//! tick) is an inspect-then-mutate step on the slot; the caller runs each
//! step while holding its own mutual-exclusion lock and supplies the outcome
//! of any poll, spawn or kill it performed, so the decision itself is pure.

use vstd::prelude::*;

use crate::events::MonitorStep;
use crate::events::PollResult;
use crate::events::StartError;
use crate::events::StopError;

verus! {

/// How a liveness poll moves the slot: an alive child stays tracked, a
/// terminated or uninspectable one is retired, an empty slot stays empty.
pub open spec fn poll_next(slot: Option<u32>, poll: Option<PollResult>) -> Option<u32> {
    if poll == Some(PollResult::Alive) {
        slot
    } else {
        None::<u32>
    }
}

/// How a start request moves the slot: refused while the child is alive,
/// set on a successful spawn, untouched on a failed one.
pub open spec fn start_next(
    slot: Option<u32>,
    poll: Option<PollResult>,
    spawn: Result<u32, String>,
) -> Option<u32> {
    if poll == Some(PollResult::Alive) {
        slot
    } else {
        match spawn {
            Ok(pid) => Some(pid),
            Err(_) => slot,
        }
    }
}

/// How a stop request moves the slot: cleared once the kill succeeded,
/// otherwise untouched.
pub open spec fn stop_next(slot: Option<u32>, kill: Result<(), String>) -> Option<u32> {
    match slot {
        Some(_) => if kill is Ok {
            None::<u32>
        } else {
            slot
        },
        None => None::<u32>,
    }
}

/// The exit code reported to the caller: the child's own code when it
/// terminated normally, `-1` when it was ended by a signal or could not
/// be inspected.
pub open spec fn exit_code_spec(poll: PollResult) -> i32 {
    match poll {
        PollResult::Exited(Some(code)) => code,
        _ => -1i32,
    }
}

/// What one monitor tick decides for a given slot and poll outcome.
pub open spec fn monitor_step_spec(slot: Option<u32>, poll: Option<PollResult>) -> MonitorStep {
    match slot {
        None => MonitorStep::Stopped,
        Some(_) => match poll {
            Some(PollResult::Alive) => MonitorStep::KeepWaiting,
            Some(p) => MonitorStep::Emit(exit_code_spec(p)),
            None => MonitorStep::Stopped,
        },
    }
}

/// One serialized operation on the slot, together with the outside
/// outcomes (poll, spawn, kill) the caller observed while performing it.
/// The caller's lock puts all operations in one total order, so a whole
/// lifecycle is a sequence of these.
pub enum SlotOp {
    Query { poll: Option<PollResult> },
    Start { poll: Option<PollResult>, spawn: Result<u32, String> },
    Stop { kill: Result<(), String> },
    MonitorTick { poll: Option<PollResult> },
}

/// The slot after one operation, as the operations of `ProcessStore`
/// ensure it.
pub open spec fn slot_step(slot: Option<u32>, op: SlotOp) -> Option<u32> {
    match op {
        SlotOp::Query { poll } => poll_next(slot, poll),
        SlotOp::Start { poll, spawn } => start_next(slot, poll, spawn),
        SlotOp::Stop { kill } => stop_next(slot, kill),
        SlotOp::MonitorTick { poll } => poll_next(slot, poll),
    }
}

/// The slot after a sequence of operations.
pub open spec fn slot_run(slot: Option<u32>, ops: Seq<SlotOp>) -> Option<u32>
    decreases ops.len(),
{
    if ops.len() == 0 {
        slot
    } else {
        slot_run(slot_step(slot, ops[0]), ops.skip(1))
    }
}

/// What a liveness query answers: true exactly when a child is tracked and
/// its poll reported it alive.
pub open spec fn query_answer(slot: Option<u32>, poll: Option<PollResult>) -> bool {
    slot is Some && poll == Some(PollResult::Alive)
}

/// Running a concatenation of operation sequences is running them in turn.
pub proof fn lemma_slot_run_append(slot: Option<u32>, a: Seq<SlotOp>, b: Seq<SlotOp>)
    ensures
        slot_run(slot, a + b) == slot_run(slot_run(slot, a), b),
    decreases a.len(),
{
    if a.len() == 0 {
        assert(a + b =~= b);
    } else {
        assert((a + b)[0] == a[0]);
        assert((a + b).skip(1) =~= a.skip(1) + b);
        lemma_slot_run_append(slot_step(slot, a[0]), a.skip(1), b);
    }
}

/// How many handles the slot tracks.
pub open spec fn handle_count(slot: Option<u32>) -> nat {
    if slot is Some {
        1nat
    } else {
        0nat
    }
}

/// True when the operation is a start whose spawn succeeded with this pid.
pub open spec fn op_started(op: SlotOp, pid: u32) -> bool {
    match op {
        SlotOp::Start { poll, spawn } => poll != Some(PollResult::Alive) && spawn == Ok::<
            u32,
            String,
        >(pid),
        _ => false,
    }
}

proof fn lemma_handle_provenance(slot: Option<u32>, ops: Seq<SlotOp>)
    ensures
        slot_run(slot, ops) matches Some(pid) ==> slot == Some(pid) || exists|j: int|
            0 <= j < ops.len() && op_started(ops[j], pid),
    decreases ops.len(),
{
    if ops.len() > 0 {
        let next = slot_step(slot, ops[0]);
        lemma_handle_provenance(next, ops.skip(1));
        match slot_run(slot, ops) {
            Some(pid) => {
                if next == Some::<u32>(pid) {
                    if slot != Some::<u32>(pid) {
                        assert(op_started(ops[0], pid));
                    }
                } else {
                    let j = choose|j: int|
                        0 <= j < ops.skip(1).len() && op_started(ops.skip(1)[j], pid);
                    assert(op_started(ops[j + 1], pid));
                }
            },
            None => {},
        }
    }
}

/// The store tracks at most one live handle at every instant of every
/// operation sequence, and a tracked handle always stems from a successful
/// start: run from the empty slot it was created with, the slot holds a
/// pid only if some start in the sequence spawned a child with that pid.
/// (The instants are well-defined because the caller's lock serializes the
/// operations.)
pub proof fn lemma_at_most_one_handle(ops: Seq<SlotOp>)
    ensures
        forall|i: int|
            0 <= i <= ops.len() ==> handle_count(
                #[trigger] slot_run(None::<u32>, ops.take(i)),
            ) <= 1,
        slot_run(None::<u32>, ops) matches Some(pid) ==> exists|j: int|
            0 <= j < ops.len() && op_started(ops[j], pid),
{
    lemma_handle_provenance(None::<u32>, ops);
}

/// Once the slot is empty, no sequence of queries, stops and monitor ticks
/// revives it: only a successful start makes `isRunning` true again, so a
/// liveness query that observed termination has retired the handle for
/// good and every later query answers false.
pub proof fn lemma_cleared_stays_cleared(ops: Seq<SlotOp>)
    requires
        forall|j: int| 0 <= j < ops.len() ==> !(#[trigger] ops[j] is Start),
    ensures
        slot_run(None::<u32>, ops) is None,
    decreases ops.len(),
{
    if ops.len() > 0 {
        assert(slot_step(None::<u32>, ops[0]) is None);
        assert(forall|j: int| 0 <= j < ops.skip(1).len() ==> !(#[trigger] ops.skip(1)[j] is Start));
        lemma_cleared_stays_cleared(ops.skip(1));
    }
}

proof fn lemma_slot_run_one(slot: Option<u32>, op: SlotOp)
    ensures
        slot_run(slot, seq![op]) == slot_step(slot, op),
{
    assert(seq![op].len() == 1);
    assert(seq![op][0] == op);
    assert(seq![op].skip(1) =~= Seq::<SlotOp>::empty());
    assert(slot_run(slot_step(slot, op), Seq::<SlotOp>::empty()) == slot_step(slot, op));
}

/// The liveness answer flips from true to false at most once per launch:
/// once the query at position `i` of a run answers false, every later
/// query answers false too, as long as no start lies between them.
pub proof fn lemma_query_flips_once(slot: Option<u32>, ops: Seq<SlotOp>, i: int, j: int)
    requires
        0 <= i < j < ops.len(),
        ops[i] matches SlotOp::Query { poll: pi } && !query_answer(
            slot_run(slot, ops.take(i)),
            pi,
        ),
        forall|k: int| i < k < j ==> !(#[trigger] ops[k] is Start),
    ensures
        ops[j] matches SlotOp::Query { poll: pj } ==> !query_answer(
            slot_run(slot, ops.take(j)),
            pj,
        ),
{
    let si = slot_run(slot, ops.take(i));
    assert(ops.take(i + 1) =~= ops.take(i) + seq![ops[i]]);
    lemma_slot_run_append(slot, ops.take(i), seq![ops[i]]);
    lemma_slot_run_one(si, ops[i]);
    assert(slot_run(slot, ops.take(i + 1)) is None);
    let mid = ops.take(j).skip(i + 1);
    assert(ops.take(j) =~= ops.take(i + 1) + mid);
    lemma_slot_run_append(slot, ops.take(i + 1), mid);
    assert(forall|k: int| 0 <= k < mid.len() ==> !(#[trigger] mid[k] is Start)) by {
        assert(forall|k: int|
            0 <= k < mid.len() ==> mid[k] == ops.take(j)[k + i + 1] && ops.take(j)[k + i + 1]
                == ops[k + i + 1]);
    }
    lemma_cleared_stays_cleared(mid);
    assert(slot_run(slot, ops.take(j)) is None);
}

/// The lock-protected cell holding the currently tracked child, if any.
pub struct ProcessStore {
    slot: Option<u32>,
}

impl ProcessStore {
    /// The process id of the tracked child; `None` when the slot is empty.
    pub closed spec fn pid(&self) -> Option<u32> {
        self.slot
    }

    /// A new store tracks nothing.
    pub fn new() -> (store: Self)
        ensures
            store.pid() is None,
    {
        ProcessStore { slot: None }
    }

    /// The tracked process id, for the caller that must poll or kill it.
    pub fn current_pid(&self) -> (pid: Option<u32>)
        ensures
            pid == self.pid(),
    {
        self.slot
    }

    /// The liveness query: retires the handle unless the poll reported the
    /// child alive, and answers whether a live child remains tracked.
    pub fn query_running(&mut self, poll: Option<PollResult>) -> (running: bool)
        requires
            old(self).pid() is Some <==> poll is Some,
        ensures
            final(self).pid() == poll_next(old(self).pid(), poll),
            running == query_answer(old(self).pid(), poll),
    {
        match poll {
            Some(PollResult::Alive) => true,
            Some(_) => {
                self.slot = None;
                false
            },
            None => false,
        }
    }

    /// The admission step of a start request: refused with `AlreadyRunning` exactly
    /// when the tracked child's poll reported it alive; the slot itself is
    /// not touched.
    pub fn start_precheck(&self, poll: Option<PollResult>) -> (r: Result<(), StartError>)
        requires
            self.pid() is Some <==> poll is Some,
        ensures
            r is Err <==> poll == Some(PollResult::Alive),
            r is Err ==> r matches Err(StartError::AlreadyRunning),
    {
        match poll {
            Some(PollResult::Alive) => Err(StartError::AlreadyRunning),
            _ => Ok(()),
        }
    }

    /// Registers the outcome of a spawn: a new pid is recorded and returned;
    /// a failure leaves the slot exactly as it was and is reported as
    /// `SpawnFailed` carrying the attempted command and the cause.
    pub fn register_spawn(&mut self, outcome: Result<u32, String>, command: String) -> (r: Result<
        u32,
        StartError,
    >)
        ensures
            final(self).pid() == start_next(old(self).pid(), None, outcome),
            match outcome {
                Ok(pid) => final(self).pid() == Some(pid) && r == Ok::<u32, StartError>(pid),
                Err(cause) => final(self).pid() == old(self).pid() && (r matches Err(
                    StartError::SpawnFailed { command: rc, cause: re },
                ) && rc == command && re == cause),
            },
    {
        match outcome {
            Ok(pid) => {
                self.slot = Some(pid);
                Ok(pid)
            },
            Err(cause) => Err(StartError::SpawnFailed { command, cause }),
        }
    }

    /// The admission step of a stop request: hands back the pid to terminate, or
    /// `NotRunning` when the slot is empty. No event accompanies either
    /// answer.
    pub fn stop_decide(&self) -> (r: Result<u32, StopError>)
        ensures
            match self.pid() {
                Some(pid) => r == Ok::<u32, StopError>(pid),
                None => r matches Err(StopError::NotRunning),
            },
    {
        match self.slot {
            Some(pid) => Ok(pid),
            None => Err(StopError::NotRunning),
        }
    }

    /// Registers the outcome of the kill that a stop request performed: on
    /// success the slot is cleared, on failure it is left as it was and the
    /// cause is reported.
    pub fn stop_finish(&mut self, kill: Result<(), String>) -> (r: Result<(), StopError>)
        requires
            old(self).pid() is Some,
        ensures
            final(self).pid() == stop_next(old(self).pid(), kill),
            match kill {
                Ok(_) => final(self).pid() is None && r is Ok,
                Err(cause) => final(self).pid() == old(self).pid() && (r matches Err(
                    StopError::KillFailed { cause: rc },
                ) && rc == cause),
            },
    {
        match kill {
            Ok(_) => {
                self.slot = None;
                Ok(())
            },
            Err(cause) => Err(StopError::KillFailed { cause }),
        }
    }

    /// One tick of the exit monitor: under the caller's lock, decide from
    /// the poll outcome whether to emit the terminal event (retiring the
    /// handle), keep waiting, or end silently because a concurrent stop
    /// already cleared the slot.
    pub fn monitor_tick(&mut self, poll: Option<PollResult>) -> (step: MonitorStep)
        requires
            old(self).pid() is Some <==> poll is Some,
        ensures
            final(self).pid() == poll_next(old(self).pid(), poll),
            step == monitor_step_spec(old(self).pid(), poll),
    {
        match poll {
            Some(PollResult::Alive) => MonitorStep::KeepWaiting,
            Some(PollResult::Exited(code)) => {
                self.slot = None;
                match code {
                    Some(c) => MonitorStep::Emit(c),
                    None => MonitorStep::Emit(-1),
                }
            },
            Some(PollResult::InspectFailed) => {
                self.slot = None;
                MonitorStep::Emit(-1)
            },
            None => MonitorStep::Stopped,
        }
    }
}

} // verus!

