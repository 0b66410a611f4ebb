//! The exit monitor as a whole run: what a sequence of ticks emits.
//!
//! The caller runs the monitor loop: sleep, poll the tracked child, feed
//! the outcome into `ProcessStore::monitor_tick` under the lock, and act on
//! the step it returns. The spec function here folds that loop over a
//! sequence of poll outcomes, and the law below states its terminal-event
//! guarantee.

use vstd::prelude::*;

use crate::events::MonitorStep;
use crate::events::PollResult;
use crate::store::exit_code_spec;
use crate::store::monitor_step_spec;

verus! {

/// The exit codes a monitor run emits, started on the given slot, one poll
/// outcome per tick, until the run ends or the polls run out. A tick that
/// decides `Emit` or `Stopped` ends the run.
pub open spec fn monitor_emits(slot: Option<u32>, polls: Seq<PollResult>) -> Seq<i32>
    decreases polls.len(),
{
    if polls.len() == 0 {
        Seq::<i32>::empty()
    } else {
        match monitor_step_spec(slot, if slot is Some {
            Some(polls[0])
        } else {
            None
        }) {
            MonitorStep::Emit(code) => seq![code],
            MonitorStep::KeepWaiting => monitor_emits(slot, polls.skip(1)),
            MonitorStep::Stopped => Seq::<i32>::empty(),
        }
    }
}

/// Exactly one terminal event per launch: a monitor run emits at most one
/// exit event; it emits exactly one as soon as any poll observes
/// termination or fails to inspect the child; and it emits none when the
/// slot was already cleared by a concurrent stop, however many polls
/// follow.
pub proof fn lemma_one_exit_event(slot: Option<u32>, polls: Seq<PollResult>)
    ensures
        monitor_emits(slot, polls).len() <= 1,
        slot is Some && (exists|i: int|
            0 <= i < polls.len() && polls[i] != PollResult::Alive) ==> monitor_emits(
            slot,
            polls,
        ).len() == 1,
        slot is None ==> monitor_emits(slot, polls) == Seq::<i32>::empty(),
    decreases polls.len(),
{
    if polls.len() > 0 {
        lemma_one_exit_event(slot, polls.skip(1));
        if slot is Some && exists|i: int|
            0 <= i < polls.len() && polls[i] != PollResult::Alive {
            let i = choose|i: int| 0 <= i < polls.len() && polls[i] != PollResult::Alive;
            if polls[0] == PollResult::Alive {
                assert(0 <= i - 1 < polls.skip(1).len() && polls.skip(1)[i - 1]
                    != PollResult::Alive);
            }
        }
    }
}

/// The event a monitor run emits carries the child's own exit code when it
/// terminated normally with one, and `-1` when it was ended by a signal or
/// could not be inspected: the code of the first poll that did not report
/// the child alive.
pub proof fn lemma_exit_code_reported(slot: Option<u32>, polls: Seq<PollResult>, i: int)
    requires
        slot is Some,
        0 <= i < polls.len(),
        polls[i] != PollResult::Alive,
        forall|j: int| 0 <= j < i ==> polls[j] == PollResult::Alive,
    ensures
        monitor_emits(slot, polls) == seq![exit_code_spec(polls[i])],
    decreases i,
{
    if i > 0 {
        lemma_exit_code_reported(slot, polls.skip(1), i - 1);
        assert(polls.skip(1)[i - 1] == polls[i]);
    }
}

} // verus!
