//! Supervision of a single long-running child process.
//!
//! The crate holds the decision logic of a process supervisor: which start
//! and stop requests succeed, how a liveness poll retires a stale handle,
//! when the exit monitor emits its terminal event, and how the child's
//! output streams are split into lines. The surrounding shell performs the
//! actual spawning, polling and event delivery, and feeds every outcome
//! back into these functions as plain values.

use vstd::prelude::*;

mod events;
mod launcher;
mod lines;
mod monitor;
mod store;

pub use events::Event;
pub use events::exit_event_text;
pub use events::stderr_event_text;
pub use events::stdout_event_text;
pub use events::MonitorStep;
pub use events::PollResult;
pub use events::StartError;
pub use events::StopError;
pub use events::StreamKind;
pub use launcher::decimal_digits;
pub use launcher::default_exe_text;
pub use launcher::digit_char;
pub use launcher::main_entry_text;
pub use launcher::port_flag_text;
pub use launcher::port_text;
pub use launcher::resolve_exe;
pub use launcher::spawn_args;
pub use lines::LineSplitter;
pub use lines::all_newline_free;
pub use lines::chomp_cr;
pub use lines::join_lines;
pub use lines::lemma_chunks_compose;
pub use lines::lemma_line_decomposition_unique;
pub use lines::line_views;
pub use lines::newline_free;
pub use lines::relay_line;
pub use lines::strip_trailing_cr;
pub use monitor::lemma_exit_code_reported;
pub use monitor::lemma_one_exit_event;
pub use monitor::monitor_emits;
pub use store::ProcessStore;
pub use store::SlotOp;
pub use store::exit_code_spec;
pub use store::handle_count;
pub use store::lemma_at_most_one_handle;
pub use store::lemma_cleared_stays_cleared;
pub use store::lemma_query_flips_once;
pub use store::lemma_slot_run_append;
pub use store::query_answer;
pub use store::op_started;
pub use store::slot_run;
pub use store::slot_step;
pub use store::monitor_step_spec;
pub use store::poll_next;
pub use store::start_next;
pub use store::stop_next;

verus! {

/// The build version reported by `get_version`.
pub open spec fn version_text() -> Seq<char> {
    "0.1.0"@
}

/// Static build metadata; touches no shared state.
pub fn get_version() -> (v: String)
    ensures
        v@ == version_text(),
{
    "0.1.0".to_owned()
}

} // verus!
