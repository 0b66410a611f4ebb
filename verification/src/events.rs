//! Events, poll outcomes and errors of the supervisor.

use vstd::prelude::*;

verus! {

/// Which output stream of the child a line came from.
#[derive(Clone, Copy, PartialEq, Eq, Structural, Debug)]
pub enum StreamKind {
    Stdout,
    Stderr,
}

/// A record handed to the caller's event sink: one line of child output,
/// or the single terminal exit notification with the child's exit code
/// (`-1` for abnormal termination).
pub enum Event {
    Line { stream: StreamKind, text: String },
    Exit { code: i32 },
}

/// The name under which a standard-output line is emitted.
pub open spec fn stdout_event_text() -> Seq<char> {
    "server-stdout"@
}

/// The name under which a standard-error line is emitted.
pub open spec fn stderr_event_text() -> Seq<char> {
    "server-stderr"@
}

/// The name under which the terminal exit event is emitted.
pub open spec fn exit_event_text() -> Seq<char> {
    "server-exit"@
}

impl Event {
    /// The name under which the caller's event sink receives this record.
    pub fn name(&self) -> (s: &'static str)
        ensures
            match self {
                Event::Line { stream: StreamKind::Stdout, .. } => s@ == stdout_event_text(),
                Event::Line { stream: StreamKind::Stderr, .. } => s@ == stderr_event_text(),
                Event::Exit { .. } => s@ == exit_event_text(),
            },
    {
        match self {
            Event::Line { stream: StreamKind::Stdout, .. } => "server-stdout",
            Event::Line { stream: StreamKind::Stderr, .. } => "server-stderr",
            Event::Exit { .. } => "server-exit",
        }
    }
}

/// What a liveness poll of the tracked child reported.
///
/// `Exited` carries the exit code when the child terminated normally and
/// `None` when it was ended by a signal. `InspectFailed` means the platform
/// could not determine the child's state; the supervisor treats that as
/// termination.
#[derive(Clone, Copy, PartialEq, Eq, Structural, Debug)]
pub enum PollResult {
    Alive,
    Exited(Option<i32>),
    InspectFailed,
}

/// Why a start request was refused.
#[derive(Debug)]
pub enum StartError {
    /// A previously started child is still alive.
    AlreadyRunning,
    /// The operating system could not create the process; carries the
    /// attempted command and the underlying cause.
    SpawnFailed { command: String, cause: String },
}

/// Why a stop request failed.
#[derive(Debug)]
pub enum StopError {
    /// No child is currently tracked.
    NotRunning,
    /// The termination request itself failed; carries the underlying cause.
    /// The handle stays tracked.
    KillFailed { cause: String },
}

/// What one tick of the exit monitor decided.
#[derive(Clone, Copy, PartialEq, Eq, Structural, Debug)]
pub enum MonitorStep {
    /// The child terminated: emit the one exit event with this code and end
    /// the monitor.
    Emit(i32),
    /// The child is still alive: sleep and poll again.
    KeepWaiting,
    /// The slot was already cleared by a concurrent stop: end the monitor
    /// without emitting.
    Stopped,
}

} // verus!
