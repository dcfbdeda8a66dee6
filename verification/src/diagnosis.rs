//! What the supervisor says when its worker is gone.
use vstd::prelude::*;
use vstd::string::*;

verus! {

/// The signal that points to an emulation problem rather than to a fault of
/// the worker.
pub const EMULATION_KILL_SIGNAL: i32 = 9;

/// How a worker ended, as the operating system reported it.
#[derive(Debug, Clone, PartialEq, Eq)]
pub struct ExitReport {
    /// The exit status in words.
    pub status: String,
    /// The signal that ended the worker. `None` where it ended otherwise, and
    /// on platforms whose signals say nothing about emulation.
    pub signal: Option<i32>,
}

/// The diagnosis of a worker that ended: advice where the signal calls for
/// it, otherwise what the worker last printed, then its exit status.
pub open spec fn exit_message(printed: Seq<char>, status: Seq<char>, signal: Option<i32>) -> Seq<
    char,
> {
    if signal == Some(EMULATION_KILL_SIGNAL) {
        "Subprocess terminated with signal 9. This is known to happen when evcxr is installed via a Homebrew shell under emulation. Try installing rustup and evcxr without using Homebrew and see if that helps."@
    } else {
        printed + "Subprocess terminated with status: "@ + status
    }
}

/// The diagnosis of a worker whose end could not be observed.
pub open spec fn wait_failure_message(cause: Seq<char>) -> Seq<char> {
    "Subprocess didn't start: "@ + cause
}

/// Writes the diagnosis of a worker that ended, from what it last printed
/// and the report of its end.
pub fn describe_exit(printed: String, report: &ExitReport) -> (message: String)
    ensures
        message@ == exit_message(printed@, report.status@, report.signal),
{
    let by_emulation = match report.signal {
        Some(signal) => signal == EMULATION_KILL_SIGNAL,
        None => false,
    };
    if by_emulation {
        "Subprocess terminated with signal 9. This is known to happen when evcxr is installed via a Homebrew shell under emulation. Try installing rustup and evcxr without using Homebrew and see if that helps.".to_owned()
    } else {
        let mut message = printed;
        message.append("Subprocess terminated with status: ");
        message.append(report.status.as_str());
        message
    }
}

/// Writes the diagnosis of a worker whose end could not be observed.
pub fn describe_wait_failure(cause: &str) -> (message: String)
    ensures
        message@ == wait_failure_message(cause@),
{
    let mut message = "Subprocess didn't start: ".to_owned();
    message.append(cause);
    message
}

} // verus!
