//! What can go wrong with a worker, and how each failure reads.
use vstd::prelude::*;
use vstd::string::*;

verus! {

/// A failure of the supervisor.
#[derive(Debug, Clone, PartialEq, Eq)]
pub enum Error {
    /// The supervisor is itself running as a managed worker: launching
    /// another would recurse without end. No process was created.
    RecursiveLaunchRejected,
    /// The operating system could not start the worker.
    LaunchFailed { command: String, cause: String },
    /// The worker is gone. The message holds what it last printed and how it
    /// ended.
    SubprocessTerminated(String),
    /// Reading the worker's output failed though the worker is not known to
    /// be gone.
    Io(String),
}

/// An [`Error`] with its texts as sequences of characters.
pub enum ErrorView {
    RecursiveLaunchRejected,
    LaunchFailed { command: Seq<char>, cause: Seq<char> },
    SubprocessTerminated(Seq<char>),
    Io(Seq<char>),
}

impl View for Error {
    type V = ErrorView;

    open spec fn view(&self) -> ErrorView {
        match self {
            Error::RecursiveLaunchRejected => ErrorView::RecursiveLaunchRejected,
            Error::LaunchFailed { command, cause } => ErrorView::LaunchFailed {
                command: command@,
                cause: cause@,
            },
            Error::SubprocessTerminated(message) => ErrorView::SubprocessTerminated(message@),
            Error::Io(message) => ErrorView::Io(message@),
        }
    }
}

impl ErrorView {
    /// The failure in words.
    pub open spec fn message(self) -> Seq<char> {
        match self {
            ErrorView::RecursiveLaunchRejected => "Our current binary doesn't call runtime_hook()"@,
            ErrorView::LaunchFailed { command, cause } => "Failed to run '"@ + command + "': "@
                + cause,
            ErrorView::SubprocessTerminated(message) => message,
            ErrorView::Io(message) => message,
        }
    }
}

impl Error {
    /// The failure in words.
    pub fn message(&self) -> (text: String)
        ensures
            text@ == self@.message(),
    {
        match self {
            Error::RecursiveLaunchRejected => "Our current binary doesn't call runtime_hook()".to_owned(),
            Error::LaunchFailed { command, cause } => {
                let mut text = "Failed to run '".to_owned();
                text.append(command.as_str());
                text.append("': ");
                text.append(cause.as_str());
                text
            },
            Error::SubprocessTerminated(message) => message.clone(),
            Error::Io(message) => message.clone(),
        }
    }
}

} // verus!
