//! The lifecycle of one supervised worker, as a machine that decides and
//! never touches the operating system.
//!
//! Every operation starts with a call ([`ChildProcess::send`],
//! [`ChildProcess::recv_line`], [`ChildProcess::restart`],
//! [`ChildProcess::shutdown`]) and proceeds in [`Step`]s. While the step is
//! [`Step::Perform`], the caller carries out the [`Action`] and reports what
//! came of it to [`ChildProcess::on_event`], which answers with the next
//! step. [`Step::Finished`] ends the operation with its [`Outcome`].
use crate::config::{command_text, launch_plan, LaunchPlan, PlanView, ProcessConfig};
use crate::diagnosis::{
    describe_exit,
    describe_wait_failure,
    exit_message,
    wait_failure_message,
    ExitReport,
};
use crate::errors::{Error, ErrorView};
use crate::lines::{after_first_line, first_line, has_line, LineBuffer};
use crate::text::{encode_line, joined, next_text, text_lines, wire_form, NextText};
use crate::trace::{lemma_advance_keeps_consistent, Input};
use vstd::pervasive::unreached;
use vstd::prelude::*;
use vstd::string::*;
use vstd::utf8::*;

verus! {

/// Where the supervisor stands. Every stage but `Idle` and `Closed` waits for
/// the outcome of one action.
#[derive(Debug, Clone, Copy, PartialEq, Eq, Structural)]
pub enum Stage {
    /// The first worker is being started.
    Launching,
    /// No operation is under way.
    Idle,
    /// A line is being written to the worker.
    Sending,
    /// The worker's output is being read for the next line.
    Receiving,
    /// The connection broke; the forwarder of the error stream is awaited.
    Syncing,
    /// The connection broke; what the worker last printed is being read.
    Draining,
    /// The connection broke; the worker's exit is awaited.
    Reaping,
    /// A restart was asked for; whether the worker still runs is being found
    /// out.
    Probing,
    /// A restart was asked for; the worker is being killed.
    Killing,
    /// A restart was asked for; the killed worker's exit is awaited.
    Burying,
    /// A restart was asked for; the new worker is being started.
    Relaunching,
    /// The supervisor is shutting down; the worker's input is being closed.
    Closing,
    /// The supervisor is shutting down; the worker's exit is awaited.
    Departing,
    /// There is no worker: the first one could not be started, or the
    /// supervisor has shut down.
    Closed,
}

/// What the supervisor asks its caller to do.
#[derive(Debug, Clone, PartialEq, Eq)]
pub enum Action {
    /// Start the worker as the supervisor's plan says, keep the ends of its
    /// three pipes, and start forwarding its error stream.
    Spawn,
    /// Write these bytes to the worker's input and flush.
    Write(Vec<u8>),
    /// Read the next bytes of the worker's output.
    Read,
    /// Wait until the forwarder of the worker's error stream has finished.
    AwaitForwarder,
    /// Wait until the worker has exited.
    Wait,
    /// Find out, without waiting, whether the worker has exited.
    Poll,
    /// Kill the worker.
    Kill,
    /// Close the worker's input.
    CloseStdin,
}

/// An [`Action`] as mathematical values.
pub enum ActionView {
    Spawn,
    Write(Seq<u8>),
    Read,
    AwaitForwarder,
    Wait,
    Poll,
    Kill,
    CloseStdin,
}

impl View for Action {
    type V = ActionView;

    open spec fn view(&self) -> ActionView {
        match self {
            Action::Spawn => ActionView::Spawn,
            Action::Write(bytes) => ActionView::Write(bytes@),
            Action::Read => ActionView::Read,
            Action::AwaitForwarder => ActionView::AwaitForwarder,
            Action::Wait => ActionView::Wait,
            Action::Poll => ActionView::Poll,
            Action::Kill => ActionView::Kill,
            Action::CloseStdin => ActionView::CloseStdin,
        }
    }
}

/// What came of an action.
#[derive(Debug, Clone, PartialEq, Eq)]
pub enum Event {
    /// The worker was started.
    Spawned,
    /// The operating system could not start the worker.
    SpawnFailed(String),
    /// The bytes were written and flushed.
    Written,
    /// Writing or flushing failed.
    WriteFailed,
    /// These bytes were read.
    Chunk(Vec<u8>),
    /// The stream has ended.
    EndOfStream,
    /// Reading failed.
    ReadFailed(String),
    /// The forwarder has finished.
    ForwarderFinished,
    /// The worker has exited.
    Exited(ExitReport),
    /// The worker's exit could not be observed.
    WaitFailed(String),
    /// The worker has not exited.
    StillRunning,
    /// The worker was told to die. Whether that worked shows in the wait that
    /// follows.
    Killed,
    /// The worker's input is closed.
    StdinClosed,
}

/// How an operation ended.
#[derive(Debug, Clone, PartialEq, Eq)]
pub enum Outcome {
    /// A worker is running.
    Started,
    /// The line is with the worker.
    Sent,
    /// The worker's next line.
    Line(String),
    /// The operation failed.
    Failed(Error),
    /// The supervisor has shut down and its worker has been waited for.
    Stopped,
}

/// An [`Outcome`] as mathematical values.
pub enum OutcomeView {
    Started,
    Sent,
    Line(Seq<char>),
    Failed(ErrorView),
    Stopped,
}

impl View for Outcome {
    type V = OutcomeView;

    open spec fn view(&self) -> OutcomeView {
        match self {
            Outcome::Started => OutcomeView::Started,
            Outcome::Sent => OutcomeView::Sent,
            Outcome::Line(line) => OutcomeView::Line(line@),
            Outcome::Failed(error) => OutcomeView::Failed(error@),
            Outcome::Stopped => OutcomeView::Stopped,
        }
    }
}

/// What follows: an action for the caller to carry out, or the end of the
/// operation.
#[derive(Debug, Clone, PartialEq, Eq)]
pub enum Step {
    /// The caller carries out the action and reports what came of it.
    Perform(Action),
    /// The operation is over.
    Finished(Outcome),
}

/// A [`Step`] as mathematical values.
pub enum StepView {
    Perform(ActionView),
    Finished(OutcomeView),
}

impl View for Step {
    type V = StepView;

    open spec fn view(&self) -> StepView {
        match self {
            Step::Perform(action) => StepView::Perform(action@),
            Step::Finished(outcome) => StepView::Finished(outcome@),
        }
    }
}

/// The supervisor's state as mathematical values.
pub struct Model {
    /// Where the supervisor stands.
    pub stage: Stage,
    /// The launch plan, fixed when the supervisor is made.
    pub plan: PlanView,
    /// The bytes of the worker's output that were read and not handed out.
    pub stdout: Seq<u8>,
    /// What a diagnosis under way has collected of the worker's last output.
    pub printed: Seq<char>,
    /// The diagnosis of the current worker, once it is known to be gone.
    pub verdict: Option<Seq<char>>,
    /// Whether the restart under way found the marker of a managed worker in
    /// the supervisor's own environment: such a restart launches nothing.
    pub marked: bool,
}

/// Whether a stage belongs to the traffic with a worker that is taken to be
/// alive, or to the diagnosis of its end.
pub open spec fn in_traffic(stage: Stage) -> bool {
    stage == Stage::Sending || stage == Stage::Receiving || stage == Stage::Syncing || stage
        == Stage::Draining || stage == Stage::Reaping
}

/// What holds in every state that a supervisor can reach: while it deals
/// with a worker, that worker is not known to be gone; it asks for more
/// output only while no finished line is buffered; and it launches nothing
/// where it found the marker.
pub open spec fn consistent(m: Model) -> bool {
    &&& in_traffic(m.stage) ==> m.verdict is None
    &&& m.stage == Stage::Receiving ==> !has_line(m.stdout)
    &&& m.stage == Stage::Draining ==> !has_line(m.stdout)
    &&& m.stage == Stage::Launching || m.stage == Stage::Relaunching ==> !m.marked
}

/// A state and the step that leads on from it.
pub struct Transition {
    /// The state after the step was decided.
    pub next: Model,
    /// What the caller is told.
    pub step: StepView,
}

/// The message for a line of output that is not UTF-8.
pub open spec fn undecodable() -> Seq<char> {
    "stream did not contain valid UTF-8"@
}

/// The supervisor right after it was made: the launch is under way.
pub open spec fn launching(plan: PlanView) -> Model {
    Model {
        stage: Stage::Launching,
        plan,
        stdout: Seq::empty(),
        printed: Seq::empty(),
        verdict: None,
        marked: false,
    }
}

/// The failure of a launch: the command that was tried and what the
/// operating system said.
pub open spec fn launch_failure(plan: PlanView, cause: Seq<char>) -> OutcomeView {
    OutcomeView::Failed(
        ErrorView::LaunchFailed { command: command_text(plan.program, plan.args), cause },
    )
}

/// The end of an operation that leaves the worker as it is.
pub open spec fn settle(m: Model, outcome: OutcomeView) -> Transition {
    Transition { next: Model { stage: Stage::Idle, ..m }, step: StepView::Finished(outcome) }
}

/// The answer to a request made of a worker that is known to be gone: its
/// diagnosis, and nothing to do.
pub open spec fn refuse(m: Model, verdict: Seq<char>) -> Transition {
    settle(m, OutcomeView::Failed(ErrorView::SubprocessTerminated(verdict)))
}

/// Looks for the next line in what is buffered: hands it out, or asks for
/// more of the worker's output.
pub open spec fn receive(m: Model) -> Transition {
    if has_line(m.stdout) {
        let line = first_line(m.stdout);
        let outcome = if valid_utf8(line) {
            OutcomeView::Line(decode_utf8(line))
        } else {
            OutcomeView::Failed(ErrorView::Io(undecodable()))
        };
        settle(Model { stdout: after_first_line(m.stdout), ..m }, outcome)
    } else {
        Transition {
            next: Model { stage: Stage::Receiving, ..m },
            step: StepView::Perform(ActionView::Read),
        }
    }
}

/// The first step of a diagnosis: nothing is concluded before the forwarder
/// of the error stream has finished.
pub open spec fn diagnose(m: Model) -> Transition {
    Transition {
        next: Model { stage: Stage::Syncing, ..m },
        step: StepView::Perform(ActionView::AwaitForwarder),
    }
}

/// The second step of a diagnosis: the finished lines that are buffered join
/// what was collected. The worker's output is read on until it ends or a
/// line is not UTF-8; then the worker's exit is awaited.
pub open spec fn drain(m: Model) -> Transition {
    let text = text_lines(m.stdout);
    let collected = Model { printed: m.printed + joined(text.lines), stdout: text.rest, ..m };
    if text.clean {
        Transition {
            next: Model { stage: Stage::Draining, ..collected },
            step: StepView::Perform(ActionView::Read),
        }
    } else {
        Transition {
            next: Model { stage: Stage::Reaping, ..collected },
            step: StepView::Perform(ActionView::Wait),
        }
    }
}

/// The end of a diagnosis: the verdict is kept, and the operation that ran
/// into the broken connection fails with it.
pub open spec fn conclude(m: Model, verdict: Seq<char>) -> Transition {
    refuse(Model { printed: Seq::empty(), verdict: Some(verdict), ..m }, verdict)
}

/// The launcher's part in a restart, once the old worker is gone: it starts
/// the new one, unless the restart found the marker. Then it refuses, and
/// the old worker stays the supervisor's worker, gone as it is.
pub open spec fn relaunch(m: Model) -> Transition {
    if m.marked {
        settle(
            Model { marked: false, ..m },
            OutcomeView::Failed(ErrorView::RecursiveLaunchRejected),
        )
    } else {
        proceed(m, Stage::Relaunching, ActionView::Spawn)
    }
}

/// A step to the stage `stage` that asks for `action`.
pub open spec fn proceed(m: Model, stage: Stage, action: ActionView) -> Transition {
    Transition { next: Model { stage, ..m }, step: StepView::Perform(action) }
}

/// What the supervisor does when `event` is reported in state `m`. `None`
/// where the event answers no action that is under way.
pub open spec fn react(m: Model, event: Event) -> Option<Transition> {
    match m.stage {
        Stage::Launching => match event {
            Event::Spawned => Some(settle(launching(m.plan), OutcomeView::Started)),
            Event::SpawnFailed(cause) => Some(
                Transition {
                    next: Model { stage: Stage::Closed, ..m },
                    step: StepView::Finished(launch_failure(m.plan, cause@)),
                },
            ),
            _ => None,
        },
        Stage::Relaunching => match event {
            Event::Spawned => Some(settle(launching(m.plan), OutcomeView::Started)),
            Event::SpawnFailed(cause) => Some(settle(m, launch_failure(m.plan, cause@))),
            _ => None,
        },
        Stage::Sending => match event {
            Event::Written => Some(settle(m, OutcomeView::Sent)),
            Event::WriteFailed => Some(diagnose(m)),
            _ => None,
        },
        Stage::Receiving => match event {
            Event::Chunk(bytes) => Some(receive(Model { stdout: m.stdout + bytes@, ..m })),
            Event::EndOfStream => Some(diagnose(Model { stdout: Seq::empty(), ..m })),
            Event::ReadFailed(cause) => Some(settle(m, OutcomeView::Failed(ErrorView::Io(cause@)))),
            _ => None,
        },
        Stage::Syncing => match event {
            Event::ForwarderFinished => Some(drain(Model { printed: Seq::empty(), ..m })),
            _ => None,
        },
        Stage::Draining => match event {
            Event::Chunk(bytes) => Some(drain(Model { stdout: m.stdout + bytes@, ..m })),
            Event::EndOfStream | Event::ReadFailed(_) => Some(
                proceed(Model { stdout: Seq::empty(), ..m }, Stage::Reaping, ActionView::Wait),
            ),
            _ => None,
        },
        Stage::Reaping => match event {
            Event::Exited(report) => Some(
                conclude(m, exit_message(m.printed, report.status@, report.signal)),
            ),
            Event::WaitFailed(cause) => Some(conclude(m, wait_failure_message(cause@))),
            _ => None,
        },
        Stage::Probing => match event {
            Event::StillRunning => Some(proceed(m, Stage::Killing, ActionView::Kill)),
            Event::Exited(_) | Event::WaitFailed(_) => Some(relaunch(m)),
            _ => None,
        },
        Stage::Killing => match event {
            Event::Killed => Some(proceed(m, Stage::Burying, ActionView::Wait)),
            _ => None,
        },
        Stage::Burying => match event {
            Event::Exited(_) | Event::WaitFailed(_) => Some(relaunch(m)),
            _ => None,
        },
        Stage::Closing => match event {
            Event::StdinClosed => Some(proceed(m, Stage::Departing, ActionView::Wait)),
            _ => None,
        },
        Stage::Departing => match event {
            Event::Exited(_) | Event::WaitFailed(_) => Some(
                Transition {
                    next: Model { stage: Stage::Closed, ..m },
                    step: StepView::Finished(OutcomeView::Stopped),
                },
            ),
            _ => None,
        },
        Stage::Idle | Stage::Closed => None,
    }
}

/// How sending `line` starts: with the bytes to write, or, where the worker
/// is known to be gone, with its diagnosis at once.
pub open spec fn begin_send(m: Model, line: Seq<char>) -> Transition {
    match m.verdict {
        Some(verdict) => refuse(m, verdict),
        None => proceed(m, Stage::Sending, ActionView::Write(wire_form(line))),
    }
}

/// How receiving a line starts: with the next buffered line or a read, or,
/// where the worker is known to be gone, with its diagnosis at once.
pub open spec fn begin_recv(m: Model) -> Transition {
    match m.verdict {
        Some(verdict) => refuse(m, verdict),
        None => receive(m),
    }
}

/// How a restart starts. `marker_present` says whether the marker of a
/// managed worker is in the supervisor's own environment now.
pub open spec fn begin_restart(m: Model, marker_present: bool) -> Transition {
    proceed(Model { marked: marker_present, ..m }, Stage::Probing, ActionView::Poll)
}

/// How shutting down starts, wherever the supervisor stands.
pub open spec fn begin_shutdown(m: Model) -> Transition {
    proceed(m, Stage::Closing, ActionView::CloseStdin)
}

/// The supervisor of one worker.
pub struct ChildProcess {
    plan: LaunchPlan,
    stage: Stage,
    stdout: LineBuffer,
    printed: String,
    verdict: Option<String>,
    marked: bool,
}

impl View for ChildProcess {
    type V = Model;

    closed spec fn view(&self) -> Model {
        Model {
            stage: self.stage,
            plan: self.plan@,
            stdout: self.stdout@,
            printed: self.printed@,
            verdict: match self.verdict {
                Some(verdict) => Some(verdict@),
                None => None,
            },
            marked: self.marked,
        }
    }
}

impl ChildProcess {
    /// Makes the supervisor for `config` and starts the launch.
    /// `marker_present` says whether
    /// [`MANAGED_WORKER_VAR`](crate::config::MANAGED_WORKER_VAR) is set in the
    /// caller's own environment: if it is, the launch is refused, and no
    /// supervisor and no step come back.
    pub fn new(config: ProcessConfig, marker_present: bool) -> (started: Result<
        (ChildProcess, Step),
        Error,
    >)
        ensures
            match started {
                Ok((child, step)) => !marker_present && child@ == launching(launch_plan(config@))
                    && step@ == StepView::Perform(ActionView::Spawn) && consistent(child@),
                Err(error) => marker_present && error@ == ErrorView::RecursiveLaunchRejected,
            },
    {
        match LaunchPlan::prepare(config, marker_present) {
            Ok(plan) => Ok(ChildProcess::new_internal(plan)),
            Err(error) => Err(error),
        }
    }

    /// Makes the supervisor that carries out `plan` and starts the launch.
    pub fn new_internal(plan: LaunchPlan) -> (started: (ChildProcess, Step))
        ensures
            started.0@ == launching(plan@),
            started.1@ == StepView::Perform(ActionView::Spawn),
            consistent(started.0@),
    {
        let child = ChildProcess {
            plan,
            stage: Stage::Launching,
            stdout: LineBuffer::new(),
            printed: String::new(),
            verdict: None,
            marked: false,
        };
        (child, Step::Perform(Action::Spawn))
    }

    /// Where the supervisor stands.
    pub fn stage(&self) -> (stage: Stage)
        ensures
            stage == self@.stage,
    {
        self.stage
    }

    /// The plan that every launch of the worker follows.
    pub fn plan(&self) -> (plan: &LaunchPlan)
        ensures
            plan@ == self@.plan,
    {
        &self.plan
    }

    /// Whether `event` answers the action that is under way.
    pub fn accepts(&self, event: &Event) -> (accepted: bool)
        ensures
            accepted == react(self@, *event).is_some(),
    {
        match self.stage {
            Stage::Launching | Stage::Relaunching => matches!(
                event,
                Event::Spawned | Event::SpawnFailed(_)
            ),
            Stage::Sending => matches!(event, Event::Written | Event::WriteFailed),
            Stage::Receiving | Stage::Draining => matches!(
                event,
                Event::Chunk(_) | Event::EndOfStream | Event::ReadFailed(_)
            ),
            Stage::Syncing => matches!(event, Event::ForwarderFinished),
            Stage::Reaping | Stage::Burying | Stage::Departing => matches!(
                event,
                Event::Exited(_) | Event::WaitFailed(_)
            ),
            Stage::Probing => matches!(
                event,
                Event::StillRunning | Event::Exited(_) | Event::WaitFailed(_)
            ),
            Stage::Killing => matches!(event, Event::Killed),
            Stage::Closing => matches!(event, Event::StdinClosed),
            Stage::Idle | Stage::Closed => false,
        }
    }

    /// Starts sending `line` to the worker.
    pub fn send(&mut self, line: &str) -> (step: Step)
        requires
            old(self)@.stage == Stage::Idle,
        ensures
            final(self)@ == begin_send(old(self)@, line@).next,
            step@ == begin_send(old(self)@, line@).step,
            consistent(old(self)@) ==> consistent(final(self)@),
    {
        proof {
            if consistent(self@) {
                lemma_advance_keeps_consistent(self@, Input::Send(line@));
            }
        }
        match &self.verdict {
            Some(verdict) => Step::Finished(
                Outcome::Failed(Error::SubprocessTerminated(verdict.clone())),
            ),
            None => {
                self.stage = Stage::Sending;
                Step::Perform(Action::Write(encode_line(line)))
            },
        }
    }

    /// Starts receiving the worker's next line.
    pub fn recv_line(&mut self) -> (step: Step)
        requires
            old(self)@.stage == Stage::Idle,
        ensures
            final(self)@ == begin_recv(old(self)@).next,
            step@ == begin_recv(old(self)@).step,
            consistent(old(self)@) ==> consistent(final(self)@),
    {
        proof {
            if consistent(self@) {
                lemma_advance_keeps_consistent(self@, Input::RecvLine);
            }
        }
        match &self.verdict {
            Some(verdict) => Step::Finished(
                Outcome::Failed(Error::SubprocessTerminated(verdict.clone())),
            ),
            None => self.receive(),
        }
    }

    /// Starts replacing the worker by a new one, launched as the first was.
    /// `marker_present` says whether
    /// [`MANAGED_WORKER_VAR`](crate::config::MANAGED_WORKER_VAR) is set in the
    /// caller's own environment now: if it is, the old worker is still
    /// ended, and then the launch is refused. Where the launch is refused or
    /// fails, the old worker stays the supervisor's worker, gone as it is,
    /// and the restart can be tried again.
    pub fn restart(&mut self, marker_present: bool) -> (step: Step)
        requires
            old(self)@.stage == Stage::Idle,
        ensures
            final(self)@ == begin_restart(old(self)@, marker_present).next,
            step@ == begin_restart(old(self)@, marker_present).step,
            consistent(old(self)@) ==> consistent(final(self)@),
    {
        self.marked = marker_present;
        self.stage = Stage::Probing;
        Step::Perform(Action::Poll)
    }

    /// Starts shutting down, whatever the supervisor was doing: the worker's
    /// input is closed, which tells it to end, and its exit is waited for.
    pub fn shutdown(&mut self) -> (step: Step)
        ensures
            final(self)@ == begin_shutdown(old(self)@).next,
            step@ == begin_shutdown(old(self)@).step,
            consistent(old(self)@) ==> consistent(final(self)@),
    {
        self.stage = Stage::Closing;
        Step::Perform(Action::CloseStdin)
    }

    /// Takes the report of the action that was under way and decides what
    /// follows.
    pub fn on_event(&mut self, event: Event) -> (step: Step)
        requires
            react(old(self)@, event).is_some(),
        ensures
            final(self)@ == react(old(self)@, event).unwrap().next,
            step@ == react(old(self)@, event).unwrap().step,
            consistent(old(self)@) ==> consistent(final(self)@),
    {
        proof {
            if consistent(self@) {
                lemma_advance_keeps_consistent(self@, Input::Report(event));
            }
        }
        match self.stage {
            Stage::Launching => match event {
                Event::Spawned => self.start_afresh(),
                Event::SpawnFailed(cause) => {
                    self.stage = Stage::Closed;
                    let command = self.plan.command_text();
                    Step::Finished(Outcome::Failed(Error::LaunchFailed { command, cause }))
                },
                _ => unreached(),
            },
            Stage::Relaunching => match event {
                Event::Spawned => self.start_afresh(),
                Event::SpawnFailed(cause) => {
                    self.stage = Stage::Idle;
                    let command = self.plan.command_text();
                    Step::Finished(Outcome::Failed(Error::LaunchFailed { command, cause }))
                },
                _ => unreached(),
            },
            Stage::Sending => match event {
                Event::Written => {
                    self.stage = Stage::Idle;
                    Step::Finished(Outcome::Sent)
                },
                Event::WriteFailed => self.get_termination_error(),
                _ => unreached(),
            },
            Stage::Receiving => match event {
                Event::Chunk(bytes) => {
                    self.stdout.push(bytes.as_slice());
                    self.receive()
                },
                Event::EndOfStream => {
                    self.stdout.clear();
                    self.get_termination_error()
                },
                Event::ReadFailed(cause) => {
                    self.stage = Stage::Idle;
                    Step::Finished(Outcome::Failed(Error::Io(cause)))
                },
                _ => unreached(),
            },
            Stage::Syncing => match event {
                Event::ForwarderFinished => {
                    self.printed = String::new();
                    self.drain()
                },
                _ => unreached(),
            },
            Stage::Draining => match event {
                Event::Chunk(bytes) => {
                    self.stdout.push(bytes.as_slice());
                    self.drain()
                },
                Event::EndOfStream | Event::ReadFailed(_) => {
                    self.stdout.clear();
                    self.stage = Stage::Reaping;
                    Step::Perform(Action::Wait)
                },
                _ => unreached(),
            },
            Stage::Reaping => match event {
                Event::Exited(report) => {
                    let mut printed = String::new();
                    std::mem::swap(&mut self.printed, &mut printed);
                    self.conclude(describe_exit(printed, &report))
                },
                Event::WaitFailed(cause) => {
                    self.printed = String::new();
                    self.conclude(describe_wait_failure(cause.as_str()))
                },
                _ => unreached(),
            },
            Stage::Probing => match event {
                Event::StillRunning => {
                    self.stage = Stage::Killing;
                    Step::Perform(Action::Kill)
                },
                Event::Exited(_) | Event::WaitFailed(_) => self.relaunch(),
                _ => unreached(),
            },
            Stage::Killing => match event {
                Event::Killed => {
                    self.stage = Stage::Burying;
                    Step::Perform(Action::Wait)
                },
                _ => unreached(),
            },
            Stage::Burying => match event {
                Event::Exited(_) | Event::WaitFailed(_) => self.relaunch(),
                _ => unreached(),
            },
            Stage::Closing => match event {
                Event::StdinClosed => {
                    self.stage = Stage::Departing;
                    Step::Perform(Action::Wait)
                },
                _ => unreached(),
            },
            Stage::Departing => match event {
                Event::Exited(_) | Event::WaitFailed(_) => {
                    self.stage = Stage::Closed;
                    Step::Finished(Outcome::Stopped)
                },
                _ => unreached(),
            },
            Stage::Idle | Stage::Closed => unreached(),
        }
    }

    /// Starts the new worker of a restart, or refuses to.
    fn relaunch(&mut self) -> (step: Step)
        ensures
            final(self)@ == relaunch(old(self)@).next,
            step@ == relaunch(old(self)@).step,
    {
        if self.marked {
            self.marked = false;
            self.stage = Stage::Idle;
            Step::Finished(Outcome::Failed(Error::RecursiveLaunchRejected))
        } else {
            self.stage = Stage::Relaunching;
            Step::Perform(Action::Spawn)
        }
    }

    /// Takes up the work with a worker that was just started.
    fn start_afresh(&mut self) -> (step: Step)
        ensures
            final(self)@ == settle(launching(old(self)@.plan), OutcomeView::Started).next,
            step@ == StepView::Finished(OutcomeView::Started),
    {
        self.stage = Stage::Idle;
        self.stdout.clear();
        self.printed = String::new();
        self.verdict = None;
        self.marked = false;
        Step::Finished(Outcome::Started)
    }

    /// Starts the diagnosis of a connection that broke.
    fn get_termination_error(&mut self) -> (step: Step)
        ensures
            final(self)@ == diagnose(old(self)@).next,
            step@ == diagnose(old(self)@).step,
    {
        self.stage = Stage::Syncing;
        Step::Perform(Action::AwaitForwarder)
    }

    /// Hands out the next buffered line, or asks for more output.
    fn receive(&mut self) -> (step: Step)
        ensures
            final(self)@ == receive(old(self)@).next,
            step@ == receive(old(self)@).step,
    {
        match next_text(&mut self.stdout) {
            NextText::Pending => {
                self.stage = Stage::Receiving;
                Step::Perform(Action::Read)
            },
            NextText::Line(line) => {
                self.stage = Stage::Idle;
                Step::Finished(Outcome::Line(line))
            },
            NextText::Undecodable => {
                self.stage = Stage::Idle;
                Step::Finished(
                    Outcome::Failed(Error::Io("stream did not contain valid UTF-8".to_owned())),
                )
            },
        }
    }

    /// Collects the finished lines that are buffered for the diagnosis.
    fn drain(&mut self) -> (step: Step)
        ensures
            final(self)@ == drain(old(self)@).next,
            step@ == drain(old(self)@).step,
    {
        let ghost all = text_lines(self.stdout@);
        loop
            invariant
                all == text_lines(old(self).stdout@),
                self.printed@ + joined(text_lines(self.stdout@).lines) =~= old(self).printed@
                    + joined(all.lines),
                text_lines(self.stdout@).rest == all.rest,
                text_lines(self.stdout@).clean == all.clean,
                self.plan == old(self).plan,
                self.verdict == old(self).verdict,
                self.marked == old(self).marked,
            decreases self.stdout@.len(),
        {
            let ghost buffered = self.stdout@;
            match next_text(&mut self.stdout) {
                NextText::Pending => {
                    self.stage = Stage::Draining;
                    assert(joined(Seq::<Seq<char>>::empty()) =~= Seq::<char>::empty());
                    assert(self.printed@ =~= old(self).printed@ + joined(all.lines));
                    return Step::Perform(Action::Read);
                },
                NextText::Undecodable => {
                    self.stage = Stage::Reaping;
                    assert(joined(Seq::<Seq<char>>::empty()) =~= Seq::<char>::empty());
                    assert(self.printed@ =~= old(self).printed@ + joined(all.lines));
                    return Step::Perform(Action::Wait);
                },
                NextText::Line(line) => {
                    self.printed.append(line.as_str());
                    self.printed.append("\n");
                    proof {
                        reveal_strlit("\n");
                        assert("\n"@ =~= seq!['\n']);
                        let lines = text_lines(buffered).lines;
                        assert(lines[0] == line@);
                        assert(lines.skip(1) =~= text_lines(self.stdout@).lines);
                        assert(joined(lines) == line@ + seq!['\n'] + joined(lines.skip(1)));
                    }
                },
            }
        }
    }

    /// Ends the diagnosis with its verdict.
    fn conclude(&mut self, verdict: String) -> (step: Step)
        requires
            old(self).printed@ == Seq::<char>::empty(),
        ensures
            final(self)@ == conclude(old(self)@, verdict@).next,
            step@ == conclude(old(self)@, verdict@).step,
    {
        self.stage = Stage::Idle;
        let message = verdict.clone();
        self.verdict = Some(verdict);
        Step::Finished(Outcome::Failed(Error::SubprocessTerminated(message)))
    }
}

} // verus!
