//! What holds of the supervisor over whole runs: whatever its caller asks
//! and whatever the operating system reports.
use crate::child_process::{
    begin_recv,
    begin_restart,
    begin_send,
    begin_shutdown,
    consistent,
    launch_failure,
    launching,
    react,
    ActionView,
    Event,
    Model,
    OutcomeView,
    Stage,
    StepView,
    Transition,
};
use crate::config::PlanView;
use crate::diagnosis::{exit_message, wait_failure_message, ExitReport};
use crate::errors::ErrorView;
use crate::lines::{
    after_first_line,
    complete_lines,
    first_line,
    has_line,
    lemma_line_end_is,
    LINE_FEED,
};
use crate::text::{
    joined,
    lemma_rest_holds_no_line,
    lemma_sent_line_reads_back,
    text_lines,
    wire_form,
};
use vstd::prelude::*;

verus! {

/// One thing that happens to a supervisor: its caller starts an operation, or
/// reports what came of an action.
pub enum Input {
    /// The caller sends this line.
    Send(Seq<char>),
    /// The caller asks for the next line.
    RecvLine,
    /// The caller asks for a restart, with the marker of a managed worker
    /// present in its environment or not.
    Restart(bool),
    /// The caller lets go of the supervisor.
    Shutdown,
    /// The caller reports what came of the action under way.
    Report(Event),
}

/// Whether `input` may happen in state `m`: a report answers the action that
/// is under way; sending, receiving and restarting start only while nothing
/// is under way; shutting down starts at any time.
pub open spec fn admits(m: Model, input: Input) -> bool {
    match input {
        Input::Report(event) => react(m, event).is_some(),
        Input::Shutdown => true,
        _ => m.stage == Stage::Idle,
    }
}

/// What the supervisor does on `input`.
pub open spec fn advance(m: Model, input: Input) -> Transition
    recommends
        admits(m, input),
{
    match input {
        Input::Send(line) => begin_send(m, line),
        Input::RecvLine => begin_recv(m),
        Input::Restart(marker_present) => begin_restart(m, marker_present),
        Input::Shutdown => begin_shutdown(m),
        Input::Report(event) => react(m, event).unwrap(),
    }
}

/// The state after `inputs`, from state `m`.
pub open spec fn run(m: Model, inputs: Seq<Input>) -> Model
    decreases inputs.len(),
{
    if inputs.len() == 0 {
        m
    } else {
        advance(run(m, inputs.drop_last()), inputs.last()).next
    }
}

/// Whether each of `inputs` may happen in the state that those before it
/// lead to.
pub open spec fn admissible(m: Model, inputs: Seq<Input>) -> bool
    decreases inputs.len(),
{
    inputs.len() > 0 ==> admissible(m, inputs.drop_last()) && admits(
        run(m, inputs.drop_last()),
        inputs.last(),
    )
}

/// One input leads from a consistent state to a consistent state and leaves
/// the launch plan alone.
pub proof fn lemma_advance_keeps_consistent(m: Model, input: Input)
    requires
        consistent(m),
        admits(m, input),
    ensures
        consistent(advance(m, input).next),
        advance(m, input).next.plan == m.plan,
{
    let empty = Seq::<u8>::empty();
    assert(!has_line(empty));
    match input {
        Input::Report(Event::Chunk(bytes)) => {
            if m.stage == Stage::Draining {
                if text_lines(m.stdout + bytes@).clean {
                    lemma_rest_holds_no_line(m.stdout + bytes@);
                }
            }
        },
        Input::Report(Event::ForwarderFinished) => {
            if text_lines(m.stdout).clean {
                lemma_rest_holds_no_line(m.stdout);
            }
        },
        _ => {},
    }
}

/// Every state that a supervisor reaches is consistent, and its launch plan
/// is the one it was made with: each start of the worker, the first and
/// every one after a restart, follows the same plan.
pub proof fn lemma_run_keeps_plan(plan: PlanView, inputs: Seq<Input>)
    requires
        admissible(launching(plan), inputs),
    ensures
        consistent(run(launching(plan), inputs)),
        run(launching(plan), inputs).plan == plan,
    decreases inputs.len(),
{
    if inputs.len() > 0 {
        lemma_run_keeps_plan(plan, inputs.drop_last());
        lemma_advance_keeps_consistent(run(launching(plan), inputs.drop_last()), inputs.last());
    }
}

/// The order of a restart. It begins with a poll. A worker that still runs
/// is killed and then waited for. Only once the old worker is known to be
/// gone, after the poll or the wait has reported its exit or has failed,
/// does the launcher take its turn; and it starts a worker only where the
/// restart did not find the marker. Nothing else ever starts a worker again.
pub proof fn lemma_restart_reaps_first(m: Model, marker_present: bool, event: Event)
    ensures
        begin_restart(m, marker_present).step == StepView::Perform(ActionView::Poll),
        begin_restart(m, marker_present).next.stage == Stage::Probing,
        begin_restart(m, marker_present).next.marked == marker_present,
        react(m, event) matches Some(t) ==> {
            &&& m.stage == Stage::Probing && event is StillRunning ==> t.step
                == StepView::Perform(ActionView::Kill) && t.next == (Model {
                stage: Stage::Killing,
                ..m
            })
            &&& m.stage == Stage::Killing ==> t.step == StepView::Perform(ActionView::Wait)
                && t.next == (Model { stage: Stage::Burying, ..m })
            &&& t.step == StepView::Perform(ActionView::Spawn) ==> (m.stage == Stage::Probing
                || m.stage == Stage::Burying) && (event is Exited || event is WaitFailed)
                && !m.marked && t.next.stage == Stage::Relaunching
        },
{
}

/// A restart re-checks the marker. Where the supervisor's environment holds
/// it when the restart is asked for, the old worker is ended as in any
/// restart, and then the launch is refused: the restart fails with
/// `RecursiveLaunchRejected`, no worker is started, and the supervisor is
/// idle again with its plan and its old worker's remains as they were.
pub proof fn lemma_marked_restart_is_refused(m: Model, gone: Event)
    requires
        m.stage == Stage::Idle,
        gone is Exited || gone is WaitFailed,
    ensures
        ({
            let refused = Transition {
                next: Model { marked: false, ..m },
                step: StepView::Finished(OutcomeView::Failed(ErrorView::RecursiveLaunchRejected)),
            };
            let polling = begin_restart(m, true);
            let killing = react(polling.next, Event::StillRunning).unwrap();
            let burying = react(killing.next, Event::Killed).unwrap();
            &&& polling.step == StepView::Perform(ActionView::Poll)
            &&& react(polling.next, gone) == Some(refused)
            &&& killing.step == StepView::Perform(ActionView::Kill)
            &&& burying.step == StepView::Perform(ActionView::Wait)
            &&& react(burying.next, gone) == Some(refused)
        }),
{
}

/// Only a launch that was asked for is ever refused by the launcher: a
/// report ends an operation with `RecursiveLaunchRejected` exactly when it
/// says that the old worker of a restart is gone and that restart found
/// the marker.
pub proof fn lemma_refusal_needs_the_marker(m: Model, event: Event)
    ensures
        react(m, event) matches Some(t) ==> (t.step == StepView::Finished(
            OutcomeView::Failed(ErrorView::RecursiveLaunchRejected),
        ) <==> (m.stage == Stage::Probing || m.stage == Stage::Burying) && (event is Exited
            || event is WaitFailed) && m.marked),
{
}

/// A new worker starts from nothing: no byte that the worker before it
/// wrote is buffered any more, and its verdict is forgotten. Where the
/// launch fails instead, the old worker stays as it was.
pub proof fn lemma_new_worker_is_independent(m: Model, cause: String)
    requires
        m.stage == Stage::Relaunching,
    ensures
        react(m, Event::SpawnFailed(cause)).unwrap().next == (Model { stage: Stage::Idle, ..m }),
        react(m, Event::SpawnFailed(cause)).unwrap().step == StepView::Finished(
            launch_failure(m.plan, cause@),
        ),
        react(m, Event::Spawned) == Some(
            Transition {
                next: Model { stage: Stage::Idle, ..launching(m.plan) },
                step: StepView::Finished(OutcomeView::Started),
            },
        ),
{
}

/// The verdict on a worker whose last output was `printed`, from the report
/// of the wait for its exit.
pub open spec fn verdict_on(printed: Seq<char>, event: Event) -> Seq<char>
    recommends
        event is Exited || event is WaitFailed,
{
    match event {
        Event::Exited(report) => exit_message(printed, report.status@, report.signal),
        Event::WaitFailed(cause) => wait_failure_message(cause@),
        _ => Seq::empty(),
    }
}

/// Whether `step` ends an operation with the diagnosis of a worker that is
/// gone.
pub open spec fn ends_in_diagnosis(step: StepView) -> bool {
    match step {
        StepView::Finished(OutcomeView::Failed(ErrorView::SubprocessTerminated(_))) => true,
        _ => false,
    }
}

/// The order of a diagnosis. When a write fails or the output ends, the
/// forwarder of the error stream is awaited first. Only its end lets the
/// diagnosis go on to the worker's last output and then to its exit, and
/// only the report of that exit ends the operation, always as
/// `SubprocessTerminated`.
pub proof fn lemma_diagnosis_order(m: Model, event: Event)
    ensures
        react(m, event) matches Some(t) ==> {
            &&& m.stage == Stage::Sending && event is WriteFailed ==> t.next.stage
                == Stage::Syncing
            &&& m.stage == Stage::Receiving && event is EndOfStream ==> t.next.stage
                == Stage::Syncing
            &&& t.next.stage == Stage::Syncing ==> t.step == StepView::Perform(
                ActionView::AwaitForwarder,
            )
            &&& m.stage == Stage::Syncing ==> event is ForwarderFinished
            &&& t.next.stage == Stage::Draining ==> (m.stage == Stage::Syncing || m.stage
                == Stage::Draining) && t.step == StepView::Perform(ActionView::Read)
            &&& t.next.stage == Stage::Reaping ==> (m.stage == Stage::Syncing || m.stage
                == Stage::Draining) && t.step == StepView::Perform(ActionView::Wait)
            &&& m.stage == Stage::Reaping ==> t.step == StepView::Finished(
                OutcomeView::Failed(ErrorView::SubprocessTerminated(verdict_on(m.printed, event))),
            ) && t.next.verdict == Some(verdict_on(m.printed, event))
            &&& ends_in_diagnosis(t.step) ==> m.stage == Stage::Reaping
        },
{
}

/// Once a worker is known to be gone, nothing more is sent to it or read
/// from it: every request gets the verdict at once, and no state changes,
/// until a restart.
pub proof fn lemma_gone_worker_is_left_alone(m: Model, line: Seq<char>)
    requires
        m.stage == Stage::Idle,
        m.verdict is Some,
    ensures
        begin_send(m, line) == (Transition {
            next: m,
            step: StepView::Finished(
                OutcomeView::Failed(ErrorView::SubprocessTerminated(m.verdict.unwrap())),
            ),
        }),
        begin_recv(m) == begin_send(m, line),
{
}

/// Output without a line feed is no line. However much of it has arrived,
/// the supervisor reads on; and when the stream ends on it, it is dropped:
/// the operation fails with a diagnosis that holds none of it.
pub proof fn lemma_unfinished_line_is_withheld(m: Model, chunk: Vec<u8>, report: ExitReport)
    requires
        m.stage == Stage::Idle,
        m.verdict is None,
        m.stdout.len() == 0,
        forall|j: int| 0 <= j < chunk@.len() ==> chunk@[j] != LINE_FEED,
    ensures
        ({
            let reading = begin_recv(m);
            let still_reading = react(reading.next, Event::Chunk(chunk)).unwrap();
            let ended = react(still_reading.next, Event::EndOfStream).unwrap();
            let synced = react(ended.next, Event::ForwarderFinished).unwrap();
            let drained = react(synced.next, Event::EndOfStream).unwrap();
            let reaped = react(drained.next, Event::Exited(report)).unwrap();
            &&& reading.step == StepView::Perform(ActionView::Read)
            &&& still_reading.step == StepView::Perform(ActionView::Read)
            &&& ended.step == StepView::Perform(ActionView::AwaitForwarder)
            &&& synced.step == StepView::Perform(ActionView::Read)
            &&& drained.step == StepView::Perform(ActionView::Wait)
            &&& reaped.step == StepView::Finished(
                OutcomeView::Failed(
                    ErrorView::SubprocessTerminated(
                        exit_message(Seq::empty(), report.status@, report.signal),
                    ),
                ),
            )
            &&& reaped.next.stdout.len() == 0
        }),
{
    let empty = Seq::<u8>::empty();
    lemma_line_end_is(empty, 0);
    assert(m.stdout =~= empty);
    assert(m.stdout + chunk@ =~= chunk@);
    lemma_line_end_is(chunk@, chunk@.len() as int);
    assert(text_lines(empty).lines =~= Seq::<Seq<char>>::empty());
    assert(joined(Seq::<Seq<char>>::empty()) =~= Seq::<char>::empty());
    assert(Seq::<char>::empty() + Seq::<char>::empty() =~= Seq::<char>::empty());
}

/// The order of a shutdown, from wherever it starts: the worker's input is
/// closed, then its exit is waited for, and only the report of that wait
/// ends the shutdown.
pub proof fn lemma_shutdown_order(m: Model, event: Event)
    ensures
        begin_shutdown(m).step == StepView::Perform(ActionView::CloseStdin),
        begin_shutdown(m).next.stage == Stage::Closing,
        react(m, event) matches Some(t) ==> {
            &&& m.stage == Stage::Closing ==> event is StdinClosed && t.step
                == StepView::Perform(ActionView::Wait) && t.next.stage == Stage::Departing
            &&& m.stage == Stage::Departing ==> (event is Exited || event is WaitFailed) && t.step
                == StepView::Finished(OutcomeView::Stopped) && t.next.stage == Stage::Closed
            &&& t.step == StepView::Finished(OutcomeView::Stopped) ==> m.stage
                == Stage::Departing
        },
{
}

/// A line that is sent and echoed comes back as it went. For text that holds
/// no line feed and does not end in a carriage return: when the worker
/// answers the bytes written for it with the same bytes, the next line
/// received is that text, and the supervisor stands where it stood.
pub proof fn lemma_echo_returns_the_line(m: Model, line: Seq<char>, echo: Vec<u8>)
    requires
        m.stage == Stage::Idle,
        m.verdict is None,
        m.stdout.len() == 0,
        forall|i: int| 0 <= i < line.len() ==> line[i] != '\n',
        line.len() > 0 ==> line.last() != '\r',
        echo@ == wire_form(line),
    ensures
        ({
            let sending = begin_send(m, line);
            let sent = react(sending.next, Event::Written).unwrap();
            let receiving = begin_recv(sent.next);
            let received = react(receiving.next, Event::Chunk(echo)).unwrap();
            &&& sending.step == StepView::Perform(ActionView::Write(echo@))
            &&& sent.step == StepView::Finished(OutcomeView::Sent)
            &&& receiving.step == StepView::Perform(ActionView::Read)
            &&& received.step == StepView::Finished(OutcomeView::Line(line))
            &&& received.next == m
        }),
{
    let empty = Seq::<u8>::empty();
    lemma_line_end_is(empty, 0);
    assert(m.stdout =~= empty);
    assert(m.stdout + echo@ =~= echo@);
    lemma_sent_line_reads_back(line);
    let wire = wire_form(line);
    assert(has_line(wire));
    vstd::utf8::encode_utf8_valid_utf8(line);
    vstd::utf8::encode_utf8_decode_utf8(line);
    assert(complete_lines(wire)[0] == first_line(wire));
    assert(after_first_line(wire) =~= empty);
}

/// How the worker's output is cut into reads does not show. While no line is
/// finished, taking in `first` and then `second` leads to the same state and
/// the same step as taking in both at once.
pub proof fn lemma_reads_may_be_split(m: Model, first: Vec<u8>, second: Vec<u8>, both: Vec<u8>)
    requires
        m.stage == Stage::Receiving,
        !has_line(m.stdout + first@),
        both@ == first@ + second@,
    ensures
        react(m, Event::Chunk(first)).unwrap().step == StepView::Perform(ActionView::Read),
        react(react(m, Event::Chunk(first)).unwrap().next, Event::Chunk(second)) == react(
            m,
            Event::Chunk(both),
        ),
{
    assert((m.stdout + first@) + second@ =~= m.stdout + both@);
}

/// Whether a stage belongs to a shutdown, or follows one.
pub open spec fn shutting_down(stage: Stage) -> bool {
    stage == Stage::Closing || stage == Stage::Departing || stage == Stage::Closed
}

/// A shutdown is final. Once it has started, the supervisor never leaves
/// it: nothing is written, read or started any more, and all that it still
/// asks for is to close the worker's input and to wait for its exit.
pub proof fn lemma_shutdown_is_final(m: Model, input: Input)
    requires
        shutting_down(m.stage),
        admits(m, input),
    ensures
        shutting_down(advance(m, input).next.stage),
        advance(m, input).step == StepView::Perform(ActionView::CloseStdin) || advance(
            m,
            input,
        ).step == StepView::Perform(ActionView::Wait) || advance(m, input).step
            == StepView::Finished(OutcomeView::Stopped),
{
}

/// Whether, at the end of `inputs`, the forwarder's end has been reported
/// and nothing has happened since but reading the worker's output.
pub open spec fn forwarder_awaited(inputs: Seq<Input>) -> bool
    decreases inputs.len(),
{
    inputs.len() > 0 && match inputs.last() {
        Input::Report(Event::ForwarderFinished) => true,
        Input::Report(Event::Chunk(_))
        | Input::Report(Event::EndOfStream)
        | Input::Report(Event::ReadFailed(_)) => forwarder_awaited(inputs.drop_last()),
        _ => false,
    }
}

/// Whenever a supervisor collects a worker's last output or waits for its
/// exit in a diagnosis, the forwarder's end has been reported before.
pub proof fn lemma_drain_follows_forwarder(plan: PlanView, inputs: Seq<Input>)
    requires
        admissible(launching(plan), inputs),
    ensures
        run(launching(plan), inputs).stage == Stage::Draining || run(
            launching(plan),
            inputs,
        ).stage == Stage::Reaping ==> forwarder_awaited(inputs),
    decreases inputs.len(),
{
    if inputs.len() > 0 {
        lemma_drain_follows_forwarder(plan, inputs.drop_last());
    }
}

/// No diagnosis is made before the forwarder of the error stream has
/// finished. In every run of a supervisor, a report that ends an operation
/// with the diagnosis of the worker's end comes after the report of the
/// forwarder's end, with nothing in between but the reading of the
/// worker's last output: what the error stream held was published before
/// the exit was waited for and before the verdict was given.
pub proof fn lemma_verdict_follows_forwarder(plan: PlanView, inputs: Seq<Input>, event: Event)
    requires
        admissible(launching(plan), inputs),
        react(run(launching(plan), inputs), event) matches Some(t) && ends_in_diagnosis(t.step),
    ensures
        run(launching(plan), inputs).stage == Stage::Reaping,
        forwarder_awaited(inputs),
{
    lemma_drain_follows_forwarder(plan, inputs);
}

} // verus!
