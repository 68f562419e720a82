//! The course of one run of Codex, from the directory that it works in to the
//! end that is waited for.
//!
//! Each stage is something that is done on the machine. [`advance`] says, from
//! how a stage went, which stage comes next or why the run is given up.

use crate::chat::{timeout_in, MAX_TIMEOUT_SECONDS};
use crate::json::JsonTree;
use crate::text::concat2;
use vstd::prelude::*;

verus! {

/// What is done for a run.
#[derive(Clone, Copy, Debug, PartialEq, Eq, Structural)]
pub enum RunStage {
    /// Make the directory to work in.
    MakeDirectory,
    /// Put the form of the answer into bytes.
    EncodeSchema,
    /// Write those bytes to their file.
    WriteSchema,
    /// Start Codex.
    Start,
    /// Hand the message to Codex.
    SendMessage,
    /// Take hold of what Codex prints.
    TakeOutput,
    /// Take hold of what Codex prints as errors.
    TakeErrorOutput,
    /// Enter the request among those that run.
    Register,
    /// See whether Codex has ended.
    Poll,
    /// Let a little time pass.
    Pause,
    /// Kill Codex.
    Kill,
    /// Wait for the end of Codex.
    WaitForEnd,
    /// Take the request out of those that run, and collect what there is.
    Collect,
}

/// How a stage went.
pub enum EventView {
    Done,
    Failed(Seq<char>),
    Unavailable,
    AlreadyActive,
    Running { elapsed_seconds: u64, cancelled: bool },
}

/// How a stage went.
#[derive(Debug)]
pub enum RunEvent {
    /// It is done. Of [`RunStage::Poll`]: Codex has ended.
    Done,
    /// It failed, with an error.
    Failed(String),
    /// What it needs could not be got hold of.
    Unavailable,
    /// Of [`RunStage::Register`]: a request with that identifier runs already.
    AlreadyActive,
    /// Of [`RunStage::Poll`]: Codex still runs, for so many whole seconds now,
    /// and was or was not cancelled.
    Running { elapsed_seconds: u64, cancelled: bool },
}

impl View for RunEvent {
    type V = EventView;

    open spec fn view(&self) -> EventView {
        match *self {
            RunEvent::Done => EventView::Done,
            RunEvent::Failed(error) => EventView::Failed(error@),
            RunEvent::Unavailable => EventView::Unavailable,
            RunEvent::AlreadyActive => EventView::AlreadyActive,
            RunEvent::Running { elapsed_seconds, cancelled } => EventView::Running {
                elapsed_seconds,
                cancelled,
            },
        }
    }
}

/// What is known of a request while it is run.
#[derive(Clone, Copy, Debug, PartialEq, Eq, Structural)]
pub struct RunLimits {
    /// Whether the request asks for a form of the answer.
    pub has_schema: bool,
    /// How many seconds Codex may take.
    pub timeout_seconds: u64,
}

/// How far a run has come.
#[derive(Clone, Copy, Debug, PartialEq, Eq, Structural)]
pub struct RunProgress {
    pub stage: RunStage,
    /// Whether the time of Codex was over.
    pub timed_out: bool,
}

/// What follows a stage.
pub enum StepView {
    Go(RunProgress),
    GiveUp { message: Seq<char>, kill: bool },
}

/// What follows a stage.
#[derive(Debug)]
pub enum RunStep {
    /// The run goes on.
    Go(RunProgress),
    /// The run is given up, with an answer, and Codex is killed or left alone.
    GiveUp { message: String, kill: bool },
}

impl View for RunStep {
    type V = StepView;

    open spec fn view(&self) -> StepView {
        match *self {
            RunStep::Go(progress) => StepView::Go(progress),
            RunStep::GiveUp { message, kill } => StepView::GiveUp { message: message@, kill },
        }
    }
}

/// Where a run starts.
pub open spec fn run_start() -> RunProgress {
    RunProgress { stage: RunStage::MakeDirectory, timed_out: false }
}

/// What is answered where a stage fails with an error.
pub open spec fn failure_text(stage: RunStage, error: Seq<char>) -> Seq<char> {
    match stage {
        RunStage::MakeDirectory => "Unable to prepare workspace: "@ + error,
        RunStage::EncodeSchema => error,
        RunStage::WriteSchema => "Unable to write the response schema: "@ + error,
        RunStage::Start => "Unable to start Codex: "@ + error,
        RunStage::SendMessage => "Unable to send the prompt to Codex: "@ + error,
        RunStage::TakeOutput => "Codex stdout is unavailable."@,
        RunStage::TakeErrorOutput => "Codex stderr is unavailable."@,
        RunStage::Register => "Request registry is unavailable."@,
        RunStage::Poll => "Unable to read Codex status: "@ + error,
        RunStage::WaitForEnd => "Unable to stop Codex: "@ + error,
        _ => error,
    }
}

/// What is answered where a stage cannot get hold of what it needs.
pub open spec fn unavailable_text(stage: RunStage) -> Seq<char> {
    match stage {
        RunStage::Poll => "Codex process is unavailable."@,
        RunStage::WaitForEnd => "Codex process is unavailable."@,
        _ => failure_text(stage, Seq::empty()),
    }
}

/// The stage behind one that is done.
pub open spec fn following(stage: RunStage, has_schema: bool) -> RunStage {
    match stage {
        RunStage::MakeDirectory => if has_schema {
            RunStage::EncodeSchema
        } else {
            RunStage::Start
        },
        RunStage::EncodeSchema => RunStage::WriteSchema,
        RunStage::WriteSchema => RunStage::Start,
        RunStage::Start => RunStage::SendMessage,
        RunStage::SendMessage => RunStage::TakeOutput,
        RunStage::TakeOutput => RunStage::TakeErrorOutput,
        RunStage::TakeErrorOutput => RunStage::Register,
        RunStage::Register => RunStage::Poll,
        RunStage::Poll => RunStage::Collect,
        RunStage::Pause => RunStage::Poll,
        RunStage::Kill => RunStage::WaitForEnd,
        RunStage::WaitForEnd => RunStage::Collect,
        RunStage::Collect => RunStage::Collect,
    }
}

/// Whether the run goes on where the stage fails: what cannot be killed is
/// waited for all the same, and a pause or what is collected in the end is
/// never missed.
pub open spec fn failure_is_ignored(stage: RunStage) -> bool {
    stage == RunStage::Kill || stage == RunStage::Pause || stage == RunStage::Collect
}

/// What follows a stage: from how far the run has come, and how the stage
/// went.
pub open spec fn advanced(
    progress: RunProgress,
    event: EventView,
    limits: RunLimits,
) -> StepView {
    let stage = progress.stage;
    let done = StepView::Go(
        RunProgress {
            stage: following(stage, limits.has_schema),
            timed_out: progress.timed_out,
        },
    );
    match event {
        EventView::Running { elapsed_seconds, cancelled } => if stage != RunStage::Poll {
            done
        } else if elapsed_seconds >= limits.timeout_seconds {
            StepView::Go(RunProgress { stage: RunStage::Kill, timed_out: true })
        } else if cancelled {
            StepView::Go(
                RunProgress { stage: RunStage::WaitForEnd, timed_out: progress.timed_out },
            )
        } else {
            StepView::Go(RunProgress { stage: RunStage::Pause, timed_out: progress.timed_out })
        },
        EventView::AlreadyActive => if stage == RunStage::Register {
            StepView::GiveUp { message: "request_id is already active."@, kill: true }
        } else {
            done
        },
        EventView::Failed(error) => if failure_is_ignored(stage) {
            done
        } else {
            StepView::GiveUp { message: failure_text(stage, error), kill: false }
        },
        EventView::Unavailable => if failure_is_ignored(stage) {
            done
        } else {
            StepView::GiveUp { message: unavailable_text(stage), kill: false }
        },
        EventView::Done => done,
    }
}

impl RunProgress {
    /// Where a run starts.
    pub fn start() -> (progress: Self)
        ensures
            progress == run_start(),
    {
        RunProgress { stage: RunStage::MakeDirectory, timed_out: false }
    }
}

/// What is answered where a stage fails with an error.
fn failure_message(stage: RunStage, error: &str) -> (message: String)
    ensures
        message@ == failure_text(stage, error@),
{
    match stage {
        RunStage::MakeDirectory => concat2("Unable to prepare workspace: ", error),
        RunStage::EncodeSchema => error.to_string(),
        RunStage::WriteSchema => concat2("Unable to write the response schema: ", error),
        RunStage::Start => concat2("Unable to start Codex: ", error),
        RunStage::SendMessage => concat2("Unable to send the prompt to Codex: ", error),
        RunStage::TakeOutput => "Codex stdout is unavailable.".to_string(),
        RunStage::TakeErrorOutput => "Codex stderr is unavailable.".to_string(),
        RunStage::Register => "Request registry is unavailable.".to_string(),
        RunStage::Poll => concat2("Unable to read Codex status: ", error),
        RunStage::WaitForEnd => concat2("Unable to stop Codex: ", error),
        _ => error.to_string(),
    }
}

/// What is answered where a stage cannot get hold of what it needs.
fn unavailable_message(stage: RunStage) -> (message: String)
    ensures
        message@ == unavailable_text(stage),
{
    match stage {
        RunStage::Poll => "Codex process is unavailable.".to_string(),
        RunStage::WaitForEnd => "Codex process is unavailable.".to_string(),
        _ => {
            let nothing = String::new();
            assert(nothing@ =~= Seq::empty());
            failure_message(stage, nothing.as_str())
        },
    }
}

/// The stage behind one that is done.
fn next_stage(stage: RunStage, has_schema: bool) -> (next: RunStage)
    ensures
        next == following(stage, has_schema),
{
    match stage {
        RunStage::MakeDirectory => if has_schema {
            RunStage::EncodeSchema
        } else {
            RunStage::Start
        },
        RunStage::EncodeSchema => RunStage::WriteSchema,
        RunStage::WriteSchema => RunStage::Start,
        RunStage::Start => RunStage::SendMessage,
        RunStage::SendMessage => RunStage::TakeOutput,
        RunStage::TakeOutput => RunStage::TakeErrorOutput,
        RunStage::TakeErrorOutput => RunStage::Register,
        RunStage::Register => RunStage::Poll,
        RunStage::Poll => RunStage::Collect,
        RunStage::Pause => RunStage::Poll,
        RunStage::Kill => RunStage::WaitForEnd,
        RunStage::WaitForEnd => RunStage::Collect,
        RunStage::Collect => RunStage::Collect,
    }
}

/// What follows a stage: from how far the run has come, and how the stage
/// went.
pub fn advance(progress: RunProgress, event: &RunEvent, limits: RunLimits) -> (step: RunStep)
    ensures
        step@ == advanced(progress, event@, limits),
{
    let stage = progress.stage;
    let timed_out = progress.timed_out;
    let done = RunProgress { stage: next_stage(stage, limits.has_schema), timed_out };
    let ignored = stage == RunStage::Kill || stage == RunStage::Pause || stage
        == RunStage::Collect;
    match event {
        RunEvent::Running { elapsed_seconds, cancelled } => {
            if stage != RunStage::Poll {
                RunStep::Go(done)
            } else if *elapsed_seconds >= limits.timeout_seconds {
                RunStep::Go(RunProgress { stage: RunStage::Kill, timed_out: true })
            } else if *cancelled {
                RunStep::Go(RunProgress { stage: RunStage::WaitForEnd, timed_out })
            } else {
                RunStep::Go(RunProgress { stage: RunStage::Pause, timed_out })
            }
        },
        RunEvent::AlreadyActive => {
            if stage == RunStage::Register {
                RunStep::GiveUp { message: "request_id is already active.".to_string(), kill: true }
            } else {
                RunStep::Go(done)
            }
        },
        RunEvent::Failed(error) => {
            if ignored {
                RunStep::Go(done)
            } else {
                RunStep::GiveUp { message: failure_message(stage, error.as_str()), kill: false }
            }
        },
        RunEvent::Unavailable => {
            if ignored {
                RunStep::Go(done)
            } else {
                RunStep::GiveUp { message: unavailable_message(stage), kill: false }
            }
        },
        RunEvent::Done => RunStep::Go(done),
    }
}

// ---------------------------------------------------------------------------
// The course of a run
// ---------------------------------------------------------------------------

/// What follows some stages, each with how it went: where the run was given
/// up, it stays given up.
pub open spec fn advanced_through(events: Seq<EventView>, limits: RunLimits) -> StepView
    decreases events.len(),
{
    if events.len() == 0 {
        StepView::Go(run_start())
    } else {
        match advanced_through(events.drop_last(), limits) {
            StepView::Go(progress) => advanced(progress, events.last(), limits),
            given_up => given_up,
        }
    }
}

/// Whether a stage comes once the request is entered among those that run.
pub open spec fn registered(stage: RunStage) -> bool {
    match stage {
        RunStage::Poll => true,
        RunStage::Pause => true,
        RunStage::Kill => true,
        RunStage::WaitForEnd => true,
        RunStage::Collect => true,
        _ => false,
    }
}

/// A run that is not cut short by its time limit never counts as timed out:
/// it does so only where Codex was seen running for as long as it may take.
pub proof fn timed_out_only_when_time_is_over(events: Seq<EventView>, limits: RunLimits)
    requires
        forall|i: int|
            0 <= i < events.len() ==> match #[trigger] events[i] {
                EventView::Running { elapsed_seconds, .. } => elapsed_seconds
                    < limits.timeout_seconds,
                _ => true,
            },
    ensures
        advanced_through(events, limits) matches StepView::Go(progress) ==> !progress.timed_out
            && progress.stage != RunStage::Kill,
    decreases events.len(),
{
    if events.len() > 0 {
        let front = events.drop_last();
        assert forall|i: int| 0 <= i < front.len() implies match #[trigger] front[i] {
            EventView::Running { elapsed_seconds, .. } => elapsed_seconds < limits.timeout_seconds,
            _ => true,
        } by {
            assert(front[i] == events[i]);
        }
        timed_out_only_when_time_is_over(front, limits);
    }
}

/// Once a request is entered among those that run, it stays entered until its
/// results are collected: no later stage comes before that one.
pub proof fn registered_run_goes_on_to_its_end(
    progress: RunProgress,
    event: EventView,
    limits: RunLimits,
)
    requires
        registered(progress.stage),
    ensures
        advanced(progress, event, limits) matches StepView::Go(next) ==> registered(next.stage),
{
}

/// A run is given up with Codex killed only where its identifier is taken.
pub proof fn taken_identifier_kills(progress: RunProgress, event: EventView, limits: RunLimits)
    ensures
        (advanced(progress, event, limits) matches StepView::GiveUp { kill, .. } && kill) <==> (
        progress.stage == RunStage::Register && event is AlreadyActive),
{
}

/// No request is polled again once its time is over or it was cancelled; and
/// an hour is the most that any request may take.
pub proof fn polling_ends(
    payload: JsonTree,
    progress: RunProgress,
    elapsed_seconds: u64,
    cancelled: bool,
    limits: RunLimits,
)
    requires
        progress.stage == RunStage::Poll,
        limits.timeout_seconds == timeout_in(payload),
        elapsed_seconds >= MAX_TIMEOUT_SECONDS || cancelled,
    ensures
        ({
            let event = EventView::Running { elapsed_seconds, cancelled };
            advanced(progress, event, limits) matches StepView::Go(next) && (next.stage
                == RunStage::Kill || next.stage == RunStage::WaitForEnd)
        }),
{
}

/// The time limit is kept to the second: Codex is killed, and the run counts as
/// timed out, where Codex is seen running for as long as it may take or longer;
/// before that, a cancelled run is waited for and any other is looked at again.
pub proof fn time_limit_is_kept(
    timed_out: bool,
    elapsed_seconds: u64,
    cancelled: bool,
    limits: RunLimits,
)
    ensures
        ({
            let step = advanced(
                RunProgress { stage: RunStage::Poll, timed_out },
                EventView::Running { elapsed_seconds, cancelled },
                limits,
            );
            &&& elapsed_seconds >= limits.timeout_seconds ==> step == StepView::Go(
                RunProgress { stage: RunStage::Kill, timed_out: true },
            )
            &&& elapsed_seconds < limits.timeout_seconds && cancelled ==> step == StepView::Go(
                RunProgress { stage: RunStage::WaitForEnd, timed_out },
            )
            &&& elapsed_seconds < limits.timeout_seconds && !cancelled ==> step == StepView::Go(
                RunProgress { stage: RunStage::Pause, timed_out },
            )
        }),
{
}

/// What is done is followed by the next thing to do, whatever the limits: the
/// schema is dealt with where there is one and only then, Codex is started
/// before the message is sent, the request is entered before Codex is looked
/// at, and the results are collected once Codex has ended. Whether time was
/// over is not forgotten on the way.
pub proof fn stages_follow_each_other(timed_out: bool, limits: RunLimits)
    ensures
        ({
            let at = |stage: RunStage| RunProgress { stage, timed_out };
            let after = |stage: RunStage| advanced(at(stage), EventView::Done, limits);
            let go = |stage: RunStage| StepView::Go(at(stage));
            &&& limits.has_schema ==> after(RunStage::MakeDirectory) == go(RunStage::EncodeSchema)
            &&& !limits.has_schema ==> after(RunStage::MakeDirectory) == go(RunStage::Start)
            &&& after(RunStage::EncodeSchema) == go(RunStage::WriteSchema)
            &&& after(RunStage::WriteSchema) == go(RunStage::Start)
            &&& after(RunStage::Start) == go(RunStage::SendMessage)
            &&& after(RunStage::SendMessage) == go(RunStage::TakeOutput)
            &&& after(RunStage::TakeOutput) == go(RunStage::TakeErrorOutput)
            &&& after(RunStage::TakeErrorOutput) == go(RunStage::Register)
            &&& after(RunStage::Register) == go(RunStage::Poll)
            &&& after(RunStage::Pause) == go(RunStage::Poll)
            &&& after(RunStage::Poll) == go(RunStage::Collect)
            &&& after(RunStage::Kill) == go(RunStage::WaitForEnd)
            &&& after(RunStage::WaitForEnd) == go(RunStage::Collect)
        }),
{
}

/// A stage that fails ends the run with an answer that says what failed and
/// ends with the error, however long that is; Codex is not killed for it.
pub proof fn failures_are_told(timed_out: bool, error: Seq<char>, limits: RunLimits)
    ensures
        ({
            let failed = |stage: RunStage|
                advanced(RunProgress { stage, timed_out }, EventView::Failed(error), limits);
            let told = |message: Seq<char>| StepView::GiveUp { message, kill: false };
            &&& failed(RunStage::MakeDirectory) == told("Unable to prepare workspace: "@ + error)
            &&& failed(RunStage::EncodeSchema) == told(error)
            &&& failed(RunStage::WriteSchema) == told(
                "Unable to write the response schema: "@ + error,
            )
            &&& failed(RunStage::Start) == told("Unable to start Codex: "@ + error)
            &&& failed(RunStage::SendMessage) == told(
                "Unable to send the prompt to Codex: "@ + error,
            )
            &&& failed(RunStage::TakeOutput) == told("Codex stdout is unavailable."@)
            &&& failed(RunStage::TakeErrorOutput) == told("Codex stderr is unavailable."@)
            &&& failed(RunStage::Register) == told("Request registry is unavailable."@)
            &&& failed(RunStage::Poll) == told("Unable to read Codex status: "@ + error)
            &&& failed(RunStage::WaitForEnd) == told("Unable to stop Codex: "@ + error)
            &&& failed(RunStage::Kill) == StepView::Go(
                RunProgress { stage: RunStage::WaitForEnd, timed_out },
            )
            &&& failed(RunStage::Pause) == StepView::Go(
                RunProgress { stage: RunStage::Poll, timed_out },
            )
        }),
{
}

/// What cannot be got hold of ends the run with an answer that says what it is,
/// and so does an identifier that is taken.
pub proof fn missing_things_are_told(timed_out: bool, limits: RunLimits)
    ensures
        ({
            let missing = |stage: RunStage|
                advanced(RunProgress { stage, timed_out }, EventView::Unavailable, limits);
            let told = |message: Seq<char>| StepView::GiveUp { message, kill: false };
            &&& missing(RunStage::TakeOutput) == told("Codex stdout is unavailable."@)
            &&& missing(RunStage::TakeErrorOutput) == told("Codex stderr is unavailable."@)
            &&& missing(RunStage::Register) == told("Request registry is unavailable."@)
            &&& missing(RunStage::Poll) == told("Codex process is unavailable."@)
            &&& missing(RunStage::WaitForEnd) == told("Codex process is unavailable."@)
            &&& advanced(
                RunProgress { stage: RunStage::Register, timed_out },
                EventView::AlreadyActive,
                limits,
            ) == (StepView::GiveUp { message: "request_id is already active."@, kill: true })
        }),
{
}

/// A run starts with its directory, and nobody has waited for it yet.
pub proof fn run_starts_with_its_directory()
    ensures
        run_start() == (RunProgress { stage: RunStage::MakeDirectory, timed_out: false }),
{
}

/// Looking at Codex again and again within its time changes nothing: the run is
/// where it was.
pub proof fn patience_changes_nothing(looks: Seq<u64>, events: Seq<EventView>, limits: RunLimits)
    requires
        advanced_through(events, limits) == StepView::Go(
            RunProgress { stage: RunStage::Poll, timed_out: false },
        ),
        forall|i: int| 0 <= i < looks.len() ==> (#[trigger] looks[i]) < limits.timeout_seconds,
    ensures
        advanced_through(events + patient(looks), limits) == advanced_through(events, limits),
    decreases looks.len(),
{
    if looks.len() == 0 {
        assert(events + patient(looks) =~= events);
    } else {
        let front = looks.drop_last();
        assert forall|i: int| 0 <= i < front.len() implies (#[trigger] front[i])
            < limits.timeout_seconds by {
            assert(front[i] == looks[i]);
        }
        patience_changes_nothing(front, events, limits);
        assert(looks[looks.len() - 1] < limits.timeout_seconds);
        let look = EventView::Running { elapsed_seconds: looks.last(), cancelled: false };
        let before = events + patient(front);
        let all = events + patient(looks);
        assert(all =~= before.push(look).push(EventView::Done));
        assert(all.drop_last() =~= before.push(look));
        let looked = before.push(look);
        assert(looked.drop_last() =~= before);
        assert(looked.last() == look && all.last() == EventView::Done);
        assert(advanced_through(looked, limits) == StepView::Go(
            RunProgress { stage: RunStage::Pause, timed_out: false },
        ));
    }
}

/// Codex is seen running after so many seconds, and a little time passes, again
/// and again.
pub open spec fn patient(looks: Seq<u64>) -> Seq<EventView>
    decreases looks.len(),
{
    if looks.len() == 0 {
        Seq::empty()
    } else {
        patient(looks.drop_last()).push(
            EventView::Running { elapsed_seconds: looks.last(), cancelled: false },
        ).push(EventView::Done)
    }
}

/// An event that belongs to another stage changes nothing of what follows, and
/// what a stage cannot get hold of is told like an error without words, but for
/// the process of Codex. What was collected stays collected.
pub proof fn events_out_of_place(
    progress: RunProgress,
    elapsed_seconds: u64,
    cancelled: bool,
    limits: RunLimits,
)
    ensures
        ({
            let done = advanced(progress, EventView::Done, limits);
            let running = EventView::Running { elapsed_seconds, cancelled };
            &&& progress.stage != RunStage::Poll ==> advanced(progress, running, limits) == done
            &&& progress.stage != RunStage::Register ==> advanced(
                progress,
                EventView::AlreadyActive,
                limits,
            ) == done
            &&& progress.stage != RunStage::Poll && progress.stage != RunStage::WaitForEnd
                ==> advanced(progress, EventView::Unavailable, limits) == advanced(
                progress,
                EventView::Failed(Seq::empty()),
                limits,
            )
            &&& progress.stage == RunStage::Collect ==> done == StepView::Go(progress) && advanced(
                progress,
                EventView::Failed(Seq::empty()),
                limits,
            ) == done
        }),
{
}

} // verus!
