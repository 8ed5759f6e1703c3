//! The life of a command: it is started, watched, and stopped if it takes too long.
use vstd::prelude::*;

verus! {

/// How far a command is.
pub enum Stage {
    /// It has to be started, at the head of a process tree of its own.
    Starting,
    /// It runs and is watched.
    Running,
    /// Its whole process tree has to be stopped, because of the given failure.
    Killing(String),
    /// What is left of it has to be collected, because of the given failure.
    Reaping(String),
    /// It came to its end, and its output is complete.
    Finished,
    /// It failed, for the given reason.
    Failed(String),
}

/// The contents of a [`Stage`].
pub enum StageView {
    Starting,
    Running,
    Killing(Seq<char>),
    Reaping(Seq<char>),
    Finished,
    Failed(Seq<char>),
}

impl View for Stage {
    type V = StageView;

    open spec fn view(&self) -> StageView {
        match self {
            Stage::Starting => StageView::Starting,
            Stage::Running => StageView::Running,
            Stage::Killing(failure) => StageView::Killing(failure@),
            Stage::Reaping(failure) => StageView::Reaping(failure@),
            Stage::Finished => StageView::Finished,
            Stage::Failed(failure) => StageView::Failed(failure@),
        }
    }
}

/// Something that happens to a command.
pub enum ProcessEvent {
    Started,
    StartFailed,
    /// It came to its end, and its output was read.
    Exited,
    TimedOut,
    /// It could not be watched, for the given reason.
    WatchFailed(String),
    Killed,
    KillFailed,
    Reaped,
    ReapFailed,
}

/// How a command called `label` goes on behind an event. An event that it does not wait for
/// changes nothing.
pub open spec fn next_stage(stage: StageView, event: ProcessEvent, label: Seq<char>) -> StageView {
    match (stage, event) {
        (StageView::Starting, ProcessEvent::Started) => StageView::Running,
        (StageView::Starting, ProcessEvent::StartFailed) => StageView::Failed(
            "could not start "@ + label,
        ),
        (StageView::Running, ProcessEvent::Exited) => StageView::Finished,
        (StageView::Running, ProcessEvent::TimedOut) => StageView::Killing(label + " timed out"@),
        (StageView::Running, ProcessEvent::WatchFailed(reason)) => StageView::Killing(reason@),
        (StageView::Killing(failure), ProcessEvent::Killed) => StageView::Reaping(failure),
        (StageView::Killing(_), ProcessEvent::KillFailed) => StageView::Failed(
            "could not terminate "@ + label + " process tree"@,
        ),
        (StageView::Reaping(failure), ProcessEvent::Reaped) => StageView::Failed(failure),
        (StageView::Reaping(_), ProcessEvent::ReapFailed) => StageView::Failed(
            "could not reap "@ + label,
        ),
        (stage, _) => stage,
    }
}

/// How a command called `label` goes on behind an event.
pub fn output(stage: Stage, event: ProcessEvent, label: &str) -> (r: Stage)
    ensures
        r@ == next_stage(stage@, event, label@),
{
    match (stage, event) {
        (Stage::Starting, ProcessEvent::Started) => Stage::Running,
        (Stage::Starting, ProcessEvent::StartFailed) => {
            let mut failure = "could not start ".to_owned();
            failure.append(label);
            Stage::Failed(failure)
        },
        (Stage::Running, ProcessEvent::Exited) => Stage::Finished,
        (Stage::Running, ProcessEvent::TimedOut) => {
            let mut failure = label.to_owned();
            failure.append(" timed out");
            Stage::Killing(failure)
        },
        (Stage::Running, ProcessEvent::WatchFailed(reason)) => Stage::Killing(reason),
        (Stage::Killing(failure), ProcessEvent::Killed) => Stage::Reaping(failure),
        (Stage::Killing(_), ProcessEvent::KillFailed) => {
            let mut failure = "could not terminate ".to_owned();
            failure.append(label);
            failure.append(" process tree");
            Stage::Failed(failure)
        },
        (Stage::Reaping(failure), ProcessEvent::Reaped) => Stage::Failed(failure),
        (Stage::Reaping(_), ProcessEvent::ReapFailed) => {
            let mut failure = "could not reap ".to_owned();
            failure.append(label);
            Stage::Failed(failure)
        },
        (stage, _) => stage,
    }
}

/// Where a command is behind a series of events, from its start.
pub open spec fn stage_after(events: Seq<ProcessEvent>, label: Seq<char>) -> StageView
    decreases events.len(),
{
    if events.len() == 0 {
        StageView::Starting
    } else {
        next_stage(stage_after(events.drop_last(), label), events.last(), label)
    }
}

/// Whether the process tree was stopped.
pub open spec fn killed(events: Seq<ProcessEvent>) -> bool {
    exists|i: int| 0 <= i < events.len() && #[trigger] events[i] is Killed
}

/// Whether the process tree was stopped, and then collected.
pub open spec fn reaped(events: Seq<ProcessEvent>) -> bool {
    exists|i: int|
        0 <= i < events.len() && #[trigger] events[i] is Reaped && killed(events.take(i))
}

/// Whether the system refused to start the command, to stop it or to collect it.
pub open spec fn refused(events: Seq<ProcessEvent>) -> bool {
    exists|i: int|
        0 <= i < events.len() && (#[trigger] events[i] is StartFailed || events[i] is KillFailed
            || events[i] is ReapFailed)
}

proof fn lemma_history_stays(events: Seq<ProcessEvent>, event: ProcessEvent)
    ensures
        killed(events) ==> killed(events.push(event)),
        reaped(events) ==> reaped(events.push(event)),
        refused(events) ==> refused(events.push(event)),
{
    let all = events.push(event);
    if killed(events) {
        let i = choose|i: int| 0 <= i < events.len() && #[trigger] events[i] is Killed;
        assert(all[i] == events[i]);
    }
    if reaped(events) {
        let i = choose|i: int|
            0 <= i < events.len() && #[trigger] events[i] is Reaped && killed(events.take(i));
        assert(all[i] == events[i]);
        assert(all.take(i) =~= events.take(i));
    }
    if refused(events) {
        let i = choose|i: int|
            0 <= i < events.len() && (#[trigger] events[i] is StartFailed || events[i] is KillFailed
                || events[i] is ReapFailed);
        assert(all[i] == events[i]);
    }
}

/// No command is given up while its processes may still run: unless the system refuses to start,
/// stop or collect it, a command that fails was stopped with all its descendants, and then
/// collected.
pub proof fn failed_commands_leave_nothing_running(events: Seq<ProcessEvent>, label: Seq<char>)
    ensures
        stage_after(events, label) is Reaping ==> killed(events),
        stage_after(events, label) is Failed ==> reaped(events) || refused(events),
    decreases events.len(),
{
    if events.len() > 0 {
        let earlier = events.drop_last();
        let event = events.last();
        failed_commands_leave_nothing_running(earlier, label);
        lemma_history_stays(earlier, event);
        assert(events =~= earlier.push(event));
        assert(events.take(earlier.len() as int) =~= earlier);
        assert(events[earlier.len() as int] == event);
    }
}

/// A command that takes too long is stopped, collected and then reported as timed out.
pub proof fn timeouts_are_reported(label: Seq<char>)
    ensures
        ({
            let killing = next_stage(StageView::Running, ProcessEvent::TimedOut, label);
            let reaping = next_stage(killing, ProcessEvent::Killed, label);
            &&& killing is Killing
            &&& reaping is Reaping
            &&& next_stage(reaping, ProcessEvent::Reaped, label) == StageView::Failed(
                label + " timed out"@,
            )
        }),
{
}

/// A command that starts and ends is finished, and one that cannot be started, watched, stopped or
/// collected is reported with what could not be done to it, by its label.
pub proof fn commands_end_as_they_went(label: Seq<char>, reason: String, failure: Seq<char>)
    ensures
        next_stage(StageView::Starting, ProcessEvent::Started, label) is Running,
        next_stage(StageView::Running, ProcessEvent::Exited, label) is Finished,
        next_stage(StageView::Starting, ProcessEvent::StartFailed, label) == StageView::Failed(
            "could not start "@ + label,
        ),
        next_stage(StageView::Running, ProcessEvent::WatchFailed(reason), label)
            == StageView::Killing(reason@),
        next_stage(StageView::Killing(failure), ProcessEvent::Killed, label) == StageView::Reaping(
            failure,
        ),
        next_stage(StageView::Killing(failure), ProcessEvent::KillFailed, label)
            == StageView::Failed("could not terminate "@ + label + " process tree"@),
        next_stage(StageView::Reaping(failure), ProcessEvent::Reaped, label) == StageView::Failed(
            failure,
        ),
        next_stage(StageView::Reaping(failure), ProcessEvent::ReapFailed, label)
            == StageView::Failed("could not reap "@ + label),
{
}

/// A command goes on only behind what its stage waits for, and not at all once it is over.
pub proof fn only_awaited_events_move_a_command(
    stage: StageView,
    event: ProcessEvent,
    label: Seq<char>,
)
    requires
        next_stage(stage, event, label) != stage,
    ensures
        match stage {
            StageView::Starting => event is Started || event is StartFailed,
            StageView::Running => event is Exited || event is TimedOut || event is WatchFailed,
            StageView::Killing(_) => event is Killed || event is KillFailed,
            StageView::Reaping(_) => event is Reaped || event is ReapFailed,
            StageView::Finished => false,
            StageView::Failed(_) => false,
        },
{
}

/// Contracts speak of what a stage holds.
pub proof fn stages_are_taken_as_they_are(failure: String)
    ensures
        Stage::Starting@ is Starting,
        Stage::Running@ is Running,
        Stage::Killing(failure)@ == StageView::Killing(failure@),
        Stage::Reaping(failure)@ == StageView::Reaping(failure@),
        Stage::Finished@ is Finished,
        Stage::Failed(failure)@ == StageView::Failed(failure@),
{
}

} // verus!
