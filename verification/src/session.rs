//! The event stream of the controller and the life of a worker around it.
use crate::calls::ToolCall;
use crate::command;
use crate::config;
use crate::config::WorkerConfig;
use crate::delivery;
use crate::delivery::DeliveryState;
use crate::delivery::RepeatedCall;
use crate::encoding;
use crate::self_update;
use crate::self_update::Upgrade;
use crate::self_update::UpgradeReport;
use crate::text;
use vstd::prelude::*;

verus! {

/// Seconds without any event behind which a connection counts as dead.
pub const IDLE_TIMEOUT_SECONDS: u64 = 45;

/// Seconds between two reports that the worker is alive.
pub const HEARTBEAT_SECONDS: u64 = 10;

/// The bytes of an event stream that are still to be read.
pub struct EventStream {
    buffer: Vec<u8>,
    announced: bool,
}

/// The contents of an [`EventStream`].
pub struct StreamView {
    pub buffer: Seq<u8>,
    /// Whether the stream has been announced as working.
    pub announced: bool,
}

impl View for EventStream {
    type V = StreamView;

    closed spec fn view(&self) -> StreamView {
        StreamView { buffer: self.buffer@, announced: self.announced }
    }
}

/// An event whose bytes are not UTF-8.
pub struct InvalidEvent {}

impl InvalidEvent {
    /// What the user is told.
    pub fn message(&self) -> (r: String)
        ensures
            r@ == "invalid event UTF-8"@,
    {
        "invalid event UTF-8".to_owned()
    }
}

/// The next event of a stream.
pub struct NextEvent {
    /// Whether the stream has to be announced as working first.
    pub announce: bool,
    pub event: Result<String, InvalidEvent>,
}

/// What the next event of a stream is: whether the stream has to be announced, and the event, if
/// its bytes are UTF-8. There is none where no frame is complete.
pub open spec fn next_of(stream: StreamView) -> Option<(bool, Option<Seq<char>>)> {
    match delivery::boundary(stream.buffer) {
        Some((end, width)) => {
            let frame = stream.buffer.take(end);
            Some(
                (
                    !stream.announced,
                    if vstd::utf8::valid_utf8(frame) {
                        Some(vstd::utf8::decode_utf8(frame))
                    } else {
                        None
                    },
                ),
            )
        },
        None => None,
    }
}

/// The stream behind its next event. An event that is not UTF-8 is left where it is.
pub open spec fn stream_after(stream: StreamView) -> StreamView {
    match delivery::boundary(stream.buffer) {
        Some((end, width)) => StreamView {
            buffer: if vstd::utf8::valid_utf8(stream.buffer.take(end)) {
                stream.buffer.skip(end + width)
            } else {
                stream.buffer
            },
            announced: true,
        },
        None => stream,
    }
}

impl EventStream {
    /// A stream from which nothing has been received.
    pub fn new() -> (r: Self)
        ensures
            r@ == (StreamView { buffer: Seq::<u8>::empty(), announced: false }),
    {
        EventStream { buffer: Vec::new(), announced: false }
    }

    /// Takes in the bytes of a chunk, wherever the chunk was cut.
    pub fn receive(&mut self, chunk: &[u8])
        ensures
            final(self)@ == (StreamView { buffer: old(self)@.buffer + chunk@, ..old(self)@ }),
    {
        self.buffer.extend_from_slice(chunk);
        assert(self.buffer@ =~= old(self).buffer@ + chunk@);
    }

    /// Takes the next complete event out of the stream.
    pub fn next_event(&mut self) -> (r: Option<NextEvent>)
        ensures
            final(self)@ == stream_after(old(self)@),
            match r {
                Some(next) => match next_of(old(self)@) {
                    Some((announce, event)) => {
                        &&& next.announce == announce
                        &&& match next.event {
                            Ok(text) => event == Some(text@),
                            Err(_) => event is None,
                        }
                    },
                    None => false,
                },
                None => next_of(old(self)@) is None,
            },
    {
        let (end, width) = match delivery::frame_end(self.buffer.as_slice()) {
            Some(found) => found,
            None => return None,
        };
        proof {
            delivery::boundary_is_first(self.buffer@, 0);
        }
        let length = self.buffer.len();
        assert(end + width <= length);
        let announce = !self.announced;
        self.announced = true;
        let frame = vstd::slice::slice_subrange(self.buffer.as_slice(), 0, end);
        assert(frame@ =~= self.buffer@.take(end as int));
        match encoding::utf8_text(frame) {
            Ok(event) => {
                let rest = self.buffer.split_off(end + width);
                assert(rest@ =~= old(self).buffer@.skip(end + width));
                self.buffer = rest;
                Some(NextEvent { announce, event: Ok(event) })
            },
            Err(_) => Some(NextEvent { announce, event: Err(InvalidEvent {  }) }),
        }
    }
}

/// The complete frames at the start of some bytes.
pub open spec fn frames(bytes: Seq<u8>) -> Seq<Seq<u8>>
    decreases bytes.len(),
{
    match delivery::boundary(bytes) {
        Some((end, width)) => if 0 <= end && 0 < width && end + width <= bytes.len() {
            seq![bytes.take(end)] + frames(bytes.skip(end + width))
        } else {
            seq![]
        },
        None => seq![],
    }
}

/// The bytes behind the complete frames.
pub open spec fn remainder(bytes: Seq<u8>) -> Seq<u8>
    decreases bytes.len(),
{
    match delivery::boundary(bytes) {
        Some((end, width)) => if 0 <= end && 0 < width && end + width <= bytes.len() {
            remainder(bytes.skip(end + width))
        } else {
            bytes
        },
        None => bytes,
    }
}

/// More bytes never move the end of a frame that is complete.
pub proof fn complete_frames_are_stable(bytes: Seq<u8>, more: Seq<u8>)
    requires
        delivery::boundary(bytes) is Some,
    ensures
        delivery::boundary(bytes + more) == delivery::boundary(bytes),
{
    let all = bytes + more;
    delivery::boundary_is_first(bytes, 0);
    delivery::boundary_is_first(all, 0);
    let (end, width) = delivery::boundary(bytes)->Some_0;
    assert(forall|k: int| 0 <= k < bytes.len() ==> all[k] == bytes[k]);
    assert(delivery::boundary_at(all, end) == Some(width));
    assert forall|j: int| 0 <= j < end implies #[trigger] delivery::boundary_at(all, j) is None by {
        assert(delivery::boundary_at(bytes, j) is None);
    }
    match delivery::boundary(all) {
        Some((e, w)) => {
            assert(e <= end) by {
                if end < e {
                    assert(delivery::boundary_at(all, end) is None);
                }
            }
        },
        None => {
            assert(delivery::boundary_at(all, end) is None);
        },
    }
}

/// The events of a stream do not depend on where its chunks were cut: reading the frames of a
/// first part, and then those of what it left with the rest, gives the frames of the whole.
pub proof fn frames_do_not_depend_on_chunks(bytes: Seq<u8>, more: Seq<u8>)
    ensures
        frames(bytes + more) == frames(bytes) + frames(remainder(bytes) + more),
        remainder(bytes + more) == remainder(remainder(bytes) + more),
    decreases bytes.len(),
{
    delivery::boundary_is_first(bytes, 0);
    delivery::boundary_is_first(bytes + more, 0);
    match delivery::boundary(bytes) {
        Some((end, width)) => {
            complete_frames_are_stable(bytes, more);
            let rest = bytes.skip(end + width);
            frames_do_not_depend_on_chunks(rest, more);
            assert((bytes + more).skip(end + width) =~= rest + more);
            assert((bytes + more).take(end) =~= bytes.take(end));
            assert(frames(bytes + more) =~= frames(bytes) + frames(remainder(bytes) + more));
        },
        None => {
            assert(frames(bytes) + frames(remainder(bytes) + more) =~= frames(bytes + more));
        },
    }
}

/// Reading a stream event by event goes through its frames in order, and ends when no frame is
/// complete.
pub proof fn events_are_the_frames(stream: StreamView)
    ensures
        next_of(stream) is None <==> frames(stream.buffer).len() == 0,
        next_of(stream) matches Some((_, Some(event))) ==> {
            &&& frames(stream.buffer).len() > 0
            &&& event == vstd::utf8::decode_utf8(frames(stream.buffer)[0])
            &&& frames(stream_after(stream).buffer) == frames(stream.buffer).drop_first()
            &&& remainder(stream_after(stream).buffer) == remainder(stream.buffer)
        },
{
    delivery::boundary_is_first(stream.buffer, 0);
    if next_of(stream) matches Some((_, Some(event))) {
        assert(frames(stream_after(stream).buffer) =~= frames(stream.buffer).drop_first());
    }
}

/// A stream is announced as working with its first complete frame, and only then.
pub proof fn stream_is_announced_once(stream: StreamView)
    ensures
        next_of(stream) matches Some((announce, _)) ==> announce == !stream.announced
            && stream_after(stream).announced,
        next_of(stream) is None ==> stream_after(stream) == stream,
{
}

/// The name of the event that the lines describe: that of the last `event:` line.
pub open spec fn event_name(lines: Seq<Seq<char>>) -> Seq<char>
    decreases lines.len(),
{
    if lines.len() == 0 {
        "message"@
    } else {
        match text::after_prefix(lines.last(), "event:"@) {
            Some(value) => text::trim(value),
            None => event_name(lines.drop_last()),
        }
    }
}

/// The contents of the `data:` lines, one behind the other, without the space in front of each.
pub open spec fn event_data(lines: Seq<Seq<char>>) -> Seq<char>
    decreases lines.len(),
{
    if lines.len() == 0 {
        seq![]
    } else {
        event_data(lines.drop_last()) + match text::after_prefix(lines.last(), "data:"@) {
            Some(value) => text::trim_start(value),
            None => seq![],
        }
    }
}

/// The JSON of the tool call that an event carries, if it carries one.
pub open spec fn tool_call_of(event: Seq<char>) -> Option<Seq<char>> {
    let lines = text::lines(event);
    if event_name(lines) == "tool_call"@ {
        Some(event_data(lines))
    } else {
        None
    }
}

/// A line is never both an `event:` line and a `data:` line.
proof fn lemma_fields_differ(line: Seq<char>)
    ensures
        text::after_prefix(line, "event:"@) is Some ==> text::after_prefix(line, "data:"@) is None,
{
    reveal_strlit("event:");
    reveal_strlit("data:");
    if text::after_prefix(line, "event:"@) is Some && text::after_prefix(line, "data:"@) is Some {
        assert(line.take(6)[0] == 'e');
        assert(line.take(5)[0] == 'd');
    }
}

/// The JSON of the tool call that an event carries, if it carries one.
pub fn parse_sse_call(event: &str) -> (r: Option<String>)
    ensures
        match r {
            Some(data) => tool_call_of(event@) == Some(data@),
            None => tool_call_of(event@) is None,
        },
{
    let lines = text::text_lines(event);
    let ghost all = text::texts(lines@);
    let mut name = "message".to_owned();
    let mut data = String::new();
    let mut i: usize = 0;
    while i < lines.len()
        invariant
            i <= lines@.len(),
            all == text::texts(lines@),
            name@ == event_name(all.take(i as int)),
            data@ == event_data(all.take(i as int)),
        decreases lines@.len() - i,
    {
        let line = lines[i].as_str();
        let ghost seen = all.take(i + 1);
        assert(seen.drop_last() =~= all.take(i as int));
        assert(seen.last() == line@);
        proof {
            lemma_fields_differ(line@);
        }
        match text::strip_prefix(line, "event:") {
            Some(value) => {
                name = text::trimmed(value.as_str());
            },
            None => match text::strip_prefix(line, "data:") {
                Some(value) => {
                    let value = text::trimmed_start(value.as_str());
                    data.append(value.as_str());
                },
                None => {},
            },
        }
        assert(data@ =~= event_data(seen));
        i = i + 1;
    }
    assert(all.take(i as int) =~= all);
    if text::same(name.as_str(), "tool_call") {
        Some(data)
    } else {
        None
    }
}

/// What an event asks for.
pub enum EventKind {
    /// An upgrade, described by JSON.
    Upgrade(String),
    /// A tool call, described by JSON.
    Call(String),
    Other,
}

/// What an event asks for: an upgrade comes before a tool call.
pub fn classify(event: &str) -> (r: EventKind)
    ensures
        match r {
            EventKind::Upgrade(data) => self_update::upgrade_of(event@) == Some(data@),
            EventKind::Call(data) => self_update::upgrade_of(event@) is None && tool_call_of(event@)
                == Some(data@),
            EventKind::Other => self_update::upgrade_of(event@) is None && tool_call_of(event@) is None,
        },
{
    match self_update::parse_event(event) {
        Some(data) => EventKind::Upgrade(data),
        None => match parse_sse_call(event) {
            Some(data) => EventKind::Call(data),
            None => EventKind::Other,
        },
    }
}

/// What an event asks for, once its JSON has been read.
pub enum Message {
    Upgrade(Upgrade),
    Call(ToolCall),
    Other,
}

/// Why a connection is given up over an event.
pub enum SessionError {
    /// An upgrade is addressed to another process.
    WrongProcess,
    Repeated(RepeatedCall),
}

impl SessionError {
    /// What the user is told.
    pub fn message(&self) -> (r: String)
        ensures
            match self {
                SessionError::WrongProcess => r@ == "upgrade addressed to another Worker process"@,
                SessionError::Repeated(_) => r@ == "repeated call ID has different arguments"@,
            },
    {
        match self {
            SessionError::WrongProcess => "upgrade addressed to another Worker process".to_owned(),
            SessionError::Repeated(repeated) => repeated.message(),
        }
    }
}

/// What to do about an event.
pub enum SessionStep {
    /// Nothing: read the next event.
    Continue,
    /// Leave the stream and upgrade.
    Upgrade(Upgrade),
    /// Send a receipt for a call, and execute the call if it has to be, beside the stream.
    Dispatch { call: ToolCall, receipt: String, execute: bool },
    /// Give up the connection.
    Fail(SessionError),
}

/// What to do about an event: an upgrade ends the session, if it is meant for this process, and
/// a call is receipted whenever it comes, and executed the first time.
pub open spec fn is_step(
    step: SessionStep,
    state: delivery::DeliveryView,
    config: config::ConfigView,
    message: Message,
) -> bool {
    match message {
        Message::Other => step is Continue,
        Message::Upgrade(upgrade) => if upgrade.boot_id@ == state.boot_id {
            step == SessionStep::Upgrade(upgrade)
        } else {
            step == SessionStep::Fail(SessionError::WrongProcess)
        },
        Message::Call(call) => match delivery::admission(state, call@) {
            Ok(new) => step matches SessionStep::Dispatch { call: dispatched, receipt, execute }
                && dispatched == call && receipt@ == crate::calls::call_address(config, call@)
                + "/received"@ && execute == new,
            Err(error) => step == SessionStep::Fail(SessionError::Repeated(error)),
        },
    }
}

/// The calls that are taken on behind an event.
pub open spec fn state_behind(
    state: delivery::DeliveryView,
    message: Message,
) -> delivery::DeliveryView {
    match message {
        Message::Call(call) => delivery::admitted(state, call@),
        _ => state,
    }
}

/// Decides what to do about an event.
pub fn dispatch(state: &mut DeliveryState, config: &WorkerConfig, message: Message) -> (r:
    SessionStep)
    ensures
        is_step(r, old(state)@, config@, message),
        final(state)@ == state_behind(old(state)@, message),
{
    match message {
        Message::Other => SessionStep::Continue,
        Message::Upgrade(upgrade) => {
            if state.is_own(upgrade.boot_id.as_str()) {
                SessionStep::Upgrade(upgrade)
            } else {
                SessionStep::Fail(SessionError::WrongProcess)
            }
        },
        Message::Call(call) => match state.deliver(config, &call) {
            Ok(delivery) => SessionStep::Dispatch {
                call,
                receipt: delivery.receipt,
                execute: delivery.execute,
            },
            Err(error) => SessionStep::Fail(SessionError::Repeated(error)),
        },
    }
}

/// How far the worker is in its life.
pub enum RunState {
    /// It reads the event stream, behind so many failures in a row.
    Listening { failures: u32 },
    /// It waits for the calls in progress before an upgrade.
    Draining { upgrade: Upgrade },
    /// It tells the controller that the upgrade begins.
    Announcing { upgrade: Upgrade },
    Installing { upgrade: Upgrade },
    /// It tells the controller why the upgrade failed.
    Reporting { upgrade: Upgrade, reason: String },
    /// It waits before it connects again.
    Pausing { failures: u32 },
    /// The upgrade is installed and has to be started.
    Installed,
    /// The controller refused the connection for good.
    Rejected,
    /// The controller refused the report of a failed upgrade for good, with the given reason.
    Unreported(String),
}

/// Something that happens to a running worker.
pub enum RunEvent {
    /// The event stream ended.
    StreamEnded,
    /// The event stream failed, with the status of the answer, if there was one.
    StreamFailed(Option<u16>),
    UpgradeRequested(Upgrade),
    /// Whether no call is in progress.
    Idle(bool),
    /// The controller confirmed a report.
    Reported,
    /// The controller refused a report for good.
    ReportRefused(String),
    InstallSucceeded,
    InstallFailed(String),
    Paused,
}

/// How the worker goes on behind an event. An event that its state does not wait for changes
/// nothing.
pub open spec fn next_state(state: RunState, event: RunEvent) -> RunState {
    match (state, event) {
        (RunState::Listening { failures }, RunEvent::StreamEnded) => RunState::Pausing {
            failures: 0,
        },
        (RunState::Listening { failures }, RunEvent::StreamFailed(status)) => {
            if !delivery::is_retryable(status) {
                RunState::Rejected
            } else if failures == u32::MAX {
                RunState::Pausing { failures }
            } else {
                RunState::Pausing { failures: (failures + 1) as u32 }
            }
        },
        (RunState::Listening { failures }, RunEvent::UpgradeRequested(upgrade)) => {
            RunState::Draining { upgrade }
        },
        (RunState::Draining { upgrade }, RunEvent::Idle(true)) => RunState::Announcing { upgrade },
        (RunState::Announcing { upgrade }, RunEvent::Reported) => RunState::Installing { upgrade },
        (RunState::Announcing { upgrade }, RunEvent::ReportRefused(reason)) => RunState::Reporting {
            upgrade,
            reason,
        },
        (RunState::Installing { upgrade }, RunEvent::InstallSucceeded) => RunState::Installed,
        (RunState::Installing { upgrade }, RunEvent::InstallFailed(reason)) => RunState::Reporting {
            upgrade,
            reason,
        },
        (RunState::Reporting { upgrade, reason }, RunEvent::Reported) => RunState::Pausing {
            failures: 0,
        },
        (RunState::Reporting { upgrade, reason }, RunEvent::ReportRefused(refusal)) => {
            RunState::Unreported(refusal)
        },
        (RunState::Pausing { failures }, RunEvent::Paused) => RunState::Listening { failures },
        (state, _) => state,
    }
}

/// How the worker goes on behind an event.
pub fn advance(state: RunState, event: RunEvent) -> (r: RunState)
    ensures
        r == next_state(state, event),
{
    match (state, event) {
        (RunState::Listening { failures: _ }, RunEvent::StreamEnded) => RunState::Pausing {
            failures: 0,
        },
        (RunState::Listening { failures }, RunEvent::StreamFailed(status)) => {
            if delivery::retryable(status) {
                RunState::Pausing { failures: failures.saturating_add(1) }
            } else {
                RunState::Rejected
            }
        },
        (RunState::Listening { failures: _ }, RunEvent::UpgradeRequested(upgrade)) => {
            RunState::Draining { upgrade }
        },
        (RunState::Draining { upgrade }, RunEvent::Idle(true)) => RunState::Announcing { upgrade },
        (RunState::Announcing { upgrade }, RunEvent::Reported) => RunState::Installing { upgrade },
        (RunState::Announcing { upgrade }, RunEvent::ReportRefused(reason)) => RunState::Reporting {
            upgrade,
            reason,
        },
        (RunState::Installing { upgrade: _ }, RunEvent::InstallSucceeded) => RunState::Installed,
        (RunState::Installing { upgrade }, RunEvent::InstallFailed(reason)) => RunState::Reporting {
            upgrade,
            reason,
        },
        (RunState::Reporting { upgrade: _, reason: _ }, RunEvent::Reported) => RunState::Pausing {
            failures: 0,
        },
        (RunState::Reporting { upgrade: _, reason: _ }, RunEvent::ReportRefused(refusal)) => {
            RunState::Unreported(refusal)
        },
        (RunState::Pausing { failures }, RunEvent::Paused) => RunState::Listening { failures },
        (state, _) => state,
    }
}

/// What a running worker has to do.
pub enum RunAction {
    /// Connect to the event stream and read it.
    Listen,
    /// Look whether any call is in progress, and again a moment later if one is.
    AwaitIdle,
    Report(UpgradeReport),
    /// Install the release with the given version.
    Install(String),
    /// Pause as long as the number of failures in a row calls for.
    Pause(u32),
    /// Start the executable that was installed, and stop.
    Restart,
    /// Stop with an error, of which the user is told this.
    Stop(String),
}

/// What the user is told where the controller refuses the connection for good.
pub const REJECTED: &'static str = "Worker connection rejected; inspect configuration or re-pair this device";

/// What the worker has to do in a state.
pub open spec fn is_action(action: RunAction, state: RunState, config: config::ConfigView) -> bool {
    match state {
        RunState::Listening { .. } => action is Listen,
        RunState::Draining { .. } => action is AwaitIdle,
        RunState::Announcing { upgrade } => action matches RunAction::Report(report)
            && report.url@ == config::worker_address(config) + "/upgrade"@ && report.id@
            == upgrade.id@ && report.status@ == "installing"@ && report.error is None,
        RunState::Installing { upgrade } => action matches RunAction::Install(version) && version@
            == upgrade.version@,
        RunState::Reporting { upgrade, reason } => action matches RunAction::Report(report)
            && report.url@ == config::worker_address(config) + "/upgrade"@ && report.id@
            == upgrade.id@ && report.status@ == "failed"@ && report.error is Some
            && report.error->Some_0@ == reason@,
        RunState::Pausing { failures } => action == RunAction::Pause(failures),
        RunState::Installed => action is Restart,
        RunState::Rejected => action matches RunAction::Stop(message) && message@ == REJECTED@,
        RunState::Unreported(refusal) => action matches RunAction::Stop(message) && message@
            == refusal@,
    }
}

/// What the worker has to do in a state.
pub fn run(state: &RunState, config: &WorkerConfig) -> (r: RunAction)
    ensures
        is_action(r, *state, config@),
{
    match state {
        RunState::Listening { failures: _ } => RunAction::Listen,
        RunState::Draining { upgrade: _ } => RunAction::AwaitIdle,
        RunState::Announcing { upgrade } => RunAction::Report(
            self_update::report(config, upgrade, self_update::Progress::Installing),
        ),
        RunState::Installing { upgrade } => RunAction::Install(upgrade.version.clone()),
        RunState::Reporting { upgrade, reason } => RunAction::Report(
            self_update::report(config, upgrade, self_update::Progress::Failed(reason.clone())),
        ),
        RunState::Pausing { failures } => RunAction::Pause(*failures),
        RunState::Installed => RunAction::Restart,
        RunState::Rejected => RunAction::Stop(REJECTED.to_owned()),
        RunState::Unreported(refusal) => RunAction::Stop(refusal.clone()),
    }
}

/// The state of a worker behind a series of events.
pub open spec fn state_after(state: RunState, events: Seq<RunEvent>) -> RunState
    decreases events.len(),
{
    if events.len() == 0 {
        state
    } else {
        next_state(state_after(state, events.drop_last()), events.last())
    }
}

/// Whether `upgrade` was asked for.
pub open spec fn requested(events: Seq<RunEvent>, upgrade: Upgrade) -> bool {
    exists|i: int|
        0 <= i < events.len() && #[trigger] events[i] == RunEvent::UpgradeRequested(upgrade)
}

/// Whether `upgrade` was asked for, and later no call was in progress.
pub open spec fn drained(events: Seq<RunEvent>, upgrade: Upgrade) -> bool {
    exists|i: int|
        0 <= i < events.len() && #[trigger] events[i] == RunEvent::Idle(true) && requested(
            events.take(i),
            upgrade,
        )
}

/// Whether `upgrade` was asked for, later no call was in progress, and later still the controller
/// confirmed that the upgrade begins.
pub open spec fn announced(events: Seq<RunEvent>, upgrade: Upgrade) -> bool {
    exists|i: int|
        0 <= i < events.len() && #[trigger] events[i] == RunEvent::Reported && drained(
            events.take(i),
            upgrade,
        )
}

proof fn lemma_history_stays(events: Seq<RunEvent>, event: RunEvent, upgrade: Upgrade)
    ensures
        requested(events, upgrade) ==> requested(events.push(event), upgrade),
        drained(events, upgrade) ==> drained(events.push(event), upgrade),
        announced(events, upgrade) ==> announced(events.push(event), upgrade),
{
    let all = events.push(event);
    if requested(events, upgrade) {
        let i = choose|i: int|
            0 <= i < events.len() && #[trigger] events[i] == RunEvent::UpgradeRequested(upgrade);
        assert(all[i] == events[i]);
    }
    if drained(events, upgrade) {
        let i = choose|i: int|
            0 <= i < events.len() && #[trigger] events[i] == RunEvent::Idle(true) && requested(
                events.take(i),
                upgrade,
            );
        assert(all[i] == events[i]);
        assert(all.take(i) =~= events.take(i));
    }
    if announced(events, upgrade) {
        let i = choose|i: int|
            0 <= i < events.len() && #[trigger] events[i] == RunEvent::Reported && drained(
                events.take(i),
                upgrade,
            );
        assert(all[i] == events[i]);
        assert(all.take(i) =~= events.take(i));
    }
}

proof fn lemma_history(events: Seq<RunEvent>)
    ensures
        match state_after(RunState::Listening { failures: 0 }, events) {
            RunState::Draining { upgrade } => requested(events, upgrade),
            RunState::Announcing { upgrade } => drained(events, upgrade),
            RunState::Installing { upgrade } => announced(events, upgrade),
            RunState::Installed => exists|upgrade: Upgrade| #[trigger] announced(events, upgrade),
            _ => true,
        },
    decreases events.len(),
{
    if events.len() > 0 {
        let earlier = events.drop_last();
        let event = events.last();
        let before = state_after(RunState::Listening { failures: 0 }, earlier);
        lemma_history(earlier);
        assert(events =~= earlier.push(event));
        assert(events.take(earlier.len() as int) =~= earlier);
        assert(events[earlier.len() as int] == event);
        match before {
            RunState::Draining { upgrade } => lemma_history_stays(earlier, event, upgrade),
            RunState::Announcing { upgrade } => lemma_history_stays(earlier, event, upgrade),
            RunState::Installing { upgrade } => lemma_history_stays(earlier, event, upgrade),
            RunState::Installed => {
                let upgrade = choose|upgrade: Upgrade| #[trigger] announced(earlier, upgrade);
                lemma_history_stays(earlier, event, upgrade);
            },
            _ => {},
        }
    }
}

/// An upgrade is installed only once it was asked for, then no call was in progress, and then
/// the controller confirmed that the upgrade begins.
pub proof fn upgrades_wait_for_work(events: Seq<RunEvent>)
    ensures
        state_after(RunState::Listening { failures: 0 }, events) matches RunState::Installing {
            upgrade,
        } ==> announced(events, upgrade),
        state_after(RunState::Listening { failures: 0 }, events) is Installed ==> exists|
            upgrade: Upgrade,
        | #[trigger] announced(events, upgrade),
{
    lemma_history(events);
}

/// A worker whose connection is refused for good stops with an error that says so, whatever happens
/// later, and one that fails otherwise connects again after a pause.
pub proof fn rejection_stops_the_worker(failures: u32, status: Option<u16>, later: Seq<RunEvent>)
    ensures
        forall|action: RunAction, config: config::ConfigView|
            #[trigger] is_action(action, RunState::Rejected, config) ==> (action matches
                RunAction::Stop(message) && message@
                == "Worker connection rejected; inspect configuration or re-pair this device"@),
        next_state(RunState::Listening { failures }, RunEvent::StreamFailed(status)) is Rejected
            <==> !delivery::is_retryable(status),
        delivery::is_retryable(status) ==> next_state(
            next_state(RunState::Listening { failures }, RunEvent::StreamFailed(status)),
            RunEvent::Paused,
        ) is Listening,
        state_after(RunState::Rejected, later) is Rejected,
    decreases later.len(),
{
    if later.len() > 0 {
        rejection_stops_the_worker(failures, status, later.drop_last());
    }
}

/// An upgrade that fails leaves the worker running: once the controller knows of the failure,
/// the worker connects again as if nothing had failed.
pub proof fn failed_upgrade_keeps_the_worker(upgrade: Upgrade, reason: String)
    ensures
        ({
            let installing = RunState::Installing { upgrade };
            let reporting = next_state(installing, RunEvent::InstallFailed(reason));
            let pausing = next_state(reporting, RunEvent::Reported);
            &&& reporting == RunState::Reporting { upgrade, reason }
            &&& next_state(pausing, RunEvent::Paused) == RunState::Listening { failures: 0 }
        }),
{
}

/// A report that the worker is alive.
pub struct Heartbeat {
    pub url: String,
    pub hostname: String,
    pub version: String,
    /// Where the load of the machine is reported.
    pub resources_url: String,
}

/// What is reported of a worker that is alive, given the name of the machine, if it has one.
pub fn report_liveness(config: &WorkerConfig, hostname: Option<String>) -> (r: Heartbeat)
    ensures
        r.url@ == config::worker_address(config@) + "/heartbeat"@,
        r.version@ == command::VERSION@,
        r.resources_url@ == config::worker_address(config@) + "/resources"@,
        match hostname {
            Some(name) => r.hostname == name,
            None => r.hostname@ == "cybion-worker"@,
        },
{
    let hostname = match hostname {
        Some(name) => name,
        None => "cybion-worker".to_owned(),
    };
    Heartbeat {
        url: config::endpoint(config, "/heartbeat"),
        hostname,
        version: command::VERSION.to_owned(),
        resources_url: config::endpoint(config, "/resources"),
    }
}

/// Where the controller offers its event stream.
pub fn events_url(config: &WorkerConfig) -> (r: String)
    ensures
        r@ == config::worker_address(config@) + "/events"@,
{
    config::endpoint(config, "/events")
}

/// What is sent as an event comes out of the stream as it was sent, whichever line ends mark its
/// frame, and what follows it stays in the stream.
pub proof fn events_are_read_back(event: Seq<char>, rest: Seq<u8>, announced: bool)
    ensures
        ({
            let frame = vstd::utf8::encode_utf8(event);
            let stream = StreamView { buffer: frame + seq![10u8, 10u8] + rest, announced };
            delivery::boundary(stream.buffer) == Some((frame.len() as int, 2int)) ==> next_of(stream)
                == Some((!announced, Some(event))) && stream_after(stream) == (StreamView {
                buffer: rest,
                announced: true,
            })
        }),
        ({
            let frame = vstd::utf8::encode_utf8(event);
            let stream = StreamView {
                buffer: frame + seq![13u8, 10u8, 13u8, 10u8] + rest,
                announced,
            };
            delivery::boundary(stream.buffer) == Some((frame.len() as int, 4int)) ==> next_of(stream)
                == Some((!announced, Some(event))) && stream_after(stream) == (StreamView {
                buffer: rest,
                announced: true,
            })
        }),
{
    let frame = vstd::utf8::encode_utf8(event);
    vstd::utf8::encode_utf8_decode_utf8(event);
    vstd::utf8::encode_utf8_valid_utf8(event);
    let n = frame.len() as int;
    let short = frame + seq![10u8, 10u8] + rest;
    assert(short.take(n) =~= frame);
    assert(short.skip(n + 2) =~= rest);
    let long = frame + seq![13u8, 10u8, 13u8, 10u8] + rest;
    assert(long.take(n) =~= frame);
    assert(long.skip(n + 4) =~= rest);
}

/// A frame whose bytes are not UTF-8 is reported as no event and stays in the stream; without a
/// complete frame nothing is reported and nothing changes.
pub proof fn broken_events_are_reported(stream: StreamView, end: int, width: int)
    requires
        delivery::boundary(stream.buffer) matches Some(found) ==> found == (end, width),
    ensures
        delivery::boundary(stream.buffer) is Some && !vstd::utf8::valid_utf8(stream.buffer.take(end))
            ==> next_of(stream) == Some((!stream.announced, None::<Seq<char>>)) && stream_after(stream)
            == (StreamView { announced: true, ..stream }),
        delivery::boundary(stream.buffer) is None ==> next_of(stream) is None && stream_after(stream)
            == stream,
{
}

proof fn lemma_line_added(lines: Seq<Seq<char>>, line: Seq<char>)
    ensures
        event_name(lines.push(line)) == (match text::after_prefix(line, "event:"@) {
            Some(value) => text::trim(value),
            None => event_name(lines),
        }),
        event_data(lines.push(line)) == event_data(lines) + (match text::after_prefix(
            line,
            "data:"@,
        ) {
            Some(value) => text::trim_start(value),
            None => seq![],
        }),
{
    assert(lines.push(line).drop_last() =~= lines);
}

#[verifier::rlimit(40)]
proof fn lemma_fields(value: Seq<char>)
    ensures
        text::after_prefix("event:"@ + value, "event:"@) == Some(value),
        text::after_prefix("data:"@ + value, "data:"@) == Some(value),
        text::after_prefix("event:"@ + value, "data:"@) is None,
        text::after_prefix("data:"@ + value, "event:"@) is None,
        ("event:"@ + value).len() > 0,
        ("data:"@ + value).len() > 0,
        (forall|k: int| 0 <= k < value.len() ==> #[trigger] value[k] != '\n') ==> forall|k: int|
            0 <= k < ("event:"@ + value).len() ==> #[trigger] ("event:"@ + value)[k] != '\n',
        (forall|k: int| 0 <= k < value.len() ==> #[trigger] value[k] != '\n') ==> forall|k: int|
            0 <= k < ("data:"@ + value).len() ==> #[trigger] ("data:"@ + value)[k] != '\n',
{
    reveal_strlit("event:");
    reveal_strlit("data:");
    let named = "event:"@ + value;
    let data = "data:"@ + value;
    text::prefix_and_rest_make_the_text(named, "event:"@, value);
    text::prefix_and_rest_make_the_text(data, "data:"@, value);
    lemma_fields_differ(named);
    if text::after_prefix(data, "event:"@) is Some {
        lemma_fields_differ(data);
    }
    if forall|k: int| 0 <= k < value.len() ==> #[trigger] value[k] != '\n' {
        assert forall|k: int| 0 <= k < named.len() implies #[trigger] named[k] != '\n' by {
            if k >= 6 {
                assert(named[k] == value[k - 6]);
            }
        }
        assert forall|k: int| 0 <= k < data.len() implies #[trigger] data[k] != '\n' by {
            if k >= 5 {
                assert(data[k] == value[k - 5]);
            }
        }
    }
}

/// The lines of an event are read one behind the other: a line that names the event decides whether
/// it is a tool call, a data line adds its contents without the space in front of them, and no
/// other line adds anything.
#[verifier::rlimit(40)]
pub proof fn tool_calls_are_read_line_by_line(
    front: Seq<char>,
    line: Seq<char>,
    value: Seq<char>,
)
    requires
        line.len() > 0,
        forall|k: int| 0 <= k < line.len() ==> #[trigger] line[k] != '\n',
        forall|k: int| 0 <= k < value.len() ==> #[trigger] value[k] != '\n',
        text::after_prefix(line, "event:"@) is None,
        text::after_prefix(line, "data:"@) is None,
    ensures
        ({
            let earlier = front + seq!['\n'];
            &&& tool_call_of(earlier + line) == tool_call_of(earlier)
            &&& tool_call_of(earlier + ("data:"@ + value)) == (match tool_call_of(earlier) {
                Some(data) => Some(data + text::trim_start(value)),
                None => None,
            })
            &&& tool_call_of(earlier + ("event:"@ + value)) is Some <==> text::trim(value)
                == "tool_call"@
            &&& tool_call_of(earlier) is Some && text::trim(value) == "tool_call"@ ==> tool_call_of(
                earlier + ("event:"@ + value),
            ) == tool_call_of(earlier)
        }),
{
    lemma_fields(value);
    let lines = text::lines(front + seq!['\n']);
    text::last_lines_are_added(front, line);
    text::last_lines_are_added(front, "data:"@ + value);
    text::last_lines_are_added(front, "event:"@ + value);
    lemma_line_added(lines, line);
    lemma_line_added(lines, "data:"@ + value);
    lemma_line_added(lines, "event:"@ + value);
    assert(event_data(lines) + seq![] =~= event_data(lines));
}

/// Data counts whether it stands in front of the line that names the event or behind it; an event
/// that is not named is no tool call, and one that is named is, even without data.
#[verifier::rlimit(40)]
pub proof fn tool_call_lines_come_in_any_order(
    front: Seq<char>,
    name: Seq<char>,
    value: Seq<char>,
)
    requires
        forall|k: int| 0 <= k < name.len() ==> #[trigger] name[k] != '\n',
        name.len() == 0 || name.last() != '\r',
        forall|k: int| 0 <= k < value.len() ==> #[trigger] value[k] != '\n',
        value.len() == 0 || value.last() != '\r',
    ensures
        ({
            let earlier = front + seq!['\n'];
            let event = "event:"@ + name;
            let data = "data:"@ + value;
            &&& tool_call_of(earlier + event + seq!['\n'] + data) == tool_call_of(
                earlier + data + seq!['\n'] + event,
            )
            &&& text::trim(name) == "tool_call"@ ==> tool_call_of(event) == Some(
                Seq::<char>::empty(),
            )
            &&& tool_call_of(data) is None
        }),
{
    let earlier = front + seq!['\n'];
    let event = "event:"@ + name;
    let data = "data:"@ + value;
    lemma_fields(name);
    lemma_fields(value);
    reveal_strlit("event:");
    reveal_strlit("data:");
    assert(name.len() > 0 ==> event.last() == name.last());
    assert(value.len() > 0 ==> data.last() == value.last());
    lemma_two_lines(front, event, data);
    lemma_two_lines(front, data, event);
    let lines = text::lines(earlier);
    lemma_line_added(lines, event);
    lemma_line_added(lines, data);
    lemma_line_added(lines.push(event), data);
    lemma_line_added(lines.push(data), event);
    assert(event_data(lines.push(event).push(data)) =~= event_data(lines.push(data).push(event)));
    lemma_single_line(event);
    lemma_single_line(data);
}

proof fn lemma_two_lines(front: Seq<char>, a: Seq<char>, b: Seq<char>)
    requires
        a.len() > 0 && b.len() > 0,
        a.last() != '\r',
        forall|k: int| 0 <= k < a.len() ==> #[trigger] a[k] != '\n',
        forall|k: int| 0 <= k < b.len() ==> #[trigger] b[k] != '\n',
    ensures
        text::lines(front + seq!['\n'] + a + seq!['\n'] + b) == text::lines(front + seq!['\n']).push(
            a,
        ).push(b),
{
    text::last_lines_are_added(front + seq!['\n'] + a, b);
    lemma_ended_line(front, a);
}

proof fn lemma_single_line(line: Seq<char>)
    requires
        line.len() > 0,
        forall|k: int| 0 <= k < line.len() ==> #[trigger] line[k] != '\n',
    ensures
        text::after_prefix(line, "event:"@) is None ==> tool_call_of(line) is None,
        text::after_prefix(line, "event:"@) matches Some(name) && text::trim(name) == "tool_call"@
            && text::after_prefix(line, "data:"@) is None ==> tool_call_of(line) == Some(
            Seq::<char>::empty(),
        ),
{
    reveal_strlit("message");
    reveal_strlit("tool_call");
    assert("message"@[0] == 'm' && "tool_call"@[0] == 't');
    text::lines_are_split_off(line, seq![]);
    let none = Seq::<Seq<char>>::empty();
    lemma_line_added(none, line);
    assert(none.push(line) =~= seq![line]);
    assert(event_data(none) =~= seq![]);
}

#[verifier::rlimit(40)]
proof fn lemma_ended_line(front: Seq<char>, line: Seq<char>)
    requires
        line.len() == 0 || line.last() != '\r',
        forall|k: int| 0 <= k < line.len() ==> #[trigger] line[k] != '\n',
    ensures
        text::lines(front + seq!['\n'] + line + seq!['\n']) == text::lines(front + seq!['\n']).push(
            line,
        ),
    decreases front.len(),
{
    let s = front + seq!['\n'] + line + seq!['\n'];
    let t = front + seq!['\n'];
    text::split_pieces_rejoin(t, '\n');
    let n = text::split(t, '\n')[0].len() as int;
    let head = text::split(t, '\n')[0];
    assert(t[n] == '\n') by {
        if text::split(t, '\n').len() == 1 {
            assert(head[t.len() - 1] == '\n');
        } else {
            assert(t[n] == (head + seq!['\n'])[n]);
        }
    }
    assert forall|k: int| 0 <= k < n implies t[k] != '\n' by {
        assert(head[k] == t[k]);
    }
    assert(n <= front.len()) by {
        if n > front.len() {
            assert(t[front.len() as int] == '\n');
        }
    }
    text::segment_is_found(s, '\n', n);
    text::segment_is_found(t, '\n', n);
    assert(s.take(n) =~= t.take(n));
    if n < front.len() {
        let rest = front.skip(n + 1);
        assert(s.skip(n + 1) =~= rest + seq!['\n'] + line + seq!['\n']);
        assert(t.skip(n + 1) =~= rest + seq!['\n']);
        lemma_ended_line(rest, line);
    } else {
        assert(s.skip(n + 1) =~= line + seq!['\n'] + seq![]);
        assert(t.skip(n + 1) =~= seq![]);
        text::lines_are_split_off(line, seq![]);
    }
    assert(text::lines(s) =~= text::lines(t).push(line));
}

/// A call under a new identifier is receipted and executed; one that was seen with the same contents
/// is receipted and not executed; and one that was seen with other contents ends the connection.
pub proof fn calls_are_dispatched(
    step: SessionStep,
    state: delivery::DeliveryView,
    config: config::ConfigView,
    call: ToolCall,
)
    requires
        is_step(step, state, config, Message::Call(call)),
    ensures
        !state.seen.contains_key(call.id@) ==> (step matches SessionStep::Dispatch {
            call: dispatched,
            receipt,
            execute,
        } && dispatched == call && execute && receipt@ == crate::calls::call_address(config, call@)
            + "/received"@),
        state.seen.contains_key(call.id@) && state.seen[call.id@] == delivery::fingerprint(call@)
            ==> (step matches SessionStep::Dispatch { call: dispatched, receipt, execute } && dispatched
            == call && !execute && receipt@ == crate::calls::call_address(config, call@)
            + "/received"@),
        state.seen.contains_key(call.id@) && state.seen[call.id@] != delivery::fingerprint(call@)
            ==> step matches SessionStep::Fail(SessionError::Repeated(_)),
        !state.seen.contains_key(call.id@) ==> state_behind(state, Message::Call(call)).seen
            == state.seen.insert(call.id@, delivery::fingerprint(call@)),
        state.seen.contains_key(call.id@) ==> state_behind(state, Message::Call(call)) == state,
{
}

/// An upgrade is taken up exactly where it names this process, and like every message that is no
/// call it leaves the calls as they are.
pub proof fn upgrades_are_for_this_process(
    step: SessionStep,
    state: delivery::DeliveryView,
    config: config::ConfigView,
    upgrade: Upgrade,
)
    requires
        is_step(step, state, config, Message::Upgrade(upgrade)),
    ensures
        upgrade.boot_id@ == state.boot_id ==> step == SessionStep::Upgrade(upgrade),
        upgrade.boot_id@ != state.boot_id ==> step matches SessionStep::Fail(
            SessionError::WrongProcess,
        ),
        state_behind(state, Message::Upgrade(upgrade)) == state,
        state_behind(state, Message::Other) == state,
        forall|other: SessionStep| #[trigger]
            is_step(other, state, config, Message::Other) ==> other is Continue,
{
}

/// A worker that listens pauses behind the end of its stream, without a failure where the stream
/// ended and with one more where it failed and can be tried again; it stops where the controller
/// refuses it, and waits for its work where an upgrade is asked for.
pub proof fn streams_end_as_they_ended(failures: u32, status: u16, upgrade: Upgrade)
    ensures
        next_state(RunState::Listening { failures }, RunEvent::StreamEnded) == (RunState::Pausing {
            failures: 0,
        }),
        failures < u32::MAX && (status / 100 == 5 || status == 408 || status == 429) ==> next_state(
            RunState::Listening { failures },
            RunEvent::StreamFailed(Some(status)),
        ) == (RunState::Pausing { failures: (failures + 1) as u32 }),
        failures < u32::MAX ==> next_state(
            RunState::Listening { failures },
            RunEvent::StreamFailed(None),
        ) == (RunState::Pausing { failures: (failures + 1) as u32 }),
        next_state(RunState::Listening { failures: u32::MAX }, RunEvent::StreamFailed(None))
            == (RunState::Pausing { failures: u32::MAX }),
        status / 100 != 5 && status != 408 && status != 429 ==> next_state(
            RunState::Listening { failures },
            RunEvent::StreamFailed(Some(status)),
        ) is Rejected,
        next_state(RunState::Listening { failures }, RunEvent::UpgradeRequested(upgrade)) == (
        RunState::Draining { upgrade }),
        next_state(RunState::Pausing { failures }, RunEvent::Paused) == (RunState::Listening {
            failures,
        }),
{
}

/// An upgrade that was asked for is installed once the work is done and the controller knows of it,
/// however often there was still work before.
pub proof fn upgrades_come_to_their_end(
    upgrade: Upgrade,
    busy: Seq<RunEvent>,
    reason: String,
    refusal: String,
)
    requires
        forall|i: int| 0 <= i < busy.len() ==> #[trigger] busy[i] == RunEvent::Idle(false),
    ensures
        state_after(RunState::Draining { upgrade }, busy) == (RunState::Draining { upgrade }),
        next_state(RunState::Draining { upgrade }, RunEvent::Idle(true)) == (RunState::Announcing {
            upgrade,
        }),
        next_state(RunState::Announcing { upgrade }, RunEvent::Reported) == (RunState::Installing {
            upgrade,
        }),
        next_state(RunState::Announcing { upgrade }, RunEvent::ReportRefused(reason)) == (
        RunState::Reporting { upgrade, reason }),
        next_state(RunState::Installing { upgrade }, RunEvent::InstallSucceeded) is Installed,
        next_state(RunState::Installing { upgrade }, RunEvent::InstallFailed(reason)) == (
        RunState::Reporting { upgrade, reason }),
        next_state(RunState::Reporting { upgrade, reason }, RunEvent::Reported) == (
        RunState::Pausing { failures: 0 }),
        next_state(RunState::Reporting { upgrade, reason }, RunEvent::ReportRefused(refusal))
            == RunState::Unreported(refusal),
    decreases busy.len(),
{
    if busy.len() > 0 {
        upgrades_come_to_their_end(upgrade, busy.drop_last(), reason, refusal);
    }
}

/// A worker goes on only behind what its state waits for; a worker that has come to its end does
/// not go on at all.
pub proof fn only_awaited_events_count(state: RunState, event: RunEvent)
    requires
        next_state(state, event) != state,
    ensures
        match state {
            RunState::Listening { .. } => event is StreamEnded || event is StreamFailed
                || event is UpgradeRequested,
            RunState::Draining { .. } => event == RunEvent::Idle(true),
            RunState::Announcing { .. } => event is Reported || event is ReportRefused,
            RunState::Installing { .. } => event is InstallSucceeded || event is InstallFailed,
            RunState::Reporting { .. } => event is Reported || event is ReportRefused,
            RunState::Pausing { .. } => event is Paused,
            RunState::Installed => false,
            RunState::Rejected => false,
            RunState::Unreported(_) => false,
        },
{
}

/// What the worker does follows from where it is: it installs the version that was asked for, and
/// its reports go to its own address and name the upgrade and, where it failed, the reason.
pub proof fn actions_follow_the_state(action: RunAction, state: RunState, config: config::ConfigView)
    requires
        is_action(action, state, config),
    ensures
        action is Listen <==> state is Listening,
        action is AwaitIdle <==> state is Draining,
        action is Restart <==> state is Installed,
        action matches RunAction::Install(version) ==> state matches RunState::Installing { upgrade }
            && version@ == upgrade.version@,
        state is Installing ==> action is Install,
        action matches RunAction::Pause(count) ==> state matches RunState::Pausing { failures }
            && count == failures,
        state is Pausing ==> action is Pause,
        state is Announcing || state is Reporting ==> action is Report,
        action matches RunAction::Report(report) ==> {
            &&& report.url@ == config::worker_address(config) + "/upgrade"@
            &&& match state {
                RunState::Announcing { upgrade } => report.id@ == upgrade.id@ && report.status@
                    == "installing"@ && report.error is None,
                RunState::Reporting { upgrade, reason } => report.id@ == upgrade.id@
                    && report.status@ == "failed"@ && (report.error matches Some(error) && error@
                    == reason@),
                _ => false,
            }
        },
        action matches RunAction::Stop(message) ==> match state {
            RunState::Rejected => true,
            RunState::Unreported(refusal) => message@ == refusal@,
            _ => false,
        },
        state is Rejected || state is Unreported ==> action is Stop,
{
}

/// How the lines of an event end does not matter, nor whether its last line ends at all, nor a blank
/// line behind it; a single line that neither names an event nor carries data is no tool call.
#[verifier::rlimit(40)]
pub proof fn line_ends_do_not_matter_for_calls(front: Seq<char>, rest: Seq<char>, line: Seq<char>)
    requires
        front.len() == 0 || front.last() != '\r',
        forall|k: int| 0 <= k < line.len() ==> #[trigger] line[k] != '\n',
        text::after_prefix(line, "event:"@) is None,
    ensures
        tool_call_of(front + seq!['\r', '\n'] + rest) == tool_call_of(front + seq!['\n'] + rest),
        front.len() > 0 && front.last() != '\n' ==> tool_call_of(front + seq!['\n']) == tool_call_of(
            front,
        ),
        tool_call_of(rest + seq!['\n'] + seq!['\n']) == tool_call_of(rest + seq!['\n']),
        tool_call_of(line) is None,
{
    text::carriage_returns_do_not_count(front, rest);
    if front.len() > 0 && front.last() != '\n' {
        text::final_line_feeds_do_not_count(front);
    }
    reveal_strlit("event:");
    reveal_strlit("data:");
    lemma_ended_line(rest, seq![]);
    assert(rest + seq!['\n'] + seq![] + seq!['\n'] =~= rest + seq!['\n'] + seq!['\n']);
    let lines = text::lines(rest + seq!['\n']);
    lemma_line_added(lines, seq![]);
    assert(event_data(lines) + seq![] =~= event_data(lines));
    if line.len() > 0 {
        lemma_single_line(line);
    } else {
        reveal_strlit("message");
        reveal_strlit("tool_call");
        assert("message"@[0] == 'm' && "tool_call"@[0] == 't');
        text::lines_are_split_off(line, seq![]);
        assert(line =~= seq![]);
    }
}

} // verus!
