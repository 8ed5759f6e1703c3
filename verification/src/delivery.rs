//! Exactly-once execution of delivered calls, event framing and retries.
use crate::calls;
use crate::calls::ToolCall;
use crate::config::WorkerConfig;
use crate::encoding;
use crate::json;
use crate::numbers;
use crate::text;
use vstd::hash_map::StringHashMap;
use vstd::prelude::*;

verus! {

/// The header that tells the controller which process it talks to.
pub const BOOT_HEADER: &'static str = "x-cybion-worker-boot-id";

/// Milliseconds between two looks at the calls in progress.
pub const IDLE_POLL_MILLISECONDS: u64 = 50;

/// The calls that this process has taken on.
pub struct DeliveryState {
    pub boot_id: String,
    seen: StringHashMap<String>,
    active: usize,
}

/// The contents of a [`DeliveryState`].
pub struct DeliveryView {
    pub boot_id: Seq<char>,
    /// The fingerprint of each call that was taken on, by its identifier.
    pub seen: Map<Seq<char>, Seq<char>>,
    /// The calls that were taken on and are not over.
    pub active: usize,
}

impl View for DeliveryState {
    type V = DeliveryView;

    closed spec fn view(&self) -> DeliveryView {
        DeliveryView {
            boot_id: self.boot_id@,
            seen: self.seen@.map_values(|fingerprint: String| fingerprint@),
            active: self.active,
        }
    }
}

/// A call came again under its identifier, but with other contents.
pub struct RepeatedCall {}

impl RepeatedCall {
    /// What the user is told.
    pub fn message(&self) -> (r: String)
        ensures
            r@ == "repeated call ID has different arguments"@,
    {
        "repeated call ID has different arguments".to_owned()
    }
}

/// The part of a call that has to be the same when it is delivered again, as compact JSON.
pub open spec fn call_json(call: calls::CallView) -> Seq<char> {
    "{\"arguments\":"@ + call.arguments + ",\"name\":"@ + json::json_string(call.name)
        + ",\"thread_id\":"@ + json::json_string(call.thread_id) + "}"@
}

/// What tells two calls under one identifier apart.
pub open spec fn fingerprint(call: calls::CallView) -> Seq<char> {
    encoding::hex(encoding::sha256(vstd::utf8::encode_utf8(call_json(call))))
}

fn call_fingerprint(call: &ToolCall) -> (r: String)
    ensures
        r@ == fingerprint(call@),
{
    let name = json::json_quoted(call.name.as_str());
    let thread_id = json::json_quoted(call.thread_id.as_str());
    let mut content = "{\"arguments\":".to_owned();
    content.append(call.arguments.as_str());
    content.append(",\"name\":");
    content.append(name.as_str());
    content.append(",\"thread_id\":");
    content.append(thread_id.as_str());
    content.append("}");
    let digest = encoding::sha256_digest(content.as_str().as_bytes());
    encoding::hex_text(digest.as_slice())
}

/// The state behind an attempt to take on a call.
pub open spec fn admitted(state: DeliveryView, call: calls::CallView) -> DeliveryView {
    if state.seen.contains_key(call.id) {
        state
    } else {
        DeliveryView {
            seen: state.seen.insert(call.id, fingerprint(call)),
            active: if state.active == usize::MAX {
                0
            } else {
                (state.active + 1) as usize
            },
            ..state
        }
    }
}

/// The answer to an attempt to take on a call: whether it is new. A call that was taken on before
/// is not new, and has to have the contents that it had.
pub open spec fn admission(state: DeliveryView, call: calls::CallView) -> Result<
    bool,
    RepeatedCall,
> {
    if !state.seen.contains_key(call.id) {
        Ok(true)
    } else if state.seen[call.id] == fingerprint(call) {
        Ok(false)
    } else {
        Err(RepeatedCall {  })
    }
}

/// The state once a call that was taken on is over.
pub open spec fn completed(state: DeliveryView) -> DeliveryView {
    DeliveryView {
        active: if state.active == 0 {
            usize::MAX
        } else {
            (state.active - 1) as usize
        },
        ..state
    }
}

/// What becomes of a delivered call.
pub struct Delivery {
    /// Where its receipt goes.
    pub receipt: String,
    /// Whether it has to be executed.
    pub execute: bool,
}

impl DeliveryState {
    /// The state of a process that has just started.
    pub fn new() -> (r: Self)
        ensures
            r@.seen == Map::<Seq<char>, Seq<char>>::empty(),
            r@.active == 0,
            exists|bytes: Seq<u8>|
                encoding::is_random_uuid(bytes) && r@.boot_id == #[trigger] encoding::hyphenated(
                    bytes,
                ),
    {
        let bytes = encoding::random_uuid();
        let boot_id = encoding::hyphenated_text(bytes);
        let state = DeliveryState { boot_id, seen: StringHashMap::new(), active: 0 };
        assert(state@.seen =~= Map::<Seq<char>, Seq<char>>::empty());
        assert(encoding::is_random_uuid(bytes@) && state@.boot_id == encoding::hyphenated(bytes@));
        state
    }

    /// Takes on a call that is new, and recognises one that was taken on before.
    pub fn accept(&mut self, call: &ToolCall) -> (r: Result<bool, RepeatedCall>)
        ensures
            final(self)@ == admitted(old(self)@, call@),
            r == admission(old(self)@, call@),
    {
        let fingerprint = call_fingerprint(call);
        match self.seen.get(call.id.as_str()) {
            Some(existing) => {
                if text::same(existing.as_str(), fingerprint.as_str()) {
                    Ok(false)
                } else {
                    Err(RepeatedCall {  })
                }
            },
            None => {
                self.seen.insert(call.id.clone(), fingerprint);
                self.active = self.active.wrapping_add(1);
                assert(self@.seen =~= admitted(old(self)@, call@).seen);
                Ok(true)
            },
        }
    }

    /// Records that a call that was taken on is over.
    pub fn finished(&mut self)
        ensures
            final(self)@ == completed(old(self)@),
    {
        self.active = self.active.wrapping_sub(1);
    }

    /// The milliseconds to wait before the calls in progress are looked at again, or nothing
    /// where none is in progress.
    pub fn wait_idle(&self) -> (r: Option<u64>)
        ensures
            r == (if self@.active == 0 {
                None
            } else {
                Some(IDLE_POLL_MILLISECONDS)
            }),
    {
        if self.active == 0 {
            None
        } else {
            Some(IDLE_POLL_MILLISECONDS)
        }
    }

    /// Whether `boot_id` names this process.
    pub fn is_own(&self, boot_id: &str) -> (r: bool)
        ensures
            r == (boot_id@ == self@.boot_id),
    {
        text::same(boot_id, self.boot_id.as_str())
    }

    /// Handles a delivered call: every delivery is receipted, and a call is executed only once.
    pub fn deliver(&mut self, config: &WorkerConfig, call: &ToolCall) -> (r: Result<
        Delivery,
        RepeatedCall,
    >)
        ensures
            final(self)@ == admitted(old(self)@, call@),
            match r {
                Ok(delivery) => admission(old(self)@, call@) == Ok::<bool, RepeatedCall>(
                    delivery.execute,
                ) && delivery.receipt@ == calls::call_address(config@, call@) + "/received"@,
                Err(error) => admission(old(self)@, call@) == Err::<bool, RepeatedCall>(error),
            },
    {
        match self.accept(call) {
            Ok(execute) => Ok(Delivery { receipt: calls::receipt_url(config, call), execute }),
            Err(error) => Err(error),
        }
    }
}

/// Something that happens to a [`DeliveryState`].
pub enum Operation {
    Accept(calls::CallView),
    Finish,
}

/// The state behind one operation.
pub open spec fn step(state: DeliveryView, operation: Operation) -> DeliveryView {
    match operation {
        Operation::Accept(call) => admitted(state, call),
        Operation::Finish => completed(state),
    }
}

/// The state behind a series of operations.
pub open spec fn after(state: DeliveryView, operations: Seq<Operation>) -> DeliveryView
    decreases operations.len(),
{
    if operations.len() == 0 {
        state
    } else {
        step(after(state, operations.drop_last()), operations.last())
    }
}

/// How often a series of operations asks for the call `id` to be executed.
pub open spec fn executions(
    state: DeliveryView,
    operations: Seq<Operation>,
    id: Seq<char>,
) -> nat
    decreases operations.len(),
{
    if operations.len() == 0 {
        0
    } else {
        let before = executions(state, operations.drop_last(), id);
        match operations.last() {
            Operation::Accept(call) => if call.id == id && admission(
                after(state, operations.drop_last()),
                call,
            ) == Ok::<bool, RepeatedCall>(true) {
                before + 1
            } else {
                before
            },
            Operation::Finish => before,
        }
    }
}

/// The number of calls in progress that a series of operations accounts for.
pub open spec fn in_progress(state: DeliveryView, operations: Seq<Operation>) -> int
    decreases operations.len(),
{
    if operations.len() == 0 {
        state.active as int
    } else {
        let before = in_progress(state, operations.drop_last());
        match operations.last() {
            Operation::Accept(call) => if admission(after(state, operations.drop_last()), call)
                == Ok::<bool, RepeatedCall>(true) {
                before + 1
            } else {
                before
            },
            Operation::Finish => before - 1,
        }
    }
}

/// A call that was taken on is remembered with its contents, whatever is taken on or completed
/// later.
pub proof fn calls_are_remembered(state: DeliveryView, operations: Seq<Operation>, id: Seq<char>)
    requires
        state.seen.contains_key(id),
    ensures
        after(state, operations).seen.contains_key(id),
        after(state, operations).seen[id] == state.seen[id],
    decreases operations.len(),
{
    if operations.len() > 0 {
        calls_are_remembered(state, operations.drop_last(), id);
    }
}

/// However often a call is delivered and completed, it is executed at most once: never again
/// where it was taken on before, else once if it is delivered at all.
pub proof fn calls_are_executed_at_most_once(
    state: DeliveryView,
    operations: Seq<Operation>,
    id: Seq<char>,
)
    ensures
        executions(state, operations, id) <= 1,
        state.seen.contains_key(id) ==> executions(state, operations, id) == 0,
        !state.seen.contains_key(id) ==> (executions(state, operations, id) == 1 <==> after(
            state,
            operations,
        ).seen.contains_key(id)),
    decreases operations.len(),
{
    if operations.len() > 0 {
        calls_are_executed_at_most_once(state, operations.drop_last(), id);
        if state.seen.contains_key(id) {
            calls_are_remembered(state, operations.drop_last(), id);
        }
    }
}

/// Once a call was taken on, its next delivery is recognised and not executed, and another call
/// under its identifier is refused, whatever happened in between.
pub proof fn redelivery_is_recognised(
    state: DeliveryView,
    call: calls::CallView,
    operations: Seq<Operation>,
    again: calls::CallView,
)
    requires
        admission(state, call) is Ok,
        again.id == call.id,
    ensures
        admission(after(admitted(state, call), operations), again) == (if fingerprint(again)
            == fingerprint(call) {
            Ok::<bool, RepeatedCall>(false)
        } else {
            Err(RepeatedCall {  })
        }),
{
    calls_are_remembered(admitted(state, call), operations, call.id);
}

/// What is fingerprinted tells calls apart: two calls for which it is the same agree in their
/// thread, their tool and their arguments.
pub proof fn fingerprinted_text_is_faithful(a: calls::CallView, b: calls::CallView)
    requires
        call_json(a) == call_json(b),
    ensures
        a.thread_id == b.thread_id,
        a.name == b.name,
        a.arguments == b.arguments,
{
    reveal_strlit("{\"arguments\":");
    reveal_strlit(",\"name\":");
    reveal_strlit(",\"thread_id\":");
    reveal_strlit("}");
    let open = "{\"arguments\":"@;
    let name = ",\"name\":"@ + seq!['"'];
    let thread = seq!['"'] + ",\"thread_id\":"@ + seq!['"'];
    let close = seq!['"'] + "}"@;
    let p = open + a.arguments + name;
    let q = open + b.arguments + name;
    let front = p + json::json_escaped(a.name) + thread;
    let other = q + json::json_escaped(b.name) + thread;
    assert(call_json(a) =~= front + json::json_escaped(a.thread_id) + close);
    assert(call_json(b) =~= other + json::json_escaped(b.thread_id) + close);
    let n = call_json(a).len() - 2;
    assert(front + json::json_escaped(a.thread_id) =~= call_json(a).take(n));
    assert(other + json::json_escaped(b.thread_id) =~= call_json(b).take(n));
    assert(thread.len() == 15 && thread[14] == '"' && thread[13] == ':');
    assert(front.last() == '"' && front[front.len() - 2] == ':');
    assert(other.last() == '"' && other[other.len() - 2] == ':');
    json::quoted_texts_are_found(front, a.thread_id, other, b.thread_id);
    let m = front.len() - thread.len();
    assert(p + json::json_escaped(a.name) =~= front.take(m));
    assert(q + json::json_escaped(b.name) =~= other.take(m));
    assert(name.len() == 9 && name[8] == '"' && name[7] == ':');
    assert(p.last() == '"' && p[p.len() - 2] == ':');
    assert(q.last() == '"' && q[q.len() - 2] == ':');
    json::quoted_texts_are_found(p, a.name, q, b.name);
    assert(a.arguments =~= p.subrange(open.len() as int, p.len() - name.len()));
    assert(b.arguments =~= q.subrange(open.len() as int, q.len() - name.len()));
}

/// The memory of calls does not outlive the process: a new one takes on every call.
pub proof fn restart_forgets_calls(state: DeliveryView, call: calls::CallView)
    requires
        state.seen == Map::<Seq<char>, Seq<char>>::empty(),
    ensures
        admission(state, call) == Ok::<bool, RepeatedCall>(true),
{
}

/// As long as no more calls complete than were taken on, the state is idle exactly when none is
/// in progress.
pub proof fn idle_means_nothing_in_progress(state: DeliveryView, operations: Seq<Operation>)
    requires
        forall|i: int|
            0 <= i <= operations.len() ==> 0 <= #[trigger] in_progress(state, operations.take(i))
                <= usize::MAX,
    ensures
        after(state, operations).active == in_progress(state, operations),
    decreases operations.len(),
{
    assert(operations.take(operations.len() as int) =~= operations);
    if operations.len() > 0 {
        let earlier = operations.drop_last();
        assert forall|i: int| 0 <= i <= earlier.len() implies 0 <= #[trigger] in_progress(
            state,
            earlier.take(i),
        ) <= usize::MAX by {
            assert(earlier.take(i) =~= operations.take(i));
        }
        idle_means_nothing_in_progress(state, earlier);
    }
}

/// The width of the blank line that ends a frame at position `i`, if one does.
pub open spec fn boundary_at(bytes: Seq<u8>, i: int) -> Option<int> {
    if i + 2 <= bytes.len() && bytes[i] == 10 && bytes[i + 1] == 10 {
        Some(2)
    } else if i + 4 <= bytes.len() && bytes[i] == 13 && bytes[i + 1] == 10 && bytes[i + 2] == 13
        && bytes[i + 3] == 10 {
        Some(4)
    } else {
        None
    }
}

/// The first end of a frame at or behind position `from`, with the width of its blank line.
pub open spec fn boundary_from(bytes: Seq<u8>, from: int) -> Option<(int, int)>
    decreases bytes.len() - from,
{
    if from >= bytes.len() {
        None
    } else {
        match boundary_at(bytes, from) {
            Some(width) => Some((from, width)),
            None => boundary_from(bytes, from + 1),
        }
    }
}

/// The first end of a frame, with the width of its blank line.
pub open spec fn boundary(bytes: Seq<u8>) -> Option<(int, int)> {
    boundary_from(bytes, 0)
}

/// Where the first frame ends, and the width of the blank line behind it.
pub fn frame_end(bytes: &[u8]) -> (r: Option<(usize, usize)>)
    ensures
        match r {
            Some((end, width)) => boundary(bytes@) == Some((end as int, width as int)),
            None => boundary(bytes@) is None,
        },
{
    let mut i: usize = 0;
    while i < bytes.len()
        invariant
            i <= bytes@.len(),
            boundary(bytes@) == boundary_from(bytes@, i as int),
        decreases bytes@.len() - i,
    {
        if bytes.len() - i >= 2 && bytes[i] == 10 && bytes[i + 1] == 10 {
            return Some((i, 2));
        }
        if bytes.len() - i >= 4 && bytes[i] == 13 && bytes[i + 1] == 10 && bytes[i + 2] == 13
            && bytes[i + 3] == 10 {
            return Some((i, 4));
        }
        i = i + 1;
    }
    None
}

/// The end of a frame is the first position with a blank line, and lies inside the bytes.
pub proof fn boundary_is_first(bytes: Seq<u8>, from: int)
    requires
        0 <= from,
    ensures
        match boundary_from(bytes, from) {
            Some((end, width)) => {
                &&& from <= end
                &&& end + width <= bytes.len()
                &&& width == 2 || width == 4
                &&& boundary_at(bytes, end) == Some(width)
                &&& forall|j: int| from <= j < end ==> #[trigger] boundary_at(bytes, j) is None
            },
            None => forall|j: int| from <= j ==> #[trigger] boundary_at(bytes, j) is None,
        },
    decreases bytes.len() - from,
{
    if from < bytes.len() {
        boundary_is_first(bytes, from + 1);
    }
}

/// The pause in milliseconds that a number of failures in a row calls for: one second, doubled
/// with each failure behind the first, and no more than half a minute.
pub open spec fn base_delay(failures: nat) -> nat
    decreases failures,
{
    if failures <= 1 {
        1000
    } else if failures >= 6 {
        30000
    } else {
        2 * base_delay((failures - 1) as nat)
    }
}

/// The pause with its jitter: up to a quarter more, but no more than half a minute.
pub open spec fn jittered_delay(failures: nat, random: u8) -> int {
    let base = base_delay(failures);
    let delay = base + random as int * base / 1024;
    if delay <= 30000 {
        delay
    } else {
        30000
    }
}

/// The pause in milliseconds behind `attempt` failures in a row, with the jitter that `random`
/// gives.
pub fn delay_with_jitter(attempt: u32, random: u8) -> (r: u64)
    ensures
        r == jittered_delay(attempt as nat, random),
{
    reveal_with_fuel(base_delay, 6);
    let base: u64 = if attempt <= 1 {
        1000
    } else if attempt == 2 {
        2000
    } else if attempt == 3 {
        4000
    } else if attempt == 4 {
        8000
    } else if attempt == 5 {
        16000
    } else {
        30000
    };
    assert(base == base_delay(attempt as nat));
    assert(0 <= random as int * base as int <= 255 * 30000) by (nonlinear_arith)
        requires
            0 <= random <= 255,
            base <= 30000,
    ;
    let delay = base + random as u64 * base / 1024;
    if delay <= 30000 {
        delay
    } else {
        30000
    }
}

/// The pause in milliseconds before the next attempt. The jitter is random: what holds is that
/// some byte gives it.
pub fn retry_delay(attempt: u32) -> (r: u64)
    ensures
        exists|random: u8| r == #[trigger] jittered_delay(attempt as nat, random),
{
    let random = encoding::random_uuid();
    delay_with_jitter(attempt, random[0])
}

/// No pause is shorter than its base or longer than half a minute.
pub proof fn delays_are_bounded(failures: nat, random: u8)
    ensures
        1000 <= base_delay(failures) <= jittered_delay(failures, random) <= 30000,
{
    reveal_with_fuel(base_delay, 6);
    let base = base_delay(failures);
    assert(random as int * base >= 0) by (nonlinear_arith)
        requires
            random >= 0,
            base >= 0,
    ;
}

/// Another failure never shortens the base of the pause.
pub proof fn delays_do_not_shrink(failures: nat)
    ensures
        base_delay(failures) <= base_delay(failures + 1),
{
    reveal_with_fuel(base_delay, 7);
}

/// The answers behind which a request is worth repeating: server errors, a timeout, too many
/// requests, and no answer at all.
pub open spec fn is_retryable(status: Option<u16>) -> bool {
    match status {
        Some(status) => 500 <= status <= 599 || status == 408 || status == 429,
        None => true,
    }
}

/// Whether a failed request is worth repeating, given the status of the answer, if there was one.
pub fn retryable(status: Option<u16>) -> (r: bool)
    ensures
        r == is_retryable(status),
{
    match status {
        Some(status) => (500 <= status && status <= 599) || status == 408 || status == 429,
        None => true,
    }
}

/// Whether an HTTP status reports an error.
pub open spec fn is_error_status(status: u16) -> bool {
    400 <= status <= 599
}

/// How a request was answered.
#[derive(Clone, Copy)]
pub enum Answer {
    Status(u16),
    /// No answer came.
    Missing,
}

/// A pause before the next attempt.
#[derive(Clone, Copy)]
pub enum Delay {
    Milliseconds(u64),
    Seconds(u64),
}

/// What to do about a message behind an attempt to post it.
#[derive(Clone, Copy)]
pub enum PostStep {
    Confirmed,
    Retry { failures: u32, delay: Delay },
    /// The controller refused the message for good.
    Rejected,
}

/// The seconds that a `Retry-After` header asks for, if it names a number.
pub open spec fn asked_seconds(retry_after: Option<Seq<char>>) -> Option<u64> {
    match retry_after {
        Some(value) => numbers::parse_u64(value),
        None => None,
    }
}

/// What to do about a message: it is posted until the controller confirms it or refuses it for
/// good, and the controller's own wish for a pause comes first.
pub open spec fn post_decision(
    failures: u32,
    answer: Answer,
    retry_after: Option<Seq<char>>,
    random: u8,
) -> PostStep {
    let failed = match answer {
        Answer::Status(status) => is_error_status(status),
        Answer::Missing => true,
    };
    let status = match answer {
        Answer::Status(status) => Some(status),
        Answer::Missing => None,
    };
    let failures = if failures == u32::MAX {
        failures
    } else {
        (failures + 1) as u32
    };
    if !failed {
        PostStep::Confirmed
    } else if !is_retryable(status) {
        PostStep::Rejected
    } else {
        PostStep::Retry {
            failures,
            delay: match asked_seconds(retry_after) {
                Some(seconds) => Delay::Seconds(seconds),
                None => Delay::Milliseconds(jittered_delay(failures as nat, random) as u64),
            },
        }
    }
}

/// Decides about a message behind an attempt to post it, with the jitter that `random` gives.
pub fn post_step(failures: u32, answer: Answer, retry_after: Option<&str>, random: u8) -> (r:
    PostStep)
    ensures
        r == post_decision(failures, answer, text::optional(retry_after), random),
{
    let status: Option<u16> = match answer {
        Answer::Status(status) => {
            if !(400 <= status && status <= 599) {
                return PostStep::Confirmed;
            }
            Some(status)
        },
        Answer::Missing => None,
    };
    if !retryable(status) {
        return PostStep::Rejected;
    }
    let failures = failures.saturating_add(1);
    let asked: Option<u64> = match retry_after {
        Some(value) => numbers::parse_number(value),
        None => None,
    };
    let delay = match asked {
        Some(seconds) => Delay::Seconds(seconds),
        None => Delay::Milliseconds(delay_with_jitter(failures, random)),
    };
    PostStep::Retry { failures, delay }
}

/// Decides about a message behind an attempt to post it, with a random jitter.
pub fn post_until_confirmed(failures: u32, answer: Answer, retry_after: Option<&str>) -> (r:
    PostStep)
    ensures
        exists|random: u8|
            r == #[trigger] post_decision(failures, answer, text::optional(retry_after), random),
{
    let random = encoding::random_uuid();
    post_step(failures, answer, retry_after, random[0])
}

/// A message that was refused for good is not posted again, and one that was confirmed is not
/// either; every other failure leads to another attempt.
pub proof fn messages_are_not_lost(
    failures: u32,
    answer: Answer,
    retry_after: Option<Seq<char>>,
    random: u8,
)
    ensures
        match post_decision(failures, answer, retry_after, random) {
            PostStep::Confirmed => answer matches Answer::Status(status) && !is_error_status(
                status,
            ),
            PostStep::Rejected => answer matches Answer::Status(status) && is_error_status(status)
                && !is_retryable(Some(status)),
            PostStep::Retry { failures: count, .. } => (answer matches Answer::Status(status)
                ==> is_retryable(Some(status))) && count >= 1 && count >= failures,
        },
{
}

/// Every call under an identifier that was not seen is taken on: it is to be executed, it is
/// recorded with its contents, and one more call is in progress. Nothing else changes.
pub proof fn new_calls_are_taken_on(state: DeliveryView, call: calls::CallView, other: Seq<char>)
    requires
        !state.seen.contains_key(call.id),
    ensures
        admission(state, call) == Ok::<bool, RepeatedCall>(true),
        admitted(state, call).seen.contains_key(call.id),
        admitted(state, call).seen[call.id] == fingerprint(call),
        other != call.id ==> admitted(state, call).seen.contains_key(other)
            == state.seen.contains_key(other),
        other != call.id && state.seen.contains_key(other) ==> admitted(state, call).seen[other]
            == state.seen[other],
        admitted(state, call).boot_id == state.boot_id,
        state.active < usize::MAX ==> admitted(state, call).active == state.active + 1,
{
}

/// A call is refused only where its identifier was seen with other contents, and passed over only
/// where it was seen with the same; neither changes anything.
pub proof fn only_changed_calls_are_refused(state: DeliveryView, call: calls::CallView)
    ensures
        match admission(state, call) {
            Ok(execute) => execute <==> !state.seen.contains_key(call.id),
            Err(_) => state.seen.contains_key(call.id),
        },
        state.seen.contains_key(call.id) ==> (admission(state, call) is Err <==> state.seen[call.id]
            != fingerprint(call)),
        state.seen.contains_key(call.id) ==> admitted(state, call) == state,
{
}

/// The fingerprint leaves the identifier out of account, and calls with other contents have other
/// fingerprints as far as SHA-256 tells their contents apart.
pub proof fn fingerprints_tell_contents_apart(a: calls::CallView, b: calls::CallView)
    requires
        encoding::sha256(vstd::utf8::encode_utf8(call_json(a))) == encoding::sha256(
            vstd::utf8::encode_utf8(call_json(b)),
        ) ==> vstd::utf8::encode_utf8(call_json(a)) == vstd::utf8::encode_utf8(call_json(b)),
    ensures
        fingerprint(a) == fingerprint(b) <==> (a.thread_id == b.thread_id && a.name == b.name
            && a.arguments == b.arguments),
{
    if fingerprint(a) == fingerprint(b) {
        encoding::hex_is_injective(
            encoding::sha256(vstd::utf8::encode_utf8(call_json(a))),
            encoding::sha256(vstd::utf8::encode_utf8(call_json(b))),
        );
        vstd::utf8::encode_utf8_decode_utf8(call_json(a));
        vstd::utf8::encode_utf8_decode_utf8(call_json(b));
        fingerprinted_text_is_faithful(a, b);
    }
}

/// A call that is over is no longer in progress, which takes back what taking it on did, and
/// nothing that was seen is forgotten.
pub proof fn finished_calls_are_no_longer_in_progress(state: DeliveryView, call: calls::CallView)
    ensures
        state.active > 0 ==> completed(state).active == state.active - 1,
        completed(state).seen == state.seen,
        completed(state).boot_id == state.boot_id,
        !state.seen.contains_key(call.id) ==> completed(admitted(state, call)).active
            == state.active,
{
}

/// A frame ends at its first blank line, whose line ends are two line feeds or two pairs of a
/// carriage return and a line feed; without a blank line no frame has ended.
pub proof fn frames_end_at_the_first_blank_line(bytes: Seq<u8>)
    ensures
        match boundary(bytes) {
            Some((end, width)) => {
                &&& 0 <= end
                &&& (width == 2 && end + 2 <= bytes.len() && bytes.subrange(end, end + 2)
                    == seq![10u8, 10u8]) || (width == 4 && end + 4 <= bytes.len()
                    && bytes.subrange(end, end + 4) == seq![13u8, 10u8, 13u8, 10u8])
                &&& forall|j: int|
                    0 <= j < end ==> !(#[trigger] bytes[j] == 10u8 && bytes[j + 1] == 10u8)
                &&& forall|j: int|
                    0 <= j < end && j + 4 <= bytes.len() ==> !(#[trigger] bytes[j] == 13u8 && bytes[j
                        + 1] == 10u8 && bytes[j + 2] == 13u8 && bytes[j + 3] == 10u8)
            },
            None => {
                &&& forall|j: int|
                    0 <= j && j + 2 <= bytes.len() ==> !(#[trigger] bytes[j] == 10u8 && bytes[j + 1]
                        == 10u8)
                &&& forall|j: int|
                    0 <= j && j + 4 <= bytes.len() ==> !(#[trigger] bytes[j] == 13u8 && bytes[j + 1]
                        == 10u8 && bytes[j + 2] == 13u8 && bytes[j + 3] == 10u8)
            },
        },
{
    boundary_is_first(bytes, 0);
    match boundary(bytes) {
        Some((end, width)) => {
            if width == 2 {
                assert(bytes.subrange(end, end + 2) =~= seq![10u8, 10u8]);
            } else {
                assert(bytes.subrange(end, end + 4) =~= seq![13u8, 10u8, 13u8, 10u8]);
            }
            assert forall|j: int| 0 <= j < end implies !(#[trigger] bytes[j] == 10u8 && bytes[j + 1]
                == 10u8) by {
                assert(boundary_at(bytes, j) is None);
            }
            assert forall|j: int| 0 <= j < end && j + 4 <= bytes.len() implies !(#[trigger] bytes[j]
                == 13u8 && bytes[j + 1] == 10u8 && bytes[j + 2] == 13u8 && bytes[j + 3] == 10u8) by {
                assert(boundary_at(bytes, j) is None);
            }
        },
        None => {
            assert forall|j: int| 0 <= j && j + 2 <= bytes.len() implies !(#[trigger] bytes[j] == 10u8
                && bytes[j + 1] == 10u8) by {
                assert(boundary_at(bytes, j) is None);
            }
            assert forall|j: int| 0 <= j && j + 4 <= bytes.len() implies !(#[trigger] bytes[j] == 13u8
                && bytes[j + 1] == 10u8 && bytes[j + 2] == 13u8 && bytes[j + 3] == 10u8) by {
                assert(boundary_at(bytes, j) is None);
            }
        },
    }
}

/// The first pause lasts a second, and each further failure doubles it up to half a minute.
pub proof fn delays_double(failures: nat)
    requires
        failures >= 1,
    ensures
        base_delay(0) == 1000,
        base_delay(1) == 1000,
        base_delay(failures + 1) == (if 2 * base_delay(failures) <= 30000 {
            2 * base_delay(failures)
        } else {
            30000
        }),
{
    reveal_with_fuel(base_delay, 7);
}

/// The jitter adds as many of the 1024 parts of a pause as the random number says, as far as half a
/// minute allows.
pub proof fn jitter_is_a_share_of_the_pause(failures: nat, random: u8)
    ensures
        jittered_delay(failures, random) == 30000 ==> 1024 * base_delay(failures) + random as int
            * base_delay(failures) >= 30000 * 1024,
        jittered_delay(failures, random) < 30000 ==> 1024 * (jittered_delay(failures, random)
            - base_delay(failures)) <= random as int * base_delay(failures) < 1024 * (jittered_delay(
            failures,
            random,
        ) - base_delay(failures) + 1),
{
    delays_are_bounded(failures, random);
    let product = random as int * base_delay(failures);
    assert(1024 * (product / 1024) <= product < 1024 * (product / 1024) + 1024);
}

/// Worth repeating are the requests that were not answered, those that failed at the server, and
/// those that came too slowly or too often.
pub proof fn server_faults_are_retryable(status: u16)
    ensures
        is_retryable(None),
        is_retryable(Some(status)) <==> (status / 100 == 5 || status == 408 || status == 429),
        is_error_status(status) <==> (status / 100 == 4 || status / 100 == 5),
{
}

/// What an attempt leads to depends on the kind of the answer: a message is confirmed by every
/// answer that reports no error, given up where the controller refuses it, and else posted again
/// with one more failure on the count.
pub proof fn answers_decide_about_messages(
    failures: u32,
    status: u16,
    retry_after: Option<Seq<char>>,
    random: u8,
)
    ensures
        status / 100 != 4 && status / 100 != 5 ==> post_decision(
            failures,
            Answer::Status(status),
            retry_after,
            random,
        ) is Confirmed,
        status / 100 == 4 && status != 408 && status != 429 ==> post_decision(
            failures,
            Answer::Status(status),
            retry_after,
            random,
        ) is Rejected,
        status / 100 == 5 || status == 408 || status == 429 ==> post_decision(
            failures,
            Answer::Status(status),
            retry_after,
            random,
        ) == post_decision(failures, Answer::Missing, retry_after, random),
        post_decision(failures, Answer::Missing, retry_after, random) matches PostStep::Retry {
            failures: count,
            ..
        } && (failures < u32::MAX ==> count == failures + 1) && (failures == u32::MAX ==> count
            == u32::MAX),
{
}

/// Where a message is posted again, the pause is exactly the number of seconds that the controller
/// asks for, however large, and without such a number it is the jittered pause for the new count of
/// failures.
pub proof fn asked_pauses_are_kept(
    failures: u32,
    answer: Answer,
    random: u8,
    seconds: u64,
    other: Seq<char>,
)
    requires
        answer matches Answer::Status(status) ==> status / 100 == 5 || status == 408 || status == 429,
    ensures
        post_decision(failures, answer, Some(numbers::decimal(seconds as nat)), random) matches
            PostStep::Retry { delay, .. } && delay == Delay::Seconds(seconds),
        post_decision(failures, answer, None, random) matches PostStep::Retry {
            failures: count,
            delay,
        } && (delay matches Delay::Milliseconds(pause) && pause == jittered_delay(
            count as nat,
            random,
        )),
        match numbers::parse_u64(other) {
            Some(named) => post_decision(failures, answer, Some(other), random) == post_decision(
                failures,
                answer,
                Some(numbers::decimal(named as nat)),
                random,
            ),
            None => post_decision(failures, answer, Some(other), random) == post_decision(
                failures,
                answer,
                None,
                random,
            ),
        },
{
    numbers::decimal_round_trip(seconds);
    if let Some(named) = numbers::parse_u64(other) {
        numbers::decimal_round_trip(named);
    }
    let count = if failures == u32::MAX {
        failures
    } else {
        (failures + 1) as u32
    };
    delays_are_bounded(count as nat, random);
}

/// What is fingerprinted is a JSON object with the arguments as they stand, the name of the tool and
/// the thread, and nothing of the identifier.
pub proof fn fingerprinted_text_is_an_object(call: calls::CallView)
    ensures
        text::after_prefix(
            call_json(call),
            "{\"arguments\":"@ + call.arguments + ",\"name\":"@ + json::json_string(call.name),
        ) == Some(",\"thread_id\":"@ + json::json_string(call.thread_id) + "}"@),
{
    let front = "{\"arguments\":"@ + call.arguments + ",\"name\":"@ + json::json_string(call.name);
    let back = ",\"thread_id\":"@ + json::json_string(call.thread_id) + "}"@;
    assert(call_json(call) =~= front + back);
    text::prefix_and_rest_make_the_text(call_json(call), front, back);
}

} // verus!
