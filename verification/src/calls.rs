//! Tool calls and the addresses at which they are answered.
use crate::config;
use crate::config::WorkerConfig;
use crate::text;
use vstd::prelude::*;

verus! {

/// A request to run one of the worker's tools.
pub struct ToolCall {
    pub id: String,
    pub thread_id: String,
    pub name: String,
    /// The arguments as compact JSON.
    pub arguments: String,
}

/// The contents of a [`ToolCall`].
pub struct CallView {
    pub id: Seq<char>,
    pub thread_id: Seq<char>,
    pub name: Seq<char>,
    pub arguments: Seq<char>,
}

impl View for ToolCall {
    type V = CallView;

    open spec fn view(&self) -> CallView {
        CallView {
            id: self.id@,
            thread_id: self.thread_id@,
            name: self.name@,
            arguments: self.arguments@,
        }
    }
}

/// The collection in which the controller keeps a call: diagnostics are checks.
pub open spec fn collection(name: Seq<char>) -> Seq<char> {
    if name == "diagnostics"@ {
        "checks"@
    } else {
        "calls"@
    }
}

/// The address at which the controller keeps a call.
pub open spec fn call_address(config: config::ConfigView, call: CallView) -> Seq<char> {
    config::worker_address(config) + "/"@ + collection(call.name) + "/"@ + call.id
}

fn call_url(config: &WorkerConfig, call: &ToolCall) -> (r: String)
    ensures
        r@ == call_address(config@, call@),
{
    let mut url = config::endpoint(config, "/");
    if text::same(call.name.as_str(), "diagnostics") {
        url.append("checks");
    } else {
        url.append("calls");
    }
    url.append("/");
    url.append(call.id.as_str());
    url
}

/// Where the outcome of a call goes.
pub fn result_url(config: &WorkerConfig, call: &ToolCall) -> (r: String)
    ensures
        r@ == call_address(config@, call@) + "/result"@,
{
    let mut url = call_url(config, call);
    url.append("/result");
    url
}

/// Where the receipt of a delivered call goes.
pub fn receipt_url(config: &WorkerConfig, call: &ToolCall) -> (r: String)
    ensures
        r@ == call_address(config@, call@) + "/received"@,
{
    let mut url = call_url(config, call);
    url.append("/received");
    url
}

/// The outcome of a call as it is submitted.
pub enum CallOutcome {
    /// The tool's result as JSON.
    Succeeded(String),
    /// What went wrong.
    Failed(String),
}

/// What is posted to the controller once a call is over.
pub struct Submission {
    /// The result as JSON: that of the tool, or an object with the member `error`.
    pub result: String,
    pub failed: bool,
}

/// The JSON result that an outcome is submitted with.
pub open spec fn submitted_json(outcome: CallOutcome) -> Seq<char> {
    match outcome {
        CallOutcome::Succeeded(json) => json@,
        CallOutcome::Failed(message) => "{\"error\":"@ + crate::json::json_string(message@) + "}"@,
    }
}

/// What is posted for an outcome: a failure is reported, never dropped.
pub fn submission(outcome: CallOutcome) -> (r: Submission)
    ensures
        r.failed == (outcome is Failed),
        r.result@ == submitted_json(outcome),
{
    match outcome {
        CallOutcome::Succeeded(json) => Submission { result: json, failed: false },
        CallOutcome::Failed(message) => {
            let mut json = "{\"error\":".to_owned();
            let quoted = crate::json::json_quoted(message.as_str());
            json.append(quoted.as_str());
            json.append("}");
            Submission { result: json, failed: true }
        },
    }
}

/// A call is kept below its worker, a check of the device under the checks and every other call
/// under the calls, by its whole identifier.
pub proof fn calls_are_kept_below_their_worker(config: config::ConfigView, call: CallView)
    ensures
        call.name == "diagnostics"@ ==> call_address(config, call) == config::worker_address(config)
            + "/checks/"@ + call.id,
        call.name != "diagnostics"@ ==> call_address(config, call) == config::worker_address(config)
            + "/calls/"@ + call.id,
{
    reveal_strlit("/");
    reveal_strlit("checks");
    reveal_strlit("calls");
    reveal_strlit("/checks/");
    reveal_strlit("/calls/");
    assert("/checks/"@ =~= "/"@ + "checks"@ + "/"@);
    assert("/calls/"@ =~= "/"@ + "calls"@ + "/"@);
    let front = config::worker_address(config);
    assert(front + "/checks/"@ + call.id =~= front + "/"@ + "checks"@ + "/"@ + call.id);
    assert(front + "/calls/"@ + call.id =~= front + "/"@ + "calls"@ + "/"@ + call.id);
}

/// Two calls of one worker share an address only where they share their identifier, and then either
/// both of them are checks or neither is.
pub proof fn calls_have_addresses_of_their_own(
    config: config::ConfigView,
    a: CallView,
    b: CallView,
)
    requires
        call_address(config, a) == call_address(config, b),
    ensures
        a.name == "diagnostics"@ <==> b.name == "diagnostics"@,
        a.id == b.id,
{
    calls_are_kept_below_their_worker(config, a);
    calls_are_kept_below_their_worker(config, b);
    reveal_strlit("/checks/");
    reveal_strlit("/calls/");
    let front = config::worker_address(config);
    let x = call_address(config, a);
    let y = call_address(config, b);
    let n = front.len() as int;
    if a.name == "diagnostics"@ {
        assert(x[n + 2] == 'h');
        assert(a.id =~= x.skip(n + 8));
    } else {
        assert(x[n + 2] == 'a');
        assert(a.id =~= x.skip(n + 7));
    }
    if b.name == "diagnostics"@ {
        assert(y[n + 2] == 'h');
        assert(b.id =~= y.skip(n + 8));
    } else {
        assert(y[n + 2] == 'a');
        assert(b.id =~= y.skip(n + 7));
    }
}

/// A result is submitted as it stands, and a failure as an object whose member `error` is the
/// message, so that two failures are submitted alike only where their messages are the same.
pub proof fn outcomes_are_submitted_whole(result: String, message: String, other: String)
    ensures
        submitted_json(CallOutcome::Succeeded(result)) == result@,
        submitted_json(CallOutcome::Failed(message)) == "{\"error\":"@ + crate::json::json_string(
            message@,
        ) + "}"@,
        submitted_json(CallOutcome::Failed(message)) == submitted_json(CallOutcome::Failed(other))
            ==> message@ == other@,
{
    let open = "{\"error\":"@ + seq!['"'];
    let close = seq!['"'] + "}"@;
    reveal_strlit("{\"error\":");
    let x = submitted_json(CallOutcome::Failed(message));
    let y = submitted_json(CallOutcome::Failed(other));
    assert(x =~= open + crate::json::json_escaped(message@) + close);
    assert(y =~= open + crate::json::json_escaped(other@) + close);
    if x == y {
        let n = x.len() - close.len();
        assert(open + crate::json::json_escaped(message@) =~= x.take(n));
        assert(open + crate::json::json_escaped(other@) =~= y.take(n));
        assert(open[8] == ':' && open[9] == '"' && open.len() == 10);
        crate::json::quoted_texts_are_found(open, message@, open, other@);
    }
}

/// Contracts speak of what a call holds.
pub proof fn calls_are_taken_as_they_are(call: ToolCall)
    ensures
        call@.id == call.id@,
        call@.thread_id == call.thread_id@,
        call@.name == call.name@,
        call@.arguments == call.arguments@,
{
}

} // verus!
