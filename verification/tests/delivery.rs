use cybion_worker::calls::{result_url, submission, CallOutcome, ToolCall};
use cybion_worker::config::WorkerConfig;
use cybion_worker::delivery::{
    delay_with_jitter, frame_end, post_step, post_until_confirmed, retry_delay, retryable, Answer,
    Delay, DeliveryState, PostStep,
};
use cybion_worker::session::{
    classify, dispatch, EventKind, EventStream, Message, SessionError, SessionStep,
};

fn config() -> WorkerConfig {
    WorkerConfig {
        controller_url: "http://127.0.0.1:4000".to_owned(),
        user_id: "user".to_owned(),
        machine_id: "worker".to_owned(),
        access_token: "test".to_owned(),
    }
}

fn call(id: &str, arguments: &str) -> ToolCall {
    ToolCall {
        id: id.to_owned(),
        thread_id: "thread".to_owned(),
        name: "bash".to_owned(),
        arguments: arguments.to_owned(),
    }
}

fn event(id: &str, command: &str) -> String {
    format!(
        "event: tool_call\ndata: {{\"id\":\"{id}\",\"thread_id\":\"{id}\",\"name\":\"bash\",\"arguments\":{{\"command\":\"{command}\"}}}}\n\n"
    )
}

fn decode(json: &str) -> ToolCall {
    let value: serde_json::Value = serde_json::from_str(json).unwrap();
    ToolCall {
        id: value["id"].as_str().unwrap().to_owned(),
        thread_id: value["thread_id"].as_str().unwrap().to_owned(),
        name: value["name"].as_str().unwrap().to_owned(),
        arguments: value["arguments"].to_string(),
    }
}

/// Feeds a stream to a worker and lists, for each delivery, the receipt and whether it executes.
fn deliveries(state: &mut DeliveryState, bytes: &[u8]) -> Vec<(String, String, bool)> {
    let mut stream = EventStream::new();
    let mut seen = Vec::new();
    stream.receive(bytes);
    while let Some(next) = stream.next_event() {
        let text = next.event.ok().unwrap();
        if let EventKind::Call(json) = classify(&text) {
            match dispatch(state, &config(), Message::Call(decode(&json))) {
                SessionStep::Dispatch { call, receipt, execute } => {
                    seen.push((call.id, receipt, execute));
                }
                _ => panic!("a call was not dispatched"),
            }
        }
    }
    seen
}

#[test]
fn deduplication_survives_completion_but_not_process_restart() {
    let mut state = DeliveryState::new();
    let call = call("call", "{\"command\":\"echo hello\"}");
    assert!(state.accept(&call).ok().unwrap());
    assert!(!state.accept(&call).ok().unwrap());
    state.finished();
    assert!(!state.accept(&call).ok().unwrap());
    let mut other = DeliveryState::new();
    assert_ne!(other.boot_id, state.boot_id);
    assert!(other.accept(&call).ok().unwrap());
    let different = ToolCall { arguments: "{\"command\":\"different\"}".to_owned(), ..call };
    let refusal = state.accept(&different);
    assert!(refusal.is_err());
    assert_eq!(refusal.err().unwrap().message(), "repeated call ID has different arguments");
}

#[test]
fn frame_boundaries_and_backoff_are_bounded() {
    assert_eq!(frame_end(b"data: a\r\n\r\nrest"), Some((7, 4)));
    assert_eq!(frame_end(b"data: a\n\nrest"), Some((7, 2)));
    for n in 0..100 {
        assert!(retry_delay(n) <= 30_000);
        assert!(retry_delay(n) >= 1_000);
    }
}

#[test]
fn dispatches_next_call_and_finishes_stream_while_first_call_is_running() {
    let mut state = DeliveryState::new();
    let events = event("slow", "sleep 5; echo slow") + &event("fast", "echo fast");
    let seen = deliveries(&mut state, events.as_bytes());
    assert_eq!(seen.len(), 2);
    assert_eq!(seen[0].0, "slow");
    assert_eq!(seen[1].0, "fast");
    assert!(seen[0].2 && seen[1].2);
    assert_eq!(state.wait_idle(), Some(50));
    state.finished();
    assert_eq!(state.wait_idle(), Some(50));
    state.finished();
    assert_eq!(state.wait_idle(), None);
}

#[test]
fn failed_result_upload_does_not_stop_dispatching_other_calls() {
    let mut state = DeliveryState::new();
    let events = event("reject", "echo reject") + &event("next", "echo next");
    let seen = deliveries(&mut state, events.as_bytes());
    let receipts: Vec<&str> = seen.iter().map(|delivery| delivery.1.as_str()).collect();
    assert_eq!(
        receipts,
        [
            "http://127.0.0.1:4000/worker/v1/users/user/workers/worker/calls/reject/received",
            "http://127.0.0.1:4000/worker/v1/users/user/workers/worker/calls/next/received",
        ]
    );
    assert!(matches!(
        post_step(0, Answer::Status(503), None, 0),
        PostStep::Retry { failures: 1, delay: Delay::Milliseconds(1000) }
    ));
}

#[test]
fn duplicate_delivery_is_receipted_again_without_re_executing() {
    let mut state = DeliveryState::new();
    let events = event("dup", "echo dup") + &event("dup", "echo dup");
    let seen = deliveries(&mut state, events.as_bytes());
    assert_eq!(seen.len(), 2);
    assert_eq!(seen[0].1, seen[1].1);
    assert!(seen[0].1.ends_with("/calls/dup/received"));
    assert!(seen[0].2);
    assert!(!seen[1].2);
}

#[test]
fn reconnect_and_lost_upload_confirmation_do_not_execute_twice() {
    let mut state = DeliveryState::new();
    let events = event("once", "echo execution");
    assert!(deliveries(&mut state, events.as_bytes())[0].2);
    let first = post_until_confirmed(0, Answer::Status(503), Some("0"));
    let failures = match first {
        PostStep::Retry { failures, delay: Delay::Seconds(0) } => failures,
        _ => panic!("the upload was not repeated as asked"),
    };
    assert_eq!(failures, 1);
    assert!(matches!(
        post_until_confirmed(failures, Answer::Status(200), Some("0")),
        PostStep::Confirmed
    ));
    state.finished();
    let again = deliveries(&mut state, events.as_bytes());
    assert!(again[0].1.ends_with("/calls/once/received"));
    assert!(!again[0].2);
    assert_eq!(state.wait_idle(), None);
}

#[test]
fn permanent_upload_rejection_is_not_retried() {
    assert!(matches!(post_until_confirmed(0, Answer::Status(404), None), PostStep::Rejected));
    assert!(!retryable(Some(404)));
}

#[test]
fn only_some_failures_are_worth_repeating() {
    for status in [500, 503, 599, 408, 429] {
        assert!(retryable(Some(status)));
    }
    for status in [400, 401, 403, 404, 410, 499, 600] {
        assert!(!retryable(Some(status)));
    }
    assert!(retryable(None));
    assert!(matches!(
        post_step(4, Answer::Missing, Some("soon"), 0),
        PostStep::Retry { failures: 5, delay: Delay::Milliseconds(16000) }
    ));
    assert!(matches!(
        post_step(u32::MAX, Answer::Missing, None, 255),
        PostStep::Retry { failures: u32::MAX, delay: Delay::Milliseconds(30000) }
    ));
    assert!(matches!(post_step(7, Answer::Status(302), None, 0), PostStep::Confirmed));
}

#[test]
fn delays_double_up_to_half_a_minute() {
    let delays: Vec<u64> = (0..8).map(|attempt| delay_with_jitter(attempt, 0)).collect();
    assert_eq!(delays, [1000, 1000, 2000, 4000, 8000, 16000, 30000, 30000]);
    assert_eq!(delay_with_jitter(1, 255), 1249);
    assert_eq!(delay_with_jitter(5, 128), 18000);
    assert_eq!(delay_with_jitter(9, 1), 30000);
}

#[test]
fn frames_need_a_blank_line() {
    assert_eq!(frame_end(b""), None);
    assert_eq!(frame_end(b"data: a\n"), None);
    assert_eq!(frame_end(b"data: a\r\n\r"), None);
    assert_eq!(frame_end(b"\n\n"), Some((0, 2)));
    assert_eq!(frame_end(b"a\n\r\n\nb"), Some((3, 2)));
}

#[test]
fn receipts_of_diagnostics_go_to_the_checks() {
    let mut state = DeliveryState::new();
    let check = ToolCall { name: "diagnostics".to_owned(), ..call("7", "{}") };
    let delivery = state.deliver(&config(), &check).ok().unwrap();
    assert_eq!(
        delivery.receipt,
        "http://127.0.0.1:4000/worker/v1/users/user/workers/worker/checks/7/received"
    );
    assert!(delivery.execute);
    assert_eq!(
        result_url(&config(), &check),
        "http://127.0.0.1:4000/worker/v1/users/user/workers/worker/checks/7/result"
    );
    assert_eq!(
        result_url(&config(), &call("8", "{}")),
        "http://127.0.0.1:4000/worker/v1/users/user/workers/worker/calls/8/result"
    );
}

#[test]
fn calls_are_told_apart_by_thread_name_and_arguments() {
    let mut state = DeliveryState::new();
    let first = call("a", "{}");
    assert!(state.accept(&first).ok().unwrap());
    let thread = ToolCall { thread_id: "other".to_owned(), ..call("a", "{}") };
    assert!(state.accept(&thread).is_err());
    let name = ToolCall { name: "diagnostics".to_owned(), ..call("a", "{}") };
    assert!(state.accept(&name).is_err());
    assert!(!state.accept(&first).ok().unwrap());
    assert!(state.accept(&call("b", "{}")).ok().unwrap());
}

#[test]
fn boot_identifiers_are_random_version_4_identifiers() {
    let boot_id = DeliveryState::new().boot_id;
    assert_eq!(boot_id.len(), 36);
    let parts: Vec<usize> = boot_id.split('-').map(str::len).collect();
    assert_eq!(parts, [8, 4, 4, 4, 12]);
    assert_eq!(&boot_id[14..15], "4");
    assert!(boot_id.chars().all(|c| c == '-' || c.is_ascii_hexdigit()));
}

#[test]
fn repeated_calls_with_other_contents_end_the_session() {
    let mut state = DeliveryState::new();
    assert!(matches!(
        dispatch(&mut state, &config(), Message::Call(call("a", "{}"))),
        SessionStep::Dispatch { execute: true, .. }
    ));
    match dispatch(&mut state, &config(), Message::Call(call("a", "{\"x\":1}"))) {
        SessionStep::Fail(error) => {
            assert!(matches!(error, SessionError::Repeated(_)));
            assert_eq!(error.message(), "repeated call ID has different arguments");
        }
        _ => panic!("the session went on"),
    }
}

#[test]
fn outcomes_are_submitted_whether_they_are_failures_or_not() {
    let done = submission(CallOutcome::Succeeded("{\"exit_code\":0}".to_owned()));
    assert_eq!(done.result, "{\"exit_code\":0}");
    assert!(!done.failed);
    let failed = submission(CallOutcome::Failed("command is \"required\"\n".to_owned()));
    assert_eq!(failed.result, "{\"error\":\"command is \\\"required\\\"\\n\"}");
    assert!(failed.failed);
}

#[test]
fn quoted_failures_are_told_apart() {
    let quoted = |message: &str| submission(CallOutcome::Failed(message.to_owned())).result;
    assert_eq!(quoted("\u{8}\u{c}\r\t\u{1f}\u{7f}/"), "{\"error\":\"\\b\\f\\r\\t\\u001f\u{7f}/\"}");
    assert_ne!(quoted("a\"}"), quoted("a"));
    assert_ne!(quoted("\n"), quoted("\\n"));
}
