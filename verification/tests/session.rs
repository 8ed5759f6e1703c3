use cybion_worker::calls::ToolCall;
use cybion_worker::config::WorkerConfig;
use cybion_worker::delivery::DeliveryState;
use cybion_worker::self_update::{parse_event, Upgrade};
use cybion_worker::session::{
    advance, classify, dispatch, events_url, parse_sse_call, report_liveness, run, EventKind,
    EventStream, Message, RunAction, RunEvent, RunState, SessionError, SessionStep,
};

fn config() -> WorkerConfig {
    WorkerConfig {
        controller_url: "https://cybion.ntnl.io".to_owned(),
        user_id: "auth-user".to_owned(),
        machine_id: "worker".to_owned(),
        access_token: "token".to_owned(),
    }
}

fn upgrade(boot_id: &str) -> Upgrade {
    Upgrade {
        id: "upgrade".to_owned(),
        version: "v0.2.1".to_owned(),
        boot_id: boot_id.to_owned(),
    }
}

#[test]
fn parses_tool_call_sse_events_only() {
    assert!(parse_sse_call("event: heartbeat\ndata: {}\n").is_none());
    let data = parse_sse_call("event: tool_call\ndata: {\"id\":\"call\",\"thread_id\":\"thread\",\"name\":\"bash\",\"arguments\":{\"command\":\"pwd\"}}\n").unwrap();
    let call: serde_json::Value = serde_json::from_str(&data).unwrap();
    assert_eq!(call["name"], "bash");
}

#[test]
fn upgrade_event_is_bound_to_the_current_process_and_waits_for_work() {
    let mut state = DeliveryState::new();
    let call = ToolCall {
        id: "slow".to_owned(),
        thread_id: "thread".to_owned(),
        name: "bash".to_owned(),
        arguments: "{\"command\":\"echo slow\"}".to_owned(),
    };
    assert!(state.accept(&call).ok().unwrap());
    let waiting = advance(
        RunState::Listening { failures: 0 },
        RunEvent::UpgradeRequested(upgrade(&state.boot_id)),
    );
    let waiting = advance(waiting, RunEvent::Idle(state.wait_idle().is_none()));
    assert!(matches!(waiting, RunState::Draining { .. }));
    assert!(matches!(run(&waiting, &config()), RunAction::AwaitIdle));
    state.finished();
    let ready = advance(waiting, RunEvent::Idle(state.wait_idle().is_none()));
    assert!(matches!(ready, RunState::Announcing { .. }));
    let event = format!(
        "event: upgrade\ndata: {{\"id\":\"upgrade\",\"version\":\"v0.2.1\",\"boot_id\":\"{}\"}}\n\n",
        state.boot_id
    );
    let data = parse_event(&event).unwrap();
    let parsed: serde_json::Value = serde_json::from_str(&data).unwrap();
    assert_eq!(parsed["boot_id"], state.boot_id.as_str());
    assert_eq!(parsed["version"], "v0.2.1");
}

#[test]
fn upgrades_for_another_process_are_refused() {
    let mut state = DeliveryState::new();
    match dispatch(&mut state, &config(), Message::Upgrade(upgrade("another"))) {
        SessionStep::Fail(error) => {
            assert!(matches!(error, SessionError::WrongProcess));
            assert_eq!(error.message(), "upgrade addressed to another Worker process");
        }
        _ => panic!("the upgrade was accepted"),
    }
    let own = upgrade(&state.boot_id);
    assert!(matches!(
        dispatch(&mut state, &config(), Message::Upgrade(own)),
        SessionStep::Upgrade(_)
    ));
    assert!(matches!(
        dispatch(&mut state, &config(), Message::Other),
        SessionStep::Continue
    ));
}

#[test]
fn an_upgrade_is_announced_installed_and_started() {
    let state = advance(
        RunState::Listening { failures: 3 },
        RunEvent::UpgradeRequested(upgrade("boot")),
    );
    let state = advance(state, RunEvent::Idle(true));
    match run(&state, &config()) {
        RunAction::Report(report) => {
            assert_eq!(
                report.url,
                "https://cybion.ntnl.io/worker/v1/users/auth-user/workers/worker/upgrade"
            );
            assert_eq!(report.id, "upgrade");
            assert_eq!(report.status, "installing");
            assert!(report.error.is_none());
        }
        _ => panic!("the upgrade was not announced"),
    }
    let state = advance(state, RunEvent::Reported);
    assert!(matches!(run(&state, &config()), RunAction::Install(version) if version == "v0.2.1"));
    let state = advance(state, RunEvent::InstallSucceeded);
    assert!(matches!(state, RunState::Installed));
    assert!(matches!(run(&state, &config()), RunAction::Restart));
}

#[test]
fn a_failed_upgrade_is_reported_and_the_worker_goes_on() {
    let state = RunState::Installing { upgrade: upgrade("boot") };
    let state = advance(state, RunEvent::InstallFailed("release checksum mismatch".to_owned()));
    match run(&state, &config()) {
        RunAction::Report(report) => {
            assert_eq!(report.status, "failed");
            assert_eq!(report.error.unwrap(), "release checksum mismatch");
        }
        _ => panic!("the failure was not reported"),
    }
    let state = advance(state, RunEvent::Reported);
    assert!(matches!(run(&state, &config()), RunAction::Pause(0)));
    let state = advance(state, RunEvent::Paused);
    assert!(matches!(state, RunState::Listening { failures: 0 }));
}

#[test]
fn a_refused_announcement_fails_the_upgrade() {
    let state = RunState::Announcing { upgrade: upgrade("boot") };
    let state = advance(state, RunEvent::ReportRefused("404 Not Found".to_owned()));
    assert!(matches!(&state, RunState::Reporting { reason, .. } if reason == "404 Not Found"));
    let state = advance(state, RunEvent::ReportRefused("404 Not Found".to_owned()));
    assert!(matches!(&state, RunState::Unreported(refusal) if refusal == "404 Not Found"));
    assert!(matches!(
        run(&state, &config()),
        RunAction::Stop(message) if message == "404 Not Found"
    ));
}

#[test]
fn a_rejected_credential_stops_the_worker() {
    let state = advance(RunState::Listening { failures: 0 }, RunEvent::StreamFailed(Some(401)));
    assert!(matches!(state, RunState::Rejected));
    let state = advance(state, RunEvent::Paused);
    assert!(matches!(
        run(&state, &config()),
        RunAction::Stop(message)
            if message == "Worker connection rejected; inspect configuration or re-pair this device"
    ));
    let state = advance(RunState::Listening { failures: 2 }, RunEvent::StreamFailed(Some(502)));
    assert!(matches!(state, RunState::Pausing { failures: 3 }));
    let state = advance(RunState::Listening { failures: u32::MAX }, RunEvent::StreamFailed(None));
    assert!(matches!(state, RunState::Pausing { failures: u32::MAX }));
    let state = advance(RunState::Listening { failures: 9 }, RunEvent::StreamEnded);
    assert!(matches!(state, RunState::Pausing { failures: 0 }));
    let state = advance(state, RunEvent::Idle(true));
    assert!(matches!(state, RunState::Pausing { failures: 0 }));
}

#[test]
fn events_do_not_depend_on_how_the_stream_is_cut() {
    let bytes = "event: a\ndata: é\n\nevent: b\r\ndata: 2\r\n\r\ndata: rest".as_bytes();
    for cut in 0..bytes.len() {
        let mut stream = EventStream::new();
        let mut events = Vec::new();
        for chunk in [&bytes[..cut], &bytes[cut..]] {
            stream.receive(chunk);
            while let Some(next) = stream.next_event() {
                assert_eq!(next.announce, events.is_empty());
                events.push(next.event.ok().unwrap());
            }
        }
        assert_eq!(events, ["event: a\ndata: é", "event: b\r\ndata: 2"]);
    }
}

#[test]
fn events_have_to_be_utf8() {
    let mut stream = EventStream::new();
    stream.receive(b"data: \xff\n\n");
    let next = stream.next_event().unwrap();
    assert!(next.announce);
    assert_eq!(next.event.err().unwrap().message(), "invalid event UTF-8");
}

#[test]
fn event_lines_are_read_as_the_stream_writes_them() {
    assert_eq!(parse_sse_call("event:tool_call\ndata:{\"a\":\ndata: 1}").unwrap(), "{\"a\":1}");
    assert_eq!(parse_sse_call("event: other\nevent:  tool_call \n").unwrap(), "");
    assert!(parse_sse_call("event: tool_call\nevent: other").is_none());
    assert!(parse_sse_call("data: {}").is_none());
    assert_eq!(parse_event("event: upgrade\r\ndata: {}\r\n").unwrap(), " {}");
    assert!(parse_event("data: event: upgrade").is_none());
    assert!(matches!(
        classify("event: upgrade\ndata:{}\nevent: tool_call"),
        EventKind::Upgrade(data) if data == "{}"
    ));
    assert!(matches!(classify("event: ping"), EventKind::Other));
}

#[test]
fn liveness_is_reported_beside_the_events() {
    let named = report_liveness(&config(), Some("host".to_owned()));
    assert_eq!(
        named.url,
        "https://cybion.ntnl.io/worker/v1/users/auth-user/workers/worker/heartbeat"
    );
    assert_eq!(
        named.resources_url,
        "https://cybion.ntnl.io/worker/v1/users/auth-user/workers/worker/resources"
    );
    assert_eq!(named.hostname, "host");
    assert_eq!(named.version, "0.2.0");
    assert_eq!(report_liveness(&config(), None).hostname, "cybion-worker");
    assert_eq!(
        events_url(&config()),
        "https://cybion.ntnl.io/worker/v1/users/auth-user/workers/worker/events"
    );
}
