use cybion_worker::config::{load_config, WorkerConfig};
use cybion_worker::pairing::{
    load_or_pair, pair, pairing_action, start_pairing, Device, PairAction, PairError, PairEvent,
    PairState, Pending, PollReply, StartReply, CONTROLLER,
};
use cybion_worker::paths::Os;
use cybion_worker::setup::{
    channel_status, diagnostics, doctor, has_connected, is_process, lock_path, logs_status, mark_ready, now,
    open_browser, pending_path, ready_path, secret, secret_of, seconds_of, status, Check,
};
use cybion_worker::tools::CommandOutput;
use sha2::{Digest, Sha256};

fn controller() -> String {
    "http://localhost:4000".to_owned()
}

fn device() -> Device {
    Device {
        hostname: None,
        os: "linux".to_owned(),
        arch: "x86_64".to_owned(),
        version: "0.2.0".to_owned(),
    }
}

fn pending() -> Pending {
    Pending {
        id: "session".to_owned(),
        user_code: "ABCD-1234-EF56".to_owned(),
        expires_at: 1000,
        device_secret: "a".repeat(64),
        access_token: "b".repeat(64),
    }
}

fn reply(status: &str, user_id: Option<&str>) -> PairEvent {
    PairEvent::Replied(PollReply {
        status: status.to_owned(),
        user_id: user_id.map(str::to_owned),
        machine_id: "machine".to_owned(),
    })
}

fn follow(state: PairState, events: Vec<PairEvent>) -> PairState {
    events.into_iter().fold(state, |state, event| pair(state, event, &controller()))
}

fn message(state: &PairState) -> String {
    match state {
        PairState::Failed(error) => error.message(),
        _ => panic!("the pairing did not fail"),
    }
}

#[test]
fn random_credentials_are_distinct_and_not_printed_in_config_status() {
    let a = secret();
    let b = secret();
    assert_eq!(a.len(), 64);
    assert_ne!(a, b);
    let config = WorkerConfig {
        controller_url: "https://cybion.ntnl.io".to_owned(),
        user_id: "user".to_owned(),
        machine_id: "machine".to_owned(),
        access_token: a.clone(),
    };
    assert!(!status("/home/u/.cybion/worker.toml", &config, false).contains(&a));
}

#[test]
fn authorization_persists_the_device_generated_credential_and_recovers_a_pending_request() {
    let state = pair(PairState::Looking, PairEvent::Found(Some(pending())), &controller());
    match pairing_action(&state, &controller(), &device()) {
        PairAction::Ask { url, secret } => {
            assert_eq!(url, "http://localhost:4000/worker/v1/pairings/session");
            assert_eq!(secret, "a".repeat(64));
        }
        _ => panic!("the earlier pairing was not asked for"),
    }
    let state = follow(
        state,
        vec![PairEvent::Confirmed, PairEvent::Announced, PairEvent::Time(1001)],
    );
    match pairing_action(&state, &controller(), &device()) {
        PairAction::Poll { seconds, url, secret } => {
            assert_eq!(seconds, 3);
            assert_eq!(url, "http://localhost:4000/worker/v1/pairings/session");
            assert_eq!(secret, "a".repeat(64));
        }
        _ => panic!("the outcome was not asked for"),
    }
    let state = pair(state, reply("approved", Some("owner")), &controller());
    match pairing_action(&state, &controller(), &device()) {
        PairAction::Save(config) => {
            assert_eq!(config.access_token, "b".repeat(64));
            assert_eq!(config.user_id, "owner");
            assert_eq!(config.machine_id, "machine");
            assert_eq!(config.controller_url, "http://localhost:4000");
        }
        _ => panic!("the configuration was not saved"),
    }
    let state = pair(state, PairEvent::Stored, &controller());
    assert!(matches!(pairing_action(&state, &controller(), &device()), PairAction::Remove));
    let state = pair(state, PairEvent::Removed, &controller());
    assert!(matches!(&state, PairState::Paired(config) if config.access_token == "b".repeat(64)));
    if let PairState::Paired(config) = &state {
        let saved = WorkerConfig {
            controller_url: config.controller_url.clone(),
            user_id: config.user_id.clone(),
            machine_id: config.machine_id.clone(),
            access_token: config.access_token.clone(),
        };
        let loaded = load_config(saved).ok().unwrap();
        assert_eq!(loaded.machine_id, "machine");
        assert_eq!(loaded.controller_url, config.controller_url);
        assert_eq!(loaded.access_token, config.access_token);
    }
    assert!(matches!(pairing_action(&state, &controller(), &device()), PairAction::Finish));
}

#[test]
fn cancellation_never_writes_a_configuration() {
    let state = pair(PairState::Looking, PairEvent::Found(None), &controller());
    assert!(matches!(pairing_action(&state, &controller(), &device()), PairAction::MakeCredentials));
    let credentials = PairEvent::Credentials {
        device_secret: secret(),
        access_token: "token".to_owned(),
    };
    let state = pair(state, credentials, &controller());
    match pairing_action(&state, &controller(), &device()) {
        PairAction::Start(request) => {
            assert_eq!(request.url, "http://localhost:4000/worker/v1/pairings");
            assert_eq!(request.token_hash.len(), 64);
            assert_eq!(request.token_hash, hex::encode(Sha256::digest(b"token")));
            assert_eq!(request.hostname, "My device");
            assert_eq!(request.platform, "linux / x86_64");
            assert_eq!(request.version, "0.2.0");
        }
        _ => panic!("the pairing was not begun"),
    }
    let started = PairEvent::Started(StartReply {
        id: "session".to_owned(),
        user_code: "ABCD-1234-EF56".to_owned(),
        expires_at: 600,
    });
    let state = pair(state, started, &controller());
    assert!(matches!(
        pairing_action(&state, &controller(), &device()),
        PairAction::Keep(kept) if kept.id == "session" && kept.access_token == "token"
    ));
    let state = follow(
        state,
        vec![
            PairEvent::Stored,
            PairEvent::Announced,
            PairEvent::Time(0),
            reply("cancelled", None),
        ],
    );
    assert!(matches!(pairing_action(&state, &controller(), &device()), PairAction::Remove));
    let state = follow(state, vec![reply("approved", Some("owner")), PairEvent::Stored]);
    let state = pair(state, PairEvent::Removed, &controller());
    assert!(matches!(state, PairState::Failed(PairError::Cancelled)));
    assert_eq!(message(&state), "Pairing cancelled. Run the Worker again when ready.");
}

#[test]
fn diagnostics_checks_shell_but_never_claims_desktop_or_browser_ready() {
    let output = Some(CommandOutput {
        exit_code: Some(0),
        stdout: "cybion-worker-check\r\n".to_owned(),
        stderr: String::new(),
    });
    for browser in [true, false] {
        for display in [true, false] {
            let result = diagnostics(&output, browser, Os::Linux, display);
            assert_eq!(result.shell.status(), "ready");
            assert_eq!(result.shell.detail(), "shell_ok");
            assert_ne!(result.browser.status(), "ready");
            assert_ne!(result.desktop.status(), "ready");
        }
    }
}

#[test]
fn diagnostics_name_what_is_missing() {
    let output = |code: Option<i32>, stdout: &str| {
        Some(CommandOutput {
            exit_code: code,
            stdout: stdout.to_owned(),
            stderr: String::new(),
        })
    };
    for failed in [None, output(Some(1), "cybion-worker-check"), output(Some(0), "other"), output(None, "cybion-worker-check")] {
        assert!(diagnostics(&failed, true, Os::Linux, true).shell == Check::ShellFailed);
    }
    assert_eq!(Check::ShellFailed.status(), "failed");
    assert_eq!(Check::ShellFailed.detail(), "shell_failed");
    let bare = diagnostics(&None, false, Os::Linux, false);
    assert_eq!((bare.browser.status().as_str(), bare.browser.detail().as_str()), ("missing_dependency", "browser_missing"));
    assert_eq!((bare.desktop.status().as_str(), bare.desktop.detail().as_str()), ("unsupported", "no_display"));
    let full = diagnostics(&None, true, Os::Macos, false);
    assert_eq!((full.browser.status().as_str(), full.browser.detail().as_str()), ("not_checked", "browser_installed"));
    assert_eq!((full.desktop.status().as_str(), full.desktop.detail().as_str()), ("not_checked", "desktop_permissions"));
}

#[test]
fn a_forgotten_pairing_is_begun_anew() {
    let gone = PairEvent::Refused { status: 410, reason: "gone".to_owned() };
    let state = follow(PairState::Looking, vec![PairEvent::Found(Some(pending())), gone]);
    assert!(matches!(pairing_action(&state, &controller(), &device()), PairAction::Remove));
    let state = pair(state, PairEvent::Removed, &controller());
    assert!(matches!(state, PairState::Preparing));
    let refused = PairEvent::Refused { status: 503, reason: "later".to_owned() };
    let state = follow(PairState::Looking, vec![PairEvent::Found(Some(pending())), refused]);
    assert_eq!(message(&state), "later");
}

#[test]
fn the_outcome_is_asked_for_as_long_as_it_can_be_claimed() {
    let at = |time: u64| pair(PairState::Waiting(pending()), PairEvent::Time(time), &controller());
    assert!(matches!(at(0), PairState::Polling(_)));
    assert!(matches!(at(1629), PairState::Polling(_)));
    let late = at(1630);
    assert!(matches!(late, PairState::Failed(PairError::RecoveryWindow)));
    assert_eq!(
        message(&late),
        "Could not finish pairing within the recovery window. Run again to recover the server state; pending credentials have been preserved."
    );
    let endless = Pending { expires_at: u64::MAX, ..pending() };
    let state = pair(PairState::Waiting(endless), PairEvent::Time(u64::MAX), &controller());
    assert!(matches!(state, PairState::Polling(_)));
}

#[test]
fn polling_goes_on_until_the_controller_decides() {
    let after = |event: PairEvent| pair(PairState::Polling(pending()), event, &controller());
    let refused = |status: u16| PairEvent::Refused { status, reason: format!("HTTP {status}") };
    assert!(matches!(after(reply("pending", None)), PairState::Waiting(_)));
    assert!(matches!(after(reply("approving", None)), PairState::Waiting(_)));
    assert!(matches!(after(PairEvent::Unreachable), PairState::Waiting(_)));
    for status in [429, 500, 503] {
        let state = after(refused(status));
        assert!(matches!(pairing_action(&state, &controller(), &device()), PairAction::Pause(5)));
        assert!(matches!(pair(state, PairEvent::Paused, &controller()), PairState::Waiting(_)));
    }
    let expired = pair(after(refused(410)), PairEvent::Removed, &controller());
    assert_eq!(message(&expired), "Pairing expired. Run the Worker again for a new code.");
    assert_eq!(message(&after(refused(401))), "HTTP 401");
    assert_eq!(message(&after(reply("approved", None))), "approval has no owner");
    assert_eq!(message(&after(reply("odd", None))), "Unexpected pairing status: odd");
    let broken = after(PairEvent::Broken("disk full".to_owned()));
    assert_eq!(message(&broken), "disk full");
    let broken = pair(broken, PairEvent::Broken("again".to_owned()), &controller());
    assert_eq!(message(&broken), "disk full");
}

#[test]
fn the_user_is_shown_the_code() {
    let state = PairState::Announcing(pending());
    match pairing_action(&state, CONTROLLER, &device()) {
        PairAction::Announce { url, text } => {
            assert_eq!(url, "https://cybion.ntnl.io/#/workers?code=ABCD-1234-EF56");
            assert_eq!(
                text,
                "\n连接设备 / Connect device\n\n  https://cybion.ntnl.io/#/workers?code=ABCD-1234-EF56\n\n配对码 / Pairing code: ABCD-1234-EF56\n\n请在网页核对设备并确认授权。请勿批准他人发送的配对码。\nConfirm this device and code in Cybion. Do not approve codes sent by others.\nWaiting for approval (10 minute expiry). Ctrl+C is safe; run again to resume.\n"
            );
        }
        _ => panic!("the user was not told"),
    }
    assert!(matches!(
        pairing_action(&PairState::Looking, CONTROLLER, &device()),
        PairAction::Find
    ));
    assert!(matches!(
        pairing_action(&PairState::Waiting(pending()), CONTROLLER, &device()),
        PairAction::ReadClock
    ));
}

#[test]
fn the_credential_is_submitted_as_its_digest() {
    let named = Device { hostname: Some("host".to_owned()), ..device() };
    let request = start_pairing("https://c", &"s".to_owned(), "", &named);
    assert_eq!(request.device_secret, "s");
    assert_eq!(request.hostname, "host");
    assert_eq!(
        request.token_hash,
        "e3b0c44298fc1c149afbf4c8996fb92427ae41e4649b934ca495991b7852b855"
    );
}

#[test]
fn an_existing_configuration_is_used() {
    assert!(load_or_pair(true).is_none());
    assert!(matches!(load_or_pair(false), Some(PairState::Looking)));
}

#[test]
fn secrets_spell_their_identifiers() {
    let spelled = secret_of([0xab; 16], [0x01; 16]);
    assert_eq!(spelled, "ab".repeat(16) + &"01".repeat(16));
    assert!(secret().chars().all(|c| c.is_ascii_digit() || ('a'..='f').contains(&c)));
}

#[test]
fn the_clock_counts_from_1970() {
    assert_eq!(seconds_of(None), 0);
    assert_eq!(seconds_of(Some(7)), 7);
    assert!(now() > 1_700_000_000);
}

#[test]
fn files_stand_beside_the_configuration() {
    assert_eq!(ready_path("worker.toml", Os::Linux), "worker.status.json");
    assert_eq!(lock_path("worker.toml", Os::Linux), "worker.lock");
    assert_eq!(pending_path("worker.toml", Os::Linux), "worker.pairing.json");
    assert_eq!(ready_path("/a.b/worker", Os::Linux), "/a.b/worker.status.json");
    assert_eq!(ready_path("C:\\a.b\\worker.toml", Os::Windows), "C:\\a.b\\worker.status.json");
}

#[test]
fn a_connected_process_is_recognised() {
    let content = mark_ready(4711, 1_700_000_000);
    assert_eq!(content, "{\"connected_at\":1700000000,\"pid\":4711}");
    assert!(has_connected(content.as_bytes(), 4711));
    assert!(!has_connected(content.as_bytes(), 4712));
    assert!(!has_connected(b"{\"pid\":\"4711\"}", 4711));
    assert!(!has_connected(b"{\"pid\":4711", 4711));
    assert!(!has_connected(b"{\"pid\":4711,\"x\":\"\xff\"}", 4711));
    assert!(!has_connected(b"[4711]", 4711));
    assert!(!is_process(&Vec::new(), 0));
}

#[test]
fn addresses_are_opened_where_there_is_a_desktop() {
    let macos = open_browser("https://c", Os::Macos, false).unwrap();
    assert_eq!((macos.program.as_str(), macos.arguments.as_slice()), ("open", ["https://c".to_owned()].as_slice()));
    let windows = open_browser("https://c", Os::Windows, false).unwrap();
    assert_eq!(windows.program, "rundll32.exe");
    assert_eq!(windows.arguments, ["url.dll,FileProtocolHandler", "https://c"]);
    let linux = open_browser("https://c", Os::Linux, true).unwrap();
    assert_eq!((linux.program.as_str(), linux.arguments.len()), ("xdg-open", 1));
    assert!(open_browser("https://c", Os::Linux, false).is_none());
    assert!(open_browser("https://c", Os::OtherUnix, false).is_none());
}

#[test]
fn the_status_tells_what_is_known() {
    let config = WorkerConfig {
        controller_url: "https://c".to_owned(),
        user_id: "u".to_owned(),
        machine_id: "m".to_owned(),
        access_token: "hidden".to_owned(),
    };
    assert_eq!(
        status("p", &config, false),
        "Config: p\nController: https://c\nWorker: m\nLocal process: not running. Start: cybion-worker run --background"
    );
    assert_eq!(
        status("p", &config, true),
        "Config: p\nController: https://c\nWorker: m\nLocal process: running or setup in progress"
    );
    assert_eq!(logs_status("l"), "Logs: l");
    assert_eq!(channel_status(None), "Task channel: not yet observed");
    assert_eq!(
        channel_status(Some("{}")),
        "Last successful task-channel connection (not a live health guarantee): {}"
    );
}

#[test]
fn an_examination_succeeds_only_where_the_controller_accepts() {
    let config = |token: &str| {
        load_config(WorkerConfig {
            controller_url: "https://c".to_owned(),
            user_id: "u".to_owned(),
            machine_id: "m".to_owned(),
            access_token: token.to_owned(),
        })
    };
    let success = "Controller authentication: OK\n{}\nRun the web connection check to test the task channel. Browser and desktop permissions are NOT tested by doctor.";
    let failure = "Controller authentication/network check failed. Check credentials, HTTPS access and device revocation.";
    assert_eq!(doctor(&config("a"), true, true, "{}"), Ok(success.to_owned()));
    assert_eq!(doctor(&config("b"), true, true, "{}"), Ok(success.to_owned()));
    assert_eq!(doctor(&config("a"), true, false, "{}"), Err(failure.to_owned()));
    assert_eq!(doctor(&config("a"), false, true, "{}"), Err(failure.to_owned()));
    assert_eq!(doctor(&config(""), true, true, "{}"), Err("access_token is required".to_owned()));
}

#[test]
fn actions_do_not_show_the_credential() {
    let other = || Pending { access_token: "c".repeat(64), ..pending() };
    let shown = |state: PairState| match pairing_action(&state, CONTROLLER, &device()) {
        PairAction::Ask { url, secret } => url + &secret,
        PairAction::Poll { url, secret, .. } => url + &secret,
        PairAction::Announce { url, text } => url + &text,
        _ => panic!("nothing is sent or shown"),
    };
    assert_eq!(shown(PairState::Probing(pending())), shown(PairState::Probing(other())));
    assert_eq!(shown(PairState::Polling(pending())), shown(PairState::Polling(other())));
    assert_eq!(shown(PairState::Announcing(pending())), shown(PairState::Announcing(other())));
}

#[test]
fn the_status_does_not_depend_on_the_credential() {
    let config = |access_token: &str| WorkerConfig {
        controller_url: "https://c".to_owned(),
        user_id: "u".to_owned(),
        machine_id: "m".to_owned(),
        access_token: access_token.to_owned(),
    };
    assert_eq!(status("p", &config("a"), true), status("p", &config("b"), true));
}
