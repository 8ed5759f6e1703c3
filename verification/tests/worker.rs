use cybion_worker::command::{
    connected_message, exited_message, help, launch_background, parse_command,
    parse_run_arguments, relaunch, relaunch_message, timed_out_message, CommandError, LaunchEvent, LaunchState,
    Relaunch, RelaunchEvent, WorkerCommand, VERSION,
};
use cybion_worker::config::{
    bearer, check_config, endpoint, load_config, worker_url, ConfigError, ParsedUrl, WorkerConfig,
};
use cybion_worker::numbers::{decimal_text, parse_number, signed_decimal_text};
use cybion_worker::paths::{
    default_config_path, paths_agree, replace_extension, worker_data_dir, Os,
};
use cybion_worker::process::{output, ProcessEvent, Stage};
use cybion_worker::text::{
    contains, lowercased, split_on, strip_prefix, text_lines, text_words, trimmed, trimmed_end_of,
    trimmed_start, trimmed_start_of,
};

fn config() -> WorkerConfig {
    WorkerConfig {
        controller_url: "https://cybion.ntnl.io".to_owned(),
        user_id: "auth-user".to_owned(),
        machine_id: "worker".to_owned(),
        access_token: "token".to_owned(),
    }
}

fn arguments(words: &[&str]) -> Vec<String> {
    words.iter().map(|word| word.to_string()).collect()
}

fn refusal(config: WorkerConfig) -> String {
    load_config(config).err().unwrap().message()
}

#[test]
fn supports_the_cloud_worker_protocol_paths() {
    let config = WorkerConfig {
        controller_url: "https://cybion.ntnl.io".to_owned(),
        user_id: "auth-user".to_owned(),
        machine_id: "worker".to_owned(),
        access_token: "token".to_owned(),
    };
    assert_eq!(
        worker_url(&config),
        "https://cybion.ntnl.io/worker/v1/users/auth-user/workers/worker"
    );
}

#[test]
fn parses_api_config_without_any_local_database() {
    let table: toml::Table = toml::from_str(
        r#"controller_url = "https://cybion.ntnl.io"
user_id = "auth-user"
machine_id = "machine"
access_token = "secret""#,
    )
    .unwrap();
    let field = |key: &str| table[key].as_str().unwrap().to_owned();
    let config = load_config(WorkerConfig {
        controller_url: field("controller_url"),
        user_id: field("user_id"),
        machine_id: field("machine_id"),
        access_token: field("access_token"),
    })
    .ok()
    .unwrap();
    assert_eq!(config.controller_url, "https://cybion.ntnl.io");
    assert!(table.keys().all(|key| !key.contains("sqlite")));
}

#[test]
fn accepted_configurations_are_reused() {
    let slashes = WorkerConfig { controller_url: "https://cybion.ntnl.io///".to_owned(), ..config() };
    let accepted = load_config(slashes).ok().unwrap();
    assert_eq!(accepted.controller_url, "https://cybion.ntnl.io");
    let again = load_config(accepted).ok().unwrap();
    assert_eq!(again.controller_url, "https://cybion.ntnl.io");
    assert_eq!(again.access_token, "token");
    let local = WorkerConfig { controller_url: "http://localhost:4000".to_owned(), ..config() };
    assert!(load_config(local).is_ok());
}

#[test]
fn malformed_configurations_are_reported() {
    let with_url = |url: &str| WorkerConfig { controller_url: url.to_owned(), ..config() };
    assert_eq!(refusal(with_url("cybion")), "controller_url must be an HTTPS URL");
    assert_eq!(refusal(with_url("http://cybion.ntnl.io")), "controller_url must use HTTPS");
    assert_eq!(refusal(with_url("http://127.0.0.1")), "controller_url must use HTTPS");
    let with_user = |user: &str| WorkerConfig { user_id: user.to_owned(), ..config() };
    assert_eq!(refusal(with_user(" \t")), "user_id is required");
    assert_eq!(refusal(with_user("a b")), "user_id contains unsupported characters");
    assert_eq!(refusal(with_user("a_b")), "user_id contains unsupported characters");
    assert_eq!(refusal(with_user(&"a".repeat(129))), "user_id contains unsupported characters");
    assert!(load_config(with_user(&"a.-Z9".repeat(25))).is_ok());
    let machine = WorkerConfig { machine_id: "\n".to_owned(), ..config() };
    assert_eq!(refusal(machine), "machine_id is required");
    let token = WorkerConfig { access_token: String::new(), ..config() };
    assert_eq!(refusal(token), "access_token is required");
}

#[test]
fn configurations_are_judged_by_what_the_parser_says() {
    let parsed = |scheme: &str, host: Option<&str>| ParsedUrl {
        scheme: scheme.to_owned(),
        host: host.map(str::to_owned),
        text: "unused".to_owned(),
    };
    assert!(check_config(config(), Ok(parsed("https", None))).is_ok());
    assert!(check_config(config(), Ok(parsed("http", Some("localhost")))).is_ok());
    assert!(matches!(
        check_config(config(), Ok(parsed("http", Some("example.com")))),
        Err(ConfigError::InsecureUrl)
    ));
    assert!(matches!(
        check_config(config(), Err("why".to_owned())),
        Err(ConfigError::InvalidUrl(reason)) if reason == "why"
    ));
    assert_eq!(
        endpoint(&config(), "/events"),
        "https://cybion.ntnl.io/worker/v1/users/auth-user/workers/worker/events"
    );
    assert_eq!(bearer("token"), "Bearer token");
}

#[test]
fn command_lines_are_understood() {
    let parse = |words: &[&str]| parse_command(&arguments(words), true).ok().unwrap();
    assert!(parse(&[]) == WorkerCommand::Run { config: None, background: false });
    assert!(parse(&["run"]) == WorkerCommand::Run { config: None, background: false });
    assert!(
        parse(&["run", "--config", "a", "--background", "--config", "--background"])
            == WorkerCommand::Run { config: Some(5), background: true }
    );
    assert!(parse(&["--background"]) == WorkerCommand::Run { config: None, background: true });
    assert!(
        parse(&["--config", "a", "--background"])
            == WorkerCommand::Run { config: Some(1), background: true }
    );
    assert!(parse(&["status", "--config", "a"]) == WorkerCommand::Status(Some(2)));
    assert!(parse(&["doctor"]) == WorkerCommand::Doctor(None));
    assert!(parse(&["config-path"]) == WorkerCommand::ConfigPath);
    for help in ["--help", "help", "--version"] {
        assert!(parse(&[help, "anything"]) == WorkerCommand::Help);
    }
    assert!(parse_command(&arguments(&["help"]), false).is_ok());
    assert!(parse_command(&arguments(&["config-path"]), false).is_ok());
}

#[test]
fn command_lines_are_refused_for_a_reason() {
    let message = |words: &[&str]| parse_command(&arguments(words), true).err().unwrap().message();
    assert_eq!(message(&["--verbose"]), "unknown command: --verbose");
    assert_eq!(message(&["--config"]), "--config requires a path");
    assert_eq!(message(&["--background", "run"]), "unknown argument: run");
    assert_eq!(message(&["run", "now"]), "unknown argument: now");
    assert_eq!(message(&["run", "--config"]), "--config requires a path");
    assert_eq!(message(&["status", "--background"]), "status/doctor do not accept --background");
    assert_eq!(message(&["doctor", "--background"]), "status/doctor do not accept --background");
    assert_eq!(message(&["config-path", "x"]), "config-path accepts no arguments");
    let homeless = parse_command(&arguments(&["run", "now"]), false).err().unwrap();
    assert!(matches!(homeless, CommandError::UnknownHome));
    assert_eq!(homeless.message(), "cannot determine the current user's home directory");
    let options = parse_run_arguments(&arguments(&["--background"]), 0, true).ok().unwrap();
    assert!(options.background && options.config.is_none());
}

#[test]
fn the_help_names_the_version() {
    let text = help(VERSION);
    assert!(text.starts_with("Cybion Worker 0.2.0\n\ncybion-worker [run] [--background] [--config PATH]\n"));
    assert!(text.ends_with("stop the process and move the config aside first."));
}

#[test]
fn a_worker_in_the_background_has_fifteen_seconds_to_connect() {
    let quiet = LaunchEvent::Observed { exited: false, connected: false };
    let mut state = LaunchState::Watching { polls: 0 };
    for polls in 1..150 {
        state = launch_background(state, quiet);
        assert!(state == LaunchState::Watching { polls });
    }
    state = launch_background(state, quiet);
    assert!(state == LaunchState::Stopping);
    state = launch_background(state, quiet);
    assert!(state == LaunchState::Stopping);
    state = launch_background(state, LaunchEvent::Stopped);
    assert!(state == LaunchState::TimedOut);
    let watched = LaunchState::Watching { polls: 149 };
    let seen = |exited: bool, connected: bool| {
        launch_background(watched, LaunchEvent::Observed { exited, connected })
    };
    assert!(seen(false, true) == LaunchState::Connected);
    assert!(seen(true, true) == LaunchState::Exited);
    assert_eq!(
        connected_message(7, "l"),
        "Worker connected in the background (PID 7). Logs: l\nNot configured for automatic startup; use your OS service manager if needed."
    );
    assert_eq!(exited_message("exit status: 1", "l"), "Worker exited (exit status: 1); inspect l");
    assert_eq!(
        timed_out_message("l"),
        "Worker did not connect within 15 seconds and was stopped; inspect l"
    );
}

#[test]
fn an_upgrade_that_does_not_start_is_taken_back() {
    let state = relaunch(Relaunch::Starting, RelaunchEvent::Launched);
    assert!(matches!(state, Relaunch::Upgraded));
    let state = relaunch(Relaunch::Starting, RelaunchEvent::LaunchFailed("exited".to_owned()));
    assert!(matches!(state, Relaunch::RollingBack));
    let state = relaunch(state, RelaunchEvent::RolledBack);
    assert!(matches!(state, Relaunch::Restarting));
    let state = relaunch(state, RelaunchEvent::Launched);
    assert!(matches!(state, Relaunch::Restored));
    assert_eq!(
        relaunch_message(&state).unwrap(),
        "Upgrade startup failed; previous executable restored"
    );
    let state = relaunch(Relaunch::RollingBack, RelaunchEvent::RollbackFailed("why".to_owned()));
    assert_eq!(
        relaunch_message(&state).unwrap(),
        "could not restore previous Worker executable"
    );
    assert!(matches!(state, Relaunch::Unrestored(reason) if reason == "why"));
    let state = relaunch(Relaunch::Restarting, RelaunchEvent::LaunchFailed("no".to_owned()));
    assert_eq!(relaunch_message(&state).unwrap(), "no");
    assert!(relaunch_message(&Relaunch::Upgraded).is_none());
}

#[test]
fn timed_out_commands_are_stopped_and_collected() {
    let label = "test command";
    let stage = output(Stage::Starting, ProcessEvent::Started, label);
    let stage = output(stage, ProcessEvent::TimedOut, label);
    assert!(matches!(stage, Stage::Killing(_)));
    let stage = output(stage, ProcessEvent::Killed, label);
    assert!(matches!(stage, Stage::Reaping(_)));
    let stage = output(stage, ProcessEvent::Exited, label);
    let stage = output(stage, ProcessEvent::Reaped, label);
    assert!(matches!(stage, Stage::Failed(reason) if reason == "test command timed out"));
}

#[test]
fn commands_fail_for_a_reason() {
    let failure = |stage: Stage, event: ProcessEvent| match output(stage, event, "Bash command") {
        Stage::Failed(reason) => reason,
        _ => panic!("the command did not fail"),
    };
    assert_eq!(failure(Stage::Starting, ProcessEvent::StartFailed), "could not start Bash command");
    assert_eq!(
        failure(Stage::Killing("x".to_owned()), ProcessEvent::KillFailed),
        "could not terminate Bash command process tree"
    );
    assert_eq!(
        failure(Stage::Reaping("x".to_owned()), ProcessEvent::ReapFailed),
        "could not reap Bash command"
    );
    assert_eq!(failure(Stage::Reaping("broken pipe".to_owned()), ProcessEvent::Reaped), "broken pipe");
    let stage = output(Stage::Running, ProcessEvent::WatchFailed("broken pipe".to_owned()), "l");
    assert!(matches!(stage, Stage::Killing(reason) if reason == "broken pipe"));
    assert!(matches!(output(Stage::Running, ProcessEvent::Exited, "l"), Stage::Finished));
    assert!(matches!(output(Stage::Finished, ProcessEvent::TimedOut, "l"), Stage::Finished));
}

#[test]
fn paths_are_joined_as_the_system_does() {
    assert_eq!(default_config_path("/home/u", Os::Linux), "/home/u/.cybion/worker.toml");
    assert_eq!(default_config_path("/", Os::Macos), "/.cybion/worker.toml");
    assert_eq!(default_config_path("C:\\Users\\u", Os::Windows), "C:\\Users\\u\\.cybion\\worker.toml");
    assert_eq!(worker_data_dir("", Os::Linux), ".cybion");
    assert_eq!(worker_data_dir("C:", Os::Windows), "C:.cybion");
    assert_eq!(worker_data_dir("C:", Os::Linux), "C:/.cybion");
    assert_eq!(worker_data_dir("\\\\server\\share", Os::Windows), "\\\\server\\share\\.cybion");
    assert_eq!(worker_data_dir("\\\\?\\C:", Os::Windows), "\\\\?\\C:\\.cybion");
    assert_eq!(worker_data_dir("\\\\?\\C:\\u\\", Os::Windows), "\\\\?\\C:\\u\\.cybion");
    assert_eq!(worker_data_dir("\\\\?\\C:\\u/", Os::Windows), "\\\\?\\C:\\u/\\.cybion");
    assert_eq!(
        default_config_path("\\\\?\\UNC\\s\\share\\\\u", Os::Windows),
        "\\\\?\\UNC\\s\\share\\u\\.cybion\\worker.toml"
    );
}

#[test]
fn extensions_are_replaced_as_std_does() {
    for path in [
        "", ".", "..", "/", "//", "a", "a.b", "a.b.c", ".a", "...", "a/..", "a/.", "a/./", "./.",
        "/a.b/worker", "/a.b/worker.toml", "a.b/", "a.b//./", "/home/u/.cybion/worker.toml", "a./b",
        "C:x.y", "a\\b.c",
    ] {
        for extension in ["c", "status.json", ""] {
            let expected = std::path::Path::new(path).with_extension(extension);
            assert_eq!(replace_extension(path, extension, Os::Linux), expected.to_str().unwrap());
        }
    }
    let windows = |path: &str| replace_extension(path, "lock", Os::Windows);
    assert_eq!(windows("C:\\a.b\\worker.toml"), "C:\\a.b\\worker.lock");
    assert_eq!(windows("C:\\a.b\\worker"), "C:\\a.b\\worker.lock");
    assert_eq!(windows("C:"), "C:");
    assert_eq!(windows("C:\\"), "C:\\");
    assert_eq!(windows("C:.."), "C:..");
    assert_eq!(windows("c:a.b"), "c:a.lock");
    assert_eq!(windows("\\\\server\\share.x"), "\\\\server\\share.x");
    assert_eq!(windows("\\\\server\\share\\a.x\\"), "\\\\server\\share\\a.lock");
    assert_eq!(windows("\\\\.\\COM1.x"), "\\\\.\\COM1.x");
    assert_eq!(windows("\\\\?\\UNC\\server.x"), "\\\\?\\UNC\\server.x");
    for prefix in ["\\\\?\\C:", "\\\\?\\UNC\\server\\share.x", "\\\\?\\name.x"] {
        assert_eq!(windows(prefix), prefix);
        assert_eq!(windows(&(prefix.to_owned() + "\\")), prefix.to_owned() + "\\");
        assert_eq!(windows(&(prefix.to_owned() + "\\a.b\\")), prefix.to_owned() + "\\a.lock");
        assert_eq!(windows(&(prefix.to_owned() + "\\a\\.")), prefix.to_owned() + "\\a\\.");
        assert_eq!(windows(&(prefix.to_owned() + "\\.b/c")), prefix.to_owned() + "\\.b/c.lock");
    }
}

#[test]
fn paths_are_compared_component_by_component() {
    for a in ["", ".", "a", "./a", "a/", "a//b", "a/./b", "/a", "//a", "a/..", "..", "a/b/."] {
        for b in ["", ".", "a", "a/.", "a/b", "/a", "/./a", "a/../", "./a", "a\\b"] {
            let expected = std::path::Path::new(a) == std::path::Path::new(b);
            assert_eq!(paths_agree(a, b, Os::Linux), expected);
        }
    }
    let same = |a: &str, b: &str| paths_agree(a, b, Os::Windows);
    assert!(same("c:/x", "C:\\x"));
    assert!(same("c:x", "C:x"));
    assert!(!same("c:x", "c:/x"));
    assert!(!same("d:/x", "c:/x"));
    assert!(same("//a/b/c", "\\\\a\\b\\c"));
    assert!(same("\\\\a\\b", "\\\\a\\b\\"));
    assert!(!same("\\\\a\\b\\c", "\\a\\b\\c"));
    assert!(!same("\\\\A\\b\\c", "\\\\a\\b\\c"));
    assert!(same("\\\\a", "\\a"));
    assert!(same("\\\\?\\c:\\x", "\\\\?\\C:\\x"));
    assert!(!same("\\\\?\\C:\\x", "C:\\x"));
    assert!(!same("\\\\?\\C:\\x", "//?/C:/x"));
    assert!(!same("\\\\?\\C:\\x\\.", "\\\\?\\C:\\x"));
    assert!(!same("\\\\?\\C:\\x/y", "\\\\?\\C:\\x\\y"));
    assert!(!same("\\\\?\\C:", "\\\\?\\C:\\"));
}

#[test]
fn texts_are_read_as_std_reads_them() {
    for text in ["", " a b ", "\u{a0}x\u{3000}", "a\r\nb\n\nc\r", "\n", "é\tß", "*a", "A-É-z//"] {
        assert_eq!(trimmed(text), text.trim());
        assert_eq!(trimmed_start(text), text.trim_start());
        assert_eq!(trimmed_end_of(text, '/'), text.trim_end_matches('/'));
        assert_eq!(trimmed_start_of(text, '*'), text.trim_start_matches('*'));
        assert_eq!(text_lines(text), text.lines().collect::<Vec<_>>());
        assert_eq!(text_words(text), text.split_whitespace().collect::<Vec<_>>());
        assert_eq!(split_on(text, ' '), text.split(' ').collect::<Vec<_>>());
        assert_eq!(lowercased(text), text.to_ascii_lowercase());
        assert_eq!(strip_prefix(text, "a").as_deref(), text.strip_prefix("a"));
        assert_eq!(contains(text, "b"), text.contains("b"));
        assert_eq!(contains(text, ""), text.contains(""));
    }
}

#[test]
fn numbers_are_read_and_spelled_as_std_does() {
    for text in ["", "0", "+", "+7", "-1", "007", "18446744073709551615", "18446744073709551616", "1 "] {
        assert_eq!(parse_number(text), text.parse::<u64>().ok());
    }
    for n in [0, 9, 10, 100, u64::MAX] {
        assert_eq!(decimal_text(n), n.to_string());
        assert_eq!(parse_number(&decimal_text(n)), Some(n));
    }
    for i in [0, -1, 42, i64::MIN, i64::MAX] {
        assert_eq!(signed_decimal_text(i), i.to_string());
    }
}
