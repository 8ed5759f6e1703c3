use cybion_worker::browser::{
    browser_arguments, browser_control, cdp, check_url, chromium_executable, devtools_target,
    ensure_browser, first_installed, installed_browser, judge_reply, plan_browsing, program_roots, request_text, valid_url,
    BrowserPhase, BrowserStep, CdpCall, CdpParams, CdpStep, DevtoolsTarget, NO_PAGE,
};
use cybion_worker::calls::ToolCall;
use cybion_worker::config::ParsedUrl;
use cybion_worker::json::{find_member, Member};
use cybion_worker::paths::Os;
use cybion_worker::tools::{
    bash, command_output, computer_command, computer_use, execute_call, limited_output, plan_tool,
    required_number, required_string, shell_command, CommandLine, ComputerError, ToolError,
    ToolPlan, MAX_TOOL_OUTPUT_BYTES,
};

fn text(key: &str, value: &str) -> Member {
    Member {
        key: key.to_owned(),
        json: format!("\"{value}\""),
        text: Some(value.to_owned()),
        integer: None,
        unsigned: None,
    }
}

fn number(key: &str, value: i64) -> Member {
    Member {
        key: key.to_owned(),
        json: value.to_string(),
        text: None,
        integer: Some(value),
        unsigned: u64::try_from(value).ok(),
    }
}

fn call(name: &str, arguments: &str) -> ToolCall {
    ToolCall {
        id: "id".to_owned(),
        thread_id: "thread".to_owned(),
        name: name.to_owned(),
        arguments: arguments.to_owned(),
    }
}

fn words(command: &CommandLine) -> Vec<&str> {
    let mut words = vec![command.program.as_str()];
    words.extend(command.arguments.iter().map(String::as_str));
    words
}

fn url(scheme: &str, text: &str) -> Result<ParsedUrl, String> {
    Ok(ParsedUrl { scheme: scheme.to_owned(), host: None, text: text.to_owned() })
}

#[test]
fn arguments_have_to_be_there() {
    let arguments = vec![text("a", "b"), text("empty", ""), number("n", -3)];
    assert_eq!(required_string(&arguments, "a").ok().unwrap(), "b");
    assert_eq!(required_number(&arguments, "n").ok().unwrap(), -3);
    for key in ["empty", "n", "missing"] {
        let refused = required_string(&arguments, key).err().unwrap();
        assert_eq!(refused.message(), format!("{key} is required"));
    }
    assert_eq!(required_number(&arguments, "a").err().unwrap().message(), "a is required");
    assert_eq!(find_member(&arguments, "n"), Some(2));
    assert_eq!(find_member(&arguments, "N"), None);
}

#[test]
fn commands_run_in_the_shell_of_the_system() {
    let arguments = vec![text("command", "echo hi")];
    let unix = bash(&arguments, Os::Linux).ok().unwrap();
    assert_eq!(words(&unix), ["/bin/sh", "-lc", "echo hi"]);
    let windows = bash(&arguments, Os::Windows).ok().unwrap();
    assert_eq!(words(&windows), ["cmd", "/C", "echo hi"]);
    assert!(matches!(bash(&Vec::new(), Os::Linux), Err(ToolError::Required(key)) if key == "command"));
    let direct = shell_command(Os::Macos, "true".to_owned());
    assert_eq!(words(&direct), ["/bin/sh", "-lc", "true"]);
}

#[test]
fn calls_are_planned_by_their_tool() {
    match execute_call(&call("bash", "{\"command\":\"echo \\u0068i\"}"), Os::Linux) {
        Ok(ToolPlan::Run { command, label }) => {
            assert_eq!(words(&command), ["/bin/sh", "-lc", "echo hi"]);
            assert_eq!(label, "Bash command");
        }
        _ => panic!("the command was not planned"),
    }
    assert!(matches!(
        execute_call(&call("diagnostics", "null"), Os::Linux),
        Ok(ToolPlan::Diagnose)
    ));
    assert!(matches!(
        execute_call(&call("browser_control", "{\"action\":\"open\"}"), Os::Linux),
        Ok(ToolPlan::Browse { action }) if action == "open"
    ));
    match execute_call(&call("computer_use", "{\"action\":\"move\",\"x\":1,\"y\":-2}"), Os::Linux) {
        Ok(ToolPlan::Run { command, label }) => {
            assert_eq!(words(&command), ["xdotool", "mousemove", "1", "-2"]);
            assert_eq!(label, "Computer Use command");
        }
        _ => panic!("the movement was not planned"),
    }
    let unknown = execute_call(&call("format_disk", "{}"), Os::Linux).err().unwrap();
    assert_eq!(unknown.message(), "unsupported Worker tool: format_disk");
    let malformed = execute_call(&call("bash", "{"), Os::Linux).err().unwrap();
    assert_eq!(malformed.message(), "Worker received malformed tool_call");
    assert!(matches!(
        plan_tool("bash", &Vec::new(), Os::Linux),
        Err(ToolError::Required(_))
    ));
    assert!(matches!(
        execute_call(&call("bash", "[1]"), Os::Linux),
        Err(ToolError::Required(_))
    ));
}

#[test]
fn desktop_actions_have_commands_on_every_system() {
    let click = computer_command(Os::OtherUnix, "click", 7, 8, None).ok().unwrap();
    assert_eq!(words(&click), ["xdotool", "mousemove", "--sync", "7", "8", "click", "1"]);
    let typed = computer_command(Os::Linux, "type", 0, 0, Some("-a \"b\"")).ok().unwrap();
    assert_eq!(words(&typed), ["xdotool", "type", "--delay", "1", "--", "-a \"b\""]);
    let click = computer_command(Os::Macos, "click", 7, 8, None).ok().unwrap();
    assert_eq!(
        words(&click),
        ["/usr/bin/osascript", "-e", "tell application \"System Events\" to click at {7, 8}"]
    );
    let typed = computer_command(Os::Macos, "type", 0, 0, Some("a\"b\\")).ok().unwrap();
    assert_eq!(
        words(&typed)[2],
        "tell application \"System Events\" to keystroke \"a\\\"b\\\\\""
    );
    let moved = computer_command(Os::Windows, "move", -1, i64::MIN, None).ok().unwrap();
    assert_eq!(
        words(&moved),
        [
            "powershell",
            "-NoProfile",
            "-Command",
            "Add-Type -AssemblyName System.Windows.Forms; [System.Windows.Forms.Cursor]::Position=New-Object System.Drawing.Point(-1,-9223372036854775808)",
        ]
    );
    for os in [Os::Macos, Os::Windows, Os::Linux] {
        let missing = computer_command(os, "type", 0, 0, None).err().unwrap();
        assert!(missing == ComputerError::MissingText);
        assert_eq!(missing.message(), "text is required");
        let unknown = computer_command(os, "drag", 0, 0, None).err().unwrap();
        assert_eq!(unknown.message(), "unsupported computer action");
    }
}

#[test]
fn desktop_calls_need_their_arguments() {
    let moved = vec![text("action", "move"), number("x", 1)];
    assert_eq!(computer_use(&moved, Os::Linux).err().unwrap().message(), "y is required");
    let typed = vec![text("action", "type")];
    assert_eq!(computer_use(&typed, Os::Linux).err().unwrap().message(), "text is required");
    let other = vec![text("action", "drag")];
    assert_eq!(
        computer_use(&other, Os::Linux).err().unwrap().message(),
        "unsupported computer action: drag"
    );
    assert_eq!(computer_use(&Vec::new(), Os::Linux).err().unwrap().message(), "action is required");
}

#[test]
fn outputs_are_cut_and_made_readable() {
    let output = command_output(Some(3), b"out\xff", "é".as_bytes());
    assert_eq!(output.exit_code, Some(3));
    assert_eq!(output.stdout, "out\u{fffd}");
    assert_eq!(output.stderr, "é");
    let long = vec![b'a'; MAX_TOOL_OUTPUT_BYTES + 1];
    assert_eq!(limited_output(&long).len(), 2 * 1024 * 1024);
    assert_eq!(limited_output(&long[1..]).len(), 2 * 1024 * 1024);
    assert_eq!(limited_output(&long), limited_output(&long[1..]));
    assert!(command_output(None, b"", b"").exit_code.is_none());
}

#[test]
fn only_web_addresses_are_valid() {
    assert_eq!(valid_url("HTTP://Example.com").ok().unwrap(), "http://example.com/");
    assert_eq!(valid_url("https://a/b?c#d").ok().unwrap(), "https://a/b?c#d");
    assert_eq!(valid_url("file:///etc/passwd").err().unwrap().message(), "url must use HTTP or HTTPS");
    assert_eq!(valid_url("not a url").err().unwrap().message(), "url is invalid");
    assert_eq!(check_url(url("https", "x")).ok().unwrap(), "x");
    assert!(matches!(check_url(url("ftp", "x")), Err(ToolError::UnsupportedScheme)));
    assert!(matches!(check_url(Err("why".to_owned())), Err(ToolError::InvalidUrl(_))));
}

#[test]
fn browser_actions_become_requests() {
    let opened = browser_control("open", "{\"url\":\"https://example.com\"}").ok().unwrap();
    assert_eq!(
        request_text(&opened),
        "{\"id\":1,\"method\":\"Page.navigate\",\"params\":{\"url\":\"https://example.com/\"}}"
    );
    let clicked = browser_control("click", "{\"selector\":\"a[href=\\\"x\\\"]\"}").ok().unwrap();
    assert_eq!(clicked.method, "Runtime.evaluate");
    assert!(matches!(
        clicked.params,
        CdpParams::Expression(text) if text == "document.querySelector(\"a[href=\\\"x\\\"]\")?.click() ?? false"
    ));
    let typed = browser_control("type", "{\"selector\":\"#q\",\"text\":\"hi\\n\"}").ok().unwrap();
    assert!(matches!(
        typed.params,
        CdpParams::Expression(text) if text == "(() => { const element = document.querySelector(\"#q\"); if (!element) return false; element.focus(); element.value = \"hi\\n\"; element.dispatchEvent(new Event('input', {bubbles:true})); element.dispatchEvent(new Event('change', {bubbles:true})); return true })()"
    ));
    let evaluated = browser_control("evaluate", "{\"text\":\"1 + 1\"}").ok().unwrap();
    assert_eq!(
        request_text(&evaluated),
        "{\"id\":1,\"method\":\"Runtime.evaluate\",\"params\":{\"expression\":\"1 + 1\",\"returnByValue\":true}}"
    );
    let shot = browser_control("screenshot", "{}").ok().unwrap();
    assert_eq!(
        request_text(&shot),
        "{\"id\":1,\"method\":\"Page.captureScreenshot\",\"params\":{\"format\":\"png\"}}"
    );
    let request = CdpCall { method: "M".to_owned(), params: CdpParams::Url("u\u{1}".to_owned()) };
    assert_eq!(request_text(&request), "{\"id\":1,\"method\":\"M\",\"params\":{\"url\":\"u\\u0001\"}}");
}

#[test]
fn browser_actions_need_their_arguments() {
    let message = |action: &str, arguments: &str| {
        browser_control(action, arguments).err().unwrap().message()
    };
    assert_eq!(message("navigate", "{}"), "url is required");
    assert_eq!(message("navigate", "{\"url\":\"javascript:1\"}"), "url must use HTTP or HTTPS");
    assert_eq!(message("navigate", "{\"url\":\"//\"}"), "url is invalid");
    assert_eq!(message("evaluate", "{}"), "text is required");
    assert_eq!(message("click", "{\"selector\":\"\"}"), "selector is required");
    assert_eq!(message("type", "{\"text\":\"a\"}"), "selector is required");
    assert_eq!(message("type", "{\"selector\":\"a\"}"), "text is required");
    assert_eq!(message("scroll", "{}"), "unsupported browser action: scroll");
    assert_eq!(message("open", "nonsense"), "Worker received malformed tool_call");
    let arguments = vec![text("url", "anything")];
    let planned = plan_browsing("navigate", &arguments, url("http", "http://n/")).ok().unwrap();
    assert!(matches!(planned.params, CdpParams::Url(address) if address == "http://n/"));
    assert!(plan_browsing("navigate", &arguments, Err("why".to_owned())).is_err());
    assert!(plan_browsing("screenshot", &arguments, Err("why".to_owned())).is_ok());
}

#[test]
fn only_the_answer_to_the_request_counts() {
    assert!(matches!(cdp(Some("{\"method\":\"Page.loaded\"}")), Some(CdpStep::Ignore)));
    assert!(matches!(cdp(Some("{\"id\":2,\"result\":{}}")), Some(CdpStep::Ignore)));
    assert!(matches!(cdp(Some("{\"id\":1.0,\"result\":{}}")), Some(CdpStep::Ignore)));
    assert!(matches!(cdp(Some("[1]")), Some(CdpStep::Ignore)));
    assert!(cdp(Some("{")).is_none());
    assert!(matches!(
        cdp(Some("{\"id\":1,\"result\":{ \"a\" : [1, 2] }}")),
        Some(CdpStep::Done(json)) if json == "{\"a\":[1,2]}"
    ));
    assert!(matches!(cdp(Some("{\"id\":1}")), Some(CdpStep::Done(json)) if json == "{}"));
    assert!(matches!(
        cdp(Some("{\"id\":1,\"error\":{\"code\":-1},\"result\":{}}")),
        Some(CdpStep::Failed(reason)) if reason == "Browser Control failed: {\"code\":-1}"
    ));
    assert!(matches!(
        cdp(None),
        Some(CdpStep::Failed(reason)) if reason == "Browser Control connection closed without a response"
    ));
    let message = vec![number("id", 1), text("result", "ok")];
    assert!(matches!(judge_reply(&message), CdpStep::Done(json) if json == "\"ok\""));
}

#[test]
fn the_first_page_is_controlled() {
    let target = |kind: &str, socket: Option<&str>| DevtoolsTarget {
        websocket_url: socket.map(str::to_owned),
        target_type: kind.to_owned(),
    };
    let targets = vec![
        target("worker", Some("ws://1")),
        target("page", None),
        target("page", Some("ws://2")),
        target("page", Some("ws://3")),
    ];
    assert_eq!(devtools_target(&targets), Some(2));
    assert_eq!(devtools_target(&Vec::new()), None);
    assert_eq!(NO_PAGE, "browser has no page target");
}

#[test]
fn browsers_are_looked_for_where_they_are_installed() {
    let paths = |os: Os, roots: usize| -> Vec<(Option<usize>, String)> {
        chromium_executable(os, roots).into_iter().map(|found| (found.root, found.path)).collect()
    };
    let linux = paths(Os::Linux, 3);
    assert_eq!(linux.len(), 5);
    assert_eq!(linux[0], (None, "/usr/bin/google-chrome".to_owned()));
    assert_eq!(linux[4], (None, "/usr/bin/microsoft-edge".to_owned()));
    let macos = paths(Os::Macos, 0);
    assert_eq!(macos.len(), 3);
    assert_eq!(macos[1].1, "/Applications/Chromium.app/Contents/MacOS/Chromium");
    let windows = paths(Os::Windows, 2);
    assert_eq!(windows.len(), 6);
    assert_eq!(windows[1], (Some(0), "Microsoft/Edge/Application/msedge.exe".to_owned()));
    assert_eq!(windows[5], (Some(1), "Chromium/Application/chrome.exe".to_owned()));
    assert_eq!(first_installed(&vec![false, false, true, true]), Some(2));
    assert_eq!(first_installed(&vec![false]), None);
    let present = vec![false, false, true, false, true];
    assert_eq!(installed_browser(Os::Linux, 0, &present).unwrap().path, "/usr/bin/chromium");
    assert!(installed_browser(Os::Linux, 0, &vec![false; 5]).is_none());
    assert!(installed_browser(Os::Windows, 0, &vec![true]).is_none());
    assert_eq!(program_roots(), ["PROGRAMFILES", "PROGRAMFILES(X86)", "LOCALAPPDATA"]);
    assert_eq!(
        browser_arguments("/home/u/.cybion/browser"),
        [
            "--remote-debugging-port=9222",
            "--remote-allow-origins=*",
            "--user-data-dir=/home/u/.cybion/browser",
            "about:blank",
        ]
    );
}

#[test]
fn a_browser_is_started_once_and_awaited() {
    let (_, step) = ensure_browser(BrowserPhase::Unknown, true, false);
    assert!(step == BrowserStep::Ready);
    let (_, step) = ensure_browser(BrowserPhase::Unknown, false, false);
    assert_eq!(step.message().unwrap(), "could not find Chromium, Chrome, or Edge");
    let (mut phase, step) = ensure_browser(BrowserPhase::Unknown, false, true);
    assert!(step == BrowserStep::Launch);
    for _ in 0..20 {
        let (next, step) = ensure_browser(phase, false, true);
        assert!(step == BrowserStep::Wait);
        phase = next;
    }
    let (_, step) = ensure_browser(phase, true, true);
    assert_eq!(step.message().unwrap(), "Chromium did not expose its DevTools endpoint");
    let (_, step) = ensure_browser(BrowserPhase::Started(19), true, true);
    assert!(step == BrowserStep::Ready);
    assert!(step.message().is_none());
}
