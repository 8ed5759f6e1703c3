//! Credentials, and what a device can tell about itself.
use crate::config;
use crate::config::WorkerConfig;
use crate::encoding;
use crate::json;
use crate::numbers;
use crate::paths;
use crate::paths::Os;
use crate::text;
use crate::tools;
use crate::tools::CommandLine;
use crate::tools::CommandOutput;
use vstd::prelude::*;

verus! {

/// Calls `SystemTime::now` and hands out the whole seconds since 1970, none where the clock stands
/// before. Nothing is promised of the time.
#[verifier::external_body]
fn clock_seconds() -> (r: Option<u64>) {
    let now = std::time::SystemTime::now();
    now.duration_since(std::time::UNIX_EPOCH).ok().map(|elapsed| elapsed.as_secs())
}

/// The time that a reading of the clock stands for.
pub open spec fn time_of(reading: Option<u64>) -> u64 {
    match reading {
        Some(seconds) => seconds,
        None => 0,
    }
}

/// The time that a reading of the clock stands for: a clock before 1970 counts as 1970.
pub fn seconds_of(reading: Option<u64>) -> (r: u64)
    ensures
        r == time_of(reading),
{
    match reading {
        Some(seconds) => seconds,
        None => 0,
    }
}

/// The seconds since 1970. What the clock reads is not specified.
pub fn now() -> (r: u64)
    ensures
        exists|reading: Option<u64>| r == #[trigger] time_of(reading),
{
    seconds_of(clock_seconds())
}

/// The secret that two identifiers spell.
pub open spec fn spelled_secret(a: Seq<u8>, b: Seq<u8>) -> Seq<char> {
    encoding::hex(a) + encoding::hex(b)
}

/// The secret that two random identifiers spell.
pub fn secret_of(a: [u8; 16], b: [u8; 16]) -> (r: String)
    ensures
        r@ == spelled_secret(a@, b@),
        r@.len() == 64,
        forall|i: int| 0 <= i < r@.len() ==> encoding::is_hex_digit(#[trigger] r@[i]),
{
    let mut secret = encoding::simple_text(a);
    let rest = encoding::simple_text(b);
    secret.append(rest.as_str());
    proof {
        encoding::hex_is_hexadecimal(a@);
        encoding::hex_is_hexadecimal(b@);
        assert forall|i: int| 0 <= i < secret@.len() implies encoding::is_hex_digit(
            #[trigger] secret@[i],
        ) by {
            if i < 32 {
                assert(secret@[i] == encoding::hex(a@)[i]);
            } else {
                assert(secret@[i] == encoding::hex(b@)[i - 32]);
            }
        }
    }
    secret
}

/// A new secret of 64 hexadecimal digits, spelled by two random identifiers.
pub fn secret() -> (r: String)
    ensures
        r@.len() == 64,
        forall|i: int| 0 <= i < r@.len() ==> encoding::is_hex_digit(#[trigger] r@[i]),
        exists|a: Seq<u8>, b: Seq<u8>|
            encoding::is_random_uuid(a) && encoding::is_random_uuid(b) && r@
                == #[trigger] spelled_secret(a, b),
{
    let a = encoding::random_uuid();
    let b = encoding::random_uuid();
    let secret = secret_of(a, b);
    assert(secret@ == spelled_secret(a@, b@));
    secret
}

/// Different identifiers spell different secrets.
pub proof fn secrets_are_distinct(a: Seq<u8>, b: Seq<u8>, c: Seq<u8>, d: Seq<u8>)
    requires
        a.len() == c.len(),
        spelled_secret(a, b) == spelled_secret(c, d),
    ensures
        a == c,
        b == d,
{
    let n = a.len() * 2;
    assert(encoding::hex(a) =~= spelled_secret(a, b).take(n as int));
    assert(encoding::hex(c) =~= spelled_secret(c, d).take(n as int));
    assert(encoding::hex(b) =~= spelled_secret(a, b).skip(n as int));
    assert(encoding::hex(d) =~= spelled_secret(c, d).skip(n as int));
    encoding::hex_is_injective(a, c);
    encoding::hex_is_injective(b, d);
}

/// The path of the file that tells when the worker last connected, beside the configuration.
pub fn ready_path(config: &str, os: Os) -> (r: String)
    ensures
        r@ == paths::with_extension(config@, "status.json"@, os),
{
    paths::replace_extension(config, "status.json", os)
}

/// The path of the file whose lock tells whether a worker runs.
pub fn lock_path(config: &str, os: Os) -> (r: String)
    ensures
        r@ == paths::with_extension(config@, "lock"@, os),
{
    paths::replace_extension(config, "lock", os)
}

/// The path of the file that keeps a pairing that was begun.
pub fn pending_path(config: &str, os: Os) -> (r: String)
    ensures
        r@ == paths::with_extension(config@, "pairing.json"@, os),
{
    paths::replace_extension(config, "pairing.json", os)
}

/// The files of one configuration never take each other's place.
pub proof fn files_are_apart(config: Seq<char>, os: Os)
    requires
        paths::names_file(config, os),
    ensures
        paths::with_extension(config, "status.json"@, os) != paths::with_extension(
            config,
            "lock"@,
            os,
        ),
        paths::with_extension(config, "status.json"@, os) != paths::with_extension(
            config,
            "pairing.json"@,
            os,
        ),
        paths::with_extension(config, "lock"@, os) != paths::with_extension(
            config,
            "pairing.json"@,
            os,
        ),
{
    reveal_strlit("status.json");
    reveal_strlit("lock");
    reveal_strlit("pairing.json");
    assert("status.json"@[0] == 's' && "lock"@[0] == 'l' && "pairing.json"@[0] == 'p');
    paths::siblings_differ(config, "status.json"@, "lock"@, os);
    paths::siblings_differ(config, "status.json"@, "pairing.json"@, os);
    paths::siblings_differ(config, "lock"@, "pairing.json"@, os);
}

/// What is written once the worker has connected, as compact JSON.
pub open spec fn ready_json(pid: u32, now: u64) -> Seq<char> {
    "{\"connected_at\":"@ + numbers::decimal(now as nat) + ",\"pid\":"@ + numbers::decimal(
        pid as nat,
    ) + "}"@
}

/// What is written once the worker has connected.
pub fn mark_ready(pid: u32, now: u64) -> (r: String)
    ensures
        r@ == ready_json(pid, now),
{
    let time = numbers::decimal_text(now);
    let process = numbers::decimal_text(pid as u64);
    let mut content = "{\"connected_at\":".to_owned();
    content.append(time.as_str());
    content.append(",\"pid\":");
    content.append(process.as_str());
    content.append("}");
    content
}

/// Whether an object names the process.
pub open spec fn names_process(object: Seq<json::MemberView>, pid: u32) -> bool {
    match json::member(object, "pid"@) {
        Some(member) => member.unsigned == Some(pid as u64),
        None => false,
    }
}

/// Whether an object names the process.
pub fn is_process(object: &Vec<json::Member>, pid: u32) -> (r: bool)
    ensures
        r == names_process(json::members(object@), pid),
{
    match json::find_member(object, "pid") {
        Some(i) => match object[i].unsigned {
            Some(named) => named == pid as u64,
            None => false,
        },
        None => false,
    }
}

/// Whether what is written beside the configuration says that the process has connected.
pub open spec fn says_ready(content: Seq<u8>, pid: u32) -> bool {
    vstd::utf8::valid_utf8(content) && match json::json_object(
        vstd::utf8::decode_utf8(content),
    ) {
        Some(object) => names_process(object, pid),
        None => false,
    }
}

/// Whether what is written beside the configuration says that the process has connected.
pub fn has_connected(content: &[u8], pid: u32) -> (r: bool)
    ensures
        r == says_ready(content@, pid),
{
    match encoding::utf8_text(content) {
        Ok(content) => match json::read_object(content.as_str()) {
            Some(object) => is_process(&object, pid),
            None => false,
        },
        Err(_) => false,
    }
}

/// The command that opens an address in the user's browser, where there is a desktop.
pub open spec fn launcher(url: Seq<char>, os: Os, display: bool) -> Option<tools::CommandView> {
    match os {
        Os::Macos => Some(tools::CommandView { program: "open"@, arguments: seq![url] }),
        Os::Windows => Some(
            tools::CommandView {
                program: "rundll32.exe"@,
                arguments: seq!["url.dll,FileProtocolHandler"@, url],
            },
        ),
        _ => if display {
            Some(tools::CommandView { program: "xdg-open"@, arguments: seq![url] })
        } else {
            None
        },
    }
}

/// The command that opens an address in the user's browser, given whether the session has an X11
/// or Wayland display.
pub fn open_browser(url: &str, os: Os, display: bool) -> (r: Option<CommandLine>)
    ensures
        match r {
            Some(command) => launcher(url@, os, display) == Some(command@),
            None => launcher(url@, os, display) is None,
        },
{
    let mut arguments: Vec<String> = Vec::new();
    let program = match os {
        Os::Macos => "open",
        Os::Windows => {
            arguments.push("url.dll,FileProtocolHandler".to_owned());
            "rundll32.exe"
        },
        _ => {
            if !display {
                return None;
            }
            "xdg-open"
        },
    };
    arguments.push(url.to_owned());
    let command = CommandLine { program: program.to_owned(), arguments };
    assert(command@.arguments =~= launcher(url@, os, display)->Some_0.arguments);
    Some(command)
}

/// The command by which the shell is tested.
pub const SHELL_TEST: &'static str = "echo cybion-worker-check";

/// Seconds that the test of the shell may take.
pub const SHELL_TEST_SECONDS: u64 = 5;

/// What is known of one of the worker's abilities.
#[derive(Clone, Copy, PartialEq, Eq, Structural)]
pub enum Check {
    ShellReady,
    ShellFailed,
    BrowserInstalled,
    BrowserMissing,
    NoDisplay,
    DesktopUnchecked,
}

/// The status and the detail by which a check is reported.
pub open spec fn check_words(check: Check) -> (Seq<char>, Seq<char>) {
    match check {
        Check::ShellReady => ("ready"@, "shell_ok"@),
        Check::ShellFailed => ("failed"@, "shell_failed"@),
        Check::BrowserInstalled => ("not_checked"@, "browser_installed"@),
        Check::BrowserMissing => ("missing_dependency"@, "browser_missing"@),
        Check::NoDisplay => ("unsupported"@, "no_display"@),
        Check::DesktopUnchecked => ("not_checked"@, "desktop_permissions"@),
    }
}

impl Check {
    /// The status by which the check is reported.
    pub fn status(&self) -> (r: String)
        ensures
            r@ == check_words(*self).0,
    {
        let status = match self {
            Check::ShellReady => "ready",
            Check::ShellFailed => "failed",
            Check::BrowserInstalled => "not_checked",
            Check::BrowserMissing => "missing_dependency",
            Check::NoDisplay => "unsupported",
            Check::DesktopUnchecked => "not_checked",
        };
        status.to_owned()
    }

    /// The detail by which the check is reported.
    pub fn detail(&self) -> (r: String)
        ensures
            r@ == check_words(*self).1,
    {
        let detail = match self {
            Check::ShellReady => "shell_ok",
            Check::ShellFailed => "shell_failed",
            Check::BrowserInstalled => "browser_installed",
            Check::BrowserMissing => "browser_missing",
            Check::NoDisplay => "no_display",
            Check::DesktopUnchecked => "desktop_permissions",
        };
        detail.to_owned()
    }
}

/// What is known of the worker's abilities.
#[derive(Clone, Copy, PartialEq, Eq, Structural)]
pub struct Diagnosis {
    pub shell: Check,
    pub browser: Check,
    pub desktop: Check,
}

/// Whether the test of the shell came to its end as it should.
pub open spec fn shell_works(output: Option<CommandOutput>) -> bool {
    match output {
        Some(output) => output.exit_code == Some(0i32) && text::trim(output.stdout@)
            == "cybion-worker-check"@,
        None => false,
    }
}

/// What is known of the worker's abilities, given the output of the shell's test, if it came to an
/// end, whether a browser is installed, and whether the session has an X11 display.
pub open spec fn diagnosis(
    output: Option<CommandOutput>,
    browser: bool,
    os: Os,
    display: bool,
) -> Diagnosis {
    Diagnosis {
        shell: if shell_works(output) {
            Check::ShellReady
        } else {
            Check::ShellFailed
        },
        browser: if browser {
            Check::BrowserInstalled
        } else {
            Check::BrowserMissing
        },
        desktop: if os is Linux && !display {
            Check::NoDisplay
        } else {
            Check::DesktopUnchecked
        },
    }
}

/// What is known of the worker's abilities. Nothing is clicked, typed or launched to find out.
pub fn diagnostics(output: &Option<CommandOutput>, browser: bool, os: Os, display: bool) -> (r:
    Diagnosis)
    ensures
        r == diagnosis(*output, browser, os, display),
{
    let works = match output {
        Some(output) => match output.exit_code {
            Some(code) => {
                let said = text::trimmed(output.stdout.as_str());
                code == 0 && text::same(said.as_str(), "cybion-worker-check")
            },
            None => false,
        },
        None => false,
    };
    Diagnosis {
        shell: if works {
            Check::ShellReady
        } else {
            Check::ShellFailed
        },
        browser: if browser {
            Check::BrowserInstalled
        } else {
            Check::BrowserMissing
        },
        desktop: if os == Os::Linux && !display {
            Check::NoDisplay
        } else {
            Check::DesktopUnchecked
        },
    }
}

/// Only what was tested is called ready: the shell, and never the browser or the desktop.
pub proof fn only_the_shell_is_called_ready(
    output: Option<CommandOutput>,
    browser: bool,
    os: Os,
    display: bool,
)
    ensures
        ({
            let diagnosis = diagnosis(output, browser, os, display);
            &&& check_words(diagnosis.shell).0 == "ready"@ <==> shell_works(output)
            &&& check_words(diagnosis.browser).0 != "ready"@
            &&& check_words(diagnosis.desktop).0 != "ready"@
        }),
{
    reveal_strlit("ready");
    reveal_strlit("failed");
    reveal_strlit("not_checked");
    reveal_strlit("missing_dependency");
    reveal_strlit("unsupported");
    assert("ready"@.len() == 5);
}

/// What the user is told of a configuration, given whether another process holds its lock.
pub open spec fn status_text(
    path: Seq<char>,
    config: config::ConfigView,
    running: bool,
) -> Seq<char> {
    "Config: "@ + path + "\nController: "@ + config.controller_url + "\nWorker: "@
        + config.machine_id + (if running {
        "\nLocal process: running or setup in progress"@
    } else {
        "\nLocal process: not running. Start: cybion-worker run --background"@
    })
}

/// What the user is told of a configuration, given whether another process holds its lock.
pub fn status(path: &str, config: &WorkerConfig, running: bool) -> (r: String)
    ensures
        r@ == status_text(path@, config@, running),
{
    let mut text = "Config: ".to_owned();
    text.append(path);
    text.append("\nController: ");
    text.append(config.controller_url.as_str());
    text.append("\nWorker: ");
    text.append(config.machine_id.as_str());
    if running {
        text.append("\nLocal process: running or setup in progress");
    } else {
        text.append("\nLocal process: not running. Start: cybion-worker run --background");
    }
    text
}

/// What the user is told of the last connection, given what was written about it, if anything was.
pub open spec fn channel_text(ready: Option<Seq<char>>) -> Seq<char> {
    match ready {
        Some(content) => "Last successful task-channel connection (not a live health guarantee): "@
            + content,
        None => "Task channel: not yet observed"@,
    }
}

/// What the user is told of the last connection.
pub fn channel_status(ready: Option<&str>) -> (r: String)
    ensures
        r@ == channel_text(text::optional(ready)),
{
    match ready {
        Some(content) => {
            let mut text = "Last successful task-channel connection (not a live health guarantee): ".to_owned();
            text.append(content);
            text
        },
        None => "Task channel: not yet observed".to_owned(),
    }
}

/// What the user is told of the log.
pub fn logs_status(log: &str) -> (r: String)
    ensures
        r@ == "Logs: "@ + log@,
{
    let mut text = "Logs: ".to_owned();
    text.append(log);
    text
}

/// The status never shows the credential: it is the same whatever the credential is.
pub proof fn status_hides_the_credential(
    path: Seq<char>,
    config: config::ConfigView,
    access_token: Seq<char>,
    running: bool,
)
    ensures
        status_text(path, config, running) == status_text(
            path,
            config::ConfigView { access_token, ..config },
            running,
        ),
{
}

/// What the user is told where the controller does not accept the worker.
pub const NOT_AUTHENTICATED: &'static str = "Controller authentication/network check failed. Check credentials, HTTPS access and device revocation.";

/// What the user is told by an examination, given the verdict on the configuration, whether the
/// controller accepted a heartbeat and the load of the machine, and the diagnosis as text: an error
/// where any of them failed.
pub open spec fn examination(
    config: Result<config::ConfigView, config::ConfigErrorView>,
    heartbeat: bool,
    resources: bool,
    diagnosis: Seq<char>,
) -> Result<Seq<char>, Seq<char>> {
    match config {
        Err(error) => Err(config::config_message(error)),
        Ok(_) => if heartbeat && resources {
            Ok(
                "Controller authentication: OK\n"@ + diagnosis
                    + "\nRun the web connection check to test the task channel. Browser and desktop permissions are NOT tested by doctor."@,
            )
        } else {
            Err(NOT_AUTHENTICATED@)
        },
    }
}

/// What the user is told by an examination.
pub fn doctor(
    config: &Result<WorkerConfig, config::ConfigError>,
    heartbeat: bool,
    resources: bool,
    diagnosis: &str,
) -> (r: Result<String, String>)
    ensures
        match r {
            Ok(text) => examination(
                config::config_verdict(*config),
                heartbeat,
                resources,
                diagnosis@,
            ) == Ok::<Seq<char>, Seq<char>>(text@),
            Err(reason) => examination(
                config::config_verdict(*config),
                heartbeat,
                resources,
                diagnosis@,
            ) == Err::<Seq<char>, Seq<char>>(reason@),
        },
{
    match config {
        Err(error) => Err(error.message()),
        Ok(_) => {
            if heartbeat && resources {
                let mut text = "Controller authentication: OK\n".to_owned();
                text.append(diagnosis);
                text.append(
                    "\nRun the web connection check to test the task channel. Browser and desktop permissions are NOT tested by doctor.",
                );
                Ok(text)
            } else {
                Err(NOT_AUTHENTICATED.to_owned())
            }
        },
    }
}

/// An examination succeeds only where the configuration is accepted and the controller accepted
/// both the heartbeat and the load of the machine; and then it does.
pub proof fn success_needs_the_controller(
    config: Result<config::ConfigView, config::ConfigErrorView>,
    heartbeat: bool,
    resources: bool,
    diagnosis: Seq<char>,
)
    ensures
        examination(config, heartbeat, resources, diagnosis) is Ok <==> config is Ok && heartbeat
            && resources,
{
}

/// An examination never shows the credential: it says the same whatever the credential is.
pub proof fn examination_hides_the_credential(
    config: config::ConfigView,
    access_token: Seq<char>,
    heartbeat: bool,
    resources: bool,
    diagnosis: Seq<char>,
)
    ensures
        examination(Ok(config), heartbeat, resources, diagnosis) == examination(
            Ok(config::ConfigView { access_token, ..config }),
            heartbeat,
            resources,
            diagnosis,
        ),
{
}

/// The time is what the clock reads, and the beginning of 1970 where it reads nothing.
pub proof fn times_are_read(seconds: u64)
    ensures
        time_of(Some(seconds)) == seconds,
        time_of(None) == 0,
{
}

/// A secret spells its two identifiers one behind the other, each byte with two digits.
pub proof fn secrets_spell_both_identifiers(a: Seq<u8>, b: Seq<u8>)
    ensures
        spelled_secret(a, b).take(2 * a.len() as int) == encoding::hex(a),
        spelled_secret(a, b).skip(2 * a.len() as int) == encoding::hex(b),
{
    assert(spelled_secret(a, b).take(2 * a.len() as int) =~= encoding::hex(a));
    assert(spelled_secret(a, b).skip(2 * a.len() as int) =~= encoding::hex(b));
}

/// What is written of a connection gives its time and the process, in decimal.
pub proof fn connections_are_written_down(pid: u32, now: u64)
    ensures
        text::after_prefix(
            ready_json(pid, now),
            "{\"connected_at\":"@ + numbers::decimal(now as nat),
        ) == Some(",\"pid\":"@ + numbers::decimal(pid as nat) + "}"@),
{
    let front = "{\"connected_at\":"@ + numbers::decimal(now as nat);
    let back = ",\"pid\":"@ + numbers::decimal(pid as nat) + "}"@;
    assert(ready_json(pid, now) =~= front + back);
    text::prefix_and_rest_make_the_text(ready_json(pid, now), front, back);
}

/// A process is taken for connected exactly where what is written is JSON text with its number under
/// `pid`; the number of another process does not count.
pub proof fn readiness_is_that_of_the_process(
    content: Seq<char>,
    bytes: Seq<u8>,
    pid: u32,
    other: u32,
)
    ensures
        says_ready(vstd::utf8::encode_utf8(content), pid) <==> (json::json_object(content) matches Some(
            object,
        ) && (json::member(object, "pid"@) matches Some(member) && member.unsigned == Some(
            pid as u64,
        ))),
        says_ready(bytes, pid) && says_ready(bytes, other) ==> pid == other,
        !vstd::utf8::valid_utf8(bytes) ==> !says_ready(bytes, pid),
{
    vstd::utf8::encode_utf8_decode_utf8(content);
    vstd::utf8::encode_utf8_valid_utf8(content);
}

/// An address is opened by the system's own program, which gets it last and as it stands; only
/// where that needs a display and there is none is nothing opened.
pub proof fn addresses_are_opened(url: Seq<char>, os: Os, display: bool)
    ensures
        launcher(url, os, display) is None <==> os !is Macos && os !is Windows && !display,
        launcher(url, os, display) matches Some(command) ==> {
            &&& command.arguments.last() == url
            &&& os is Macos ==> command.program == "open"@ && command.arguments.len() == 1
            &&& os is Windows ==> command.program == "rundll32.exe"@ && command.arguments.len() == 2
                && command.arguments[0] == "url.dll,FileProtocolHandler"@
            &&& os !is Macos && os !is Windows ==> command.program == "xdg-open"@
                && command.arguments.len() == 1
        },
{
}

/// The words by which checks are reported tell them apart, and call nothing ready or failed but the
/// shell.
#[verifier::rlimit(40)]
pub proof fn checks_are_told_apart(a: Check, b: Check)
    ensures
        check_words(a).1 == check_words(b).1 ==> a == b,
        check_words(a).0 == "ready"@ <==> a is ShellReady,
        check_words(a).0 == "failed"@ <==> a is ShellFailed,
        check_words(a).0 == "missing_dependency"@ <==> a is BrowserMissing,
        check_words(a).0 == "unsupported"@ <==> a is NoDisplay,
        check_words(a).0 == "not_checked"@ <==> a is BrowserInstalled || a is DesktopUnchecked,
{
    reveal_strlit("ready");
    reveal_strlit("failed");
    reveal_strlit("not_checked");
    reveal_strlit("missing_dependency");
    reveal_strlit("unsupported");
    assert("ready"@.len() == 5 && "failed"@.len() == 6 && "missing_dependency"@.len() == 18);
    assert("not_checked"@[0] == 'n' && "unsupported"@[0] == 'u');
    reveal_strlit("shell_ok");
    reveal_strlit("shell_failed");
    reveal_strlit("browser_installed");
    reveal_strlit("browser_missing");
    reveal_strlit("no_display");
    reveal_strlit("desktop_permissions");
    assert("shell_ok"@.len() == 8 && "shell_failed"@.len() == 12 && "browser_installed"@.len() == 17
        && "browser_missing"@.len() == 15 && "no_display"@.len() == 10
        && "desktop_permissions"@.len() == 19);
}

/// The shell counts as ready exactly where its test ended with success and said what it was to say,
/// and the other abilities are told by what is installed and by the display.
pub proof fn abilities_are_told_as_found(
    output: CommandOutput,
    browser: bool,
    os: Os,
    display: bool,
)
    ensures
        diagnosis(Some(output), browser, os, display).shell is ShellReady <==> output.exit_code == Some(
            0i32,
        ) && text::trim(output.stdout@) == "cybion-worker-check"@,
        diagnosis(Some(output), browser, os, display).shell is ShellFailed <==> !(output.exit_code
            == Some(0i32) && text::trim(output.stdout@) == "cybion-worker-check"@),
        diagnosis(None, browser, os, display).shell is ShellFailed,
        diagnosis(Some(output), true, os, display).browser is BrowserInstalled,
        diagnosis(Some(output), false, os, display).browser is BrowserMissing,
        diagnosis(Some(output), browser, os, display).desktop == (if os == Os::Linux && !display {
            Check::NoDisplay
        } else {
            Check::DesktopUnchecked
        }),
{
}

/// The status shows the path of the configuration, the controller and the name of the worker, each
/// on a line of its own, and behind them whether it runs.
#[verifier::rlimit(40)]
pub proof fn status_shows_the_worker(path: Seq<char>, config: config::ConfigView)
    requires
        forall|k: int| 0 <= k < path.len() ==> #[trigger] path[k] != '\n' && path[k] != '\r',
        forall|k: int|
            0 <= k < config.controller_url.len() ==> #[trigger] config.controller_url[k] != '\n'
                && config.controller_url[k] != '\r',
        forall|k: int|
            0 <= k < config.machine_id.len() ==> #[trigger] config.machine_id[k] != '\n'
                && config.machine_id[k] != '\r',
    ensures
        text::lines(status_text(path, config, true)) == seq![
            "Config: "@ + path,
            "Controller: "@ + config.controller_url,
            "Worker: "@ + config.machine_id,
            "Local process: running or setup in progress"@,
        ],
        text::lines(status_text(path, config, false)) == seq![
            "Config: "@ + path,
            "Controller: "@ + config.controller_url,
            "Worker: "@ + config.machine_id,
            "Local process: not running. Start: cybion-worker run --background"@,
        ],
{
    let feed = seq!['\n'];
    let on = "Local process: running or setup in progress"@;
    let off = "Local process: not running. Start: cybion-worker run --background"@;
    let a = "Config: "@ + path;
    let b = "Controller: "@ + config.controller_url;
    let c = "Worker: "@ + config.machine_id;
    lemma_status_labels();
    lemma_labelled_line("Config: "@, path);
    lemma_labelled_line("Controller: "@, config.controller_url);
    lemma_labelled_line("Worker: "@, config.machine_id);
    lemma_four_lines(a, b, c, on);
    lemma_four_lines(a, b, c, off);
    assert(status_text(path, config, true) =~= a + feed + (b + feed + (c + feed + on)));
    assert(status_text(path, config, false) =~= a + feed + (b + feed + (c + feed + off)));
}

#[verifier::rlimit(40)]
proof fn lemma_status_labels()
    ensures
        "\nController: "@ == seq!['\n'] + "Controller: "@,
        "\nWorker: "@ == seq!['\n'] + "Worker: "@,
        "\nLocal process: running or setup in progress"@ == seq!['\n']
            + "Local process: running or setup in progress"@,
        "\nLocal process: not running. Start: cybion-worker run --background"@ == seq!['\n']
            + "Local process: not running. Start: cybion-worker run --background"@,
        is_line("Config: "@),
        is_line("Controller: "@),
        is_line("Worker: "@),
        is_line("Local process: running or setup in progress"@),
        is_line("Local process: not running. Start: cybion-worker run --background"@),
{
    reveal_strlit("Config: ");
    reveal_strlit("\nController: ");
    reveal_strlit("Controller: ");
    reveal_strlit("\nWorker: ");
    reveal_strlit("Worker: ");
    reveal_strlit("Local process: running or setup in progress");
    reveal_strlit("\nLocal process: running or setup in progress");
    reveal_strlit("Local process: not running. Start: cybion-worker run --background");
    reveal_strlit("\nLocal process: not running. Start: cybion-worker run --background");
    assert("\nController: "@ =~= seq!['\n'] + "Controller: "@);
    assert("\nWorker: "@ =~= seq!['\n'] + "Worker: "@);
    assert("\nLocal process: running or setup in progress"@ =~= seq!['\n']
        + "Local process: running or setup in progress"@);
    assert("\nLocal process: not running. Start: cybion-worker run --background"@ =~= seq!['\n']
        + "Local process: not running. Start: cybion-worker run --background"@);
}

/// Whether a text can be a line as it stands.
spec fn is_line(s: Seq<char>) -> bool {
    &&& s.len() > 0
    &&& s.last() != '\r'
    &&& forall|k: int| 0 <= k < s.len() ==> #[trigger] s[k] != '\n'
}

proof fn lemma_four_lines(a: Seq<char>, b: Seq<char>, c: Seq<char>, d: Seq<char>)
    requires
        is_line(a),
        is_line(b),
        is_line(c),
        is_line(d),
    ensures
        text::lines(a + seq!['\n'] + (b + seq!['\n'] + (c + seq!['\n'] + d))) == seq![a, b, c, d],
{
    let feed = seq!['\n'];
    text::lines_are_split_off(a, b + feed + (c + feed + d));
    text::lines_are_split_off(b, c + feed + d);
    text::lines_are_split_off(c, d);
    text::lines_are_split_off(d, d);
    assert(text::lines(a + feed + (b + feed + (c + feed + d))) =~= seq![a, b, c, d]);
}

proof fn lemma_labelled_line(label: Seq<char>, value: Seq<char>)
    requires
        is_line(label),
        forall|k: int| 0 <= k < value.len() ==> #[trigger] value[k] != '\n' && value[k] != '\r',
    ensures
        is_line(label + value),
{
    let line = label + value;
    if value.len() > 0 {
        assert(line.last() == value.last());
    } else {
        assert(line.last() == label.last());
    }
    assert forall|k: int| 0 <= k < line.len() implies #[trigger] line[k] != '\n' by {
        if k >= label.len() {
            assert(line[k] == value[k - label.len()]);
        }
    }
}

/// What was written of the last connection is shown as it stands, and its absence is told apart from
/// every connection.
pub proof fn connections_are_shown(content: Seq<char>)
    ensures
        text::after_prefix(
            channel_text(Some(content)),
            "Last successful task-channel connection (not a live health guarantee): "@,
        ) == Some(content),
        channel_text(None) != channel_text(Some(content)),
{
    reveal_strlit("Last successful task-channel connection (not a live health guarantee): ");
    reveal_strlit("Task channel: not yet observed");
    text::prefix_and_rest_make_the_text(
        channel_text(Some(content)),
        "Last successful task-channel connection (not a live health guarantee): "@,
        content,
    );
    assert(channel_text(Some(content))[0] == 'L');
    assert(channel_text(None)[0] == 'T');
}

/// An examination that succeeds shows the whole diagnosis and says what it did not test; one that
/// fails says what is wrong with the configuration, or else that the controller did not accept the
/// worker.
pub proof fn examinations_show_what_they_found(
    config: config::ConfigView,
    error: config::ConfigErrorView,
    heartbeat: bool,
    resources: bool,
    diagnosis: Seq<char>,
)
    ensures
        examination(Ok(config), true, true, diagnosis) matches Ok(text) && text::after_prefix(
            text,
            "Controller authentication: OK\n"@ + diagnosis,
        ) == Some(
            "\nRun the web connection check to test the task channel. Browser and desktop permissions are NOT tested by doctor."@,
        ),
        examination(Err(error), heartbeat, resources, diagnosis) == Err::<Seq<char>, Seq<char>>(
            config::config_message(error),
        ),
        !(heartbeat && resources) ==> examination(Ok(config), heartbeat, resources, diagnosis) == Err::<
            Seq<char>,
            Seq<char>,
        >(
            "Controller authentication/network check failed. Check credentials, HTTPS access and device revocation."@,
        ),
{
    let tail =
        "\nRun the web connection check to test the task channel. Browser and desktop permissions are NOT tested by doctor."@;
    text::prefix_and_rest_make_the_text(
        examination(Ok(config), true, true, diagnosis)->Ok_0,
        "Controller authentication: OK\n"@ + diagnosis,
        tail,
    );
}

/// The details by which checks are reported are those that the controller knows.
pub proof fn checks_have_their_details()
    ensures
        check_words(Check::ShellReady).1 == "shell_ok"@,
        check_words(Check::ShellFailed).1 == "shell_failed"@,
        check_words(Check::BrowserInstalled).1 == "browser_installed"@,
        check_words(Check::BrowserMissing).1 == "browser_missing"@,
        check_words(Check::NoDisplay).1 == "no_display"@,
        check_words(Check::DesktopUnchecked).1 == "desktop_permissions"@,
{
}

} // verus!
