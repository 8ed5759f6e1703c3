//! The command line of the worker, and how it starts in the background.
use crate::numbers;
use crate::text;
use vstd::prelude::*;

verus! {

/// The version of the worker.
pub const VERSION: &'static str = "0.2.0";

/// The name of the log beside the configuration.
pub const LOG_NAME: &'static str = "worker.log";

/// What the user asks for. A configuration is given by the position of its path among the
/// arguments, or is the default one.
#[derive(Clone, Copy, PartialEq, Eq, Structural)]
pub enum WorkerCommand {
    Run { config: Option<usize>, background: bool },
    ConfigPath,
    Status(Option<usize>),
    Doctor(Option<usize>),
    Help,
}

/// Why a command line is refused.
pub enum CommandError {
    /// The home directory, and so the default configuration, is not known.
    UnknownHome,
    MissingPath,
    UnknownArgument(String),
    UnknownCommand(String),
    BackgroundRefused,
    ArgumentsRefused,
}

/// The contents of a [`CommandError`].
pub enum CommandErrorView {
    UnknownHome,
    MissingPath,
    UnknownArgument(Seq<char>),
    UnknownCommand(Seq<char>),
    BackgroundRefused,
    ArgumentsRefused,
}

impl View for CommandError {
    type V = CommandErrorView;

    open spec fn view(&self) -> CommandErrorView {
        match self {
            CommandError::UnknownHome => CommandErrorView::UnknownHome,
            CommandError::MissingPath => CommandErrorView::MissingPath,
            CommandError::UnknownArgument(argument) => CommandErrorView::UnknownArgument(argument@),
            CommandError::UnknownCommand(command) => CommandErrorView::UnknownCommand(command@),
            CommandError::BackgroundRefused => CommandErrorView::BackgroundRefused,
            CommandError::ArgumentsRefused => CommandErrorView::ArgumentsRefused,
        }
    }
}

/// What the user is told of a refused command line.
pub open spec fn command_message(error: CommandErrorView) -> Seq<char> {
    match error {
        CommandErrorView::UnknownHome => "cannot determine the current user's home directory"@,
        CommandErrorView::MissingPath => "--config requires a path"@,
        CommandErrorView::UnknownArgument(argument) => "unknown argument: "@ + argument,
        CommandErrorView::UnknownCommand(command) => "unknown command: "@ + command,
        CommandErrorView::BackgroundRefused => "status/doctor do not accept --background"@,
        CommandErrorView::ArgumentsRefused => "config-path accepts no arguments"@,
    }
}

impl CommandError {
    /// What the user is told.
    pub fn message(&self) -> (r: String)
        ensures
            r@ == command_message(self@),
    {
        match self {
            CommandError::UnknownHome => "cannot determine the current user's home directory".to_owned(),
            CommandError::MissingPath => "--config requires a path".to_owned(),
            CommandError::UnknownArgument(argument) => {
                let mut message = "unknown argument: ".to_owned();
                message.append(argument.as_str());
                message
            },
            CommandError::UnknownCommand(command) => {
                let mut message = "unknown command: ".to_owned();
                message.append(command.as_str());
                message
            },
            CommandError::BackgroundRefused => "status/doctor do not accept --background".to_owned(),
            CommandError::ArgumentsRefused => "config-path accepts no arguments".to_owned(),
        }
    }
}

/// The options that follow a command: where the path of the configuration stands, if one is given,
/// and whether the worker goes to the background. The last path counts.
pub struct Options {
    pub config: Option<usize>,
    pub background: bool,
}

/// What the options from position `from` on say, where `options` was said before them.
pub open spec fn options_from(arguments: Seq<Seq<char>>, from: int, options: Options) -> Result<
    Options,
    CommandErrorView,
>
    decreases arguments.len() - from,
{
    if from >= arguments.len() {
        Ok(options)
    } else if arguments[from] == "--background"@ {
        options_from(arguments, from + 1, Options { background: true, ..options })
    } else if arguments[from] == "--config"@ {
        if from + 1 < arguments.len() {
            options_from(
                arguments,
                from + 2,
                Options { config: Some((from + 1) as usize), ..options },
            )
        } else {
            Err(CommandErrorView::MissingPath)
        }
    } else {
        Err(CommandErrorView::UnknownArgument(arguments[from]))
    }
}

/// What the options from position `from` on say. Without a home directory there is no default
/// configuration, and nothing is accepted.
pub open spec fn run_options(arguments: Seq<Seq<char>>, from: int, home: bool) -> Result<
    Options,
    CommandErrorView,
> {
    if home {
        options_from(arguments, from, Options { config: None, background: false })
    } else {
        Err(CommandErrorView::UnknownHome)
    }
}

/// What the options from position `from` on say, given whether the home directory is known.
pub fn parse_run_arguments(arguments: &Vec<String>, from: usize, home: bool) -> (r: Result<
    Options,
    CommandError,
>)
    ensures
        match r {
            Ok(options) => run_options(text::texts(arguments@), from as int, home) == Ok::<
                Options,
                CommandErrorView,
            >(options),
            Err(error) => run_options(text::texts(arguments@), from as int, home) == Err::<
                Options,
                CommandErrorView,
            >(error@),
        },
{
    if !home {
        return Err(CommandError::UnknownHome);
    }
    let ghost all = text::texts(arguments@);
    let mut i: usize = from;
    let mut config: Option<usize> = None;
    let mut background = false;
    while i < arguments.len()
        invariant
            all == text::texts(arguments@),
            home,
            run_options(all, from as int, home) == options_from(
                all,
                i as int,
                Options { config, background },
            ),
        decreases arguments@.len() - i,
    {
        let argument = arguments[i].as_str();
        assert(all[i as int] == argument@);
        if text::same(argument, "--background") {
            background = true;
            i = i + 1;
        } else if text::same(argument, "--config") {
            if arguments.len() - i < 2 {
                return Err(CommandError::MissingPath);
            }
            config = Some(i + 1);
            i = i + 2;
        } else {
            return Err(CommandError::UnknownArgument(arguments[i].clone()));
        }
    }
    Ok(Options { config, background })
}

/// Whether the arguments begin with an option: then they ask for a run without naming it.
pub open spec fn begins_with_option(arguments: Seq<Seq<char>>) -> bool {
    arguments.len() > 0 && (arguments[0] == "--background"@ || arguments[0] == "--config"@)
}

/// What the user asks for with the arguments behind the program's name. The word `run` may be left
/// out.
pub open spec fn command_of(arguments: Seq<Seq<char>>, home: bool) -> Result<
    WorkerCommand,
    CommandErrorView,
> {
    if arguments.len() == 0 || begins_with_option(arguments) || arguments[0] == "run"@ {
        let from: int = if begins_with_option(arguments) {
            0
        } else {
            1
        };
        match run_options(arguments, from, home) {
            Ok(options) => Ok(
                WorkerCommand::Run { config: options.config, background: options.background },
            ),
            Err(error) => Err(error),
        }
    } else if arguments[0] == "--help"@ || arguments[0] == "help"@ || arguments[0]
        == "--version"@ {
        Ok(WorkerCommand::Help)
    } else if arguments[0] == "status"@ || arguments[0] == "doctor"@ {
        match run_options(arguments, 1, home) {
            Ok(options) => if options.background {
                Err(CommandErrorView::BackgroundRefused)
            } else if arguments[0] == "status"@ {
                Ok(WorkerCommand::Status(options.config))
            } else {
                Ok(WorkerCommand::Doctor(options.config))
            },
            Err(error) => Err(error),
        }
    } else if arguments[0] == "config-path"@ {
        if arguments.len() == 1 {
            Ok(WorkerCommand::ConfigPath)
        } else {
            Err(CommandErrorView::ArgumentsRefused)
        }
    } else {
        Err(CommandErrorView::UnknownCommand(arguments[0]))
    }
}

/// The contents of an answer to a command line.
pub open spec fn command_verdict(r: Result<WorkerCommand, CommandError>) -> Result<
    WorkerCommand,
    CommandErrorView,
> {
    match r {
        Ok(command) => Ok(command),
        Err(error) => Err(error@),
    }
}

/// What the user asks for with the arguments behind the program's name, given whether the home
/// directory is known.
pub fn parse_command(arguments: &Vec<String>, home: bool) -> (r: Result<WorkerCommand, CommandError>)
    ensures
        command_verdict(r) == command_of(text::texts(arguments@), home),
{
    let option = arguments.len() > 0 && (text::same(arguments[0].as_str(), "--background")
        || text::same(arguments[0].as_str(), "--config"));
    if arguments.len() == 0 || option || text::same(arguments[0].as_str(), "run") {
        let from: usize = if option {
            0
        } else {
            1
        };
        return match parse_run_arguments(arguments, from, home) {
            Ok(options) => Ok(
                WorkerCommand::Run { config: options.config, background: options.background },
            ),
            Err(error) => Err(error),
        };
    }
    let first = arguments[0].as_str();
    assert(first@ == text::texts(arguments@)[0]);
    if text::same(first, "--help") || text::same(first, "help") || text::same(first, "--version") {
        return Ok(WorkerCommand::Help);
    }
    let status = text::same(first, "status");
    if status || text::same(first, "doctor") {
        return match parse_run_arguments(arguments, 1, home) {
            Ok(options) => if options.background {
                Err(CommandError::BackgroundRefused)
            } else if status {
                Ok(WorkerCommand::Status(options.config))
            } else {
                Ok(WorkerCommand::Doctor(options.config))
            },
            Err(error) => Err(error),
        };
    }
    if text::same(first, "config-path") {
        if arguments.len() == 1 {
            Ok(WorkerCommand::ConfigPath)
        } else {
            Err(CommandError::ArgumentsRefused)
        }
    } else {
        Err(CommandError::UnknownCommand(arguments[0].clone()))
    }
}

/// Whether a command names a configuration, and at which position.
pub open spec fn named_config(command: WorkerCommand) -> Option<usize> {
    match command {
        WorkerCommand::Run { config, .. } => config,
        WorkerCommand::Status(config) => config,
        WorkerCommand::Doctor(config) => config,
        _ => None,
    }
}

proof fn lemma_config_position(arguments: Seq<Seq<char>>, from: int, options: Options)
    requires
        0 <= from,
        arguments.len() <= usize::MAX,
        options.config matches Some(i) ==> 0 < i < arguments.len() && arguments[i - 1]
            == "--config"@,
        options_from(arguments, from, options) is Ok,
    ensures
        options_from(arguments, from, options)->Ok_0.config matches Some(i) ==> 0 < i
            < arguments.len() && arguments[i - 1] == "--config"@,
    decreases arguments.len() - from,
{
    if from < arguments.len() {
        if arguments[from] == "--background"@ {
            lemma_config_position(arguments, from + 1, Options { background: true, ..options });
        } else {
            lemma_config_position(
                arguments,
                from + 2,
                Options { config: Some((from + 1) as usize), ..options },
            );
        }
    }
}

/// A configuration that a command names stands among the arguments, right behind `--config`.
pub proof fn named_config_is_an_argument(arguments: Seq<Seq<char>>, home: bool)
    requires
        arguments.len() <= usize::MAX,
        command_of(arguments, home) is Ok,
    ensures
        named_config(command_of(arguments, home)->Ok_0) matches Some(i) ==> 0 < i < arguments.len()
            && arguments[i - 1] == "--config"@,
{
    let options = Options { config: None, background: false };
    if run_options(arguments, 0, home) is Ok {
        lemma_config_position(arguments, 0, options);
    }
    if run_options(arguments, 1, home) is Ok {
        lemma_config_position(arguments, 1, options);
    }
}

/// The word `run` may be left out in front of an option: the same is asked for, with every position
/// one less.
pub proof fn run_is_optional(arguments: Seq<Seq<char>>, home: bool)
    requires
        begins_with_option(arguments),
        arguments.len() < usize::MAX,
    ensures
        match (command_of(arguments, home), command_of(seq!["run"@] + arguments, home)) {
            (Ok(bare), Ok(named)) => match (bare, named) {
                (
                    WorkerCommand::Run { config: a, background: c },
                    WorkerCommand::Run { config: b, background: d },
                ) => c == d && match (a, b) {
                    (Some(i), Some(j)) => j == i + 1,
                    (None, None) => true,
                    _ => false,
                },
                _ => false,
            },
            (Err(bare), Err(named)) => bare == named,
            _ => false,
        },
{
    let all = seq!["run"@] + arguments;
    let options = Options { config: None, background: false };
    reveal_strlit("run");
    reveal_strlit("--background");
    reveal_strlit("--config");
    assert(all[0] == "run"@ && "run"@.len() == 3 && "--config"@.len() == 8 && "--background"@.len()
        == 12);
    lemma_options_shift(arguments, all, 0, options, options);
}

proof fn lemma_options_shift(
    arguments: Seq<Seq<char>>,
    all: Seq<Seq<char>>,
    from: int,
    a: Options,
    b: Options,
)
    requires
        0 <= from,
        arguments.len() < usize::MAX,
        all.len() == arguments.len() + 1,
        forall|k: int| 0 <= k < arguments.len() ==> #[trigger] arguments[k] == all[k + 1],
        shifted(a, b),
    ensures
        match (options_from(arguments, from, a), options_from(all, from + 1, b)) {
            (Ok(bare), Ok(named)) => shifted(bare, named),
            (Err(bare), Err(named)) => bare == named,
            _ => false,
        },
    decreases arguments.len() - from,
{
    if from < arguments.len() {
        assert(arguments[from] == all[from + 1]);
        if arguments[from] == "--background"@ {
            lemma_options_shift(
                arguments,
                all,
                from + 1,
                Options { background: true, ..a },
                Options { background: true, ..b },
            );
        } else if arguments[from] == "--config"@ && from + 1 < arguments.len() {
            lemma_options_shift(
                arguments,
                all,
                from + 2,
                Options { config: Some((from + 1) as usize), ..a },
                Options { config: Some((from + 2) as usize), ..b },
            );
        }
    }
}

/// Whether two readings agree, but that the second finds the path one position later.
spec fn shifted(a: Options, b: Options) -> bool {
    a.background == b.background && match (a.config, b.config) {
        (Some(i), Some(j)) => j == i + 1,
        (None, None) => true,
        _ => false,
    }
}

/// How the worker is used.
pub open spec fn usage(version: Seq<char>) -> Seq<char> {
    "Cybion Worker "@ + version
        + "\n\ncybion-worker [run] [--background] [--config PATH]\n  First run opens browser authorization; existing configuration is preserved.\ncybion-worker status [--config PATH]\ncybion-worker doctor [--config PATH]\ncybion-worker config-path\n\nBackground mode does not install login/startup persistence.\nTo disconnect, remove this device in Cybion. To re-pair, stop the process and move the config aside first."@
}

/// How the worker of the given version is used.
pub fn help(version: &str) -> (r: String)
    ensures
        r@ == usage(version@),
{
    let mut text = "Cybion Worker ".to_owned();
    text.append(version);
    text.append(
        "\n\ncybion-worker [run] [--background] [--config PATH]\n  First run opens browser authorization; existing configuration is preserved.\ncybion-worker status [--config PATH]\ncybion-worker doctor [--config PATH]\ncybion-worker config-path\n\nBackground mode does not install login/startup persistence.\nTo disconnect, remove this device in Cybion. To re-pair, stop the process and move the config aside first.",
    );
    text
}

/// The help of a release holds the banner by which an upgrade to it is recognised.
pub proof fn help_holds_the_banner(version: Seq<char>)
    ensures
        text::holds(usage(version), "Cybion Worker "@ + version),
{
    let banner = "Cybion Worker "@ + version;
    assert(usage(version).subrange(0, banner.len() as int) =~= banner);
    assert(text::stands_at(usage(version), banner, 0));
}

/// How often a worker that was started in the background is looked at.
pub const LAUNCH_POLLS: u32 = 150;

/// Milliseconds between two looks at a worker that was started in the background.
pub const LAUNCH_POLL_MILLISECONDS: u64 = 100;

/// How far the start of a worker in the background is.
#[derive(Clone, Copy, PartialEq, Eq, Structural)]
pub enum LaunchState {
    /// The worker was started, and looked at so many times in vain.
    Watching { polls: u32 },
    /// The worker has to be stopped, because it did not connect in time.
    Stopping,
    Connected,
    /// The worker came to its end before it connected.
    Exited,
    /// The worker did not connect in time, and was stopped.
    TimedOut,
}

/// Something that happens to a worker that was started in the background.
#[derive(Clone, Copy, PartialEq, Eq, Structural)]
pub enum LaunchEvent {
    /// Whether it came to its end, and whether it has connected.
    Observed { exited: bool, connected: bool },
    Stopped,
}

/// How the start of a worker in the background goes on behind an event.
pub open spec fn next_launch(state: LaunchState, event: LaunchEvent) -> LaunchState {
    match (state, event) {
        (LaunchState::Watching { polls }, LaunchEvent::Observed { exited, connected }) => if exited {
            LaunchState::Exited
        } else if connected {
            LaunchState::Connected
        } else if polls + 1 >= LAUNCH_POLLS {
            LaunchState::Stopping
        } else {
            LaunchState::Watching { polls: (polls + 1) as u32 }
        },
        (LaunchState::Stopping, LaunchEvent::Stopped) => LaunchState::TimedOut,
        (state, _) => state,
    }
}

/// How the start of a worker in the background goes on behind an event.
pub fn launch_background(state: LaunchState, event: LaunchEvent) -> (r: LaunchState)
    ensures
        r == next_launch(state, event),
{
    match (state, event) {
        (LaunchState::Watching { polls }, LaunchEvent::Observed { exited, connected }) => {
            if exited {
                LaunchState::Exited
            } else if connected {
                LaunchState::Connected
            } else if polls >= LAUNCH_POLLS - 1 {
                LaunchState::Stopping
            } else {
                LaunchState::Watching { polls: polls + 1 }
            }
        },
        (LaunchState::Stopping, LaunchEvent::Stopped) => LaunchState::TimedOut,
        (state, _) => state,
    }
}

/// Where the start of a worker in the background is behind a series of events.
pub open spec fn launch_after(events: Seq<LaunchEvent>) -> LaunchState
    decreases events.len(),
{
    if events.len() == 0 {
        LaunchState::Watching { polls: 0 }
    } else {
        next_launch(launch_after(events.drop_last()), events.last())
    }
}

/// A worker that neither connects nor ends is watched for fifteen seconds, and no longer: then it
/// has to be stopped, and the start fails once it is.
pub proof fn unconnected_workers_are_stopped(events: Seq<LaunchEvent>)
    requires
        forall|i: int|
            0 <= i < events.len() ==> #[trigger] events[i] == (LaunchEvent::Observed {
                exited: false,
                connected: false,
            }),
    ensures
        events.len() * LAUNCH_POLL_MILLISECONDS < 15000 ==> launch_after(events)
            == (LaunchState::Watching { polls: events.len() as u32 }),
        events.len() * LAUNCH_POLL_MILLISECONDS >= 15000 ==> launch_after(events)
            == LaunchState::Stopping,
        next_launch(LaunchState::Stopping, LaunchEvent::Stopped) == LaunchState::TimedOut,
    decreases events.len(),
{
    if events.len() > 0 {
        let earlier = events.drop_last();
        assert forall|i: int| 0 <= i < earlier.len() implies #[trigger] earlier[i] == (
        LaunchEvent::Observed { exited: false, connected: false }) by {
            assert(earlier[i] == events[i]);
        }
        unconnected_workers_are_stopped(earlier);
        assert(events.last() == events[events.len() - 1]);
    }
}

/// A start in the background succeeds only where the worker was seen to be connected, and fails
/// for want of time only where the worker was stopped.
pub proof fn launches_end_as_observed(events: Seq<LaunchEvent>)
    ensures
        launch_after(events) is Connected ==> exists|i: int|
            0 <= i < events.len() && #[trigger] events[i] == (LaunchEvent::Observed {
                exited: false,
                connected: true,
            }),
        launch_after(events) is TimedOut ==> exists|i: int|
            0 <= i < events.len() && #[trigger] events[i] is Stopped,
    decreases events.len(),
{
    if events.len() > 0 {
        let earlier = events.drop_last();
        let last = events.len() - 1;
        launches_end_as_observed(earlier);
        assert(events[last] == events.last());
        if launch_after(earlier) is Connected {
            let i = choose|i: int|
                0 <= i < earlier.len() && #[trigger] earlier[i] == (LaunchEvent::Observed {
                    exited: false,
                    connected: true,
                });
            assert(events[i] == earlier[i]);
        }
        if launch_after(earlier) is TimedOut {
            let i = choose|i: int| 0 <= i < earlier.len() && #[trigger] earlier[i] is Stopped;
            assert(events[i] == earlier[i]);
        }
    }
}

/// What the user is told where the worker has connected in the background.
pub fn connected_message(pid: u32, log: &str) -> (r: String)
    ensures
        r@ == "Worker connected in the background (PID "@ + numbers::decimal(pid as nat)
            + "). Logs: "@ + log@
            + "\nNot configured for automatic startup; use your OS service manager if needed."@,
{
    let process = numbers::decimal_text(pid as u64);
    let mut message = "Worker connected in the background (PID ".to_owned();
    message.append(process.as_str());
    message.append("). Logs: ");
    message.append(log);
    message.append(
        "\nNot configured for automatic startup; use your OS service manager if needed.",
    );
    message
}

/// What the user is told where the worker came to its end, with a status that is described.
pub fn exited_message(status: &str, log: &str) -> (r: String)
    ensures
        r@ == "Worker exited ("@ + status@ + "); inspect "@ + log@,
{
    let mut message = "Worker exited (".to_owned();
    message.append(status);
    message.append("); inspect ");
    message.append(log);
    message
}

/// What the user is told where the worker did not connect in time.
pub fn timed_out_message(log: &str) -> (r: String)
    ensures
        r@ == "Worker did not connect within 15 seconds and was stopped; inspect "@ + log@,
{
    let mut message = "Worker did not connect within 15 seconds and was stopped; inspect ".to_owned();
    message.append(log);
    message
}

/// How far the start of an upgraded worker is.
pub enum Relaunch {
    /// The new executable has to be started in the background.
    Starting,
    /// The previous executable has to be put back.
    RollingBack,
    /// The previous executable has to be started in the background.
    Restarting,
    /// The new executable runs.
    Upgraded,
    /// The previous executable runs again.
    Restored,
    /// The previous executable could not be put back, for the given reason.
    Unrestored(String),
    /// The previous executable does not start either, for the given reason.
    Failed(String),
}

/// Something that happens to the start of an upgraded worker.
pub enum RelaunchEvent {
    Launched,
    LaunchFailed(String),
    RolledBack,
    RollbackFailed(String),
}

/// How the start of an upgraded worker goes on behind an event.
pub open spec fn next_relaunch(state: Relaunch, event: RelaunchEvent) -> Relaunch {
    match (state, event) {
        (Relaunch::Starting, RelaunchEvent::Launched) => Relaunch::Upgraded,
        (Relaunch::Starting, RelaunchEvent::LaunchFailed(_)) => Relaunch::RollingBack,
        (Relaunch::RollingBack, RelaunchEvent::RolledBack) => Relaunch::Restarting,
        (Relaunch::RollingBack, RelaunchEvent::RollbackFailed(reason)) => Relaunch::Unrestored(
            reason,
        ),
        (Relaunch::Restarting, RelaunchEvent::Launched) => Relaunch::Restored,
        (Relaunch::Restarting, RelaunchEvent::LaunchFailed(reason)) => Relaunch::Failed(reason),
        (state, _) => state,
    }
}

/// How the start of an upgraded worker goes on behind an event.
pub fn relaunch(state: Relaunch, event: RelaunchEvent) -> (r: Relaunch)
    ensures
        r == next_relaunch(state, event),
{
    match (state, event) {
        (Relaunch::Starting, RelaunchEvent::Launched) => Relaunch::Upgraded,
        (Relaunch::Starting, RelaunchEvent::LaunchFailed(_)) => Relaunch::RollingBack,
        (Relaunch::RollingBack, RelaunchEvent::RolledBack) => Relaunch::Restarting,
        (Relaunch::RollingBack, RelaunchEvent::RollbackFailed(reason)) => Relaunch::Unrestored(
            reason,
        ),
        (Relaunch::Restarting, RelaunchEvent::Launched) => Relaunch::Restored,
        (Relaunch::Restarting, RelaunchEvent::LaunchFailed(reason)) => Relaunch::Failed(reason),
        (state, _) => state,
    }
}

/// What the user is told of the start of an upgraded worker, where it ends with an error.
pub open spec fn relaunch_error(state: Relaunch) -> Option<Seq<char>> {
    match state {
        Relaunch::Restored => Some("Upgrade startup failed; previous executable restored"@),
        Relaunch::Unrestored(_) => Some("could not restore previous Worker executable"@),
        Relaunch::Failed(reason) => Some(reason@),
        _ => None,
    }
}

/// What the user is told of the start of an upgraded worker, where it ends with an error.
pub fn relaunch_message(state: &Relaunch) -> (r: Option<String>)
    ensures
        match r {
            Some(message) => relaunch_error(*state) == Some(message@),
            None => relaunch_error(*state) is None,
        },
{
    match state {
        Relaunch::Restored => Some(
            "Upgrade startup failed; previous executable restored".to_owned(),
        ),
        Relaunch::Unrestored(_) => Some("could not restore previous Worker executable".to_owned()),
        Relaunch::Failed(reason) => Some(reason.clone()),
        _ => None,
    }
}

/// An upgrade that does not start is taken back: the previous executable is put in its place and
/// started.
pub proof fn failed_start_is_rolled_back(reason: String)
    ensures
        ({
            let failed = next_relaunch(Relaunch::Starting, RelaunchEvent::LaunchFailed(reason));
            let back = next_relaunch(failed, RelaunchEvent::RolledBack);
            &&& failed is RollingBack
            &&& back is Restarting
            &&& next_relaunch(back, RelaunchEvent::Launched) is Restored
        }),
{
}

proof fn lemma_options_go_on(
    arguments: Seq<Seq<char>>,
    more: Seq<Seq<char>>,
    from: int,
    options: Options,
)
    requires
        0 <= from <= arguments.len(),
    ensures
        options_from(arguments, from, options) matches Ok(read) ==> options_from(
            arguments + more,
            from,
            options,
        ) == options_from(arguments + more, arguments.len() as int, read),
        options_from(arguments, from, options) matches Err(
            CommandErrorView::UnknownArgument(argument),
        ) ==> options_from(arguments + more, from, options) == Err::<Options, CommandErrorView>(
            CommandErrorView::UnknownArgument(argument),
        ),
    decreases arguments.len() - from,
{
    if from < arguments.len() {
        assert((arguments + more)[from] == arguments[from]);
        if arguments[from] == "--background"@ {
            lemma_options_go_on(
                arguments,
                more,
                from + 1,
                Options { background: true, ..options },
            );
        } else if arguments[from] == "--config"@ && from + 1 < arguments.len() {
            lemma_options_go_on(
                arguments,
                more,
                from + 2,
                Options { config: Some((from + 1) as usize), ..options },
            );
        }
    }
}

/// The two options have different names.
proof fn lemma_options_differ()
    ensures
        "--background"@ != "--config"@,
{
    reveal_strlit("--background");
    reveal_strlit("--config");
    assert("--background"@.len() == 12 && "--config"@.len() == 8);
}

#[verifier::rlimit(40)]
proof fn lemma_last_options(arguments: Seq<Seq<char>>, path: Seq<char>, other: Seq<char>, from: int)
    requires
        0 <= from <= arguments.len(),
        arguments.len() + 1 <= usize::MAX,
        other != "--background"@ && other != "--config"@,
        run_options(arguments, from, true) is Ok,
    ensures
        ({
            let read = run_options(arguments, from, true)->Ok_0;
            &&& run_options(arguments.push("--background"@), from, true) == Ok::<
                Options,
                CommandErrorView,
            >(Options { background: true, ..read })
            &&& run_options(arguments + seq!["--config"@, path], from, true) == Ok::<
                Options,
                CommandErrorView,
            >(Options { config: Some((arguments.len() + 1) as usize), ..read })
            &&& run_options(arguments.push("--config"@), from, true) == Err::<
                Options,
                CommandErrorView,
            >(CommandErrorView::MissingPath)
            &&& run_options(arguments.push(other), from, true) == Err::<Options, CommandErrorView>(
                CommandErrorView::UnknownArgument(other),
            )
        }),
{
    lemma_options_differ();
    let options = Options { config: None, background: false };
    let n = arguments.len() as int;
    assert(arguments.push("--background"@) =~= arguments + seq!["--background"@]);
    assert(arguments.push("--config"@) =~= arguments + seq!["--config"@]);
    assert(arguments.push(other) =~= arguments + seq![other]);
    lemma_options_go_on(arguments, seq!["--background"@], from, options);
    lemma_options_go_on(arguments, seq!["--config"@, path], from, options);
    lemma_options_go_on(arguments, seq!["--config"@], from, options);
    lemma_options_go_on(arguments, seq![other], from, options);
    reveal_with_fuel(options_from, 2);
    let named = arguments + seq!["--config"@, path];
    assert(named[n] == "--config"@ && named[n + 1] == path && named.len() == n + 2);
}

/// Each further option of a run counts on top of those in front of it: one sends the worker to the
/// background, another names the configuration, of which the last counts, and nothing else is
/// accepted.
pub proof fn run_options_add_up(arguments: Seq<Seq<char>>, path: Seq<char>, other: Seq<char>)
    requires
        arguments.len() > 0,
        arguments.len() + 1 <= usize::MAX,
        other != "--background"@ && other != "--config"@,
        command_of(arguments, true) matches Ok(command) && command is Run,
    ensures
        command_of(arguments, true) matches Ok(WorkerCommand::Run { config, background })
            && command_of(arguments.push("--background"@), true) == Ok::<
            WorkerCommand,
            CommandErrorView,
        >(WorkerCommand::Run { config, background: true }) && command_of(
            arguments + seq!["--config"@, path],
            true,
        ) == Ok::<WorkerCommand, CommandErrorView>(
            WorkerCommand::Run { config: Some((arguments.len() + 1) as usize), background },
        ),
        command_of(arguments.push("--config"@), true) == Err::<WorkerCommand, CommandErrorView>(
            CommandErrorView::MissingPath,
        ),
        command_of(arguments.push(other), true) == Err::<WorkerCommand, CommandErrorView>(
            CommandErrorView::UnknownArgument(other),
        ),
{
    let from: int = if begins_with_option(arguments) {
        0
    } else {
        1
    };
    lemma_last_options(arguments, path, other, from);
    assert((arguments + seq!["--config"@, path])[0] == arguments[0]);
    assert(arguments.push("--background"@)[0] == arguments[0]);
    assert(arguments.push("--config"@)[0] == arguments[0]);
    assert(arguments.push(other)[0] == arguments[0]);
}

#[verifier::rlimit(40)]
proof fn lemma_words_differ()
    ensures
        !begins_with_option(seq!["run"@]),
        "run"@ != "status"@ && "run"@ != "doctor"@ && "run"@ != "config-path"@,
        "status"@ != "doctor"@,
        "status"@ != "--help"@ && "status"@ != "help"@ && "status"@ != "--version"@,
        "doctor"@ != "--help"@ && "doctor"@ != "help"@ && "doctor"@ != "--version"@,
        "config-path"@ != "--help"@ && "config-path"@ != "help"@ && "config-path"@ != "--version"@,
        "config-path"@ != "status"@ && "config-path"@ != "doctor"@,
        "status"@ != "--background"@ && "status"@ != "--config"@ && "doctor"@ != "--background"@
            && "doctor"@ != "--config"@ && "config-path"@ != "--background"@ && "config-path"@
            != "--config"@,
        "--help"@ != "--background"@ && "--help"@ != "--config"@ && "--help"@ != "run"@,
        "help"@ != "--background"@ && "help"@ != "--config"@ && "help"@ != "run"@,
        "--version"@ != "--background"@ && "--version"@ != "--config"@ && "--version"@ != "run"@,
{
    reveal_strlit("run");
    reveal_strlit("status");
    reveal_strlit("doctor");
    reveal_strlit("config-path");
    reveal_strlit("--help");
    reveal_strlit("help");
    reveal_strlit("--version");
    reveal_strlit("--background");
    reveal_strlit("--config");
    assert("run"@.len() == 3 && "status"@.len() == 6 && "doctor"@.len() == 6 && "config-path"@.len()
        == 11 && "--help"@.len() == 6 && "help"@.len() == 4 && "--version"@.len() == 9
        && "--background"@.len() == 12 && "--config"@.len() == 8);
    assert("status"@[0] == 's' && "doctor"@[0] == 'd' && "--help"@[0] == '-');
}

/// A run without options uses the default configuration and stays in the foreground, with or without
/// the word for it, and so do the status and the examination; where the home directory is not known,
/// none of them is possible.
pub proof fn plain_commands_use_the_default(arguments: Seq<Seq<char>>)
    requires
        arguments.len() > 0,
    ensures
        command_of(seq![], true) == Ok::<WorkerCommand, CommandErrorView>(
            WorkerCommand::Run { config: None, background: false },
        ),
        command_of(seq!["run"@], true) == command_of(seq![], true),
        command_of(seq!["status"@], true) == Ok::<WorkerCommand, CommandErrorView>(
            WorkerCommand::Status(None),
        ),
        command_of(seq!["doctor"@], true) == Ok::<WorkerCommand, CommandErrorView>(
            WorkerCommand::Doctor(None),
        ),
        command_of(seq![], false) == Err::<WorkerCommand, CommandErrorView>(
            CommandErrorView::UnknownHome,
        ),
        arguments[0] == "run"@ || arguments[0] == "status"@ || arguments[0] == "doctor"@
            || arguments[0] == "--background"@ || arguments[0] == "--config"@ ==> command_of(
            arguments,
            false,
        ) == Err::<WorkerCommand, CommandErrorView>(CommandErrorView::UnknownHome),
{
    lemma_words_differ();
}

/// The options of the status and of the examination add up as those of a run do, but neither goes to
/// the background.
pub proof fn status_options_add_up(arguments: Seq<Seq<char>>, path: Seq<char>, other: Seq<char>)
    requires
        arguments.len() > 0,
        arguments.len() + 1 <= usize::MAX,
        other != "--background"@ && other != "--config"@,
        arguments[0] == "status"@ || arguments[0] == "doctor"@,
        command_of(arguments, true) is Ok,
    ensures
        command_of(arguments.push("--background"@), true) == Err::<WorkerCommand, CommandErrorView>(
            CommandErrorView::BackgroundRefused,
        ),
        command_of(arguments + seq!["--config"@, path], true) == Ok::<
            WorkerCommand,
            CommandErrorView,
        >(
            if arguments[0] == "status"@ {
                WorkerCommand::Status(Some((arguments.len() + 1) as usize))
            } else {
                WorkerCommand::Doctor(Some((arguments.len() + 1) as usize))
            },
        ),
        command_of(arguments.push("--config"@), true) == Err::<WorkerCommand, CommandErrorView>(
            CommandErrorView::MissingPath,
        ),
        command_of(arguments.push(other), true) == Err::<WorkerCommand, CommandErrorView>(
            CommandErrorView::UnknownArgument(other),
        ),
{
    lemma_words_differ();
    lemma_last_options(arguments, path, other, 1);
    assert((arguments + seq!["--config"@, path])[0] == arguments[0]);
    assert(arguments.push("--background"@)[0] == arguments[0]);
    assert(arguments.push("--config"@)[0] == arguments[0]);
    assert(arguments.push(other)[0] == arguments[0]);
}

/// An argument that is not understood stays so, whatever follows it.
pub proof fn unknown_arguments_are_named(
    arguments: Seq<Seq<char>>,
    more: Seq<Seq<char>>,
    argument: Seq<char>,
)
    requires
        arguments.len() > 0,
        command_of(arguments, true) == Err::<WorkerCommand, CommandErrorView>(
            CommandErrorView::UnknownArgument(argument),
        ),
    ensures
        command_of(arguments + more, true) == command_of(arguments, true),
{
    lemma_words_differ();
    let options = Options { config: None, background: false };
    let from: int = if begins_with_option(arguments) {
        0
    } else {
        1
    };
    lemma_options_go_on(arguments, more, from, options);
    assert((arguments + more)[0] == arguments[0]);
}

/// Help is given whatever else is said and whether or not the home directory is known; the path of
/// the configuration is given to who asks for nothing else; and no other word is a command.
#[verifier::rlimit(40)]
pub proof fn first_words_decide(arguments: Seq<Seq<char>>, home: bool)
    requires
        arguments.len() > 0,
    ensures
        arguments[0] == "--help"@ || arguments[0] == "help"@ || arguments[0] == "--version"@
            ==> command_of(arguments, home) == Ok::<WorkerCommand, CommandErrorView>(
            WorkerCommand::Help,
        ),
        arguments[0] == "config-path"@ && arguments.len() == 1 ==> command_of(arguments, home) == Ok::<
            WorkerCommand,
            CommandErrorView,
        >(WorkerCommand::ConfigPath),
        arguments[0] == "config-path"@ && arguments.len() > 1 ==> command_of(arguments, home) == Err::<
            WorkerCommand,
            CommandErrorView,
        >(CommandErrorView::ArgumentsRefused),
        !seq![
            "run"@,
            "status"@,
            "doctor"@,
            "config-path"@,
            "--help"@,
            "help"@,
            "--version"@,
            "--background"@,
            "--config"@,
        ].contains(arguments[0]) ==> command_of(arguments, home) == Err::<
            WorkerCommand,
            CommandErrorView,
        >(CommandErrorView::UnknownCommand(arguments[0])),
{
    lemma_words_differ();
    let words = seq![
        "run"@,
        "status"@,
        "doctor"@,
        "config-path"@,
        "--help"@,
        "help"@,
        "--version"@,
        "--background"@,
        "--config"@,
    ];
    if !words.contains(arguments[0]) {
        assert(words[0] == "run"@ && words[1] == "status"@ && words[2] == "doctor"@ && words[3]
            == "config-path"@ && words[4] == "--help"@ && words[5] == "help"@ && words[6]
            == "--version"@ && words[7] == "--background"@ && words[8] == "--config"@);
    }
}

/// What the user is told names the argument or the command that is not understood.
pub proof fn command_messages_name_the_argument(name: Seq<char>)
    ensures
        text::after_prefix(
            command_message(CommandErrorView::UnknownArgument(name)),
            "unknown argument: "@,
        ) == Some(name),
        text::after_prefix(
            command_message(CommandErrorView::UnknownCommand(name)),
            "unknown command: "@,
        ) == Some(name),
{
    text::prefix_and_rest_make_the_text(
        command_message(CommandErrorView::UnknownArgument(name)),
        "unknown argument: "@,
        name,
    );
    text::prefix_and_rest_make_the_text(
        command_message(CommandErrorView::UnknownCommand(name)),
        "unknown command: "@,
        name,
    );
}

/// The help begins with the banner and a blank line, and says the same of every release.
#[verifier::rlimit(40)]
pub proof fn help_begins_with_the_banner(version: Seq<char>, other: Seq<char>)
    ensures
        text::after_prefix(usage(version), "Cybion Worker "@ + version) == Some(
            "\n\ncybion-worker [run] [--background] [--config PATH]\n  First run opens browser authorization; existing configuration is preserved.\ncybion-worker status [--config PATH]\ncybion-worker doctor [--config PATH]\ncybion-worker config-path\n\nBackground mode does not install login/startup persistence.\nTo disconnect, remove this device in Cybion. To re-pair, stop the process and move the config aside first."@,
        ),
        text::after_prefix(usage(version), "Cybion Worker "@ + version) == text::after_prefix(
            usage(other),
            "Cybion Worker "@ + other,
        ),
        text::after_prefix(usage(version), "Cybion Worker "@ + version + "\n\n"@) is Some,
{
    let tail =
        "\n\ncybion-worker [run] [--background] [--config PATH]\n  First run opens browser authorization; existing configuration is preserved.\ncybion-worker status [--config PATH]\ncybion-worker doctor [--config PATH]\ncybion-worker config-path\n\nBackground mode does not install login/startup persistence.\nTo disconnect, remove this device in Cybion. To re-pair, stop the process and move the config aside first."@;
    reveal_strlit(
        "\n\ncybion-worker [run] [--background] [--config PATH]\n  First run opens browser authorization; existing configuration is preserved.\ncybion-worker status [--config PATH]\ncybion-worker doctor [--config PATH]\ncybion-worker config-path\n\nBackground mode does not install login/startup persistence.\nTo disconnect, remove this device in Cybion. To re-pair, stop the process and move the config aside first.",
    );
    reveal_strlit("\n\n");
    let banner = "Cybion Worker "@ + version;
    text::prefix_and_rest_make_the_text(usage(version), banner, tail);
    text::prefix_and_rest_make_the_text(usage(other), "Cybion Worker "@ + other, tail);
    assert(tail =~= "\n\n"@ + tail.skip(2));
    assert(usage(version) =~= banner + "\n\n"@ + tail.skip(2));
    text::prefix_and_rest_make_the_text(usage(version), banner + "\n\n"@, tail.skip(2));
}

/// A worker that is watched counts as ended as soon as it has ended, else as connected as soon as it
/// has connected, however often it was looked at before; what has come to its end stays there.
pub proof fn observations_decide_about_a_launch(
    polls: u32,
    connected: bool,
    state: LaunchState,
    event: LaunchEvent,
)
    ensures
        next_launch(
            LaunchState::Watching { polls },
            LaunchEvent::Observed { exited: true, connected },
        ) is Exited,
        next_launch(
            LaunchState::Watching { polls },
            LaunchEvent::Observed { exited: false, connected: true },
        ) is Connected,
        polls < 149 ==> next_launch(
            LaunchState::Watching { polls },
            LaunchEvent::Observed { exited: false, connected: false },
        ) == (LaunchState::Watching { polls: (polls + 1) as u32 }),
        polls >= 149 ==> next_launch(
            LaunchState::Watching { polls },
            LaunchEvent::Observed { exited: false, connected: false },
        ) is Stopping,
        state is Connected || state is Exited || state is TimedOut ==> next_launch(state, event)
            == state,
        next_launch(LaunchState::Watching { polls }, LaunchEvent::Stopped) == (
        LaunchState::Watching { polls }),
        next_launch(
            LaunchState::Stopping,
            LaunchEvent::Observed { exited: true, connected },
        ) is Stopping,
{
}

/// An upgraded worker that starts is the end of it; where nothing else helps, the reason is told, and
/// what has come to its end stays there.
pub proof fn relaunches_end_as_they_went(
    reason: String,
    state: Relaunch,
    event: RelaunchEvent,
)
    ensures
        next_relaunch(Relaunch::Starting, RelaunchEvent::Launched) is Upgraded,
        next_relaunch(Relaunch::RollingBack, RelaunchEvent::RollbackFailed(reason))
            == Relaunch::Unrestored(reason),
        next_relaunch(Relaunch::Restarting, RelaunchEvent::LaunchFailed(reason)) == Relaunch::Failed(
            reason,
        ),
        state is Upgraded || state is Restored || state is Unrestored || state is Failed
            ==> next_relaunch(state, event) == state,
        relaunch_error(Relaunch::Failed(reason)) == Some(reason@),
        relaunch_error(state) is None <==> state is Upgraded || state is Starting
            || state is RollingBack || state is Restarting,
        relaunch_error(Relaunch::Restored) == Some(
            "Upgrade startup failed; previous executable restored"@,
        ),
        relaunch_error(Relaunch::Unrestored(reason)) == Some(
            "could not restore previous Worker executable"@,
        ),
        next_relaunch(state, event) != state ==> match state {
            Relaunch::Starting => event is Launched || event is LaunchFailed,
            Relaunch::RollingBack => event is RolledBack || event is RollbackFailed,
            Relaunch::Restarting => event is Launched || event is LaunchFailed,
            _ => false,
        },
{
}

/// Contracts speak of what an answer to a command line holds, and the fixed messages say what the
/// matter is.
pub proof fn command_errors_are_taken_as_they_are(
    command: WorkerCommand,
    error: CommandError,
    value: String,
)
    ensures
        command_verdict(Ok(command)) == Ok::<WorkerCommand, CommandErrorView>(command),
        command_verdict(Err(error)) == Err::<WorkerCommand, CommandErrorView>(error@),
        CommandError::UnknownArgument(value)@ == CommandErrorView::UnknownArgument(value@),
        CommandError::UnknownCommand(value)@ == CommandErrorView::UnknownCommand(value@),
        error is UnknownHome <==> error@ is UnknownHome,
        error is MissingPath <==> error@ is MissingPath,
        error is BackgroundRefused <==> error@ is BackgroundRefused,
        error is ArgumentsRefused <==> error@ is ArgumentsRefused,
        command_message(CommandErrorView::UnknownHome)
            == "cannot determine the current user's home directory"@,
        command_message(CommandErrorView::MissingPath) == "--config requires a path"@,
        command_message(CommandErrorView::BackgroundRefused)
            == "status/doctor do not accept --background"@,
        command_message(CommandErrorView::ArgumentsRefused) == "config-path accepts no arguments"@,
{
}

} // verus!
