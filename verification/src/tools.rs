//! The tools that calls can use, as far as they are decided before anything runs.
use crate::calls::ToolCall;
use crate::encoding;
use crate::json;
use crate::json::Member;
use crate::numbers;
use crate::paths::Os;
use crate::text;
use vstd::prelude::*;

verus! {

/// Seconds behind which a command is stopped.
pub const TOOL_TIMEOUT_SECONDS: u64 = 600;

/// The most bytes of a command's output that are reported.
pub const MAX_TOOL_OUTPUT_BYTES: usize = 2097152;

/// A program and its arguments.
pub struct CommandLine {
    pub program: String,
    pub arguments: Vec<String>,
}

/// The contents of a [`CommandLine`].
pub struct CommandView {
    pub program: Seq<char>,
    pub arguments: Seq<Seq<char>>,
}

impl View for CommandLine {
    type V = CommandView;

    open spec fn view(&self) -> CommandView {
        CommandView { program: self.program@, arguments: text::texts(self.arguments@) }
    }
}

/// Why a call cannot be carried out.
pub enum ToolError {
    /// The arguments of the call are not JSON.
    MalformedArguments,
    /// The named argument is missing or empty.
    Required(String),
    UnsupportedTool(String),
    UnsupportedBrowserAction(String),
    UnsupportedComputerAction(String),
    /// The address is no URL, for the given reason.
    InvalidUrl(String),
    UnsupportedScheme,
}

/// The contents of a [`ToolError`].
pub enum ToolErrorView {
    MalformedArguments,
    Required(Seq<char>),
    UnsupportedTool(Seq<char>),
    UnsupportedBrowserAction(Seq<char>),
    UnsupportedComputerAction(Seq<char>),
    InvalidUrl(Seq<char>),
    UnsupportedScheme,
}

impl View for ToolError {
    type V = ToolErrorView;

    open spec fn view(&self) -> ToolErrorView {
        match self {
            ToolError::MalformedArguments => ToolErrorView::MalformedArguments,
            ToolError::Required(key) => ToolErrorView::Required(key@),
            ToolError::UnsupportedTool(name) => ToolErrorView::UnsupportedTool(name@),
            ToolError::UnsupportedBrowserAction(action) => ToolErrorView::UnsupportedBrowserAction(
                action@,
            ),
            ToolError::UnsupportedComputerAction(action) => ToolErrorView::UnsupportedComputerAction(
                action@,
            ),
            ToolError::InvalidUrl(reason) => ToolErrorView::InvalidUrl(reason@),
            ToolError::UnsupportedScheme => ToolErrorView::UnsupportedScheme,
        }
    }
}

/// What the controller is told of a call that cannot be carried out.
pub open spec fn tool_message(error: ToolErrorView) -> Seq<char> {
    match error {
        ToolErrorView::MalformedArguments => "Worker received malformed tool_call"@,
        ToolErrorView::Required(key) => key + " is required"@,
        ToolErrorView::UnsupportedTool(name) => "unsupported Worker tool: "@ + name,
        ToolErrorView::UnsupportedBrowserAction(action) => "unsupported browser action: "@ + action,
        ToolErrorView::UnsupportedComputerAction(action) => "unsupported computer action: "@
            + action,
        ToolErrorView::InvalidUrl(_) => "url is invalid"@,
        ToolErrorView::UnsupportedScheme => "url must use HTTP or HTTPS"@,
    }
}

impl ToolError {
    /// What the controller is told.
    pub fn message(&self) -> (r: String)
        ensures
            r@ == tool_message(self@),
    {
        match self {
            ToolError::MalformedArguments => "Worker received malformed tool_call".to_owned(),
            ToolError::Required(key) => {
                let mut message = key.clone();
                message.append(" is required");
                message
            },
            ToolError::UnsupportedTool(name) => {
                let mut message = "unsupported Worker tool: ".to_owned();
                message.append(name.as_str());
                message
            },
            ToolError::UnsupportedBrowserAction(action) => {
                let mut message = "unsupported browser action: ".to_owned();
                message.append(action.as_str());
                message
            },
            ToolError::UnsupportedComputerAction(action) => {
                let mut message = "unsupported computer action: ".to_owned();
                message.append(action.as_str());
                message
            },
            ToolError::InvalidUrl(_) => "url is invalid".to_owned(),
            ToolError::UnsupportedScheme => "url must use HTTP or HTTPS".to_owned(),
        }
    }
}

/// The text argument `key`, unless it is missing, no text, or empty.
pub open spec fn text_argument(arguments: Seq<json::MemberView>, key: Seq<char>) -> Result<
    Seq<char>,
    ToolErrorView,
> {
    match json::member(arguments, key) {
        Some(member) => match member.text {
            Some(value) => if value.len() > 0 {
                Ok(value)
            } else {
                Err(ToolErrorView::Required(key))
            },
            None => Err(ToolErrorView::Required(key)),
        },
        None => Err(ToolErrorView::Required(key)),
    }
}

/// The integer argument `key`, unless it is missing or no integer.
pub open spec fn integer_argument(arguments: Seq<json::MemberView>, key: Seq<char>) -> Result<
    i64,
    ToolErrorView,
> {
    match json::member(arguments, key) {
        Some(member) => match member.integer {
            Some(value) => Ok(value),
            None => Err(ToolErrorView::Required(key)),
        },
        None => Err(ToolErrorView::Required(key)),
    }
}

/// The contents of a text or an error.
pub open spec fn text_verdict(r: Result<String, ToolError>) -> Result<Seq<char>, ToolErrorView> {
    match r {
        Ok(value) => Ok(value@),
        Err(error) => Err(error@),
    }
}

/// The text argument `key`.
pub fn required_string(arguments: &Vec<Member>, key: &str) -> (r: Result<String, ToolError>)
    ensures
        text_verdict(r) == text_argument(json::members(arguments@), key@),
{
    match json::find_member(arguments, key) {
        Some(i) => match &arguments[i].text {
            Some(value) => if value.as_str().is_empty() {
                Err(ToolError::Required(key.to_owned()))
            } else {
                Ok(value.clone())
            },
            None => Err(ToolError::Required(key.to_owned())),
        },
        None => Err(ToolError::Required(key.to_owned())),
    }
}

/// The integer argument `key`.
pub fn required_number(arguments: &Vec<Member>, key: &str) -> (r: Result<i64, ToolError>)
    ensures
        match r {
            Ok(value) => integer_argument(json::members(arguments@), key@) == Ok::<
                i64,
                ToolErrorView,
            >(value),
            Err(error) => integer_argument(json::members(arguments@), key@) == Err::<
                i64,
                ToolErrorView,
            >(error@),
        },
{
    match json::find_member(arguments, key) {
        Some(i) => match arguments[i].integer {
            Some(value) => Ok(value),
            None => Err(ToolError::Required(key.to_owned())),
        },
        None => Err(ToolError::Required(key.to_owned())),
    }
}

/// The command line by which the system's shell runs `command`.
pub open spec fn shell(os: Os, command: Seq<char>) -> CommandView {
    if os is Windows {
        CommandView { program: "cmd"@, arguments: seq!["/C"@, command] }
    } else {
        CommandView { program: "/bin/sh"@, arguments: seq!["-lc"@, command] }
    }
}

/// The contents of a command line or an error.
pub open spec fn command_verdict(r: Result<CommandLine, ToolError>) -> Result<
    CommandView,
    ToolErrorView,
> {
    match r {
        Ok(command) => Ok(command@),
        Err(error) => Err(error@),
    }
}

/// A list of two texts.
fn pair_of(a: String, b: String) -> (r: Vec<String>)
    ensures
        text::texts(r@) == seq![a@, b@],
{
    let mut list: Vec<String> = Vec::new();
    list.push(a);
    list.push(b);
    assert(text::texts(list@) =~= seq![a@, b@]);
    list
}

/// What the shell tool runs.
pub open spec fn bash_plan(arguments: Seq<json::MemberView>, os: Os) -> Result<
    CommandView,
    ToolErrorView,
> {
    match text_argument(arguments, "command"@) {
        Ok(command) => Ok(shell(os, command)),
        Err(error) => Err(error),
    }
}

/// What the shell tool runs.
pub fn bash(arguments: &Vec<Member>, os: Os) -> (r: Result<CommandLine, ToolError>)
    ensures
        command_verdict(r) == bash_plan(json::members(arguments@), os),
{
    let command = match required_string(arguments, "command") {
        Ok(command) => command,
        Err(error) => return Err(error),
    };
    Ok(shell_command(os, command))
}

/// The command line by which the system's shell runs `command`.
pub fn shell_command(os: Os, command: String) -> (r: CommandLine)
    ensures
        r@ == shell(os, command@),
{
    if os == Os::Windows {
        CommandLine { program: "cmd".to_owned(), arguments: pair_of("/C".to_owned(), command) }
    } else {
        CommandLine { program: "/bin/sh".to_owned(), arguments: pair_of("-lc".to_owned(), command) }
    }
}

/// A point on the screen, as the scripts of macOS spell it.
pub open spec fn mac_point(x: int, y: int) -> Seq<char> {
    "{"@ + numbers::signed_decimal(x) + ", "@ + numbers::signed_decimal(y) + "}"@
}

/// A point on the screen, as the scripts of Windows spell it.
pub open spec fn windows_point(x: int, y: int) -> Seq<char> {
    "("@ + numbers::signed_decimal(x) + ","@ + numbers::signed_decimal(y) + ")"@
}

/// Why a desktop action has no command line.
#[derive(Clone, Copy, PartialEq, Eq, Structural)]
pub enum ComputerError {
    UnsupportedAction,
    MissingText,
}

impl ComputerError {
    /// What the controller is told.
    pub fn message(&self) -> (r: String)
        ensures
            match self {
                ComputerError::UnsupportedAction => r@ == "unsupported computer action"@,
                ComputerError::MissingText => r@ == "text is required"@,
            },
    {
        match self {
            ComputerError::UnsupportedAction => "unsupported computer action".to_owned(),
            ComputerError::MissingText => "text is required".to_owned(),
        }
    }
}

/// The AppleScript for a desktop action.
pub open spec fn mac_script(action: Seq<char>, x: int, y: int, text: Option<Seq<char>>) -> Result<
    Seq<char>,
    ComputerError,
> {
    if action == "move"@ {
        Ok(
            "tell application \"System Events\" to set the position of the mouse to "@ + mac_point(
                x,
                y,
            ),
        )
    } else if action == "click"@ {
        Ok("tell application \"System Events\" to click at "@ + mac_point(x, y))
    } else if action == "type"@ {
        match text {
            Some(text) => Ok(
                "tell application \"System Events\" to keystroke "@ + json::json_string(text),
            ),
            None => Err(ComputerError::MissingText),
        }
    } else {
        Err(ComputerError::UnsupportedAction)
    }
}

/// The PowerShell script for a desktop action.
pub open spec fn windows_script(
    action: Seq<char>,
    x: int,
    y: int,
    text: Option<Seq<char>>,
) -> Result<Seq<char>, ComputerError> {
    if action == "move"@ {
        Ok(
            "Add-Type -AssemblyName System.Windows.Forms; [System.Windows.Forms.Cursor]::Position=New-Object System.Drawing.Point"@
                + windows_point(x, y),
        )
    } else if action == "click"@ {
        Ok(
            "Add-Type -TypeDefinition 'using System; using System.Runtime.InteropServices; public class Mouse { [DllImport(\"user32.dll\")] public static extern void mouse_event(int f,int x,int y,int d,int e); }'; [Mouse]::mouse_event(2,0,0,0,0); [Mouse]::mouse_event(4,0,0,0,0)"@,
        )
    } else if action == "type"@ {
        match text {
            Some(text) => Ok(
                "Add-Type -AssemblyName System.Windows.Forms; [System.Windows.Forms.SendKeys]::SendWait("@
                    + json::json_string(text) + ")"@,
            ),
            None => Err(ComputerError::MissingText),
        }
    } else {
        Err(ComputerError::UnsupportedAction)
    }
}

/// The arguments of `xdotool` for a desktop action.
pub open spec fn xdotool_arguments(
    action: Seq<char>,
    x: int,
    y: int,
    text: Option<Seq<char>>,
) -> Result<Seq<Seq<char>>, ComputerError> {
    let column = numbers::signed_decimal(x);
    let row = numbers::signed_decimal(y);
    if action == "move"@ {
        Ok(seq!["mousemove"@, column, row])
    } else if action == "click"@ {
        Ok(seq!["mousemove"@, "--sync"@, column, row, "click"@, "1"@])
    } else if action == "type"@ {
        match text {
            Some(text) => Ok(seq!["type"@, "--delay"@, "1"@, "--"@, text]),
            None => Err(ComputerError::MissingText),
        }
    } else {
        Err(ComputerError::UnsupportedAction)
    }
}

/// The command line for a desktop action.
pub open spec fn desktop_command(
    os: Os,
    action: Seq<char>,
    x: int,
    y: int,
    text: Option<Seq<char>>,
) -> Result<CommandView, ComputerError> {
    match os {
        Os::Macos => match mac_script(action, x, y, text) {
            Ok(script) => Ok(
                CommandView { program: "/usr/bin/osascript"@, arguments: seq!["-e"@, script] },
            ),
            Err(error) => Err(error),
        },
        Os::Windows => match windows_script(action, x, y, text) {
            Ok(script) => Ok(
                CommandView {
                    program: "powershell"@,
                    arguments: seq!["-NoProfile"@, "-Command"@, script],
                },
            ),
            Err(error) => Err(error),
        },
        _ => match xdotool_arguments(action, x, y, text) {
            Ok(arguments) => Ok(CommandView { program: "xdotool"@, arguments }),
            Err(error) => Err(error),
        },
    }
}

/// The three desktop actions have different names.
proof fn lemma_actions_differ()
    ensures
        "move"@ != "click"@,
        "move"@ != "type"@,
        "click"@ != "type"@,
{
    reveal_strlit("move");
    reveal_strlit("click");
    reveal_strlit("type");
    assert("move"@[0] == 'm' && "click"@[0] == 'c' && "type"@[0] == 't');
}

fn mac_action(action: &str, x: i64, y: i64, typed: Option<&str>) -> (r: Result<
    String,
    ComputerError,
>)
    ensures
        match r {
            Ok(script) => mac_script(
                action@,
                x as int,
                y as int,
                text::optional(typed),
            ) == Ok::<Seq<char>, ComputerError>(script@),
            Err(error) => mac_script(
                action@,
                x as int,
                y as int,
                text::optional(typed),
            ) == Err::<Seq<char>, ComputerError>(error),
        },
{
    let column = numbers::signed_decimal_text(x);
    let row = numbers::signed_decimal_text(y);
    let mut point = "{".to_owned();
    point.append(column.as_str());
    point.append(", ");
    point.append(row.as_str());
    point.append("}");
    if text::same(action, "move") {
        let mut script =
            "tell application \"System Events\" to set the position of the mouse to ".to_owned();
        script.append(point.as_str());
        Ok(script)
    } else if text::same(action, "click") {
        let mut script = "tell application \"System Events\" to click at ".to_owned();
        script.append(point.as_str());
        Ok(script)
    } else if text::same(action, "type") {
        match typed {
            Some(typed) => {
                let quoted = json::json_quoted(typed);
                let mut script = "tell application \"System Events\" to keystroke ".to_owned();
                script.append(quoted.as_str());
                Ok(script)
            },
            None => Err(ComputerError::MissingText),
        }
    } else {
        Err(ComputerError::UnsupportedAction)
    }
}

fn windows_action(action: &str, x: i64, y: i64, typed: Option<&str>) -> (r: Result<
    String,
    ComputerError,
>)
    ensures
        match r {
            Ok(script) => windows_script(
                action@,
                x as int,
                y as int,
                text::optional(typed),
            ) == Ok::<Seq<char>, ComputerError>(script@),
            Err(error) => windows_script(
                action@,
                x as int,
                y as int,
                text::optional(typed),
            ) == Err::<Seq<char>, ComputerError>(error),
        },
{
    let column = numbers::signed_decimal_text(x);
    let row = numbers::signed_decimal_text(y);
    let mut point = "(".to_owned();
    point.append(column.as_str());
    point.append(",");
    point.append(row.as_str());
    point.append(")");
    if text::same(action, "move") {
        let mut script =
            "Add-Type -AssemblyName System.Windows.Forms; [System.Windows.Forms.Cursor]::Position=New-Object System.Drawing.Point".to_owned();
        script.append(point.as_str());
        Ok(script)
    } else if text::same(action, "click") {
        Ok(
            "Add-Type -TypeDefinition 'using System; using System.Runtime.InteropServices; public class Mouse { [DllImport(\"user32.dll\")] public static extern void mouse_event(int f,int x,int y,int d,int e); }'; [Mouse]::mouse_event(2,0,0,0,0); [Mouse]::mouse_event(4,0,0,0,0)".to_owned(),
        )
    } else if text::same(action, "type") {
        match typed {
            Some(typed) => {
                let quoted = json::json_quoted(typed);
                let mut script =
                    "Add-Type -AssemblyName System.Windows.Forms; [System.Windows.Forms.SendKeys]::SendWait(".to_owned();
                script.append(quoted.as_str());
                script.append(")");
                Ok(script)
            },
            None => Err(ComputerError::MissingText),
        }
    } else {
        Err(ComputerError::UnsupportedAction)
    }
}

fn xdotool_action(action: &str, x: i64, y: i64, typed: Option<&str>) -> (r: Result<
    Vec<String>,
    ComputerError,
>)
    ensures
        match r {
            Ok(arguments) => xdotool_arguments(
                action@,
                x as int,
                y as int,
                text::optional(typed),
            ) == Ok::<Seq<Seq<char>>, ComputerError>(text::texts(arguments@)),
            Err(error) => xdotool_arguments(
                action@,
                x as int,
                y as int,
                text::optional(typed),
            ) == Err::<Seq<Seq<char>>, ComputerError>(error),
        },
{
    let ghost expected = xdotool_arguments(
        action@,
        x as int,
        y as int,
        text::optional(typed),
    );
    let column = numbers::signed_decimal_text(x);
    let row = numbers::signed_decimal_text(y);
    let mut arguments: Vec<String> = Vec::new();
    if text::same(action, "move") {
        arguments.push("mousemove".to_owned());
        arguments.push(column);
        arguments.push(row);
    } else if text::same(action, "click") {
        arguments.push("mousemove".to_owned());
        arguments.push("--sync".to_owned());
        arguments.push(column);
        arguments.push(row);
        arguments.push("click".to_owned());
        arguments.push("1".to_owned());
    } else if text::same(action, "type") {
        match typed {
            Some(typed) => {
                arguments.push("type".to_owned());
                arguments.push("--delay".to_owned());
                arguments.push("1".to_owned());
                arguments.push("--".to_owned());
                arguments.push(typed.to_owned());
            },
            None => return Err(ComputerError::MissingText),
        }
    } else {
        return Err(ComputerError::UnsupportedAction);
    }
    assert(expected is Ok);
    assert(text::texts(arguments@) =~= expected->Ok_0);
    Ok(arguments)
}

/// The command line for a desktop action.
pub fn computer_command(os: Os, action: &str, x: i64, y: i64, typed: Option<&str>) -> (r: Result<
    CommandLine,
    ComputerError,
>)
    ensures
        match r {
            Ok(command) => desktop_command(
                os,
                action@,
                x as int,
                y as int,
                text::optional(typed),
            ) == Ok::<CommandView, ComputerError>(command@),
            Err(error) => desktop_command(
                os,
                action@,
                x as int,
                y as int,
                text::optional(typed),
            ) == Err::<CommandView, ComputerError>(error),
        },
{
    match os {
        Os::Macos => match mac_action(action, x, y, typed) {
            Ok(script) => Ok(
                CommandLine {
                    program: "/usr/bin/osascript".to_owned(),
                    arguments: pair_of("-e".to_owned(), script),
                },
            ),
            Err(error) => Err(error),
        },
        Os::Windows => match windows_action(action, x, y, typed) {
            Ok(script) => {
                let mut arguments: Vec<String> = Vec::new();
                arguments.push("-NoProfile".to_owned());
                arguments.push("-Command".to_owned());
                arguments.push(script);
                assert(text::texts(arguments@) =~= seq!["-NoProfile"@, "-Command"@, script@]);
                Ok(CommandLine { program: "powershell".to_owned(), arguments })
            },
            Err(error) => Err(error),
        },
        _ => match xdotool_action(action, x, y, typed) {
            Ok(arguments) => Ok(CommandLine { program: "xdotool".to_owned(), arguments }),
            Err(error) => Err(error),
        },
    }
}

/// What the desktop tool runs.
pub open spec fn computer_plan(arguments: Seq<json::MemberView>, os: Os) -> Result<
    CommandView,
    ToolErrorView,
> {
    match text_argument(arguments, "action"@) {
        Err(error) => Err(error),
        Ok(action) => if action == "move"@ || action == "click"@ {
            match (integer_argument(arguments, "x"@), integer_argument(arguments, "y"@)) {
                (Err(error), _) => Err(error),
                (Ok(_), Err(error)) => Err(error),
                (Ok(x), Ok(y)) => Ok(
                    desktop_command(os, action, x as int, y as int, None)->Ok_0,
                ),
            }
        } else if action == "type"@ {
            match text_argument(arguments, "text"@) {
                Err(error) => Err(error),
                Ok(text) => Ok(desktop_command(os, action, 0, 0, Some(text))->Ok_0),
            }
        } else {
            Err(ToolErrorView::UnsupportedComputerAction(action))
        },
    }
}

/// What the desktop tool runs.
pub fn computer_use(arguments: &Vec<Member>, os: Os) -> (r: Result<CommandLine, ToolError>)
    ensures
        command_verdict(r) == computer_plan(json::members(arguments@), os),
{
    proof {
        lemma_actions_differ();
    }
    let action = match required_string(arguments, "action") {
        Ok(action) => action,
        Err(error) => return Err(error),
    };
    let pointing = text::same(action.as_str(), "move") || text::same(action.as_str(), "click");
    if pointing {
        let x = match required_number(arguments, "x") {
            Ok(x) => x,
            Err(error) => return Err(error),
        };
        let y = match required_number(arguments, "y") {
            Ok(y) => y,
            Err(error) => return Err(error),
        };
        match computer_command(os, action.as_str(), x, y, None) {
            Ok(command) => Ok(command),
            Err(_) => Err(ToolError::UnsupportedComputerAction(action)),
        }
    } else if text::same(action.as_str(), "type") {
        let typed = match required_string(arguments, "text") {
            Ok(typed) => typed,
            Err(error) => return Err(error),
        };
        match computer_command(os, "type", 0, 0, Some(typed.as_str())) {
            Ok(command) => Ok(command),
            Err(_) => Err(ToolError::UnsupportedComputerAction(action)),
        }
    } else {
        Err(ToolError::UnsupportedComputerAction(action))
    }
}

/// What has to be done for a call.
pub enum ToolPlan {
    /// Check what the device can do.
    Diagnose,
    /// Run a command and report what it printed. The label names it in errors.
    Run { command: CommandLine, label: String },
    /// Make sure that a browser runs, and then let it do the named action.
    Browse { action: String },
}

/// The contents of a [`ToolPlan`].
pub enum PlanView {
    Diagnose,
    Run { command: CommandView, label: Seq<char> },
    Browse { action: Seq<char> },
}

impl View for ToolPlan {
    type V = PlanView;

    open spec fn view(&self) -> PlanView {
        match self {
            ToolPlan::Diagnose => PlanView::Diagnose,
            ToolPlan::Run { command, label } => PlanView::Run { command: command@, label: label@ },
            ToolPlan::Browse { action } => PlanView::Browse { action: action@ },
        }
    }
}

/// What has to be done for a call of the tool `name`.
pub open spec fn tool_plan(name: Seq<char>, arguments: Seq<json::MemberView>, os: Os) -> Result<
    PlanView,
    ToolErrorView,
> {
    if name == "diagnostics"@ {
        Ok(PlanView::Diagnose)
    } else if name == "bash"@ {
        match bash_plan(arguments, os) {
            Ok(command) => Ok(PlanView::Run { command, label: "Bash command"@ }),
            Err(error) => Err(error),
        }
    } else if name == "browser_control"@ {
        match text_argument(arguments, "action"@) {
            Ok(action) => Ok(PlanView::Browse { action }),
            Err(error) => Err(error),
        }
    } else if name == "computer_use"@ {
        match computer_plan(arguments, os) {
            Ok(command) => Ok(PlanView::Run { command, label: "Computer Use command"@ }),
            Err(error) => Err(error),
        }
    } else {
        Err(ToolErrorView::UnsupportedTool(name))
    }
}

/// The contents of a plan or an error.
pub open spec fn plan_verdict(r: Result<ToolPlan, ToolError>) -> Result<PlanView, ToolErrorView> {
    match r {
        Ok(plan) => Ok(plan@),
        Err(error) => Err(error@),
    }
}

/// Plans a call of the tool `name` with the given arguments.
pub fn plan_tool(name: &str, arguments: &Vec<Member>, os: Os) -> (r: Result<ToolPlan, ToolError>)
    ensures
        plan_verdict(r) == tool_plan(name@, json::members(arguments@), os),
{
    if text::same(name, "diagnostics") {
        Ok(ToolPlan::Diagnose)
    } else if text::same(name, "bash") {
        match bash(arguments, os) {
            Ok(command) => Ok(ToolPlan::Run { command, label: "Bash command".to_owned() }),
            Err(error) => Err(error),
        }
    } else if text::same(name, "browser_control") {
        match required_string(arguments, "action") {
            Ok(action) => Ok(ToolPlan::Browse { action }),
            Err(error) => Err(error),
        }
    } else if text::same(name, "computer_use") {
        match computer_use(arguments, os) {
            Ok(command) => Ok(ToolPlan::Run { command, label: "Computer Use command".to_owned() }),
            Err(error) => Err(error),
        }
    } else {
        Err(ToolError::UnsupportedTool(name.to_owned()))
    }
}

/// The verdict on a call whose arguments are read as `object`, or cannot be read.
pub open spec fn call_plan(name: Seq<char>, object: Option<Seq<json::MemberView>>, os: Os) -> Result<
    PlanView,
    ToolErrorView,
> {
    match object {
        Some(arguments) => tool_plan(name, arguments, os),
        None => Err(ToolErrorView::MalformedArguments),
    }
}

/// Plans a call.
pub fn execute_call(call: &ToolCall, os: Os) -> (r: Result<ToolPlan, ToolError>)
    ensures
        plan_verdict(r) == call_plan(call@.name, json::json_object(call@.arguments), os),
{
    match json::read_object(call.arguments.as_str()) {
        Some(arguments) => plan_tool(call.name.as_str(), &arguments, os),
        None => Err(ToolError::MalformedArguments),
    }
}

/// What a finished command reports.
pub struct CommandOutput {
    pub exit_code: Option<i32>,
    pub stdout: String,
    pub stderr: String,
}

/// The bytes of an output that are reported.
pub open spec fn kept(bytes: Seq<u8>) -> Seq<u8> {
    if bytes.len() <= MAX_TOOL_OUTPUT_BYTES {
        bytes
    } else {
        bytes.take(MAX_TOOL_OUTPUT_BYTES as int)
    }
}

/// The part of an output that is reported.
pub open spec fn reported(bytes: Seq<u8>) -> Seq<char> {
    encoding::utf8_lossy(kept(bytes))
}

/// The part of an output that is reported: the text that its first bytes encode, where they are
/// UTF-8.
pub fn limited_output(value: &[u8]) -> (r: String)
    ensures
        r@ == reported(value@),
        vstd::utf8::valid_utf8(kept(value@)) ==> r@ == vstd::utf8::decode_utf8(kept(value@)),
{
    if value.len() <= MAX_TOOL_OUTPUT_BYTES {
        encoding::lossy_text(value)
    } else {
        let kept = vstd::slice::slice_subrange(value, 0, MAX_TOOL_OUTPUT_BYTES);
        assert(kept@ =~= value@.take(MAX_TOOL_OUTPUT_BYTES as int));
        encoding::lossy_text(kept)
    }
}

/// What a finished command reports.
pub fn command_output(code: Option<i32>, stdout: &[u8], stderr: &[u8]) -> (r: CommandOutput)
    ensures
        r.exit_code == code,
        r.stdout@ == reported(stdout@),
        r.stderr@ == reported(stderr@),
        vstd::utf8::valid_utf8(kept(stdout@)) ==> r.stdout@ == vstd::utf8::decode_utf8(
            kept(stdout@),
        ),
        vstd::utf8::valid_utf8(kept(stderr@)) ==> r.stderr@ == vstd::utf8::decode_utf8(
            kept(stderr@),
        ),
{
    CommandOutput {
        exit_code: code,
        stdout: limited_output(stdout),
        stderr: limited_output(stderr),
    }
}

/// Of a long output the first part is reported, whatever follows.
pub proof fn long_output_is_cut(bytes: Seq<u8>, more: Seq<u8>)
    requires
        bytes.len() >= MAX_TOOL_OUTPUT_BYTES,
    ensures
        reported(bytes + more) == reported(bytes.take(MAX_TOOL_OUTPUT_BYTES as int)),
{
    let all = bytes + more;
    assert(all.take(MAX_TOOL_OUTPUT_BYTES as int) =~= bytes.take(MAX_TOOL_OUTPUT_BYTES as int));
    assert(all.take(all.len() as int) =~= all);
}

/// A text argument is the text under its key, as it stands, and there is none exactly where nothing
/// stands there, no text, or the empty one.
pub proof fn text_arguments_are_given(
    arguments: Seq<json::MemberView>,
    key: Seq<char>,
    value: Seq<char>,
)
    ensures
        text_argument(arguments, key) == Ok::<Seq<char>, ToolErrorView>(value) <==> (json::member(
            arguments,
            key,
        ) matches Some(member) && member.text == Some(value) && value.len() > 0),
        text_argument(arguments, key) matches Err(error) ==> error == ToolErrorView::Required(key),
{
}

/// An integer argument is the integer under its key, whichever it is.
pub proof fn integer_arguments_are_given(
    arguments: Seq<json::MemberView>,
    key: Seq<char>,
    value: i64,
)
    ensures
        integer_argument(arguments, key) == Ok::<i64, ToolErrorView>(value) <==> (json::member(
            arguments,
            key,
        ) matches Some(member) && member.integer == Some(value)),
        integer_argument(arguments, key) matches Err(error) ==> error == ToolErrorView::Required(key),
{
}

/// The shell is given the whole command as its last argument, exactly as it stands in the call.
pub proof fn commands_are_run_as_given(
    arguments: Seq<json::MemberView>,
    command: Seq<char>,
    os: Os,
)
    requires
        json::member(arguments, "command"@) matches Some(member) && member.text == Some(command),
        command.len() > 0,
    ensures
        bash_plan(arguments, os) matches Ok(plan) && plan.arguments.len() == 2
            && plan.arguments.last() == command,
        os is Windows ==> bash_plan(arguments, os)->Ok_0.program == "cmd"@ && bash_plan(
            arguments,
            os,
        )->Ok_0.arguments[0] == "/C"@,
        os !is Windows ==> bash_plan(arguments, os)->Ok_0.program == "/bin/sh"@ && bash_plan(
            arguments,
            os,
        )->Ok_0.arguments[0] == "-lc"@,
{
}

/// Two different commands are never planned alike, and a call without a command is not planned.
pub proof fn different_commands_have_different_plans(
    a: Seq<json::MemberView>,
    b: Seq<json::MemberView>,
    os: Os,
)
    ensures
        bash_plan(a, os) is Ok && bash_plan(a, os) == bash_plan(b, os) ==> json::member(
            a,
            "command"@,
        )->Some_0.text == json::member(b, "command"@)->Some_0.text,
        (json::member(a, "command"@) matches Some(member) ==> member.text matches Some(text)
            ==> text.len() == 0) ==> bash_plan(a, os) == Err::<CommandView, ToolErrorView>(
            ToolErrorView::Required("command"@),
        ),
{
    if bash_plan(a, os) is Ok && bash_plan(a, os) == bash_plan(b, os) {
        assert(bash_plan(a, os)->Ok_0.arguments[1] == bash_plan(b, os)->Ok_0.arguments[1]);
    }
}

/// The shell is given a command of its own as it stands, too.
pub proof fn shells_run_their_command(os: Os, command: Seq<char>, other: Seq<char>)
    ensures
        shell(os, command).arguments.last() == command,
        shell(os, command) == shell(os, other) ==> command == other,
        shell(os, command).program == shell(os, other).program,
        shell(os, command).arguments.drop_last() == shell(os, other).arguments.drop_last(),
{
    assert(shell(os, command).arguments.last() == command);
    assert(shell(os, other).arguments.last() == other);
    assert(shell(os, command).arguments.drop_last() =~= shell(os, other).arguments.drop_last());
}

proof fn lemma_actions_are_named()
    ensures
        "move"@.len() > 0,
        "click"@.len() > 0,
        "type"@.len() > 0,
{
    reveal_strlit("move");
    reveal_strlit("click");
    reveal_strlit("type");
}

/// A click is planned as a click at its point: where `xdotool` is used it moves there first and
/// then presses the first button, on macOS the script names the point, and on Windows the first
/// button is pressed and released where the pointer is.
#[verifier::rlimit(40)]
pub proof fn clicks_are_planned(arguments: Seq<json::MemberView>, x: i64, y: i64, os: Os)
    requires
        json::member(arguments, "action"@) matches Some(member) && member.text == Some("click"@),
        json::member(arguments, "x"@) matches Some(member) && member.integer == Some(x),
        json::member(arguments, "y"@) matches Some(member) && member.integer == Some(y),
    ensures
        computer_plan(arguments, os) is Ok,
        os !is Macos && os !is Windows ==> computer_plan(arguments, os)->Ok_0.program == "xdotool"@
            && computer_plan(arguments, os)->Ok_0.arguments == seq![
            "mousemove"@,
            "--sync"@,
            numbers::signed_decimal(x as int),
            numbers::signed_decimal(y as int),
            "click"@,
            "1"@,
        ],
        os is Macos ==> computer_plan(arguments, os)->Ok_0.program == "/usr/bin/osascript"@
            && computer_plan(arguments, os)->Ok_0.arguments == seq![
            "-e"@,
            "tell application \"System Events\" to click at {"@ + numbers::signed_decimal(x as int)
                + ", "@ + numbers::signed_decimal(y as int) + "}"@,
        ],
        os is Windows ==> computer_plan(arguments, os)->Ok_0.program == "powershell"@
            && computer_plan(arguments, os)->Ok_0.arguments == seq![
            "-NoProfile"@,
            "-Command"@,
            "Add-Type -TypeDefinition 'using System; using System.Runtime.InteropServices; public class Mouse { [DllImport(\"user32.dll\")] public static extern void mouse_event(int f,int x,int y,int d,int e); }'; [Mouse]::mouse_event(2,0,0,0,0); [Mouse]::mouse_event(4,0,0,0,0)"@,
        ],
{
    lemma_actions_differ();
    lemma_actions_are_named();
    match os {
        Os::Macos => {
            reveal_strlit("tell application \"System Events\" to click at {");
            reveal_strlit("tell application \"System Events\" to click at ");
            reveal_strlit("{");
            assert("tell application \"System Events\" to click at {"@
                =~= "tell application \"System Events\" to click at "@ + "{"@);
            let column = numbers::signed_decimal(x as int);
            let row = numbers::signed_decimal(y as int);
            assert("tell application \"System Events\" to click at "@ + mac_point(
                x as int,
                y as int,
            ) =~= "tell application \"System Events\" to click at {"@ + column + ", "@ + row + "}"@);
        },
        _ => {},
    }
}

/// A movement is planned to its point, which the command line names last.
#[verifier::rlimit(40)]
pub proof fn movements_are_planned(arguments: Seq<json::MemberView>, x: i64, y: i64, os: Os)
    requires
        json::member(arguments, "action"@) matches Some(member) && member.text == Some("move"@),
        json::member(arguments, "x"@) matches Some(member) && member.integer == Some(x),
        json::member(arguments, "y"@) matches Some(member) && member.integer == Some(y),
    ensures
        computer_plan(arguments, os) is Ok,
        os !is Macos && os !is Windows ==> computer_plan(arguments, os)->Ok_0.program == "xdotool"@
            && computer_plan(arguments, os)->Ok_0.arguments == seq![
            "mousemove"@,
            numbers::signed_decimal(x as int),
            numbers::signed_decimal(y as int),
        ],
        os is Macos ==> computer_plan(arguments, os)->Ok_0.program == "/usr/bin/osascript"@
            && computer_plan(arguments, os)->Ok_0.arguments == seq![
            "-e"@,
            "tell application \"System Events\" to set the position of the mouse to {"@
                + numbers::signed_decimal(x as int) + ", "@ + numbers::signed_decimal(y as int)
                + "}"@,
        ],
        os is Windows ==> computer_plan(arguments, os)->Ok_0.program == "powershell"@
            && computer_plan(arguments, os)->Ok_0.arguments == seq![
            "-NoProfile"@,
            "-Command"@,
            "Add-Type -AssemblyName System.Windows.Forms; [System.Windows.Forms.Cursor]::Position=New-Object System.Drawing.Point("@
                + numbers::signed_decimal(x as int) + ","@ + numbers::signed_decimal(y as int) + ")"@,
        ],
{
    lemma_actions_differ();
    lemma_actions_are_named();
    let column = numbers::signed_decimal(x as int);
    let row = numbers::signed_decimal(y as int);
    match os {
        Os::Macos => {
            reveal_strlit("tell application \"System Events\" to set the position of the mouse to {");
            reveal_strlit("tell application \"System Events\" to set the position of the mouse to ");
            reveal_strlit("{");
            assert("tell application \"System Events\" to set the position of the mouse to {"@
                =~= "tell application \"System Events\" to set the position of the mouse to "@
                + "{"@);
            assert("tell application \"System Events\" to set the position of the mouse to "@
                + mac_point(x as int, y as int)
                =~= "tell application \"System Events\" to set the position of the mouse to {"@
                + column + ", "@ + row + "}"@);
        },
        Os::Windows => {
            reveal_strlit(
                "Add-Type -AssemblyName System.Windows.Forms; [System.Windows.Forms.Cursor]::Position=New-Object System.Drawing.Point(",
            );
            reveal_strlit(
                "Add-Type -AssemblyName System.Windows.Forms; [System.Windows.Forms.Cursor]::Position=New-Object System.Drawing.Point",
            );
            reveal_strlit("(");
            assert("Add-Type -AssemblyName System.Windows.Forms; [System.Windows.Forms.Cursor]::Position=New-Object System.Drawing.Point("@
                =~= "Add-Type -AssemblyName System.Windows.Forms; [System.Windows.Forms.Cursor]::Position=New-Object System.Drawing.Point"@
                + "("@);
            assert("Add-Type -AssemblyName System.Windows.Forms; [System.Windows.Forms.Cursor]::Position=New-Object System.Drawing.Point"@
                + windows_point(x as int, y as int)
                =~= "Add-Type -AssemblyName System.Windows.Forms; [System.Windows.Forms.Cursor]::Position=New-Object System.Drawing.Point("@
                + column + ","@ + row + ")"@);
        },
        _ => {},
    }
}

/// Typing types the whole text: `xdotool` gets it as it stands as its last argument, and the
/// scripts quote it.
pub proof fn texts_are_typed(arguments: Seq<json::MemberView>, typed: Seq<char>, os: Os)
    requires
        json::member(arguments, "action"@) matches Some(member) && member.text == Some("type"@),
        json::member(arguments, "text"@) matches Some(member) && member.text == Some(typed),
        typed.len() > 0,
    ensures
        computer_plan(arguments, os) is Ok,
        os !is Macos && os !is Windows ==> computer_plan(arguments, os)->Ok_0.program == "xdotool"@
            && computer_plan(arguments, os)->Ok_0.arguments == seq![
            "type"@,
            "--delay"@,
            "1"@,
            "--"@,
            typed,
        ],
        os is Macos ==> computer_plan(arguments, os)->Ok_0.program == "/usr/bin/osascript"@
            && computer_plan(arguments, os)->Ok_0.arguments == seq![
            "-e"@,
            "tell application \"System Events\" to keystroke "@ + json::json_string(typed),
        ],
        os is Windows ==> computer_plan(arguments, os)->Ok_0.program == "powershell"@
            && computer_plan(arguments, os)->Ok_0.arguments == seq![
            "-NoProfile"@,
            "-Command"@,
            "Add-Type -AssemblyName System.Windows.Forms; [System.Windows.Forms.SendKeys]::SendWait("@
                + json::json_string(typed) + ")"@,
        ],
{
    lemma_actions_differ();
    lemma_actions_are_named();
}

/// The three actions are never planned alike, whatever their points and texts.
#[verifier::rlimit(40)]
pub proof fn actions_have_different_plans(
    click: Seq<json::MemberView>,
    movement: Seq<json::MemberView>,
    typing: Seq<json::MemberView>,
    os: Os,
)
    requires
        json::member(click, "action"@) matches Some(member) && member.text == Some("click"@),
        json::member(movement, "action"@) matches Some(member) && member.text == Some("move"@),
        json::member(typing, "action"@) matches Some(member) && member.text == Some("type"@),
        computer_plan(click, os) is Ok,
        computer_plan(movement, os) is Ok,
        computer_plan(typing, os) is Ok,
    ensures
        computer_plan(click, os) != computer_plan(movement, os),
        computer_plan(click, os) != computer_plan(typing, os),
        computer_plan(movement, os) != computer_plan(typing, os),
{
    lemma_actions_differ();
    lemma_actions_are_named();
    let a = computer_plan(click, os)->Ok_0.arguments;
    let b = computer_plan(movement, os)->Ok_0.arguments;
    let c = computer_plan(typing, os)->Ok_0.arguments;
    match os {
        Os::Macos => {
            reveal_strlit("tell application \"System Events\" to set the position of the mouse to ");
            reveal_strlit("tell application \"System Events\" to click at ");
            reveal_strlit("tell application \"System Events\" to keystroke ");
            assert(a[1][36] == 'c' && b[1][36] == 's' && c[1][36] == 'k');
        },
        Os::Windows => {
            lemma_windows_scripts_begin();
            assert(a[2][10] == 'T' && b[2][10] == 'A' && c[2][10] == 'A');
            assert(b[2][67] == 'C' && c[2][67] == 'S');
        },
        _ => {
            assert(a.len() == 6 && b.len() == 3 && c.len() == 5);
        },
    }
}

#[verifier::rlimit(40)]
proof fn lemma_windows_scripts_begin()
    ensures
        ({
            let click =
                "Add-Type -TypeDefinition 'using System; using System.Runtime.InteropServices; public class Mouse { [DllImport(\"user32.dll\")] public static extern void mouse_event(int f,int x,int y,int d,int e); }'; [Mouse]::mouse_event(2,0,0,0,0); [Mouse]::mouse_event(4,0,0,0,0)"@;
            let movement =
                "Add-Type -AssemblyName System.Windows.Forms; [System.Windows.Forms.Cursor]::Position=New-Object System.Drawing.Point"@;
            let typing =
                "Add-Type -AssemblyName System.Windows.Forms; [System.Windows.Forms.SendKeys]::SendWait("@;
            &&& click.len() > 70 && movement.len() > 70 && typing.len() > 70
            &&& click[10] == 'T' && movement[10] == 'A' && typing[10] == 'A'
            &&& movement[67] == 'C' && typing[67] == 'S'
        }),
{
    reveal_strlit(
        "Add-Type -TypeDefinition 'using System; using System.Runtime.InteropServices; public class Mouse { [DllImport(\"user32.dll\")] public static extern void mouse_event(int f,int x,int y,int d,int e); }'; [Mouse]::mouse_event(2,0,0,0,0); [Mouse]::mouse_event(4,0,0,0,0)",
    );
    reveal_strlit(
        "Add-Type -AssemblyName System.Windows.Forms; [System.Windows.Forms.Cursor]::Position=New-Object System.Drawing.Point",
    );
    reveal_strlit(
        "Add-Type -AssemblyName System.Windows.Forms; [System.Windows.Forms.SendKeys]::SendWait(",
    );
}

/// Other actions are refused by their names, and an action without what it needs is refused by the
/// name of the first thing that is missing.
pub proof fn incomplete_actions_are_refused(
    arguments: Seq<json::MemberView>,
    action: Seq<char>,
    os: Os,
)
    requires
        json::member(arguments, "action"@) matches Some(member) && member.text == Some(action),
        action.len() > 0,
    ensures
        action != "move"@ && action != "click"@ && action != "type"@ ==> computer_plan(arguments, os)
            == Err::<CommandView, ToolErrorView>(ToolErrorView::UnsupportedComputerAction(action)),
        (action == "move"@ || action == "click"@) && (json::member(arguments, "x"@) is None
            || json::member(arguments, "x"@)->Some_0.integer is None) ==> computer_plan(arguments, os)
            == Err::<CommandView, ToolErrorView>(ToolErrorView::Required("x"@)),
        (action == "move"@ || action == "click"@) && (json::member(arguments, "x"@) matches Some(
            member,
        ) && member.integer is Some) && (json::member(arguments, "y"@) is None || json::member(
            arguments,
            "y"@,
        )->Some_0.integer is None) ==> computer_plan(arguments, os) == Err::<
            CommandView,
            ToolErrorView,
        >(ToolErrorView::Required("y"@)),
        action == "type"@ && (json::member(arguments, "text"@) is None || json::member(
            arguments,
            "text"@,
        )->Some_0.text is None || json::member(arguments, "text"@)->Some_0.text->Some_0.len() == 0)
            ==> computer_plan(arguments, os) == Err::<CommandView, ToolErrorView>(
            ToolErrorView::Required("text"@),
        ),
{
    lemma_actions_differ();
}

/// Each tool is planned by its own rule: a command is run under the label of its tool, a browser
/// action is carried out as named, a check of the device needs nothing, and there is no other tool.
pub proof fn tools_are_planned_by_name(
    name: Seq<char>,
    arguments: Seq<json::MemberView>,
    os: Os,
)
    ensures
        tool_plan("diagnostics"@, arguments, os) == Ok::<PlanView, ToolErrorView>(PlanView::Diagnose),
        match bash_plan(arguments, os) {
            Ok(command) => tool_plan("bash"@, arguments, os) matches Ok(PlanView::Run {
                command: planned,
                label,
            }) && planned == command && label == "Bash command"@,
            Err(error) => tool_plan("bash"@, arguments, os) == Err::<PlanView, ToolErrorView>(error),
        },
        match computer_plan(arguments, os) {
            Ok(command) => tool_plan("computer_use"@, arguments, os) matches Ok(PlanView::Run {
                command: planned,
                label,
            }) && planned == command && label == "Computer Use command"@,
            Err(error) => tool_plan("computer_use"@, arguments, os) == Err::<
                PlanView,
                ToolErrorView,
            >(error),
        },
        match text_argument(arguments, "action"@) {
            Ok(action) => tool_plan("browser_control"@, arguments, os) == Ok::<
                PlanView,
                ToolErrorView,
            >(PlanView::Browse { action }),
            Err(error) => tool_plan("browser_control"@, arguments, os) == Err::<
                PlanView,
                ToolErrorView,
            >(error),
        },
        name != "diagnostics"@ && name != "bash"@ && name != "browser_control"@ && name
            != "computer_use"@ ==> tool_plan(name, arguments, os) == Err::<PlanView, ToolErrorView>(
            ToolErrorView::UnsupportedTool(name),
        ),
        call_plan(name, Some(arguments), os) == tool_plan(name, arguments, os),
        call_plan(name, None, os) == Err::<PlanView, ToolErrorView>(
            ToolErrorView::MalformedArguments,
        ),
{
    reveal_strlit("diagnostics");
    reveal_strlit("bash");
    reveal_strlit("browser_control");
    reveal_strlit("computer_use");
    assert("diagnostics"@[0] == 'd' && "bash"@[0] == 'b' && "computer_use"@[0] == 'c');
    assert("browser_control"@.len() == 15 && "bash"@.len() == 4 && "diagnostics"@.len() == 11
        && "computer_use"@.len() == 12);
}

/// What is reported of an output is the output itself up to two mebibytes, and of a longer one its
/// first two mebibytes, byte by byte.
pub proof fn reports_begin_the_output(bytes: Seq<u8>, i: int)
    ensures
        bytes.len() <= 2 * 1024 * 1024 ==> kept(bytes) == bytes,
        bytes.len() > 2 * 1024 * 1024 ==> kept(bytes).len() == 2 * 1024 * 1024,
        0 <= i < kept(bytes).len() ==> kept(bytes)[i] == bytes[i],
        bytes.len() <= 2 * 1024 * 1024 ==> reported(bytes) == encoding::utf8_lossy(bytes),
        reported(bytes) == reported(kept(bytes)),
{
}

/// What the controller is told names what is at fault.
pub proof fn tool_messages_name_the_fault(name: Seq<char>, other: Seq<char>)
    ensures
        tool_message(ToolErrorView::Required(name)) == name + " is required"@,
        text::after_prefix(
            tool_message(ToolErrorView::UnsupportedTool(name)),
            "unsupported Worker tool: "@,
        ) == Some(name),
        text::after_prefix(
            tool_message(ToolErrorView::UnsupportedBrowserAction(name)),
            "unsupported browser action: "@,
        ) == Some(name),
        text::after_prefix(
            tool_message(ToolErrorView::UnsupportedComputerAction(name)),
            "unsupported computer action: "@,
        ) == Some(name),
        tool_message(ToolErrorView::InvalidUrl(name)) == tool_message(
            ToolErrorView::InvalidUrl(other),
        ),
{
    text::prefix_and_rest_make_the_text(
        tool_message(ToolErrorView::UnsupportedTool(name)),
        "unsupported Worker tool: "@,
        name,
    );
    text::prefix_and_rest_make_the_text(
        tool_message(ToolErrorView::UnsupportedBrowserAction(name)),
        "unsupported browser action: "@,
        name,
    );
    text::prefix_and_rest_make_the_text(
        tool_message(ToolErrorView::UnsupportedComputerAction(name)),
        "unsupported computer action: "@,
        name,
    );
}

/// Contracts speak of what command lines, plans and errors hold.
pub proof fn plans_are_taken_as_they_are(
    command: CommandLine,
    plan: ToolPlan,
    error: ToolError,
    value: String,
    label: String,
)
    ensures
        command@.program == command.program@,
        command@.arguments == text::texts(command.arguments@),
        command_verdict(Ok(command)) == Ok::<CommandView, ToolErrorView>(command@),
        command_verdict(Err(error)) == Err::<CommandView, ToolErrorView>(error@),
        text_verdict(Ok(value)) == Ok::<Seq<char>, ToolErrorView>(value@),
        text_verdict(Err(error)) == Err::<Seq<char>, ToolErrorView>(error@),
        plan_verdict(Ok(plan)) == Ok::<PlanView, ToolErrorView>(plan@),
        plan_verdict(Err(error)) == Err::<PlanView, ToolErrorView>(error@),
        ToolPlan::Diagnose@ is Diagnose,
        (ToolPlan::Run { command, label })@ == (PlanView::Run { command: command@, label: label@ }),
        (ToolPlan::Browse { action: value })@ == (PlanView::Browse { action: value@ }),
        ToolError::MalformedArguments@ is MalformedArguments,
        ToolError::Required(value)@ == ToolErrorView::Required(value@),
        ToolError::UnsupportedTool(value)@ == ToolErrorView::UnsupportedTool(value@),
        ToolError::UnsupportedBrowserAction(value)@ == ToolErrorView::UnsupportedBrowserAction(
            value@,
        ),
        ToolError::UnsupportedComputerAction(value)@ == ToolErrorView::UnsupportedComputerAction(
            value@,
        ),
        ToolError::InvalidUrl(value)@ == ToolErrorView::InvalidUrl(value@),
        ToolError::UnsupportedScheme@ is UnsupportedScheme,
{
}

/// A desktop action that is not known has no command line on any system, and typing has none without
/// a text; where the pointer is does not matter for typing, nor a text for the pointer.
pub proof fn desktop_actions_need_their_own(
    os: Os,
    action: Seq<char>,
    x: int,
    y: int,
    typed: Option<Seq<char>>,
    value: Seq<char>,
)
    ensures
        action != "move"@ && action != "click"@ && action != "type"@ ==> desktop_command(
            os,
            action,
            x,
            y,
            typed,
        ) == Err::<CommandView, ComputerError>(ComputerError::UnsupportedAction),
        desktop_command(os, "type"@, x, y, None) == Err::<CommandView, ComputerError>(
            ComputerError::MissingText,
        ),
        desktop_command(os, "type"@, x, y, Some(value)) is Ok && desktop_command(
            os,
            "type"@,
            x,
            y,
            Some(value),
        ) == desktop_command(os, "type"@, 0, 0, Some(value)),
        desktop_command(os, "move"@, x, y, typed) is Ok && desktop_command(os, "move"@, x, y, typed)
            == desktop_command(os, "move"@, x, y, None),
        desktop_command(os, "click"@, x, y, typed) is Ok && desktop_command(
            os,
            "click"@,
            x,
            y,
            typed,
        ) == desktop_command(os, "click"@, x, y, None),
{
    lemma_actions_differ();
}

/// The call of a desktop action is planned as the command line of that action.
pub proof fn desktop_calls_are_their_commands(
    arguments: Seq<json::MemberView>,
    action: Seq<char>,
    x: i64,
    y: i64,
    typed: Seq<char>,
    os: Os,
)
    requires
        json::member(arguments, "action"@) matches Some(member) && member.text == Some(action),
        json::member(arguments, "x"@) matches Some(member) && member.integer == Some(x),
        json::member(arguments, "y"@) matches Some(member) && member.integer == Some(y),
        json::member(arguments, "text"@) matches Some(member) && member.text == Some(typed),
        typed.len() > 0,
    ensures
        action == "move"@ || action == "click"@ || action == "type"@ ==> match desktop_command(
            os,
            action,
            x as int,
            y as int,
            Some(typed),
        ) {
            Ok(command) => computer_plan(arguments, os) == Ok::<CommandView, ToolErrorView>(command),
            Err(_) => false,
        },
{
    lemma_actions_differ();
    lemma_actions_are_named();
}

/// The fixed messages say what the matter is.
pub proof fn fixed_tool_messages(reason: Seq<char>)
    ensures
        tool_message(ToolErrorView::MalformedArguments) == "Worker received malformed tool_call"@,
        tool_message(ToolErrorView::InvalidUrl(reason)) == "url is invalid"@,
        tool_message(ToolErrorView::UnsupportedScheme) == "url must use HTTP or HTTPS"@,
{
}

} // verus!
