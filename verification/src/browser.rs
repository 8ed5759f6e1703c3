//! Control of a browser through its DevTools.
use crate::config;
use crate::config::ParsedUrl;
use crate::json;
use crate::json::Member;
use crate::paths::Os;
use crate::text;
use crate::tools;
use crate::tools::ToolError;
use vstd::prelude::*;

verus! {

/// Where the browser offers its DevTools.
pub const CDP_BASE: &'static str = "http://127.0.0.1:9222";

/// What a request to the browser carries.
pub enum CdpParams {
    /// The member `url`.
    Url(String),
    /// The member `expression`, beside the member `returnByValue`, which is true.
    Expression(String),
    /// The member `format`.
    Format(String),
}

/// A request to the browser.
pub struct CdpCall {
    pub method: String,
    pub params: CdpParams,
}

/// The contents of [`CdpParams`].
pub enum ParamsView {
    Url(Seq<char>),
    Expression(Seq<char>),
    Format(Seq<char>),
}

/// The contents of a [`CdpCall`].
pub struct CdpView {
    pub method: Seq<char>,
    pub params: ParamsView,
}

impl View for CdpParams {
    type V = ParamsView;

    open spec fn view(&self) -> ParamsView {
        match self {
            CdpParams::Url(url) => ParamsView::Url(url@),
            CdpParams::Expression(expression) => ParamsView::Expression(expression@),
            CdpParams::Format(format) => ParamsView::Format(format@),
        }
    }
}

impl View for CdpCall {
    type V = CdpView;

    open spec fn view(&self) -> CdpView {
        CdpView { method: self.method@, params: self.params@ }
    }
}

/// The contents of a request or an error.
pub open spec fn cdp_verdict(r: Result<CdpCall, ToolError>) -> Result<
    CdpView,
    tools::ToolErrorView,
> {
    match r {
        Ok(call) => Ok(call@),
        Err(error) => Err(error@),
    }
}

/// The normal form of an address where a URL parser says `url` of it: only web pages are visited.
pub open spec fn web_address(url: Result<config::UrlView, Seq<char>>) -> Result<
    Seq<char>,
    tools::ToolErrorView,
> {
    match url {
        Err(reason) => Err(tools::ToolErrorView::InvalidUrl(reason)),
        Ok(url) => if url.scheme == "http"@ || url.scheme == "https"@ {
            Ok(url.text)
        } else {
            Err(tools::ToolErrorView::UnsupportedScheme)
        },
    }
}

/// The normal form of a web address, given what a URL parser says of it.
pub fn check_url(url: Result<ParsedUrl, String>) -> (r: Result<String, ToolError>)
    ensures
        tools::text_verdict(r) == web_address(config::url_answer(url)),
{
    match url {
        Err(reason) => Err(ToolError::InvalidUrl(reason)),
        Ok(url) => {
            let web = text::same(url.scheme.as_str(), "http") || text::same(
                url.scheme.as_str(),
                "https",
            );
            if web {
                Ok(url.text)
            } else {
                Err(ToolError::UnsupportedScheme)
            }
        },
    }
}

/// The normal form of a web address.
pub fn valid_url(value: &str) -> (r: Result<String, ToolError>)
    ensures
        tools::text_verdict(r) == web_address(config::parsed_url(value@)),
{
    check_url(config::parse_url(value))
}

/// The request that evaluates an expression in the page.
pub open spec fn evaluation(expression: Seq<char>) -> CdpView {
    CdpView { method: "Runtime.evaluate"@, params: ParamsView::Expression(expression) }
}

/// The expression that clicks what a selector finds.
pub open spec fn click_expression(selector: Seq<char>) -> Seq<char> {
    "document.querySelector("@ + json::json_string(selector) + ")?.click() ?? false"@
}

/// The expression that types a text into what a selector finds.
pub open spec fn type_expression(selector: Seq<char>, typed: Seq<char>) -> Seq<char> {
    "(() => { const element = document.querySelector("@ + json::json_string(selector)
        + "); if (!element) return false; element.focus(); element.value = "@ + json::json_string(
        typed,
    )
        + "; element.dispatchEvent(new Event('input', {bubbles:true})); element.dispatchEvent(new Event('change', {bubbles:true})); return true })()"@
}

/// Whether an action opens an address.
pub open spec fn opens_address(action: Seq<char>) -> bool {
    action == "navigate"@ || action == "open"@
}

/// The request for a browser action, where a URL parser says `url` of the argument `url`.
pub open spec fn browser_call(
    action: Seq<char>,
    arguments: Seq<json::MemberView>,
    url: Result<config::UrlView, Seq<char>>,
) -> Result<CdpView, tools::ToolErrorView> {
    let selector = tools::text_argument(arguments, "selector"@);
    let typed = tools::text_argument(arguments, "text"@);
    if opens_address(action) {
        match (tools::text_argument(arguments, "url"@), web_address(url)) {
            (Err(error), _) => Err(error),
            (Ok(_), Err(error)) => Err(error),
            (Ok(_), Ok(address)) => Ok(
                CdpView { method: "Page.navigate"@, params: ParamsView::Url(address) },
            ),
        }
    } else if action == "evaluate"@ {
        match typed {
            Ok(typed) => Ok(evaluation(typed)),
            Err(error) => Err(error),
        }
    } else if action == "click"@ {
        match selector {
            Ok(selector) => Ok(evaluation(click_expression(selector))),
            Err(error) => Err(error),
        }
    } else if action == "type"@ {
        match (selector, typed) {
            (Err(error), _) => Err(error),
            (Ok(_), Err(error)) => Err(error),
            (Ok(selector), Ok(typed)) => Ok(evaluation(type_expression(selector, typed))),
        }
    } else if action == "screenshot"@ {
        Ok(CdpView { method: "Page.captureScreenshot"@, params: ParamsView::Format("png"@) })
    } else {
        Err(tools::ToolErrorView::UnsupportedBrowserAction(action))
    }
}

fn evaluate(expression: String) -> (r: CdpCall)
    ensures
        r@ == evaluation(expression@),
{
    CdpCall { method: "Runtime.evaluate".to_owned(), params: CdpParams::Expression(expression) }
}

fn clicking(selector: &str) -> (r: String)
    ensures
        r@ == click_expression(selector@),
{
    let quoted = json::json_quoted(selector);
    let mut expression = "document.querySelector(".to_owned();
    expression.append(quoted.as_str());
    expression.append(")?.click() ?? false");
    expression
}

fn typing(selector: &str, typed: &str) -> (r: String)
    ensures
        r@ == type_expression(selector@, typed@),
{
    let quoted = json::json_quoted(selector);
    let value = json::json_quoted(typed);
    let mut expression = "(() => { const element = document.querySelector(".to_owned();
    expression.append(quoted.as_str());
    expression.append("); if (!element) return false; element.focus(); element.value = ");
    expression.append(value.as_str());
    expression.append(
        "; element.dispatchEvent(new Event('input', {bubbles:true})); element.dispatchEvent(new Event('change', {bubbles:true})); return true })()",
    );
    expression
}

fn navigates(action: &str) -> (r: bool)
    ensures
        r == opens_address(action@),
{
    text::same(action, "navigate") || text::same(action, "open")
}

/// The request for a browser action, given what a URL parser says of the argument `url`.
pub fn plan_browsing(action: &str, arguments: &Vec<Member>, url: Result<ParsedUrl, String>) -> (r:
    Result<CdpCall, ToolError>)
    ensures
        cdp_verdict(r) == browser_call(
            action@,
            json::members(arguments@),
            config::url_answer(url),
        ),
{
    if navigates(action) {
        match tools::required_string(arguments, "url") {
            Ok(_) => match check_url(url) {
                Ok(address) => Ok(
                    CdpCall { method: "Page.navigate".to_owned(), params: CdpParams::Url(address) },
                ),
                Err(error) => Err(error),
            },
            Err(error) => Err(error),
        }
    } else if text::same(action, "evaluate") {
        match tools::required_string(arguments, "text") {
            Ok(typed) => Ok(evaluate(typed)),
            Err(error) => Err(error),
        }
    } else if text::same(action, "click") {
        match tools::required_string(arguments, "selector") {
            Ok(selector) => Ok(evaluate(clicking(selector.as_str()))),
            Err(error) => Err(error),
        }
    } else if text::same(action, "type") {
        let selector = match tools::required_string(arguments, "selector") {
            Ok(selector) => selector,
            Err(error) => return Err(error),
        };
        match tools::required_string(arguments, "text") {
            Ok(typed) => Ok(evaluate(typing(selector.as_str(), typed.as_str()))),
            Err(error) => Err(error),
        }
    } else if text::same(action, "screenshot") {
        Ok(
            CdpCall {
                method: "Page.captureScreenshot".to_owned(),
                params: CdpParams::Format("png".to_owned()),
            },
        )
    } else {
        Err(ToolError::UnsupportedBrowserAction(action.to_owned()))
    }
}

/// What a URL parser says of the argument `url`, where there is one.
pub open spec fn parsed_argument(arguments: Seq<json::MemberView>) -> Result<
    config::UrlView,
    Seq<char>,
> {
    match tools::text_argument(arguments, "url"@) {
        Ok(url) => config::parsed_url(url),
        Err(_) => Err(seq![]),
    }
}

/// The request for a browser action with arguments that are read as `object`, or cannot be read.
pub open spec fn browsing(action: Seq<char>, object: Option<Seq<json::MemberView>>) -> Result<
    CdpView,
    tools::ToolErrorView,
> {
    match object {
        Some(arguments) => browser_call(action, arguments, parsed_argument(arguments)),
        None => Err(tools::ToolErrorView::MalformedArguments),
    }
}

/// The request for a browser action with the given arguments, which are JSON.
pub fn browser_control(action: &str, arguments: &str) -> (r: Result<CdpCall, ToolError>)
    ensures
        cdp_verdict(r) == browsing(action@, json::json_object(arguments@)),
{
    let arguments = match json::read_object(arguments) {
        Some(arguments) => arguments,
        None => return Err(ToolError::MalformedArguments),
    };
    let url = match tools::required_string(&arguments, "url") {
        Ok(url) => config::parse_url(url.as_str()),
        Err(_) => {
            let reason = String::new();
            assert(reason@ =~= seq![]);
            Err(reason)
        },
    };
    plan_browsing(action, &arguments, url)
}

/// Only web addresses are ever opened.
pub proof fn only_web_addresses_are_opened(
    action: Seq<char>,
    arguments: Seq<json::MemberView>,
    url: Result<config::UrlView, Seq<char>>,
)
    requires
        browser_call(action, arguments, url) is Ok,
        browser_call(action, arguments, url)->Ok_0.params is Url,
    ensures
        url is Ok,
        url->Ok_0.scheme == "http"@ || url->Ok_0.scheme == "https"@,
        browser_call(action, arguments, url)->Ok_0.params == ParamsView::Url(url->Ok_0.text),
{
}

/// The parameters of a request as compact JSON.
pub open spec fn params_json(params: ParamsView) -> Seq<char> {
    match params {
        ParamsView::Url(url) => "{\"url\":"@ + json::json_string(url) + "}"@,
        ParamsView::Expression(expression) => "{\"expression\":"@ + json::json_string(expression)
            + ",\"returnByValue\":true}"@,
        ParamsView::Format(format) => "{\"format\":"@ + json::json_string(format) + "}"@,
    }
}

/// The message that carries a request to the browser, as compact JSON. Its number is always 1.
pub open spec fn request_json(call: CdpView) -> Seq<char> {
    "{\"id\":1,\"method\":"@ + json::json_string(call.method) + ",\"params\":"@ + params_json(
        call.params,
    ) + "}"@
}

fn params_text(params: &CdpParams) -> (r: String)
    ensures
        r@ == params_json(params@),
{
    match params {
        CdpParams::Url(url) => {
            let quoted = json::json_quoted(url.as_str());
            let mut json = "{\"url\":".to_owned();
            json.append(quoted.as_str());
            json.append("}");
            json
        },
        CdpParams::Expression(expression) => {
            let quoted = json::json_quoted(expression.as_str());
            let mut json = "{\"expression\":".to_owned();
            json.append(quoted.as_str());
            json.append(",\"returnByValue\":true}");
            json
        },
        CdpParams::Format(format) => {
            let quoted = json::json_quoted(format.as_str());
            let mut json = "{\"format\":".to_owned();
            json.append(quoted.as_str());
            json.append("}");
            json
        },
    }
}

/// The message that carries a request to the browser.
pub fn request_text(call: &CdpCall) -> (r: String)
    ensures
        r@ == request_json(call@),
{
    let method = json::json_quoted(call.method.as_str());
    let params = params_text(&call.params);
    let mut json = "{\"id\":1,\"method\":".to_owned();
    json.append(method.as_str());
    json.append(",\"params\":");
    json.append(params.as_str());
    json.append("}");
    json
}

/// What a message of the browser means for the request that waits for its answer.
pub enum CdpStep {
    /// The message is about something else.
    Ignore,
    /// The request failed, for the given reason.
    Failed(String),
    /// The request succeeded, with a result in JSON.
    Done(String),
}

/// The contents of a [`CdpStep`].
pub enum CdpStepView {
    Ignore,
    Failed(Seq<char>),
    Done(Seq<char>),
}

impl View for CdpStep {
    type V = CdpStepView;

    open spec fn view(&self) -> CdpStepView {
        match self {
            CdpStep::Ignore => CdpStepView::Ignore,
            CdpStep::Failed(error) => CdpStepView::Failed(error@),
            CdpStep::Done(result) => CdpStepView::Done(result@),
        }
    }
}

/// What a message means: an answer to the request carries its number, which is always 1.
pub open spec fn reply(message: Seq<json::MemberView>) -> CdpStepView {
    let answers = match json::member(message, "id"@) {
        Some(id) => id.integer == Some(1i64),
        None => false,
    };
    if !answers {
        CdpStepView::Ignore
    } else {
        match json::member(message, "error"@) {
            Some(error) => CdpStepView::Failed("Browser Control failed: "@ + error.json),
            None => match json::member(message, "result"@) {
                Some(result) => CdpStepView::Done(result.json),
                None => CdpStepView::Done("{}"@),
            },
        }
    }
}

/// What a message means, given its members.
pub fn judge_reply(message: &Vec<Member>) -> (r: CdpStep)
    ensures
        r@ == reply(json::members(message@)),
{
    let answers = match json::find_member(message, "id") {
        Some(i) => match message[i].integer {
            Some(id) => id == 1,
            None => false,
        },
        None => false,
    };
    if !answers {
        return CdpStep::Ignore;
    }
    match json::find_member(message, "error") {
        Some(i) => {
            let mut failure = "Browser Control failed: ".to_owned();
            failure.append(message[i].json.as_str());
            CdpStep::Failed(failure)
        },
        None => match json::find_member(message, "result") {
            Some(i) => CdpStep::Done(message[i].json.clone()),
            None => CdpStep::Done("{}".to_owned()),
        },
    }
}

/// What comes of waiting for an answer: `message` is a message that is read as `object`, or the
/// connection was closed. There is nothing to say of a message that is not JSON.
pub open spec fn awaited(
    message: Option<Seq<char>>,
    object: Option<Seq<json::MemberView>>,
) -> Option<CdpStepView> {
    match (message, object) {
        (None, _) => Some(
            CdpStepView::Failed("Browser Control connection closed without a response"@),
        ),
        (Some(_), Some(members)) => Some(reply(members)),
        (Some(_), None) => None,
    }
}

/// What the next message of the browser means, or the end of the connection. There is no answer
/// where the message is not JSON.
pub fn cdp(message: Option<&str>) -> (r: Option<CdpStep>)
    ensures
        ({
            let object = match message {
                Some(message) => json::json_object(message@),
                None => None,
            };
            match r {
                Some(step) => awaited(text::optional(message), object) == Some(step@),
                None => awaited(text::optional(message), object) is None,
            }
        }),
{
    match message {
        Some(message) => match json::read_object(message) {
            Some(members) => Some(judge_reply(&members)),
            None => None,
        },
        None => Some(
            CdpStep::Failed("Browser Control connection closed without a response".to_owned()),
        ),
    }
}

/// A message that does not carry the number of the request never ends it.
pub proof fn foreign_messages_are_ignored(message: Seq<json::MemberView>)
    requires
        json::member(message, "id"@) matches Some(id) ==> id.integer != Some(1i64),
    ensures
        reply(message) is Ignore,
{
}

/// Something that the browser's DevTools can be attached to.
pub struct DevtoolsTarget {
    pub websocket_url: Option<String>,
    pub target_type: String,
}

/// What the controller is told where the browser has no page that can be controlled.
pub const NO_PAGE: &'static str = "browser has no page target";

/// Whether a target is a page that can be controlled.
pub open spec fn is_page(target: DevtoolsTarget) -> bool {
    target.target_type@ == "page"@ && target.websocket_url is Some
}

/// The first page that can be controlled.
pub fn devtools_target(targets: &Vec<DevtoolsTarget>) -> (r: Option<usize>)
    ensures
        match r {
            Some(index) => {
                &&& index < targets@.len()
                &&& is_page(targets@[index as int])
                &&& forall|k: int| 0 <= k < index ==> !is_page(#[trigger] targets@[k])
            },
            None => forall|k: int| 0 <= k < targets@.len() ==> !is_page(#[trigger] targets@[k]),
        },
{
    let mut i: usize = 0;
    while i < targets.len()
        invariant
            i <= targets@.len(),
            forall|k: int| 0 <= k < i ==> !is_page(#[trigger] targets@[k]),
        decreases targets@.len() - i,
    {
        if text::same(targets[i].target_type.as_str(), "page")
            && targets[i].websocket_url.is_some() {
            return Some(i);
        }
        i = i + 1;
    }
    None
}

/// A place where a browser may be installed.
pub struct Candidate {
    /// The program directory below which it stands, by its index, or none for an absolute path.
    pub root: Option<usize>,
    pub path: String,
}

/// The contents of a [`Candidate`].
pub struct CandidateView {
    pub root: Option<usize>,
    pub path: Seq<char>,
}

impl View for Candidate {
    type V = CandidateView;

    open spec fn view(&self) -> CandidateView {
        CandidateView { root: self.root, path: self.path@ }
    }
}

/// The contents of each candidate.
pub open spec fn candidates(list: Seq<Candidate>) -> Seq<CandidateView> {
    Seq::new(list.len(), |i: int| list[i]@)
}

/// Candidates at absolute paths.
pub open spec fn absolute(paths: Seq<Seq<char>>) -> Seq<CandidateView> {
    Seq::new(paths.len(), |i: int| CandidateView { root: None, path: paths[i] })
}

/// The environment variables that name the program directories of Windows, in order.
pub open spec fn program_directories() -> Seq<Seq<char>> {
    seq!["PROGRAMFILES"@, "PROGRAMFILES(X86)"@, "LOCALAPPDATA"@]
}

/// The browsers that are looked for below each of the first `roots` program directories.
pub open spec fn windows_browsers(roots: nat) -> Seq<CandidateView>
    decreases roots,
{
    if roots == 0 {
        seq![]
    } else {
        let root = Some((roots - 1) as usize);
        windows_browsers((roots - 1) as nat) + seq![
            CandidateView { root, path: "Google/Chrome/Application/chrome.exe"@ },
            CandidateView { root, path: "Microsoft/Edge/Application/msedge.exe"@ },
            CandidateView { root, path: "Chromium/Application/chrome.exe"@ },
        ]
    }
}

/// Where a browser is looked for, in order of preference.
pub open spec fn browsers(os: Os, roots: nat) -> Seq<CandidateView> {
    match os {
        Os::Macos => absolute(
            seq![
                "/Applications/Google Chrome.app/Contents/MacOS/Google Chrome"@,
                "/Applications/Chromium.app/Contents/MacOS/Chromium"@,
                "/Applications/Microsoft Edge.app/Contents/MacOS/Microsoft Edge"@,
            ],
        ),
        Os::Windows => windows_browsers(roots),
        _ => absolute(
            seq![
                "/usr/bin/google-chrome"@,
                "/usr/bin/google-chrome-stable"@,
                "/usr/bin/chromium"@,
                "/usr/bin/chromium-browser"@,
                "/usr/bin/microsoft-edge"@,
            ],
        ),
    }
}

/// The environment variables that name the program directories of Windows, in order.
pub fn program_roots() -> (r: Vec<String>)
    ensures
        text::texts(r@) == program_directories(),
{
    let mut names: Vec<String> = Vec::new();
    names.push("PROGRAMFILES".to_owned());
    names.push("PROGRAMFILES(X86)".to_owned());
    names.push("LOCALAPPDATA".to_owned());
    assert(text::texts(names@) =~= program_directories());
    names
}

fn at(path: &str) -> (r: Candidate)
    ensures
        r@ == (CandidateView { root: None, path: path@ }),
{
    Candidate { root: None, path: path.to_owned() }
}

fn below(root: usize, path: &str) -> (r: Candidate)
    ensures
        r@ == (CandidateView { root: Some(root), path: path@ }),
{
    Candidate { root: Some(root), path: path.to_owned() }
}

/// Where a browser is looked for, in order of preference, given how many program directories the
/// system names.
pub fn chromium_executable(os: Os, roots: usize) -> (r: Vec<Candidate>)
    ensures
        candidates(r@) == browsers(os, roots as nat),
{
    let mut list: Vec<Candidate> = Vec::new();
    match os {
        Os::Macos => {
            list.push(at("/Applications/Google Chrome.app/Contents/MacOS/Google Chrome"));
            list.push(at("/Applications/Chromium.app/Contents/MacOS/Chromium"));
            list.push(at("/Applications/Microsoft Edge.app/Contents/MacOS/Microsoft Edge"));
        },
        Os::Windows => {
            let mut root: usize = 0;
            assert(candidates(list@) =~= windows_browsers(0));
            while root < roots
                invariant
                    root <= roots,
                    candidates(list@) == windows_browsers(root as nat),
                decreases roots - root,
            {
                list.push(below(root, "Google/Chrome/Application/chrome.exe"));
                list.push(below(root, "Microsoft/Edge/Application/msedge.exe"));
                list.push(below(root, "Chromium/Application/chrome.exe"));
                assert(candidates(list@) =~= windows_browsers((root + 1) as nat));
                root = root + 1;
            }
        },
        _ => {
            list.push(at("/usr/bin/google-chrome"));
            list.push(at("/usr/bin/google-chrome-stable"));
            list.push(at("/usr/bin/chromium"));
            list.push(at("/usr/bin/chromium-browser"));
            list.push(at("/usr/bin/microsoft-edge"));
        },
    }
    assert(candidates(list@) =~= browsers(os, roots as nat));
    list
}

/// The first candidate that is installed, given for each in turn whether it is.
pub fn first_installed(present: &Vec<bool>) -> (r: Option<usize>)
    ensures
        match r {
            Some(index) => index < present@.len() && present@[index as int] && forall|k: int|
                0 <= k < index ==> !#[trigger] present@[k],
            None => forall|k: int| 0 <= k < present@.len() ==> !#[trigger] present@[k],
        },
{
    let mut i: usize = 0;
    while i < present.len()
        invariant
            i <= present@.len(),
            forall|k: int| 0 <= k < i ==> !#[trigger] present@[k],
        decreases present@.len() - i,
    {
        if present[i] {
            return Some(i);
        }
        i = i + 1;
    }
    None
}

/// The browser that is used: the first of the places where one is looked for that `present` says has
/// one. A place of which it says nothing has none.
pub fn installed_browser(os: Os, roots: usize, present: &Vec<bool>) -> (r: Option<Candidate>)
    ensures
        match r {
            Some(candidate) => exists|i: int|
                {
                    &&& 0 <= i < present@.len()
                    &&& i < browsers(os, roots as nat).len()
                    &&& #[trigger] present@[i]
                    &&& candidate@ == browsers(os, roots as nat)[i]
                    &&& forall|k: int| 0 <= k < i ==> !#[trigger] present@[k]
                },
            None => forall|k: int|
                0 <= k < present@.len() && k < browsers(os, roots as nat).len()
                    ==> !#[trigger] present@[k],
        },
{
    let mut list = chromium_executable(os, roots);
    let ghost all = candidates(list@);
    match first_installed(present) {
        Some(index) => {
            if index < list.len() {
                assert(all[index as int] == list@[index as int]@);
                let candidate = list.swap_remove(index);
                assert(present@[index as int] && candidate@ == browsers(os, roots as nat)[index as int]);
                Some(candidate)
            } else {
                None
            }
        },
        None => None,
    }
}

/// The arguments with which a browser is started on its own profile.
pub fn browser_arguments(profile: &str) -> (r: Vec<String>)
    ensures
        text::texts(r@) == seq![
            "--remote-debugging-port=9222"@,
            "--remote-allow-origins=*"@,
            "--user-data-dir="@ + profile@,
            "about:blank"@,
        ],
{
    let mut directory = "--user-data-dir=".to_owned();
    directory.append(profile);
    let mut arguments: Vec<String> = Vec::new();
    arguments.push("--remote-debugging-port=9222".to_owned());
    arguments.push("--remote-allow-origins=*".to_owned());
    arguments.push(directory);
    arguments.push("about:blank".to_owned());
    assert(text::texts(arguments@) =~= seq![
        "--remote-debugging-port=9222"@,
        "--remote-allow-origins=*"@,
        "--user-data-dir="@ + profile@,
        "about:blank"@,
    ]);
    arguments
}

/// How often a browser that was started is asked for its DevTools.
pub const BROWSER_POLLS: u32 = 20;

/// Milliseconds between two such questions.
pub const BROWSER_POLL_MILLISECONDS: u64 = 250;

/// How far the start of a browser has come.
#[derive(Clone, Copy, PartialEq, Eq, Structural)]
pub enum BrowserPhase {
    /// Nothing has been started yet.
    Unknown,
    /// A browser was started and has been asked in vain so many times.
    Started(u32),
}

/// What to do about a browser.
#[derive(Clone, Copy, PartialEq, Eq, Structural)]
pub enum BrowserStep {
    Ready,
    /// No browser is installed.
    Missing,
    Launch,
    Wait,
    /// The browser does not offer its DevTools.
    Unresponsive,
}

impl BrowserStep {
    /// What the controller is told where the browser cannot be used.
    pub fn message(&self) -> (r: Option<String>)
        ensures
            match self {
                BrowserStep::Missing => r matches Some(message) && message@
                    == "could not find Chromium, Chrome, or Edge"@,
                BrowserStep::Unresponsive => r matches Some(message) && message@
                    == "Chromium did not expose its DevTools endpoint"@,
                _ => r is None,
            },
    {
        match self {
            BrowserStep::Missing => Some("could not find Chromium, Chrome, or Edge".to_owned()),
            BrowserStep::Unresponsive => Some(
                "Chromium did not expose its DevTools endpoint".to_owned(),
            ),
            _ => None,
        }
    }
}

/// What to do about a browser, given whether its DevTools answered and whether one is installed:
/// a running browser is used, else one is started and asked twenty times.
pub open spec fn browser_decision(phase: BrowserPhase, reachable: bool, installed: bool) -> (
    BrowserPhase,
    BrowserStep,
) {
    match phase {
        BrowserPhase::Unknown => if reachable {
            (phase, BrowserStep::Ready)
        } else if !installed {
            (phase, BrowserStep::Missing)
        } else {
            (BrowserPhase::Started(0), BrowserStep::Launch)
        },
        BrowserPhase::Started(polls) => if polls >= BROWSER_POLLS {
            (phase, BrowserStep::Unresponsive)
        } else if reachable {
            (phase, BrowserStep::Ready)
        } else {
            (BrowserPhase::Started((polls + 1) as u32), BrowserStep::Wait)
        },
    }
}

/// Decides what to do about a browser.
pub fn ensure_browser(phase: BrowserPhase, reachable: bool, installed: bool) -> (r: (
    BrowserPhase,
    BrowserStep,
))
    ensures
        r == browser_decision(phase, reachable, installed),
{
    match phase {
        BrowserPhase::Unknown => if reachable {
            (phase, BrowserStep::Ready)
        } else if !installed {
            (phase, BrowserStep::Missing)
        } else {
            (BrowserPhase::Started(0), BrowserStep::Launch)
        },
        BrowserPhase::Started(polls) => if polls >= BROWSER_POLLS {
            (phase, BrowserStep::Unresponsive)
        } else if reachable {
            (phase, BrowserStep::Ready)
        } else {
            (BrowserPhase::Started(polls + 1), BrowserStep::Wait)
        },
    }
}

/// Every web address is opened in its normal form, and an address that is none, or is no web
/// address, is refused.
pub proof fn web_addresses_are_opened(url: config::UrlView, reason: Seq<char>)
    ensures
        url.scheme == "http"@ || url.scheme == "https"@ ==> web_address(Ok(url)) == Ok::<
            Seq<char>,
            tools::ToolErrorView,
        >(url.text),
        url.scheme != "http"@ && url.scheme != "https"@ ==> web_address(Ok(url)) == Err::<
            Seq<char>,
            tools::ToolErrorView,
        >(tools::ToolErrorView::UnsupportedScheme),
        web_address(Err(reason)) == Err::<Seq<char>, tools::ToolErrorView>(
            tools::ToolErrorView::InvalidUrl(reason),
        ),
{
}

proof fn lemma_actions_differ()
    ensures
        "evaluate"@ != "navigate"@ && "evaluate"@ != "open"@,
        "click"@ != "navigate"@ && "click"@ != "open"@ && "click"@ != "evaluate"@,
        "type"@ != "navigate"@ && "type"@ != "open"@ && "type"@ != "evaluate"@ && "type"@ != "click"@,
        "screenshot"@ != "navigate"@ && "screenshot"@ != "open"@ && "screenshot"@ != "evaluate"@
            && "screenshot"@ != "click"@ && "screenshot"@ != "type"@,
{
    reveal_strlit("navigate");
    reveal_strlit("open");
    reveal_strlit("evaluate");
    reveal_strlit("click");
    reveal_strlit("type");
    reveal_strlit("screenshot");
    assert("navigate"@[0] == 'n' && "open"@[0] == 'o' && "evaluate"@[0] == 'e' && "click"@[0] == 'c'
        && "type"@[0] == 't' && "screenshot"@[0] == 's');
}

/// Opening an address asks the browser for a page at that address, by either name of the action.
pub proof fn pages_are_opened(
    arguments: Seq<json::MemberView>,
    address: Seq<char>,
    url: Result<config::UrlView, Seq<char>>,
)
    requires
        json::member(arguments, "url"@) matches Some(member) && member.text == Some(address),
        address.len() > 0,
    ensures
        browser_call("open"@, arguments, url) == browser_call("navigate"@, arguments, url),
        match web_address(url) {
            Ok(normal) => browser_call("navigate"@, arguments, url) matches Ok(call) && call.method
                == "Page.navigate"@ && call.params == ParamsView::Url(normal),
            Err(error) => browser_call("navigate"@, arguments, url) == Err::<
                CdpView,
                tools::ToolErrorView,
            >(error),
        },
        parsed_argument(arguments) == config::parsed_url(address),
        browsing("navigate"@, Some(arguments)) == browser_call(
            "navigate"@,
            arguments,
            config::parsed_url(address),
        ),
{
}

/// An expression is evaluated in the page exactly as it stands in the call.
pub proof fn expressions_are_evaluated_as_given(
    arguments: Seq<json::MemberView>,
    expression: Seq<char>,
    url: Result<config::UrlView, Seq<char>>,
)
    requires
        json::member(arguments, "text"@) matches Some(member) && member.text == Some(expression),
        expression.len() > 0,
    ensures
        browser_call("evaluate"@, arguments, url) matches Ok(call) && call.method
            == "Runtime.evaluate"@ && call.params == ParamsView::Expression(expression),
{
    lemma_actions_differ();
}

/// A click evaluates an expression that finds what the whole selector finds and clicks it.
pub proof fn clicks_use_their_selector(
    arguments: Seq<json::MemberView>,
    selector: Seq<char>,
    url: Result<config::UrlView, Seq<char>>,
)
    requires
        json::member(arguments, "selector"@) matches Some(member) && member.text == Some(selector),
        selector.len() > 0,
    ensures
        browser_call("click"@, arguments, url) matches Ok(call) && call.method
            == "Runtime.evaluate"@ && (call.params matches ParamsView::Expression(expression)
            && text::after_prefix(expression, "document.querySelector("@ + json::json_string(selector))
            == Some(")?.click() ?? false"@)),
{
    lemma_actions_differ();
    text::prefix_and_rest_make_the_text(
        click_expression(selector),
        "document.querySelector("@ + json::json_string(selector),
        ")?.click() ?? false"@,
    );
}

/// Typing evaluates an expression that finds what the whole selector finds and sets its value to the
/// whole text.
pub proof fn typing_uses_selector_and_text(
    arguments: Seq<json::MemberView>,
    selector: Seq<char>,
    typed: Seq<char>,
    url: Result<config::UrlView, Seq<char>>,
)
    requires
        json::member(arguments, "selector"@) matches Some(member) && member.text == Some(selector),
        selector.len() > 0,
        json::member(arguments, "text"@) matches Some(member) && member.text == Some(typed),
        typed.len() > 0,
    ensures
        browser_call("type"@, arguments, url) matches Ok(call) && call.method
            == "Runtime.evaluate"@ && (call.params matches ParamsView::Expression(expression)
            && text::after_prefix(
            expression,
            "(() => { const element = document.querySelector("@ + json::json_string(selector)
                + "); if (!element) return false; element.focus(); element.value = "@
                + json::json_string(typed),
        ) == Some(
            "; element.dispatchEvent(new Event('input', {bubbles:true})); element.dispatchEvent(new Event('change', {bubbles:true})); return true })()"@,
        )),
{
    lemma_actions_differ();
    text::prefix_and_rest_make_the_text(
        type_expression(selector, typed),
        "(() => { const element = document.querySelector("@ + json::json_string(selector)
            + "); if (!element) return false; element.focus(); element.value = "@
            + json::json_string(typed),
        "; element.dispatchEvent(new Event('input', {bubbles:true})); element.dispatchEvent(new Event('change', {bubbles:true})); return true })()"@,
    );
}

/// A screenshot needs no argument, no other action is known, and an action without what it needs is
/// refused by the name of the first thing that is missing.
pub proof fn incomplete_browsing_is_refused(
    action: Seq<char>,
    arguments: Seq<json::MemberView>,
    url: Result<config::UrlView, Seq<char>>,
)
    ensures
        browser_call("screenshot"@, arguments, url) matches Ok(call) && call.method
            == "Page.captureScreenshot"@ && call.params == ParamsView::Format("png"@),
        action != "navigate"@ && action != "open"@ && action != "evaluate"@ && action != "click"@
            && action != "type"@ && action != "screenshot"@ ==> browser_call(action, arguments, url)
            == Err::<CdpView, tools::ToolErrorView>(
            tools::ToolErrorView::UnsupportedBrowserAction(action),
        ),
        json::member(arguments, "url"@) is None ==> browser_call("navigate"@, arguments, url) == Err::<
            CdpView,
            tools::ToolErrorView,
        >(tools::ToolErrorView::Required("url"@)) && browser_call("open"@, arguments, url) == Err::<
            CdpView,
            tools::ToolErrorView,
        >(tools::ToolErrorView::Required("url"@)),
        json::member(arguments, "text"@) is None ==> browser_call("evaluate"@, arguments, url)
            == Err::<CdpView, tools::ToolErrorView>(tools::ToolErrorView::Required("text"@)),
        json::member(arguments, "selector"@) is None ==> browser_call("click"@, arguments, url)
            == Err::<CdpView, tools::ToolErrorView>(tools::ToolErrorView::Required("selector"@))
            && browser_call("type"@, arguments, url) == Err::<CdpView, tools::ToolErrorView>(
            tools::ToolErrorView::Required("selector"@),
        ),
        (json::member(arguments, "selector"@) matches Some(member) && (member.text matches Some(selector)
            && selector.len() > 0)) && json::member(arguments, "text"@) is None ==> browser_call(
            "type"@,
            arguments,
            url,
        ) == Err::<CdpView, tools::ToolErrorView>(tools::ToolErrorView::Required("text"@)),
        browsing(action, None) == Err::<CdpView, tools::ToolErrorView>(
            tools::ToolErrorView::MalformedArguments,
        ),
        browsing(action, Some(arguments)) == browser_call(
            action,
            arguments,
            parsed_argument(arguments),
        ),
{
    lemma_actions_differ();
}

/// A message to the browser carries the number 1, the method and the parameters, each as it stands.
pub proof fn requests_carry_their_call(call: CdpView, value: Seq<char>)
    ensures
        text::after_prefix(
            request_json(call),
            "{\"id\":1,\"method\":"@ + json::json_string(call.method) + ",\"params\":"@,
        ) == Some(params_json(call.params) + "}"@),
        params_json(ParamsView::Url(value)) == "{\"url\":"@ + json::json_string(value) + "}"@,
        text::after_prefix(
            params_json(ParamsView::Expression(value)),
            "{\"expression\":"@ + json::json_string(value),
        ) == Some(",\"returnByValue\":true}"@),
        params_json(ParamsView::Format(value)) == "{\"format\":"@ + json::json_string(value) + "}"@,
{
    let front = "{\"id\":1,\"method\":"@ + json::json_string(call.method) + ",\"params\":"@;
    assert(request_json(call) =~= front + (params_json(call.params) + "}"@));
    text::prefix_and_rest_make_the_text(
        request_json(call),
        front,
        params_json(call.params) + "}"@,
    );
    text::prefix_and_rest_make_the_text(
        params_json(ParamsView::Expression(value)),
        "{\"expression\":"@ + json::json_string(value),
        ",\"returnByValue\":true}"@,
    );
}

/// Two different calls never make the same message.
#[verifier::rlimit(40)]
pub proof fn requests_are_told_apart(a: CdpView, b: CdpView)
    requires
        request_json(a) == request_json(b),
    ensures
        a == b,
{
    let open = "{\"id\":1,\"method\":"@ + seq!['"'];
    let x = ",\"params\":"@ + params_json(a.params) + "}"@;
    let y = ",\"params\":"@ + params_json(b.params) + "}"@;
    assert(request_json(a) =~= open + (json::json_escaped(a.method) + seq!['"'] + x));
    assert(request_json(b) =~= open + (json::json_escaped(b.method) + seq!['"'] + y));
    let n = open.len() as int;
    assert(json::json_escaped(a.method) + seq!['"'] + x =~= request_json(a).skip(n));
    assert(json::json_escaped(b.method) + seq!['"'] + y =~= request_json(b).skip(n));
    json::quoted_texts_are_told_apart(a.method, b.method, x, y);
    let m = ",\"params\":"@.len() as int;
    assert(params_json(a.params) + "}"@ =~= x.skip(m));
    assert(params_json(b.params) + "}"@ =~= y.skip(m));
    reveal_strlit("}");
    assert(params_json(a.params) =~= x.skip(m).drop_last());
    assert(params_json(b.params) =~= y.skip(m).drop_last());
    lemma_params_are_told_apart(a.params, b.params);
}

spec fn params_value(params: ParamsView) -> Seq<char> {
    match params {
        ParamsView::Url(url) => url,
        ParamsView::Expression(expression) => expression,
        ParamsView::Format(format) => format,
    }
}

spec fn params_open(params: ParamsView) -> Seq<char> {
    match params {
        ParamsView::Url(_) => "{\"url\":"@,
        ParamsView::Expression(_) => "{\"expression\":"@,
        ParamsView::Format(_) => "{\"format\":"@,
    }
}

#[verifier::rlimit(40)]
proof fn lemma_params_are_told_apart(a: ParamsView, b: ParamsView)
    requires
        params_json(a) == params_json(b),
    ensures
        a == b,
{
    reveal_strlit("{\"url\":");
    reveal_strlit("{\"expression\":");
    reveal_strlit("{\"format\":");
    let p = params_json(a);
    let q = params_json(b);
    assert(p[2] == params_open(a)[2]);
    assert(q[2] == params_open(b)[2]);
    assert(params_open(a) == params_open(b));
    let n = params_open(a).len() as int + 1;
    let x = if a is Expression {
        ",\"returnByValue\":true}"@
    } else {
        "}"@
    };
    assert(p.skip(n) =~= json::json_escaped(params_value(a)) + seq!['"'] + x);
    assert(q.skip(n) =~= json::json_escaped(params_value(b)) + seq!['"'] + x);
    json::quoted_texts_are_told_apart(params_value(a), params_value(b), x, x);
}

/// The answer to the request ends it: with the error that it reports, in full, else with its result,
/// which is empty where it has none.
pub proof fn answers_end_the_request(message: Seq<json::MemberView>)
    requires
        json::member(message, "id"@) matches Some(id) && id.integer == Some(1i64),
    ensures
        json::member(message, "error"@) matches Some(error) ==> reply(message)
            == CdpStepView::Failed("Browser Control failed: "@ + error.json),
        json::member(message, "error"@) is None ==> (json::member(message, "result"@) matches Some(
            result,
        ) ==> reply(message) == CdpStepView::Done(result.json)),
        json::member(message, "error"@) is None && json::member(message, "result"@) is None ==> reply(
            message,
        ) == CdpStepView::Done("{}"@),
{
}

/// A connection that is closed fails the request, a message is judged by its members, and one that
/// is no JSON object says nothing.
pub proof fn messages_are_awaited(
    message: Seq<char>,
    members: Seq<json::MemberView>,
    object: Option<Seq<json::MemberView>>,
)
    ensures
        awaited(None, object) == Some(
            CdpStepView::Failed("Browser Control connection closed without a response"@),
        ),
        awaited(Some(message), Some(members)) == Some(reply(members)),
        awaited(Some(message), None) is None,
{
}

/// Pages that can be controlled are the targets of that kind with an address.
pub proof fn pages_have_an_address(target: DevtoolsTarget)
    ensures
        is_page(target) <==> target.target_type@ == "page"@ && target.websocket_url is Some,
{
}

/// On Windows each program directory is searched for Chrome, then Edge, then Chromium, one directory
/// behind the other; elsewhere browsers are looked for at absolute paths, Chrome first.
#[verifier::rlimit(40)]
pub proof fn browsers_are_looked_for_in_order(roots: nat, root: usize, os: Os, i: int)
    requires
        root < roots,
    ensures
        browsers(Os::Windows, roots).len() == 3 * roots,
        browsers(Os::Windows, roots)[3 * root as int] == (CandidateView {
            root: Some(root),
            path: "Google/Chrome/Application/chrome.exe"@,
        }),
        browsers(Os::Windows, roots)[3 * root as int + 1] == (CandidateView {
            root: Some(root),
            path: "Microsoft/Edge/Application/msedge.exe"@,
        }),
        browsers(Os::Windows, roots)[3 * root as int + 2] == (CandidateView {
            root: Some(root),
            path: "Chromium/Application/chrome.exe"@,
        }),
        os !is Windows && 0 <= i < browsers(os, roots).len() ==> browsers(os, roots)[i].root is None,
        os is Macos ==> browsers(os, roots).len() == 3 && browsers(os, roots)[0].path
            == "/Applications/Google Chrome.app/Contents/MacOS/Google Chrome"@ && browsers(
            os,
            roots,
        )[1].path == "/Applications/Chromium.app/Contents/MacOS/Chromium"@ && browsers(
            os,
            roots,
        )[2].path == "/Applications/Microsoft Edge.app/Contents/MacOS/Microsoft Edge"@,
        os !is Windows && os !is Macos ==> browsers(os, roots).len() == 5 && browsers(
            os,
            roots,
        )[0].path == "/usr/bin/google-chrome"@ && browsers(os, roots)[1].path
            == "/usr/bin/google-chrome-stable"@ && browsers(os, roots)[2].path
            == "/usr/bin/chromium"@ && browsers(os, roots)[3].path == "/usr/bin/chromium-browser"@
            && browsers(os, roots)[4].path == "/usr/bin/microsoft-edge"@,
    decreases roots,
{
    if root + 1 < roots {
        browsers_are_looked_for_in_order((roots - 1) as nat, root, os, i);
    } else {
        lemma_three_each((roots - 1) as nat);
    }
}

proof fn lemma_three_each(roots: nat)
    ensures
        windows_browsers(roots).len() == 3 * roots,
    decreases roots,
{
    if roots > 0 {
        lemma_three_each((roots - 1) as nat);
    }
}

/// A browser that answers is used as it is; one that does not is started where one is installed, and
/// then asked again twenty times, a quarter of a second apart, before it is given up.
pub proof fn browsers_are_waited_for(polls: u32, reachable: bool, installed: bool)
    ensures
        browser_decision(BrowserPhase::Unknown, true, installed).1 is Ready,
        browser_decision(BrowserPhase::Unknown, false, false).1 is Missing,
        browser_decision(BrowserPhase::Unknown, false, true) == (
            BrowserPhase::Started(0),
            BrowserStep::Launch,
        ),
        polls < 20 ==> browser_decision(BrowserPhase::Started(polls), true, installed).1 is Ready,
        polls < 20 ==> browser_decision(BrowserPhase::Started(polls), false, installed) == (
            BrowserPhase::Started((polls + 1) as u32),
            BrowserStep::Wait,
        ),
        polls >= 20 ==> browser_decision(
            BrowserPhase::Started(polls),
            reachable,
            installed,
        ).1 is Unresponsive,
{
}

/// Contracts speak of what requests, answers and candidates hold.
pub proof fn requests_are_taken_as_they_are(
    call: CdpCall,
    error: ToolError,
    value: String,
    list: Seq<Candidate>,
    paths: Seq<Seq<char>>,
    i: int,
)
    ensures
        call@.method == call.method@,
        call@.params == call.params@,
        CdpParams::Url(value)@ == ParamsView::Url(value@),
        CdpParams::Expression(value)@ == ParamsView::Expression(value@),
        CdpParams::Format(value)@ == ParamsView::Format(value@),
        cdp_verdict(Ok(call)) == Ok::<CdpView, tools::ToolErrorView>(call@),
        cdp_verdict(Err(error)) == Err::<CdpView, tools::ToolErrorView>(error@),
        CdpStep::Ignore@ is Ignore,
        CdpStep::Failed(value)@ == CdpStepView::Failed(value@),
        CdpStep::Done(value)@ == CdpStepView::Done(value@),
        candidates(list).len() == list.len(),
        0 <= i < list.len() ==> candidates(list)[i].root == list[i].root && candidates(list)[i].path
            == list[i].path@,
{
}

/// The program directories of Windows are named by three environment variables, that of the system's
/// own programs first and that of the user's last.
pub proof fn program_directories_are_named()
    ensures
        program_directories().len() == 3,
        program_directories()[0] == "PROGRAMFILES"@,
        program_directories()[1] == "PROGRAMFILES(X86)"@,
        program_directories()[2] == "LOCALAPPDATA"@,
{
}

} // verus!
