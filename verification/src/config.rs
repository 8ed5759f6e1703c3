//! The configuration of a worker and the addresses that follow from it.
use crate::text;
use vstd::prelude::*;

verus! {

/// Who the worker is and where its controller lives.
pub struct WorkerConfig {
    pub controller_url: String,
    pub user_id: String,
    pub machine_id: String,
    pub access_token: String,
}

/// The contents of a [`WorkerConfig`].
pub struct ConfigView {
    pub controller_url: Seq<char>,
    pub user_id: Seq<char>,
    pub machine_id: Seq<char>,
    pub access_token: Seq<char>,
}

impl View for WorkerConfig {
    type V = ConfigView;

    open spec fn view(&self) -> ConfigView {
        ConfigView {
            controller_url: self.controller_url@,
            user_id: self.user_id@,
            machine_id: self.machine_id@,
            access_token: self.access_token@,
        }
    }
}

/// What a URL parser finds in an address.
pub struct ParsedUrl {
    pub scheme: String,
    pub host: Option<String>,
    /// The address in its normal form.
    pub text: String,
}

/// The contents of a [`ParsedUrl`].
pub struct UrlView {
    pub scheme: Seq<char>,
    pub host: Option<Seq<char>>,
    pub text: Seq<char>,
}

impl View for ParsedUrl {
    type V = UrlView;

    open spec fn view(&self) -> UrlView {
        UrlView {
            scheme: self.scheme@,
            host: match self.host {
                Some(host) => Some(host@),
                None => None,
            },
            text: self.text@,
        }
    }
}

/// The contents of a parser's answer: a URL, or the reason why there is none.
pub open spec fn url_answer(answer: Result<ParsedUrl, String>) -> Result<UrlView, Seq<char>> {
    match answer {
        Ok(url) => Ok(url@),
        Err(reason) => Err(reason@),
    }
}

/// What `url::Url::parse` makes of a text: the URL, or the text of its error.
pub uninterp spec fn parsed_url(text: Seq<char>) -> Result<UrlView, Seq<char>>;

/// Calls `url::Url::parse` and hands out the scheme, the host and the normal form of the URL, or
/// the text of the error.
#[verifier::external_body]
pub(crate) fn parse_url(text: &str) -> (r: Result<ParsedUrl, String>)
    ensures
        url_answer(r) == parsed_url(text@),
{
    let url = url::Url::parse(text).map_err(|error| error.to_string())?;
    Ok(ParsedUrl {
        scheme: url.scheme().to_owned(),
        host: url.host_str().map(str::to_owned),
        text: url.into(),
    })
}

/// Why a configuration is refused.
pub enum ConfigError {
    /// The address of the controller is no URL, for the given reason.
    InvalidUrl(String),
    InsecureUrl,
    MissingUser,
    UnsupportedUser,
    MissingMachine,
    MissingToken,
}

/// The contents of a [`ConfigError`].
pub enum ConfigErrorView {
    InvalidUrl(Seq<char>),
    InsecureUrl,
    MissingUser,
    UnsupportedUser,
    MissingMachine,
    MissingToken,
}

impl View for ConfigError {
    type V = ConfigErrorView;

    open spec fn view(&self) -> ConfigErrorView {
        match self {
            ConfigError::InvalidUrl(reason) => ConfigErrorView::InvalidUrl(reason@),
            ConfigError::InsecureUrl => ConfigErrorView::InsecureUrl,
            ConfigError::MissingUser => ConfigErrorView::MissingUser,
            ConfigError::UnsupportedUser => ConfigErrorView::UnsupportedUser,
            ConfigError::MissingMachine => ConfigErrorView::MissingMachine,
            ConfigError::MissingToken => ConfigErrorView::MissingToken,
        }
    }
}

/// What the user is told of a refused configuration.
pub open spec fn config_message(error: ConfigErrorView) -> Seq<char> {
    match error {
        ConfigErrorView::InvalidUrl(_) => "controller_url must be an HTTPS URL"@,
        ConfigErrorView::InsecureUrl => "controller_url must use HTTPS"@,
        ConfigErrorView::MissingUser => "user_id is required"@,
        ConfigErrorView::UnsupportedUser => "user_id contains unsupported characters"@,
        ConfigErrorView::MissingMachine => "machine_id is required"@,
        ConfigErrorView::MissingToken => "access_token is required"@,
    }
}

impl ConfigError {
    /// What the user is told.
    pub fn message(&self) -> (r: String)
        ensures
            r@ == config_message(self@),
    {
        let message = match self {
            ConfigError::InvalidUrl(_) => "controller_url must be an HTTPS URL",
            ConfigError::InsecureUrl => "controller_url must use HTTPS",
            ConfigError::MissingUser => "user_id is required",
            ConfigError::UnsupportedUser => "user_id contains unsupported characters",
            ConfigError::MissingMachine => "machine_id is required",
            ConfigError::MissingToken => "access_token is required",
        };
        message.to_owned()
    }
}

/// The contents of a verdict on a configuration.
pub open spec fn config_verdict(r: Result<WorkerConfig, ConfigError>) -> Result<
    ConfigView,
    ConfigErrorView,
> {
    match r {
        Ok(config) => Ok(config@),
        Err(error) => Err(error@),
    }
}

/// The characters that a user's identifier may hold.
pub open spec fn is_user_char(c: char) -> bool {
    ('a' <= c <= 'z') || ('A' <= c <= 'Z') || ('0' <= c <= '9') || c == '-' || c == '.'
}

/// Whether `s` holds nothing but white space.
pub open spec fn is_blank(s: Seq<char>) -> bool {
    text::trim(s).len() == 0
}

/// Whether `s` can stand for a user in an address.
pub open spec fn is_user_id(s: Seq<char>) -> bool {
    s.len() <= 128 && forall|i: int| 0 <= i < s.len() ==> is_user_char(#[trigger] s[i])
}

/// The address of the controller without slashes at its end.
pub open spec fn base_url(config: ConfigView) -> Seq<char> {
    text::trim_end_of(config.controller_url, '/')
}

/// The verdict on `config` where a URL parser says `url` of its base address.
pub open spec fn checked_config(config: ConfigView, url: Result<UrlView, Seq<char>>) -> Result<
    ConfigView,
    ConfigErrorView,
> {
    match url {
        Err(reason) => Err(ConfigErrorView::InvalidUrl(reason)),
        Ok(url) => if url.scheme != "https"@ && url.host != Some("localhost"@) {
            Err(ConfigErrorView::InsecureUrl)
        } else if is_blank(config.user_id) {
            Err(ConfigErrorView::MissingUser)
        } else if !is_user_id(config.user_id) {
            Err(ConfigErrorView::UnsupportedUser)
        } else if is_blank(config.machine_id) {
            Err(ConfigErrorView::MissingMachine)
        } else if is_blank(config.access_token) {
            Err(ConfigErrorView::MissingToken)
        } else {
            Ok(ConfigView { controller_url: base_url(config), ..config })
        },
    }
}

/// Whether `text` holds nothing but white space.
fn blank(text: &str) -> (r: bool)
    ensures
        r == is_blank(text@),
{
    let rest = text::trimmed(text);
    rest.as_str().is_empty()
}

/// Whether `text` can stand for a user in an address.
fn user_id_supported(text: &str) -> (r: bool)
    ensures
        r == is_user_id(text@),
{
    let chars = text::characters(text);
    if chars.len() > 128 {
        return false;
    }
    let mut i: usize = 0;
    while i < chars.len()
        invariant
            i <= chars@.len(),
            chars@ == text@,
            forall|k: int| 0 <= k < i ==> is_user_char(#[trigger] chars@[k]),
        decreases chars@.len() - i,
    {
        let c = chars[i];
        let supported = ('a' <= c && c <= 'z') || ('A' <= c && c <= 'Z') || ('0' <= c && c <= '9')
            || c == '-' || c == '.';
        if !supported {
            return false;
        }
        i = i + 1;
    }
    true
}

/// Checks a configuration, given what a URL parser says of its base address.
pub fn check_config(config: WorkerConfig, url: Result<ParsedUrl, String>) -> (r: Result<
    WorkerConfig,
    ConfigError,
>)
    ensures
        config_verdict(r) == checked_config(config@, url_answer(url)),
{
    let url = match url {
        Ok(url) => url,
        Err(reason) => return Err(ConfigError::InvalidUrl(reason)),
    };
    let local = match &url.host {
        Some(host) => text::same(host.as_str(), "localhost"),
        None => false,
    };
    if !text::same(url.scheme.as_str(), "https") && !local {
        return Err(ConfigError::InsecureUrl);
    }
    if blank(config.user_id.as_str()) {
        return Err(ConfigError::MissingUser);
    }
    if !user_id_supported(config.user_id.as_str()) {
        return Err(ConfigError::UnsupportedUser);
    }
    if blank(config.machine_id.as_str()) {
        return Err(ConfigError::MissingMachine);
    }
    if blank(config.access_token.as_str()) {
        return Err(ConfigError::MissingToken);
    }
    let controller_url = text::trimmed_end_of(config.controller_url.as_str(), '/');
    Ok(
        WorkerConfig {
            controller_url,
            user_id: config.user_id,
            machine_id: config.machine_id,
            access_token: config.access_token,
        },
    )
}

/// Accepts the configuration that a file holds, or says what is wrong with it.
pub fn load_config(config: WorkerConfig) -> (r: Result<WorkerConfig, ConfigError>)
    ensures
        config_verdict(r) == checked_config(config@, parsed_url(base_url(config@))),
{
    let base = text::trimmed_end_of(config.controller_url.as_str(), '/');
    let url = parse_url(base.as_str());
    check_config(config, url)
}

/// A configuration that was accepted is accepted again, unchanged.
pub proof fn accepted_config_is_reused(config: ConfigView)
    requires
        checked_config(config, parsed_url(base_url(config))) is Ok,
    ensures
        ({
            let accepted = checked_config(config, parsed_url(base_url(config)))->Ok_0;
            checked_config(accepted, parsed_url(base_url(accepted))) == Ok::<
                ConfigView,
                ConfigErrorView,
            >(accepted)
        }),
{
    text::trim_end_of_is_idempotent(config.controller_url, '/');
}

/// No accepted configuration sends the access token over plain HTTP, but to the device itself.
pub proof fn accepted_config_is_secure(config: ConfigView)
    requires
        checked_config(config, parsed_url(base_url(config))) is Ok,
    ensures
        ({
            let accepted = checked_config(config, parsed_url(base_url(config)))->Ok_0;
            &&& parsed_url(accepted.controller_url) is Ok
            &&& parsed_url(accepted.controller_url)->Ok_0.scheme == "https"@ || parsed_url(
                accepted.controller_url,
            )->Ok_0.host == Some("localhost"@)
        }),
{
}

/// Where the controller keeps what belongs to this worker.
pub open spec fn worker_address(config: ConfigView) -> Seq<char> {
    config.controller_url + "/worker/v1/users/"@ + config.user_id + "/workers/"@
        + config.machine_id
}

/// Where the controller keeps what belongs to this worker.
pub fn worker_url(config: &WorkerConfig) -> (r: String)
    ensures
        r@ == worker_address(config@),
{
    let mut url = config.controller_url.clone();
    url.append("/worker/v1/users/");
    url.append(config.user_id.as_str());
    url.append("/workers/");
    url.append(config.machine_id.as_str());
    url
}

/// The address of one of the worker's collections, such as `/events`.
pub fn endpoint(config: &WorkerConfig, path: &str) -> (r: String)
    ensures
        r@ == worker_address(config@) + path@,
{
    let mut url = worker_url(config);
    url.append(path);
    url
}

/// The value of the authorization header that proves who sends a request.
pub fn bearer(secret: &str) -> (r: String)
    ensures
        r@ == "Bearer "@ + secret@,
{
    let mut value = "Bearer ".to_owned();
    value.append(secret);
    value
}

/// Blank is what holds no other character than white space, however long it is.
pub proof fn blank_means_white_space(s: Seq<char>)
    ensures
        is_blank(s) <==> forall|k: int| 0 <= k < s.len() ==> text::is_white_space(#[trigger] s[k]),
{
    text::blank_texts_are_trimmed_away(s);
}

/// A user is named by at most 128 letters and digits of ASCII, hyphens and dots.
pub proof fn user_ids_are_plain(s: Seq<char>)
    ensures
        is_user_id(s) <==> s.len() <= 128 && forall|k: int|
            0 <= k < s.len() ==> {
                let n = #[trigger] s[k] as int;
                97 <= n <= 122 || 65 <= n <= 90 || 48 <= n <= 57 || n == 45 || n == 46
            },
{
    if s.len() <= 128 && forall|k: int|
        0 <= k < s.len() ==> {
            let n = #[trigger] s[k] as int;
            97 <= n <= 122 || 65 <= n <= 90 || 48 <= n <= 57 || n == 45 || n == 46
        } {
        assert forall|k: int| 0 <= k < s.len() implies is_user_char(#[trigger] s[k]) by {
            let n = s[k] as int;
            assert(97 <= n <= 122 || 65 <= n <= 90 || 48 <= n <= 57 || n == 45 || n == 46);
        }
    }
    if is_user_id(s) {
        assert forall|k: int| 0 <= k < s.len() implies ({
            let n = #[trigger] s[k] as int;
            97 <= n <= 122 || 65 <= n <= 90 || 48 <= n <= 57 || n == 45 || n == 46
        }) by {
            assert(is_user_char(s[k]));
        }
    }
}

/// The address of the controller loses the slashes at its end, all of them and nothing else.
pub proof fn base_urls_lose_slashes(config: ConfigView) -> (n: int)
    ensures
        0 <= n <= config.controller_url.len(),
        base_url(config) == config.controller_url.take(n),
        forall|k: int|
            n <= k < config.controller_url.len() ==> #[trigger] config.controller_url[k] == '/',
        0 < n ==> config.controller_url[n - 1] != '/',
{
    text::trim_end_of_takes_the_character(config.controller_url, '/')
}

/// A configuration is accepted exactly where its address is one of an encrypted or local
/// controller, its user has a plain name, and neither the name of the machine nor the access token
/// is blank. What is accepted keeps everything but the slashes at the end of the address.
pub proof fn complete_configurations_are_accepted(
    config: ConfigView,
    url: Result<UrlView, Seq<char>>,
)
    ensures
        checked_config(config, url) is Ok <==> {
            &&& url matches Ok(url) && (url.scheme == "https"@ || url.host == Some("localhost"@))
            &&& exists|k: int|
                0 <= k < config.user_id.len() && !text::is_white_space(#[trigger] config.user_id[k])
            &&& is_user_id(config.user_id)
            &&& exists|k: int|
                0 <= k < config.machine_id.len() && !text::is_white_space(
                    #[trigger] config.machine_id[k],
                )
            &&& exists|k: int|
                0 <= k < config.access_token.len() && !text::is_white_space(
                    #[trigger] config.access_token[k],
                )
        },
        checked_config(config, url) matches Ok(accepted) ==> accepted.user_id == config.user_id
            && accepted.machine_id == config.machine_id && accepted.access_token
            == config.access_token && accepted.controller_url == base_url(config),
{
    blank_means_white_space(config.user_id);
    blank_means_white_space(config.machine_id);
    blank_means_white_space(config.access_token);
}

/// A refusal names the first thing that is wrong, in the order address, user, machine and token.
pub proof fn refusals_name_the_first_fault(config: ConfigView, url: Result<UrlView, Seq<char>>)
    ensures
        match checked_config(config, url) {
            Ok(_) => true,
            Err(ConfigErrorView::InvalidUrl(reason)) => url == Err::<UrlView, Seq<char>>(reason),
            Err(error) => {
                &&& url is Ok
                &&& error is InsecureUrl <==> url->Ok_0.scheme != "https"@ && url->Ok_0.host != Some(
                    "localhost"@,
                )
                &&& error is MissingUser ==> is_blank(config.user_id)
                &&& error is UnsupportedUser ==> !is_blank(config.user_id) && !is_user_id(
                    config.user_id,
                )
                &&& error is MissingMachine ==> !is_blank(config.user_id) && is_user_id(
                    config.user_id,
                ) && is_blank(config.machine_id)
                &&& error is MissingToken ==> !is_blank(config.user_id) && is_user_id(config.user_id)
                    && !is_blank(config.machine_id) && is_blank(config.access_token)
            },
        },
        url is Err ==> checked_config(config, url) == Err::<ConfigView, ConfigErrorView>(
            ConfigErrorView::InvalidUrl(url->Err_0),
        ),
{
}

/// The address of a worker begins with its controller, names its user and then the machine, which
/// ends it.
pub proof fn addresses_name_the_worker(config: ConfigView, front: Seq<char>, more: Seq<char>)
    ensures
        worker_address(config) == config.controller_url + worker_address(
            ConfigView { controller_url: seq![], ..config },
        ),
        worker_address(ConfigView { machine_id: config.machine_id + more, ..config })
            == worker_address(config) + more,
        worker_address(
            ConfigView { controller_url: seq![], machine_id: seq![], ..config },
        ) == "/worker/v1/users/"@ + config.user_id + "/workers/"@,
        worker_address(ConfigView { controller_url: front + config.controller_url, ..config })
            == front + worker_address(config),
{
    let bare = ConfigView { controller_url: seq![], ..config };
    assert(worker_address(config) =~= config.controller_url + worker_address(bare));
    let longer = ConfigView { machine_id: config.machine_id + more, ..config };
    assert(worker_address(longer) =~= worker_address(config) + more);
    let user = ConfigView { controller_url: seq![], machine_id: seq![], ..config };
    assert(worker_address(user) =~= "/worker/v1/users/"@ + config.user_id + "/workers/"@);
    let later = ConfigView { controller_url: front + config.controller_url, ..config };
    assert(worker_address(later) =~= front + worker_address(config));
}

/// Two workers of one controller whose users have plain names have different addresses.
#[verifier::rlimit(40)]
pub proof fn workers_have_addresses_of_their_own(a: ConfigView, b: ConfigView)
    requires
        a.controller_url == b.controller_url,
        is_user_id(a.user_id),
        is_user_id(b.user_id),
        worker_address(a) == worker_address(b),
    ensures
        a.user_id == b.user_id,
        a.machine_id == b.machine_id,
{
    reveal_strlit("/workers/");
    let front = a.controller_url + "/worker/v1/users/"@;
    let slash = seq!['/'];
    let middle = "workers/"@;
    reveal_strlit("workers/");
    assert("/workers/"@ =~= slash + middle);
    let x = a.user_id + slash + (middle + a.machine_id);
    let y = b.user_id + slash + (middle + b.machine_id);
    assert(worker_address(a) =~= front + x);
    assert(worker_address(b) =~= front + y);
    assert(x =~= worker_address(a).skip(front.len() as int));
    assert(y =~= worker_address(b).skip(front.len() as int));
    assert forall|k: int| 0 <= k < a.user_id.len() implies #[trigger] a.user_id[k] != '/' by {
        assert(is_user_char(a.user_id[k]));
    }
    assert forall|k: int| 0 <= k < b.user_id.len() implies #[trigger] b.user_id[k] != '/' by {
        assert(is_user_char(b.user_id[k]));
    }
    text::pieces_are_split_off(a.user_id, '/', middle + a.machine_id);
    text::pieces_are_split_off(b.user_id, '/', middle + b.machine_id);
    assert(text::split(x, '/')[0] == a.user_id);
    assert(text::split(y, '/')[0] == b.user_id);
    let n = a.user_id.len() + 9;
    assert(a.machine_id =~= x.skip(n as int));
    assert(b.machine_id =~= y.skip(n as int));
}

/// What the user is told names the entry at fault.
#[verifier::rlimit(40)]
pub proof fn config_messages_name_the_entry(reason: Seq<char>)
    ensures
        text::after_prefix(
            config_message(ConfigErrorView::InvalidUrl(reason)),
            "controller_url must be"@,
        ) is Some,
        text::after_prefix(config_message(ConfigErrorView::InsecureUrl), "controller_url must use"@)
            == Some(" HTTPS"@),
        config_message(ConfigErrorView::MissingUser) == "user_id"@ + " is required"@,
        config_message(ConfigErrorView::MissingMachine) == "machine_id"@ + " is required"@,
        config_message(ConfigErrorView::MissingToken) == "access_token"@ + " is required"@,
        text::after_prefix(config_message(ConfigErrorView::UnsupportedUser), "user_id"@) == Some(
            " contains unsupported characters"@,
        ),
{
    reveal_strlit("controller_url must be");
    reveal_strlit(" an HTTPS URL");
    reveal_strlit("controller_url must be an HTTPS URL");
    reveal_strlit("controller_url must use");
    reveal_strlit(" HTTPS");
    reveal_strlit("controller_url must use HTTPS");
    reveal_strlit("user_id");
    reveal_strlit("machine_id");
    reveal_strlit("access_token");
    reveal_strlit(" is required");
    reveal_strlit("user_id is required");
    reveal_strlit("machine_id is required");
    reveal_strlit("access_token is required");
    reveal_strlit(" contains unsupported characters");
    reveal_strlit("user_id contains unsupported characters");
    assert("controller_url must be an HTTPS URL"@ =~= "controller_url must be"@ + " an HTTPS URL"@);
    assert("controller_url must use HTTPS"@ =~= "controller_url must use"@ + " HTTPS"@);
    assert("user_id contains unsupported characters"@ =~= "user_id"@
        + " contains unsupported characters"@);
    text::prefix_and_rest_make_the_text(
        "controller_url must be an HTTPS URL"@,
        "controller_url must be"@,
        " an HTTPS URL"@,
    );
    text::prefix_and_rest_make_the_text(
        "controller_url must use HTTPS"@,
        "controller_url must use"@,
        " HTTPS"@,
    );
    text::prefix_and_rest_make_the_text(
        "user_id contains unsupported characters"@,
        "user_id"@,
        " contains unsupported characters"@,
    );
    assert("user_id is required"@ =~= "user_id"@ + " is required"@);
    assert("machine_id is required"@ =~= "machine_id"@ + " is required"@);
    assert("access_token is required"@ =~= "access_token"@ + " is required"@);
}

/// Contracts speak of what a configuration, an answer and a verdict hold, and of nothing else.
pub proof fn configurations_are_taken_as_they_are(
    config: WorkerConfig,
    error: ConfigError,
    url: ParsedUrl,
    reason: String,
)
    ensures
        config@.controller_url == config.controller_url@,
        config@.user_id == config.user_id@,
        config@.machine_id == config.machine_id@,
        config@.access_token == config.access_token@,
        config_verdict(Ok(config)) == Ok::<ConfigView, ConfigErrorView>(config@),
        config_verdict(Err(error)) == Err::<ConfigView, ConfigErrorView>(error@),
        error is InvalidUrl <==> error@ is InvalidUrl,
        error is InsecureUrl <==> error@ is InsecureUrl,
        error is MissingUser <==> error@ is MissingUser,
        error is UnsupportedUser <==> error@ is UnsupportedUser,
        error is MissingMachine <==> error@ is MissingMachine,
        error is MissingToken <==> error@ is MissingToken,
        url@.scheme == url.scheme@ && url@.text == url.text@,
        url.host matches Some(host) ==> url@.host == Some(host@),
        url.host is None ==> url@.host is None,
        url_answer(Ok(url)) == Ok::<UrlView, Seq<char>>(url@),
        url_answer(Err(reason)) == Err::<UrlView, Seq<char>>(reason@),
{
}

} // verus!
