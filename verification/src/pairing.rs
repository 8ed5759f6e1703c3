//! Pairing a device with the controller.
use crate::config;
use crate::config::WorkerConfig;
use crate::encoding;
use crate::setup;
use crate::text;
use vstd::prelude::*;

verus! {

/// The controller with which a device is paired.
pub const CONTROLLER: &'static str = "https://cybion.ntnl.io";

/// Seconds behind the expiry of a pairing code during which its outcome is still asked for: the
/// ten minutes that an approval grants, and half a minute more.
pub const RECOVERY_SECONDS: u64 = 630;

/// Seconds before each question for the outcome of a pairing.
pub const POLL_SECONDS: u64 = 3;

/// Seconds of an additional pause where the controller is overloaded.
pub const BACKOFF_SECONDS: u64 = 5;

/// A pairing that was begun, as it is kept on the device.
pub struct Pending {
    pub id: String,
    pub user_code: String,
    /// When the code expires, in seconds since 1970.
    pub expires_at: u64,
    /// What proves to the controller that this device began the pairing.
    pub device_secret: String,
    /// The credential that becomes valid with the approval. It stays on the device.
    pub access_token: String,
}

/// What the controller says of a pairing that it begins.
pub struct StartReply {
    pub id: String,
    pub user_code: String,
    pub expires_at: u64,
}

/// What the controller says of a pairing.
pub struct PollReply {
    pub status: String,
    pub user_id: Option<String>,
    pub machine_id: String,
}

/// Why a pairing did not come to its end.
pub enum PairError {
    /// Its outcome did not become known in time.
    RecoveryWindow,
    Expired,
    Cancelled,
    NoOwner,
    UnexpectedStatus(String),
    /// Something outside failed, for the given reason.
    Outside(String),
}

/// What the user is told of a pairing that failed.
pub open spec fn pair_message(error: PairError) -> Seq<char> {
    match error {
        PairError::RecoveryWindow => "Could not finish pairing within the recovery window. Run again to recover the server state; pending credentials have been preserved."@,
        PairError::Expired => "Pairing expired. Run the Worker again for a new code."@,
        PairError::Cancelled => "Pairing cancelled. Run the Worker again when ready."@,
        PairError::NoOwner => "approval has no owner"@,
        PairError::UnexpectedStatus(status) => "Unexpected pairing status: "@ + status@,
        PairError::Outside(reason) => reason@,
    }
}

impl PairError {
    /// What the user is told.
    pub fn message(&self) -> (r: String)
        ensures
            r@ == pair_message(*self),
    {
        match self {
            PairError::RecoveryWindow => "Could not finish pairing within the recovery window. Run again to recover the server state; pending credentials have been preserved.".to_owned(),
            PairError::Expired => "Pairing expired. Run the Worker again for a new code.".to_owned(),
            PairError::Cancelled => "Pairing cancelled. Run the Worker again when ready.".to_owned(),
            PairError::NoOwner => "approval has no owner".to_owned(),
            PairError::UnexpectedStatus(status) => {
                let mut message = "Unexpected pairing status: ".to_owned();
                message.append(status.as_str());
                message
            },
            PairError::Outside(reason) => reason.clone(),
        }
    }
}

/// How far a pairing is.
pub enum PairState {
    /// It looks for a pairing that was begun before.
    Looking,
    /// It asks the controller whether an earlier pairing still stands.
    Probing(Pending),
    /// It forgets an earlier pairing.
    Discarding,
    /// It makes new credentials.
    Preparing,
    /// It asks the controller to begin a pairing.
    Requesting { device_secret: String, access_token: String },
    /// It keeps the pairing on the device.
    Keeping(Pending),
    /// It tells the user where to approve.
    Announcing(Pending),
    /// It looks whether there is time left.
    Waiting(Pending),
    /// It asks for the outcome, after a pause.
    Polling(Pending),
    /// It pauses because the controller is overloaded.
    BackingOff(Pending),
    /// It forgets the pairing, and then fails.
    Closing(PairError),
    /// It saves the configuration.
    Saving(WorkerConfig),
    /// It forgets the pairing, whose outcome is saved.
    Clearing(WorkerConfig),
    Paired(WorkerConfig),
    Failed(PairError),
}

/// Something that happens to a pairing.
pub enum PairEvent {
    /// The pairing that was begun before, if there is one.
    Found(Option<Pending>),
    /// The controller knows the earlier pairing.
    Confirmed,
    /// The controller answered with an error status, which is described.
    Refused { status: u16, reason: String },
    Credentials { device_secret: String, access_token: String },
    Started(StartReply),
    /// What was to be written is written.
    Stored,
    /// The pairing is no longer kept on the device.
    Removed,
    Announced,
    /// The seconds since 1970.
    Time(u64),
    /// The controller could not be reached, or not in time.
    Unreachable,
    Replied(PollReply),
    Paused,
    /// Something else failed, for the given reason.
    Broken(String),
}

/// Whether the controller asks for a longer pause.
pub open spec fn is_overload(status: u16) -> bool {
    status == 429 || 500 <= status <= 599
}

/// How a pairing goes on behind the controller's reply.
pub open spec fn replied(pending: Pending, reply: PollReply, controller: String) -> PairState {
    if reply.status@ == "pending"@ || reply.status@ == "approving"@ {
        PairState::Waiting(pending)
    } else if reply.status@ == "cancelled"@ {
        PairState::Closing(PairError::Cancelled)
    } else if reply.status@ == "approved"@ {
        match reply.user_id {
            Some(user_id) => PairState::Saving(
                WorkerConfig {
                    controller_url: controller,
                    user_id,
                    machine_id: reply.machine_id,
                    access_token: pending.access_token,
                },
            ),
            None => PairState::Failed(PairError::NoOwner),
        }
    } else {
        PairState::Failed(PairError::UnexpectedStatus(reply.status))
    }
}

/// How a pairing goes on behind an error status in answer to the question for its outcome.
pub open spec fn refused(pending: Pending, status: u16, reason: String) -> PairState {
    if is_overload(status) {
        PairState::BackingOff(pending)
    } else if status == 410 {
        PairState::Closing(PairError::Expired)
    } else {
        PairState::Failed(PairError::Outside(reason))
    }
}

/// Whether a pairing has come to its end.
pub open spec fn is_over(state: PairState) -> bool {
    state is Paired || state is Failed
}

/// How a pairing with `controller` goes on behind an event. An event that it does not wait for
/// changes nothing.
pub open spec fn next_pairing(state: PairState, event: PairEvent, controller: String) -> PairState {
    match (state, event) {
        (PairState::Looking, PairEvent::Found(Some(pending))) => PairState::Probing(pending),
        (PairState::Looking, PairEvent::Found(None)) => PairState::Preparing,
        (PairState::Probing(pending), PairEvent::Confirmed) => PairState::Announcing(pending),
        (PairState::Probing(pending), PairEvent::Refused { status, reason }) => if status == 410 {
            PairState::Discarding
        } else {
            PairState::Failed(PairError::Outside(reason))
        },
        (PairState::Discarding, PairEvent::Removed) => PairState::Preparing,
        (PairState::Preparing, PairEvent::Credentials { device_secret, access_token }) => {
            PairState::Requesting { device_secret, access_token }
        },
        (
            PairState::Requesting { device_secret, access_token },
            PairEvent::Started(reply),
        ) => PairState::Keeping(
            Pending {
                id: reply.id,
                user_code: reply.user_code,
                expires_at: reply.expires_at,
                device_secret,
                access_token,
            },
        ),
        (PairState::Keeping(pending), PairEvent::Stored) => PairState::Announcing(pending),
        (PairState::Announcing(pending), PairEvent::Announced) => PairState::Waiting(pending),
        (PairState::Waiting(pending), PairEvent::Time(now)) => if now >= pending.expires_at
            + RECOVERY_SECONDS {
            PairState::Failed(PairError::RecoveryWindow)
        } else {
            PairState::Polling(pending)
        },
        (PairState::Polling(pending), PairEvent::Unreachable) => PairState::Waiting(pending),
        (PairState::Polling(pending), PairEvent::Refused { status, reason }) => refused(
            pending,
            status,
            reason,
        ),
        (PairState::Polling(pending), PairEvent::Replied(reply)) => replied(
            pending,
            reply,
            controller,
        ),
        (PairState::BackingOff(pending), PairEvent::Paused) => PairState::Waiting(pending),
        (PairState::Closing(error), PairEvent::Removed) => PairState::Failed(error),
        (PairState::Saving(config), PairEvent::Stored) => PairState::Clearing(config),
        (PairState::Clearing(config), PairEvent::Removed) => PairState::Paired(config),
        (state, PairEvent::Broken(reason)) => if is_over(state) {
            state
        } else {
            PairState::Failed(PairError::Outside(reason))
        },
        (state, _) => state,
    }
}

fn judge_reply(pending: Pending, reply: PollReply, controller: &String) -> (r: PairState)
    ensures
        r == replied(pending, reply, *controller),
{
    let status = reply.status.as_str();
    if text::same(status, "pending") || text::same(status, "approving") {
        PairState::Waiting(pending)
    } else if text::same(status, "cancelled") {
        PairState::Closing(PairError::Cancelled)
    } else if text::same(status, "approved") {
        match reply.user_id {
            Some(user_id) => PairState::Saving(
                WorkerConfig {
                    controller_url: controller.clone(),
                    user_id,
                    machine_id: reply.machine_id,
                    access_token: pending.access_token,
                },
            ),
            None => PairState::Failed(PairError::NoOwner),
        }
    } else {
        PairState::Failed(PairError::UnexpectedStatus(reply.status))
    }
}

fn judge_refusal(pending: Pending, status: u16, reason: String) -> (r: PairState)
    ensures
        r == refused(pending, status, reason),
{
    if status == 429 || (500 <= status && status <= 599) {
        PairState::BackingOff(pending)
    } else if status == 410 {
        PairState::Closing(PairError::Expired)
    } else {
        PairState::Failed(PairError::Outside(reason))
    }
}

/// How a pairing with `controller` goes on behind an event.
pub fn pair(state: PairState, event: PairEvent, controller: &String) -> (r: PairState)
    ensures
        r == next_pairing(state, event, *controller),
{
    match (state, event) {
        (PairState::Looking, PairEvent::Found(Some(pending))) => PairState::Probing(pending),
        (PairState::Looking, PairEvent::Found(None)) => PairState::Preparing,
        (PairState::Probing(pending), PairEvent::Confirmed) => PairState::Announcing(pending),
        (PairState::Probing(_), PairEvent::Refused { status, reason }) => {
            if status == 410 {
                PairState::Discarding
            } else {
                PairState::Failed(PairError::Outside(reason))
            }
        },
        (PairState::Discarding, PairEvent::Removed) => PairState::Preparing,
        (PairState::Preparing, PairEvent::Credentials { device_secret, access_token }) => {
            PairState::Requesting { device_secret, access_token }
        },
        (
            PairState::Requesting { device_secret, access_token },
            PairEvent::Started(reply),
        ) => PairState::Keeping(
            Pending {
                id: reply.id,
                user_code: reply.user_code,
                expires_at: reply.expires_at,
                device_secret,
                access_token,
            },
        ),
        (PairState::Keeping(pending), PairEvent::Stored) => PairState::Announcing(pending),
        (PairState::Announcing(pending), PairEvent::Announced) => PairState::Waiting(pending),
        (PairState::Waiting(pending), PairEvent::Time(now)) => {
            if now >= pending.expires_at && now - pending.expires_at >= RECOVERY_SECONDS {
                PairState::Failed(PairError::RecoveryWindow)
            } else {
                PairState::Polling(pending)
            }
        },
        (PairState::Polling(pending), PairEvent::Unreachable) => PairState::Waiting(pending),
        (PairState::Polling(pending), PairEvent::Refused { status, reason }) => judge_refusal(
            pending,
            status,
            reason,
        ),
        (PairState::Polling(pending), PairEvent::Replied(reply)) => judge_reply(
            pending,
            reply,
            controller,
        ),
        (PairState::BackingOff(pending), PairEvent::Paused) => PairState::Waiting(pending),
        (PairState::Closing(error), PairEvent::Removed) => PairState::Failed(error),
        (PairState::Saving(config), PairEvent::Stored) => PairState::Clearing(config),
        (PairState::Clearing(config), PairEvent::Removed) => PairState::Paired(config),
        (PairState::Paired(config), _) => PairState::Paired(config),
        (PairState::Failed(error), _) => PairState::Failed(error),
        (_, PairEvent::Broken(reason)) => PairState::Failed(PairError::Outside(reason)),
        (state, _) => state,
    }
}

/// Where a device that has no configuration begins: with a pairing. A configuration that is there
/// is used, and never replaced.
pub fn load_or_pair(exists: bool) -> (r: Option<PairState>)
    ensures
        r == (if exists {
            None
        } else {
            Some(PairState::Looking)
        }),
{
    if exists {
        None
    } else {
        Some(PairState::Looking)
    }
}

/// What a device tells of itself when it begins a pairing.
pub struct Device {
    pub hostname: Option<String>,
    pub os: String,
    pub arch: String,
    pub version: String,
}

/// The contents of a request to begin a pairing.
pub struct StartRequest {
    pub url: String,
    pub device_secret: String,
    /// The digest of the credential, in hexadecimal.
    pub token_hash: String,
    pub hostname: String,
    pub platform: String,
    pub version: String,
}

/// The contents of a [`StartRequest`].
pub struct StartView {
    pub url: Seq<char>,
    pub device_secret: Seq<char>,
    pub token_hash: Seq<char>,
    pub hostname: Seq<char>,
    pub platform: Seq<char>,
    pub version: Seq<char>,
}

impl View for StartRequest {
    type V = StartView;

    open spec fn view(&self) -> StartView {
        StartView {
            url: self.url@,
            device_secret: self.device_secret@,
            token_hash: self.token_hash@,
            hostname: self.hostname@,
            platform: self.platform@,
            version: self.version@,
        }
    }
}

/// What has to be done for a pairing.
pub enum PairAction {
    /// Look for a pairing that is kept on the device.
    Find,
    /// Ask the controller, under this address and with this secret.
    Ask { url: String, secret: String },
    /// Remove the pairing that is kept on the device.
    Remove,
    /// Make two secrets.
    MakeCredentials,
    Start(StartRequest),
    /// Keep the pairing on the device, readable by its owner alone.
    Keep(Pending),
    /// Show the text to the user, and open the address.
    Announce { url: String, text: String },
    ReadClock,
    /// Pause so many seconds, and then ask the controller.
    Poll { seconds: u64, url: String, secret: String },
    /// Pause so many seconds.
    Pause(u64),
    /// Save the configuration, but never over another one.
    Save(WorkerConfig),
    /// Nothing: the pairing has come to its end.
    Finish,
}

/// The contents of a [`PairAction`].
pub enum PairActionView {
    Find,
    Ask { url: Seq<char>, secret: Seq<char> },
    Remove,
    MakeCredentials,
    Start(StartView),
    Keep(Pending),
    Announce { url: Seq<char>, text: Seq<char> },
    ReadClock,
    Poll { seconds: u64, url: Seq<char>, secret: Seq<char> },
    Pause(u64),
    Save(WorkerConfig),
    Finish,
}

impl View for PairAction {
    type V = PairActionView;

    open spec fn view(&self) -> PairActionView {
        match *self {
            PairAction::Find => PairActionView::Find,
            PairAction::Ask { url, secret } => PairActionView::Ask { url: url@, secret: secret@ },
            PairAction::Remove => PairActionView::Remove,
            PairAction::MakeCredentials => PairActionView::MakeCredentials,
            PairAction::Start(request) => PairActionView::Start(request@),
            PairAction::Keep(pending) => PairActionView::Keep(pending),
            PairAction::Announce { url, text } => PairActionView::Announce {
                url: url@,
                text: text@,
            },
            PairAction::ReadClock => PairActionView::ReadClock,
            PairAction::Poll { seconds, url, secret } => PairActionView::Poll {
                seconds,
                url: url@,
                secret: secret@,
            },
            PairAction::Pause(seconds) => PairActionView::Pause(seconds),
            PairAction::Save(config) => PairActionView::Save(config),
            PairAction::Finish => PairActionView::Finish,
        }
    }
}

/// Where the controller keeps its pairings.
pub open spec fn pairings_url(controller: Seq<char>) -> Seq<char> {
    controller + "/worker/v1/pairings"@
}

/// Where the controller keeps the pairing `id`.
pub open spec fn pairing_url(controller: Seq<char>, id: Seq<char>) -> Seq<char> {
    pairings_url(controller) + "/"@ + id
}

/// Where the user approves a pairing.
pub open spec fn approval_url(controller: Seq<char>, user_code: Seq<char>) -> Seq<char> {
    controller + "/#/workers?code="@ + user_code
}

/// What stands for the credential in the controller: its digest, in hexadecimal.
pub open spec fn token_hash(access_token: Seq<char>) -> Seq<char> {
    encoding::hex(encoding::sha256(vstd::utf8::encode_utf8(access_token)))
}

/// The name of a device, if it has none.
pub open spec fn device_name(hostname: Option<String>) -> Seq<char> {
    match hostname {
        Some(name) => name@,
        None => "My device"@,
    }
}

/// The request to begin a pairing.
pub open spec fn start_request(
    controller: Seq<char>,
    device_secret: Seq<char>,
    access_token: Seq<char>,
    device: Device,
) -> StartView {
    StartView {
        url: pairings_url(controller),
        device_secret,
        token_hash: token_hash(access_token),
        hostname: device_name(device.hostname),
        platform: device.os@ + " / "@ + device.arch@,
        version: device.version@,
    }
}

/// What the user is shown: where to approve the pairing, and its code.
pub open spec fn invitation(controller: Seq<char>, user_code: Seq<char>) -> Seq<char> {
    "\n连接设备 / Connect device\n\n  "@ + approval_url(controller, user_code)
        + "\n\n配对码 / Pairing code: "@ + user_code
        + "\n\n请在网页核对设备并确认授权。请勿批准他人发送的配对码。\nConfirm this device and code in Cybion. Do not approve codes sent by others.\nWaiting for approval (10 minute expiry). Ctrl+C is safe; run again to resume.\n"@
}

/// What has to be done in each state of a pairing.
pub open spec fn pair_action(state: PairState, controller: Seq<char>, device: Device) -> PairActionView {
    match state {
        PairState::Looking => PairActionView::Find,
        PairState::Probing(pending) => PairActionView::Ask {
            url: pairing_url(controller, pending.id@),
            secret: pending.device_secret@,
        },
        PairState::Discarding => PairActionView::Remove,
        PairState::Preparing => PairActionView::MakeCredentials,
        PairState::Requesting { device_secret, access_token } => PairActionView::Start(
            start_request(controller, device_secret@, access_token@, device),
        ),
        PairState::Keeping(pending) => PairActionView::Keep(pending),
        PairState::Announcing(pending) => PairActionView::Announce {
            url: approval_url(controller, pending.user_code@),
            text: invitation(controller, pending.user_code@),
        },
        PairState::Waiting(_) => PairActionView::ReadClock,
        PairState::Polling(pending) => PairActionView::Poll {
            seconds: POLL_SECONDS,
            url: pairing_url(controller, pending.id@),
            secret: pending.device_secret@,
        },
        PairState::BackingOff(_) => PairActionView::Pause(BACKOFF_SECONDS),
        PairState::Closing(_) => PairActionView::Remove,
        PairState::Saving(config) => PairActionView::Save(config),
        PairState::Clearing(_) => PairActionView::Remove,
        PairState::Paired(_) => PairActionView::Finish,
        PairState::Failed(_) => PairActionView::Finish,
    }
}

fn pairings_address(controller: &str) -> (r: String)
    ensures
        r@ == pairings_url(controller@),
{
    let mut url = controller.to_owned();
    url.append("/worker/v1/pairings");
    url
}

fn pairing_address(controller: &str, id: &str) -> (r: String)
    ensures
        r@ == pairing_url(controller@, id@),
{
    let mut url = pairings_address(controller);
    url.append("/");
    url.append(id);
    url
}

fn approval_address(controller: &str, user_code: &str) -> (r: String)
    ensures
        r@ == approval_url(controller@, user_code@),
{
    let mut url = controller.to_owned();
    url.append("/#/workers?code=");
    url.append(user_code);
    url
}

fn invite(controller: &str, user_code: &str) -> (r: String)
    ensures
        r@ == invitation(controller@, user_code@),
{
    let url = approval_address(controller, user_code);
    let mut text = "\n连接设备 / Connect device\n\n  ".to_owned();
    text.append(url.as_str());
    text.append("\n\n配对码 / Pairing code: ");
    text.append(user_code);
    text.append(
        "\n\n请在网页核对设备并确认授权。请勿批准他人发送的配对码。\nConfirm this device and code in Cybion. Do not approve codes sent by others.\nWaiting for approval (10 minute expiry). Ctrl+C is safe; run again to resume.\n",
    );
    text
}

/// The request to begin a pairing. The credential itself is not part of it.
pub fn start_pairing(
    controller: &str,
    device_secret: &String,
    access_token: &str,
    device: &Device,
) -> (r: StartRequest)
    ensures
        r@ == start_request(controller@, device_secret@, access_token@, *device),
{
    let digest = encoding::sha256_digest(access_token.as_bytes());
    let mut platform = device.os.clone();
    platform.append(" / ");
    platform.append(device.arch.as_str());
    StartRequest {
        url: pairings_address(controller),
        device_secret: device_secret.clone(),
        token_hash: encoding::hex_text(digest.as_slice()),
        hostname: match &device.hostname {
            Some(name) => name.clone(),
            None => "My device".to_owned(),
        },
        platform,
        version: device.version.clone(),
    }
}

/// What has to be done in a state of a pairing.
pub fn pairing_action(state: &PairState, controller: &str, device: &Device) -> (r: PairAction)
    ensures
        r@ == pair_action(*state, controller@, *device),
{
    match state {
        PairState::Looking => PairAction::Find,
        PairState::Probing(pending) => PairAction::Ask {
            url: pairing_address(controller, pending.id.as_str()),
            secret: pending.device_secret.clone(),
        },
        PairState::Discarding => PairAction::Remove,
        PairState::Preparing => PairAction::MakeCredentials,
        PairState::Requesting { device_secret, access_token } => PairAction::Start(
            start_pairing(controller, device_secret, access_token.as_str(), device),
        ),
        PairState::Keeping(pending) => PairAction::Keep(
            Pending {
                id: pending.id.clone(),
                user_code: pending.user_code.clone(),
                expires_at: pending.expires_at,
                device_secret: pending.device_secret.clone(),
                access_token: pending.access_token.clone(),
            },
        ),
        PairState::Announcing(pending) => PairAction::Announce {
            url: approval_address(controller, pending.user_code.as_str()),
            text: invite(controller, pending.user_code.as_str()),
        },
        PairState::Waiting(_) => PairAction::ReadClock,
        PairState::Polling(pending) => PairAction::Poll {
            seconds: POLL_SECONDS,
            url: pairing_address(controller, pending.id.as_str()),
            secret: pending.device_secret.clone(),
        },
        PairState::BackingOff(_) => PairAction::Pause(BACKOFF_SECONDS),
        PairState::Closing(_) => PairAction::Remove,
        PairState::Saving(config) => PairAction::Save(
            WorkerConfig {
                controller_url: config.controller_url.clone(),
                user_id: config.user_id.clone(),
                machine_id: config.machine_id.clone(),
                access_token: config.access_token.clone(),
            },
        ),
        PairState::Clearing(_) => PairAction::Remove,
        PairState::Paired(_) => PairAction::Finish,
        PairState::Failed(_) => PairAction::Finish,
    }
}

/// Where a pairing is behind a series of events, from `state` on.
pub open spec fn pairing_from(state: PairState, events: Seq<PairEvent>, controller: String) -> PairState
    decreases events.len(),
{
    if events.len() == 0 {
        state
    } else {
        next_pairing(
            pairing_from(state, events.drop_last(), controller),
            events.last(),
            controller,
        )
    }
}

/// The credential that a state of a pairing works with.
pub open spec fn credential(state: PairState) -> Option<String> {
    match state {
        PairState::Probing(pending) => Some(pending.access_token),
        PairState::Requesting { access_token, .. } => Some(access_token),
        PairState::Keeping(pending) => Some(pending.access_token),
        PairState::Announcing(pending) => Some(pending.access_token),
        PairState::Waiting(pending) => Some(pending.access_token),
        PairState::Polling(pending) => Some(pending.access_token),
        PairState::BackingOff(pending) => Some(pending.access_token),
        PairState::Saving(config) => Some(config.access_token),
        PairState::Clearing(config) => Some(config.access_token),
        PairState::Paired(config) => Some(config.access_token),
        _ => None,
    }
}

/// The configuration that a state of a pairing has settled on.
pub open spec fn outcome(state: PairState) -> Option<WorkerConfig> {
    match state {
        PairState::Saving(config) => Some(config),
        PairState::Clearing(config) => Some(config),
        PairState::Paired(config) => Some(config),
        _ => None,
    }
}

/// Whether an event brings the credential: it was made on the device, now or for an earlier
/// attempt.
pub open spec fn brings_credential(event: PairEvent, access_token: String) -> bool {
    match event {
        PairEvent::Found(Some(pending)) => pending.access_token == access_token,
        PairEvent::Credentials { access_token: made, .. } => made == access_token,
        _ => false,
    }
}

/// Whether an event is the approval that a configuration rests on.
pub open spec fn approves(event: PairEvent, config: WorkerConfig) -> bool {
    match event {
        PairEvent::Replied(reply) => reply.status@ == "approved"@ && reply.user_id == Some(
            config.user_id,
        ) && reply.machine_id == config.machine_id,
        _ => false,
    }
}

proof fn lemma_statuses_differ()
    ensures
        "pending"@ != "approved"@,
        "approving"@ != "approved"@,
        "cancelled"@ != "approved"@,
        "pending"@ != "cancelled"@,
        "approving"@ != "cancelled"@,
{
    reveal_strlit("pending");
    reveal_strlit("approving");
    reveal_strlit("approved");
    reveal_strlit("cancelled");
    assert("pending"@[0] == 'p' && "approved"@[0] == 'a' && "cancelled"@[0] == 'c');
    assert("approving"@[6] == 'i' && "approved"@[6] == 'e');
    assert("approving"@[0] == 'a');
}

/// A configuration comes only from an approval, for the owner and the machine that it names, and
/// its credential is the one that was made on the device.
pub proof fn only_an_approval_configures(events: Seq<PairEvent>, controller: String)
    ensures
        credential(pairing_from(PairState::Looking, events, controller)) matches Some(token) ==> exists|i: int|
            0 <= i < events.len() && #[trigger] brings_credential(events[i], token),
        outcome(pairing_from(PairState::Looking, events, controller)) matches Some(config) ==> config.controller_url
            == controller && exists|i: int|
            0 <= i < events.len() && #[trigger] approves(events[i], config),
    decreases events.len(),
{
    if events.len() > 0 {
        let earlier = events.drop_last();
        let event = events.last();
        let before = pairing_from(PairState::Looking, earlier, controller);
        let state = next_pairing(before, event, controller);
        only_an_approval_configures(earlier, controller);
        let last = events.len() - 1;
        assert(events[last] == event);
        if let Some(token) = credential(state) {
            if credential(before) == Some(token) {
                let i = choose|i: int|
                    0 <= i < earlier.len() && #[trigger] brings_credential(earlier[i], token);
                assert(brings_credential(events[i], token));
            } else {
                assert(brings_credential(events[last], token));
            }
        }
        if let Some(config) = outcome(state) {
            if outcome(before) == Some(config) {
                let i = choose|i: int|
                    0 <= i < earlier.len() && #[trigger] approves(earlier[i], config);
                assert(approves(events[i], config));
            } else {
                assert(approves(events[last], config));
            }
        }
    }
}

/// A pairing that is refused never leads to a configuration, whatever happens later: it is
/// forgotten, and then reported as cancelled.
pub proof fn cancellation_never_configures(
    pending: Pending,
    reply: PollReply,
    later: Seq<PairEvent>,
    controller: String,
)
    requires
        reply.status@ == "cancelled"@,
    ensures
        next_pairing(PairState::Polling(pending), PairEvent::Replied(reply), controller)
            == PairState::Closing(PairError::Cancelled),
        ({
            let state = pairing_from(PairState::Closing(PairError::Cancelled), later, controller);
            ||| state == PairState::Closing(PairError::Cancelled)
            ||| state is Failed
        }),
        next_pairing(PairState::Closing(PairError::Cancelled), PairEvent::Removed, controller)
            == PairState::Failed(PairError::Cancelled),
    decreases later.len(),
{
    lemma_statuses_differ();
    if later.len() > 0 {
        cancellation_never_configures(pending, reply, later.drop_last(), controller);
    }
}

/// A pairing that is kept on the device is removed only once it is settled: the controller has
/// forgotten it, it was cancelled, or its configuration is saved. In particular it stays where
/// time runs out or anything else fails.
pub proof fn pending_credentials_are_preserved(
    state: PairState,
    event: PairEvent,
    controller: String,
    device: Device,
)
    requires
        pair_action(next_pairing(state, event, controller), controller@, device) is Remove,
        pair_action(state, controller@, device) !is Remove,
    ensures
        ({
            ||| event matches PairEvent::Refused { status, .. } && status == 410
            ||| event matches PairEvent::Replied(reply) && reply.status@ == "cancelled"@
            ||| state is Saving && event is Stored
        }),
{
}

/// An approval near the deadline can still be claimed: the outcome is asked for until ten minutes
/// and a half behind the expiry, and no longer.
pub proof fn approvals_have_a_claim_window(pending: Pending, now: u64, controller: String)
    ensures
        now < pending.expires_at + 600 ==> next_pairing(
            PairState::Waiting(pending),
            PairEvent::Time(now),
            controller,
        ) == PairState::Polling(pending),
        next_pairing(PairState::Waiting(pending), PairEvent::Time(now), controller)
            == PairState::Failed(PairError::RecoveryWindow) <==> now >= pending.expires_at + 630,
{
}

/// The pairing that a state works with.
pub open spec fn carried(state: PairState) -> Option<Pending> {
    match state {
        PairState::Probing(pending) => Some(pending),
        PairState::Keeping(pending) => Some(pending),
        PairState::Announcing(pending) => Some(pending),
        PairState::Waiting(pending) => Some(pending),
        PairState::Polling(pending) => Some(pending),
        PairState::BackingOff(pending) => Some(pending),
        _ => None,
    }
}

/// An interrupted setup goes on with the pairing that was kept, if the controller still knows it,
/// and a pairing never turns into another one.
pub proof fn interrupted_setup_resumes(pending: Pending, controller: String)
    ensures
        ({
            let probing = next_pairing(
                PairState::Looking,
                PairEvent::Found(Some(pending)),
                controller,
            );
            &&& carried(probing) == Some(pending)
            &&& next_pairing(probing, PairEvent::Confirmed, controller) == PairState::Announcing(
                pending,
            )
        }),
        forall|state: PairState, event: PairEvent|
            carried(state) == Some(pending) && carried(
                #[trigger] next_pairing(state, event, controller),
            ) is Some ==> carried(next_pairing(state, event, controller)) == Some(pending),
{
}

/// Whether two states differ in their credential alone.
pub open spec fn differ_in_credential(a: PairState, b: PairState) -> bool {
    match (a, b) {
        (PairState::Probing(p), PairState::Probing(q)) => p == (Pending {
            access_token: p.access_token,
            ..q
        }),
        (PairState::Announcing(p), PairState::Announcing(q)) => p == (Pending {
            access_token: p.access_token,
            ..q
        }),
        (PairState::Waiting(p), PairState::Waiting(q)) => p == (Pending {
            access_token: p.access_token,
            ..q
        }),
        (PairState::Polling(p), PairState::Polling(q)) => p == (Pending {
            access_token: p.access_token,
            ..q
        }),
        (PairState::BackingOff(p), PairState::BackingOff(q)) => p == (Pending {
            access_token: p.access_token,
            ..q
        }),
        (
            PairState::Requesting { device_secret: s, access_token: a },
            PairState::Requesting { device_secret: t, access_token: b },
        ) => s == t && token_hash(a@) == token_hash(b@),
        _ => false,
    }
}

/// The credential stays on the device until it is saved: what is sent, shown and done does not
/// depend on it, but for its digest in the request that begins the pairing.
pub proof fn credential_stays_on_the_device(
    a: PairState,
    b: PairState,
    controller: Seq<char>,
    device: Device,
)
    requires
        differ_in_credential(a, b),
    ensures
        pair_action(a, controller, device) == pair_action(b, controller, device),
{
}

/// What a pairing saves is accepted when it is loaded, and comes back unchanged: the credential that
/// was made on the device is never blank, so it is enough that the controller can be used and that
/// it named an owner and a machine that can.
pub proof fn paired_configuration_is_accepted(config: config::ConfigView, a: Seq<u8>, b: Seq<u8>)
    requires
        a.len() == 16 && b.len() == 16,
        config.access_token == setup::spelled_secret(a, b),
        config::base_url(config) == config.controller_url,
        config::parsed_url(config.controller_url) matches Ok(url) && (url.scheme == "https"@
            || url.host == Some("localhost"@)),
        !config::is_blank(config.user_id),
        config::is_user_id(config.user_id),
        !config::is_blank(config.machine_id),
    ensures
        config::checked_config(config, config::parsed_url(config::base_url(config))) == Ok::<
            config::ConfigView,
            config::ConfigErrorView,
        >(config),
{
    let token = config.access_token;
    encoding::hex_is_hexadecimal(a);
    encoding::hex_is_hexadecimal(b);
    assert(token[0] == encoding::hex(a)[0]);
    assert(token.last() == encoding::hex(b)[31]);
    assert(encoding::is_hex_digit(token[0]) && encoding::is_hex_digit(token.last()));
    assert(text::trim_start(token) == token);
    assert(text::trim(token) == token);
}

/// Where the outcome of a pairing is refused, the kind of the refusal decides: an overloaded
/// controller is asked again after a pause, an expired pairing is closed, and anything else ends it.
pub proof fn refused_questions_are_judged(
    pending: Pending,
    status: u16,
    reason: String,
    controller: String,
)
    ensures
        ({
            let next = next_pairing(
                PairState::Polling(pending),
                PairEvent::Refused { status, reason },
                controller,
            );
            &&& next == PairState::BackingOff(pending) <==> status == 429 || status / 100 == 5
            &&& next == PairState::Closing(PairError::Expired) <==> status == 410
            &&& status != 429 && status / 100 != 5 && status != 410 ==> next == PairState::Failed(
                PairError::Outside(reason),
            )
        }),
        next_pairing(PairState::BackingOff(pending), PairEvent::Paused, controller)
            == PairState::Waiting(pending),
        next_pairing(PairState::Polling(pending), PairEvent::Unreachable, controller)
            == PairState::Waiting(pending),
{
}

/// Where the controller says how the pairing stands, it goes on waiting as long as nobody has
/// decided, saves a configuration for the owner and the machine of an approval, and fails with what
/// else it was told.
pub proof fn replies_are_judged(pending: Pending, reply: PollReply, controller: String)
    ensures
        ({
            let next = next_pairing(
                PairState::Polling(pending),
                PairEvent::Replied(reply),
                controller,
            );
            &&& reply.status@ == "pending"@ || reply.status@ == "approving"@ ==> next
                == PairState::Waiting(pending)
            &&& reply.status@ == "approved"@ && reply.user_id is Some ==> (next matches
                PairState::Saving(config) && config.controller_url == controller && Some(
                config.user_id,
            ) == reply.user_id && config.machine_id == reply.machine_id && config.access_token
                == pending.access_token)
            &&& reply.status@ == "approved"@ && reply.user_id is None ==> next == PairState::Failed(
                PairError::NoOwner,
            )
            &&& reply.status@ == "cancelled"@ ==> next == PairState::Closing(PairError::Cancelled)
            &&& reply.status@ != "pending"@ && reply.status@ != "approving"@ && reply.status@
                != "approved"@ && reply.status@ != "cancelled"@ ==> next == PairState::Failed(
                PairError::UnexpectedStatus(reply.status),
            )
        }),
{
    lemma_statuses_differ();
}

/// A new pairing that is approved in time leads to a configuration for the owner and the machine of
/// the approval, with the credential that was made for it.
pub proof fn approved_pairings_come_to_their_end(
    device_secret: String,
    access_token: String,
    start: StartReply,
    now: u64,
    reply: PollReply,
    owner: String,
    controller: String,
)
    requires
        now < start.expires_at + 630,
        reply.status@ == "approved"@,
        reply.user_id == Some(owner),
    ensures
        ({
            let preparing = next_pairing(PairState::Looking, PairEvent::Found(None), controller);
            let requesting = next_pairing(
                preparing,
                PairEvent::Credentials { device_secret, access_token },
                controller,
            );
            let keeping = next_pairing(requesting, PairEvent::Started(start), controller);
            let announcing = next_pairing(keeping, PairEvent::Stored, controller);
            let waiting = next_pairing(announcing, PairEvent::Announced, controller);
            let polling = next_pairing(waiting, PairEvent::Time(now), controller);
            let saving = next_pairing(polling, PairEvent::Replied(reply), controller);
            let clearing = next_pairing(saving, PairEvent::Stored, controller);
            let paired = next_pairing(clearing, PairEvent::Removed, controller);
            let pending = Pending {
                id: start.id,
                user_code: start.user_code,
                expires_at: start.expires_at,
                device_secret,
                access_token,
            };
            &&& preparing is Preparing
            &&& requesting == (PairState::Requesting { device_secret, access_token })
            &&& keeping == PairState::Keeping(pending)
            &&& announcing == PairState::Announcing(pending)
            &&& waiting == PairState::Waiting(pending)
            &&& polling == PairState::Polling(pending)
            &&& paired == PairState::Paired(
                WorkerConfig {
                    controller_url: controller,
                    user_id: owner,
                    machine_id: reply.machine_id,
                    access_token,
                },
            )
        }),
{
    lemma_statuses_differ();
}

/// An earlier pairing that the controller has forgotten makes room for a new one, and a question
/// that it refuses otherwise ends the setup with what it said.
pub proof fn forgotten_pairings_are_replaced(
    pending: Pending,
    status: u16,
    reason: String,
    controller: String,
)
    ensures
        ({
            let next = next_pairing(
                PairState::Probing(pending),
                PairEvent::Refused { status, reason },
                controller,
            );
            &&& status == 410 ==> next_pairing(next, PairEvent::Removed, controller) is Preparing
                && next is Discarding
            &&& status != 410 ==> next == PairState::Failed(PairError::Outside(reason))
        }),
{
}

/// A setup that is broken off ends with the reason, unless it has ended before; then it stays as it
/// ended, whatever happens. A pairing that is closed ends with its error.
pub proof fn ended_pairings_stay_ended(
    state: PairState,
    event: PairEvent,
    reason: String,
    error: PairError,
    controller: String,
)
    ensures
        state is Paired || state is Failed ==> next_pairing(state, event, controller) == state,
        state !is Paired && state !is Failed ==> next_pairing(
            state,
            PairEvent::Broken(reason),
            controller,
        ) == PairState::Failed(PairError::Outside(reason)),
        next_pairing(PairState::Closing(error), PairEvent::Removed, controller)
            == PairState::Failed(error),
{
}

/// A pairing goes on only behind what its state waits for.
pub proof fn only_awaited_events_move_a_pairing(
    state: PairState,
    event: PairEvent,
    controller: String,
)
    requires
        next_pairing(state, event, controller) != state,
        event !is Broken,
    ensures
        match state {
            PairState::Looking => event is Found,
            PairState::Probing(_) => event is Confirmed || event is Refused,
            PairState::Discarding => event is Removed,
            PairState::Preparing => event is Credentials,
            PairState::Requesting { .. } => event is Started,
            PairState::Keeping(_) => event is Stored,
            PairState::Announcing(_) => event is Announced,
            PairState::Waiting(_) => event is Time,
            PairState::Polling(_) => event is Unreachable || event is Refused || event is Replied,
            PairState::BackingOff(_) => event is Paused,
            PairState::Closing(_) => event is Removed,
            PairState::Saving(_) => event is Stored,
            PairState::Clearing(_) => event is Removed,
            PairState::Paired(_) => false,
            PairState::Failed(_) => false,
        },
{
}

/// The addresses of a pairing begin with the controller and end with its identifier or its code, so
/// that different pairings have different ones.
#[verifier::rlimit(40)]
pub proof fn pairings_have_addresses_of_their_own(
    controller: Seq<char>,
    id: Seq<char>,
    other: Seq<char>,
)
    ensures
        text::after_prefix(pairings_url(controller), controller) == Some("/worker/v1/pairings"@),
        text::after_prefix(pairing_url(controller, id), controller) == Some(
            "/worker/v1/pairings/"@ + id,
        ),
        text::after_prefix(approval_url(controller, id), controller) == Some(
            "/#/workers?code="@ + id,
        ),
        pairing_url(controller, id) == pairing_url(controller, other) ==> id == other,
        approval_url(controller, id) == approval_url(controller, other) ==> id == other,
{
    reveal_strlit("/worker/v1/pairings");
    reveal_strlit("/worker/v1/pairings/");
    reveal_strlit("/");
    assert("/worker/v1/pairings/"@ =~= "/worker/v1/pairings"@ + "/"@);
    assert(pairing_url(controller, id) =~= controller + ("/worker/v1/pairings/"@ + id));
    assert(pairing_url(controller, other) =~= controller + ("/worker/v1/pairings/"@ + other));
    assert(approval_url(controller, id) =~= controller + ("/#/workers?code="@ + id));
    text::prefix_and_rest_make_the_text(
        pairings_url(controller),
        controller,
        "/worker/v1/pairings"@,
    );
    text::prefix_and_rest_make_the_text(
        pairing_url(controller, id),
        controller,
        "/worker/v1/pairings/"@ + id,
    );
    text::prefix_and_rest_make_the_text(
        approval_url(controller, id),
        controller,
        "/#/workers?code="@ + id,
    );
    let n = controller.len() + 20;
    assert(id =~= pairing_url(controller, id).skip(n as int));
    assert(other =~= pairing_url(controller, other).skip(n as int));
    let m = controller.len() + "/#/workers?code="@.len();
    assert(id =~= approval_url(controller, id).skip(m as int));
    assert(other =~= approval_url(controller, other).skip(m as int));
}

/// What stands for a credential in the controller is the SHA-256 digest of its UTF-8 bytes, in
/// hexadecimal, and of no other bytes with another digest.
pub proof fn credentials_are_known_by_their_digest(access_token: Seq<char>, digest: Seq<u8>)
    ensures
        token_hash(access_token) == encoding::hex(digest) <==> digest == encoding::sha256(
            vstd::utf8::encode_utf8(access_token),
        ),
{
    if token_hash(access_token) == encoding::hex(digest) {
        encoding::hex_is_injective(
            encoding::sha256(vstd::utf8::encode_utf8(access_token)),
            digest,
        );
    }
}

/// A device tells its own name, its system and its version as they are, and proves itself with its
/// secret; a device without a name has a common one.
pub proof fn devices_tell_what_they_are(
    controller: Seq<char>,
    device_secret: Seq<char>,
    access_token: Seq<char>,
    device: Device,
)
    ensures
        ({
            let request = start_request(controller, device_secret, access_token, device);
            &&& request.url == pairings_url(controller)
            &&& request.device_secret == device_secret
            &&& request.token_hash == token_hash(access_token)
            &&& device.hostname matches Some(name) ==> request.hostname == name@
            &&& device.hostname is None ==> request.hostname == "My device"@
            &&& text::after_prefix(request.platform, device.os@) == Some(" / "@ + device.arch@)
            &&& request.version == device.version@
        }),
{
    let platform = device.os@ + " / "@ + device.arch@;
    assert(platform =~= device.os@ + (" / "@ + device.arch@));
    text::prefix_and_rest_make_the_text(platform, device.os@, " / "@ + device.arch@);
}

/// What the user is shown holds the address at which the pairing is approved and, behind it, its
/// code.
#[verifier::rlimit(40)]
pub proof fn invitations_show_address_and_code(controller: Seq<char>, user_code: Seq<char>)
    ensures
        exists|front: Seq<char>, middle: Seq<char>, back: Seq<char>|
            invitation(controller, user_code) == #[trigger] (front + approval_url(
                controller,
                user_code,
            ) + middle + user_code + back),
        text::holds(invitation(controller, user_code), "Pairing code: "@ + user_code),
{
    let front = "\n连接设备 / Connect device\n\n  "@;
    let middle = "\n\n配对码 / Pairing code: "@;
    let back =
        "\n\n请在网页核对设备并确认授权。请勿批准他人发送的配对码。\nConfirm this device and code in Cybion. Do not approve codes sent by others.\nWaiting for approval (10 minute expiry). Ctrl+C is safe; run again to resume.\n"@;
    let address = approval_url(controller, user_code);
    assert(invitation(controller, user_code) == front + address + middle + user_code + back);
    reveal_strlit("\n\n配对码 / Pairing code: ");
    reveal_strlit("Pairing code: ");
    let head = middle.take(middle.len() - 14);
    assert(middle =~= head + "Pairing code: "@);
    assert(invitation(controller, user_code) =~= (front + address + head) + ("Pairing code: "@
        + user_code) + back);
    text::held_texts_stand_inside(
        invitation(controller, user_code),
        "Pairing code: "@ + user_code,
    );
}

/// Each state of a pairing calls for what it waits for: questions go to the address of the pairing
/// with the secret of the device, every third second, an overloaded controller gets five seconds
/// more, and what is kept and saved is what was agreed on.
pub proof fn pairing_states_call_for_their_action(
    pending: Pending,
    config: WorkerConfig,
    error: PairError,
    device_secret: String,
    access_token: String,
    controller: Seq<char>,
    device: Device,
)
    ensures
        pair_action(PairState::Looking, controller, device) is Find,
        pair_action(PairState::Probing(pending), controller, device) == (PairActionView::Ask {
            url: pairing_url(controller, pending.id@),
            secret: pending.device_secret@,
        }),
        pair_action(PairState::Discarding, controller, device) is Remove,
        pair_action(PairState::Preparing, controller, device) is MakeCredentials,
        pair_action(
            PairState::Requesting { device_secret, access_token },
            controller,
            device,
        ) == PairActionView::Start(
            start_request(controller, device_secret@, access_token@, device),
        ),
        pair_action(PairState::Keeping(pending), controller, device) == PairActionView::Keep(pending),
        pair_action(PairState::Announcing(pending), controller, device) == (
        PairActionView::Announce {
            url: approval_url(controller, pending.user_code@),
            text: invitation(controller, pending.user_code@),
        }),
        pair_action(PairState::Waiting(pending), controller, device) is ReadClock,
        pair_action(PairState::Polling(pending), controller, device) == (PairActionView::Poll {
            seconds: 3,
            url: pairing_url(controller, pending.id@),
            secret: pending.device_secret@,
        }),
        pair_action(PairState::BackingOff(pending), controller, device) == PairActionView::Pause(5),
        pair_action(PairState::Closing(error), controller, device) is Remove,
        pair_action(PairState::Saving(config), controller, device) == PairActionView::Save(config),
        pair_action(PairState::Clearing(config), controller, device) is Remove,
        pair_action(PairState::Paired(config), controller, device) is Finish,
        pair_action(PairState::Failed(error), controller, device) is Finish,
{
}

/// What the user is told of a failed pairing gives the reason or the status that came from outside.
pub proof fn pairing_messages_give_the_reason(reason: String)
    ensures
        pair_message(PairError::Outside(reason)) == reason@,
        text::after_prefix(
            pair_message(PairError::UnexpectedStatus(reason)),
            "Unexpected pairing status: "@,
        ) == Some(reason@),
{
    text::prefix_and_rest_make_the_text(
        pair_message(PairError::UnexpectedStatus(reason)),
        "Unexpected pairing status: "@,
        reason@,
    );
}

/// Contracts speak of what requests and actions hold.
pub proof fn pairing_actions_are_taken_as_they_are(
    request: StartRequest,
    pending: Pending,
    config: WorkerConfig,
    url: String,
    other: String,
    seconds: u64,
)
    ensures
        request@.url == request.url@,
        request@.device_secret == request.device_secret@,
        request@.token_hash == request.token_hash@,
        request@.hostname == request.hostname@,
        request@.platform == request.platform@,
        request@.version == request.version@,
        PairAction::Find@ is Find,
        (PairAction::Ask { url, secret: other })@ == (PairActionView::Ask {
            url: url@,
            secret: other@,
        }),
        PairAction::Remove@ is Remove,
        PairAction::MakeCredentials@ is MakeCredentials,
        PairAction::Start(request)@ == PairActionView::Start(request@),
        PairAction::Keep(pending)@ == PairActionView::Keep(pending),
        (PairAction::Announce { url, text: other })@ == (PairActionView::Announce {
            url: url@,
            text: other@,
        }),
        PairAction::ReadClock@ is ReadClock,
        (PairAction::Poll { seconds, url, secret: other })@ == (PairActionView::Poll {
            seconds,
            url: url@,
            secret: other@,
        }),
        PairAction::Pause(seconds)@ == PairActionView::Pause(seconds),
        PairAction::Save(config)@ == PairActionView::Save(config),
        PairAction::Finish@ is Finish,
{
}

/// The fixed messages tell the user what to do next, and only one of them says that the pairing is
/// kept.
pub proof fn fixed_pairing_messages()
    ensures
        pair_message(PairError::RecoveryWindow)
            == "Could not finish pairing within the recovery window. Run again to recover the server state; pending credentials have been preserved."@,
        pair_message(PairError::Expired) == "Pairing expired. Run the Worker again for a new code."@,
        pair_message(PairError::Cancelled) == "Pairing cancelled. Run the Worker again when ready."@,
        pair_message(PairError::NoOwner) == "approval has no owner"@,
{
}

} // verus!
