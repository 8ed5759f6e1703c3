//! Upgrades of the worker's own executable.
use crate::archive;
use crate::archive::ArchiveError;
use crate::config;
use crate::config::WorkerConfig;
use crate::encoding;
use crate::numbers;
use crate::paths;
use crate::paths::Os;
use crate::text;
use vstd::prelude::*;

verus! {

/// A request to replace the worker with another release.
pub struct Upgrade {
    pub id: String,
    pub version: String,
    pub boot_id: String,
}

/// Whether a line names the upgrade event.
pub open spec fn names_upgrade(line: Seq<char>) -> bool {
    match text::after_prefix(line, "event:"@) {
        Some(value) => text::trim(value) == "upgrade"@,
        None => false,
    }
}

/// The contents of the `data:` lines, one behind the other.
pub open spec fn upgrade_data(lines: Seq<Seq<char>>) -> Seq<char>
    decreases lines.len(),
{
    if lines.len() == 0 {
        seq![]
    } else {
        upgrade_data(lines.drop_last()) + match text::after_prefix(lines.last(), "data:"@) {
            Some(value) => value,
            None => seq![],
        }
    }
}

/// The JSON of the upgrade that an event asks for, if it asks for one.
pub open spec fn upgrade_of(event: Seq<char>) -> Option<Seq<char>> {
    let lines = text::lines(event);
    if exists|i: int| 0 <= i < lines.len() && names_upgrade(#[trigger] lines[i]) {
        Some(upgrade_data(lines))
    } else {
        None
    }
}

/// The JSON of the upgrade that an event asks for, if it asks for one.
pub fn parse_event(event: &str) -> (r: Option<String>)
    ensures
        match r {
            Some(data) => upgrade_of(event@) == Some(data@),
            None => upgrade_of(event@) is None,
        },
{
    let lines = text::text_lines(event);
    let ghost all = text::texts(lines@);
    let mut named = false;
    let mut data = String::new();
    let mut i: usize = 0;
    while i < lines.len()
        invariant
            i <= lines@.len(),
            all == text::texts(lines@),
            named == exists|k: int| 0 <= k < i && names_upgrade(#[trigger] all[k]),
            data@ == upgrade_data(all.take(i as int)),
        decreases lines@.len() - i,
    {
        let line = lines[i].as_str();
        let ghost seen = all.take(i + 1);
        assert(seen.drop_last() =~= all.take(i as int));
        assert(seen.last() == line@);
        assert(all[i as int] == line@);
        match text::strip_prefix(line, "event:") {
            Some(value) => {
                let value = text::trimmed(value.as_str());
                if text::same(value.as_str(), "upgrade") {
                    named = true;
                }
            },
            None => {},
        }
        match text::strip_prefix(line, "data:") {
            Some(value) => {
                data.append(value.as_str());
            },
            None => {},
        }
        assert(data@ =~= upgrade_data(seen));
        i = i + 1;
    }
    assert(all.take(i as int) =~= all);
    if named {
        Some(data)
    } else {
        None
    }
}

/// The most bytes that a release archive, or the executable in it, may have.
pub const MAX_ARCHIVE: usize = 67108864;

/// The most bytes that the checksum of a release may have.
pub const MAX_CHECKSUM: usize = 1024;

/// Why an upgrade is not installed.
pub enum InstallError {
    InvalidVersion,
    /// A part of the version does not fit into 64 bits.
    VersionTooLarge,
    NotNewer,
    UnsupportedPlatform,
    AssetTooLarge,
    /// The checksum is not UTF-8, for the given reason.
    ChecksumEncoding(String),
    ChecksumManifest,
    ChecksumMismatch,
    /// The archive cannot be read, for the given reason.
    UnreadableArchive(String),
    /// The archive has an entry whose path the system cannot express.
    UnsupportedPath(String),
    InvalidEntry,
    MissingExecutable,
    PreflightFailed,
}

/// What the user is told of an upgrade that is not installed.
pub open spec fn install_message(error: InstallError) -> Seq<char> {
    match error {
        InstallError::InvalidVersion => "invalid release version"@,
        InstallError::VersionTooLarge => "number too large to fit in target type"@,
        InstallError::NotNewer => "only a newer official release may be installed"@,
        InstallError::UnsupportedPlatform => "no official Worker build for this platform"@,
        InstallError::AssetTooLarge => "release asset too large"@,
        InstallError::ChecksumEncoding(reason) => reason@,
        InstallError::ChecksumManifest => "invalid release checksum manifest"@,
        InstallError::ChecksumMismatch => "release checksum mismatch"@,
        InstallError::UnreadableArchive(reason) => reason@,
        InstallError::UnsupportedPath(path) => "only Unicode paths are supported on Windows: "@
            + path@,
        InstallError::InvalidEntry => "invalid executable entry"@,
        InstallError::MissingExecutable => "release archive has no expected executable"@,
        InstallError::PreflightFailed => "downloaded executable failed version preflight"@,
    }
}

impl InstallError {
    /// What the user is told.
    pub fn message(&self) -> (r: String)
        ensures
            r@ == install_message(*self),
    {
        match self {
            InstallError::InvalidVersion => "invalid release version".to_owned(),
            InstallError::VersionTooLarge => "number too large to fit in target type".to_owned(),
            InstallError::NotNewer => "only a newer official release may be installed".to_owned(),
            InstallError::UnsupportedPlatform => "no official Worker build for this platform".to_owned(),
            InstallError::AssetTooLarge => "release asset too large".to_owned(),
            InstallError::ChecksumEncoding(reason) => reason.clone(),
            InstallError::ChecksumManifest => "invalid release checksum manifest".to_owned(),
            InstallError::ChecksumMismatch => "release checksum mismatch".to_owned(),
            InstallError::UnreadableArchive(reason) => reason.clone(),
            InstallError::UnsupportedPath(path) => {
                let mut message = "only Unicode paths are supported on Windows: ".to_owned();
                message.append(path.as_str());
                message
            },
            InstallError::InvalidEntry => "invalid executable entry".to_owned(),
            InstallError::MissingExecutable => "release archive has no expected executable".to_owned(),
            InstallError::PreflightFailed => "downloaded executable failed version preflight".to_owned(),
        }
    }
}

/// A text without the `v` that may stand in front of a version.
pub open spec fn without_v(s: Seq<char>) -> Seq<char> {
    match text::after_prefix(s, "v"@) {
        Some(rest) => rest,
        None => s,
    }
}

/// Whether `parts` can be the parts of a version: three numbers in decimal digits.
pub open spec fn are_version_parts(parts: Seq<Seq<char>>) -> bool {
    parts.len() == 3 && forall|i: int|
        0 <= i < 3 ==> (#[trigger] parts[i]).len() > 0 && numbers::all_digits(parts[i])
}

/// Whether `s` is a version, such as `v0.2.0` or `0.2.0`.
pub open spec fn is_version(s: Seq<char>) -> bool {
    are_version_parts(text::split(without_v(s), '.'))
}

/// The numbers of a version, unless one of them is too large.
pub open spec fn version_numbers(s: Seq<char>) -> Option<(u64, u64, u64)> {
    let parts = text::split(without_v(s), '.');
    match (
        numbers::parse_u64(parts[0]),
        numbers::parse_u64(parts[1]),
        numbers::parse_u64(parts[2]),
    ) {
        (Some(major), Some(minor), Some(patch)) => Some((major, minor, patch)),
        _ => None,
    }
}

fn digits_only(part: &str) -> (r: bool)
    ensures
        r == (part@.len() > 0 && numbers::all_digits(part@)),
{
    let chars = text::characters(part);
    let mut i: usize = 0;
    while i < chars.len()
        invariant
            i <= chars@.len(),
            chars@ == part@,
            forall|k: int| 0 <= k < i ==> numbers::is_digit(#[trigger] chars@[k]),
        decreases chars@.len() - i,
    {
        if !('0' <= chars[i] && chars[i] <= '9') {
            return false;
        }
        i = i + 1;
    }
    chars.len() > 0
}

/// The numbers of a version.
pub fn version(value: &str) -> (r: Result<(u64, u64, u64), InstallError>)
    ensures
        match r {
            Ok(numbers) => is_version(value@) && version_numbers(value@) == Some(numbers),
            Err(InstallError::InvalidVersion) => !is_version(value@),
            Err(InstallError::VersionTooLarge) => is_version(value@) && version_numbers(
                value@,
            ) is None,
            Err(_) => false,
        },
{
    let plain = match text::strip_prefix(value, "v") {
        Some(rest) => rest,
        None => value.to_owned(),
    };
    let parts = text::split_on(plain.as_str(), '.');
    let ghost all = text::texts(parts@);
    assert(all == text::split(without_v(value@), '.'));
    assert(all.len() == parts@.len());
    if parts.len() != 3 {
        return Err(InstallError::InvalidVersion);
    }
    let first = digits_only(parts[0].as_str());
    let second = digits_only(parts[1].as_str());
    let third = digits_only(parts[2].as_str());
    assert(all[0] == parts@[0]@ && all[1] == parts@[1]@ && all[2] == parts@[2]@);
    if !(first && second && third) {
        return Err(InstallError::InvalidVersion);
    }
    match (
        numbers::parse_number(parts[0].as_str()),
        numbers::parse_number(parts[1].as_str()),
        numbers::parse_number(parts[2].as_str()),
    ) {
        (Some(major), Some(minor), Some(patch)) => Ok((major, minor, patch)),
        _ => Err(InstallError::VersionTooLarge),
    }
}

/// Whether version `a` comes behind version `b`.
pub open spec fn is_newer(a: (u64, u64, u64), b: (u64, u64, u64)) -> bool {
    a.0 > b.0 || (a.0 == b.0 && (a.1 > b.1 || (a.1 == b.1 && a.2 > b.2)))
}

fn newer(a: (u64, u64, u64), b: (u64, u64, u64)) -> (r: bool)
    ensures
        r == is_newer(a, b),
{
    a.0 > b.0 || (a.0 == b.0 && (a.1 > b.1 || (a.1 == b.1 && a.2 > b.2)))
}

/// A version in its usual spelling, without the leading `v`.
pub open spec fn version_text(v: (u64, u64, u64)) -> Seq<char> {
    numbers::decimal(v.0 as nat) + "."@ + numbers::decimal(v.1 as nat) + "."@ + numbers::decimal(
        v.2 as nat,
    )
}

fn spell_version(v: (u64, u64, u64)) -> (r: String)
    ensures
        r@ == version_text(v),
{
    let mut result = numbers::decimal_text(v.0);
    let minor = numbers::decimal_text(v.1);
    let patch = numbers::decimal_text(v.2);
    result.append(".");
    result.append(minor.as_str());
    result.append(".");
    result.append(patch.as_str());
    result
}

/// The name under which releases for a system are published, if there are any.
pub open spec fn platform_name(os: Seq<char>, arch: Seq<char>) -> Option<Seq<char>> {
    if os == "macos"@ && arch == "aarch64"@ {
        Some("cybion-worker-macos-aarch64"@)
    } else if os == "macos"@ && arch == "x86_64"@ {
        Some("cybion-worker-macos-x86_64"@)
    } else if os == "linux"@ && arch == "aarch64"@ {
        Some("cybion-worker-linux-aarch64"@)
    } else if os == "linux"@ && arch == "x86_64"@ {
        Some("cybion-worker-linux-x86_64"@)
    } else if os == "windows"@ && arch == "x86_64"@ {
        Some("cybion-worker-windows-x86_64"@)
    } else {
        None
    }
}

/// The name under which releases for a system are published.
pub fn platform(os: &str, arch: &str) -> (r: Result<String, InstallError>)
    ensures
        match r {
            Ok(name) => platform_name(os@, arch@) == Some(name@),
            Err(error) => platform_name(os@, arch@) is None && error is UnsupportedPlatform,
        },
{
    let arm = text::same(arch, "aarch64");
    let intel = text::same(arch, "x86_64");
    proof {
        reveal_strlit("aarch64");
        reveal_strlit("x86_64");
        reveal_strlit("macos");
        reveal_strlit("linux");
        reveal_strlit("windows");
        assert("macos"@[0] == 'm' && "linux"@[0] == 'l' && "windows"@[0] == 'w');
        assert("aarch64"@[0] == 'a' && "x86_64"@[0] == 'x');
    }
    if text::same(os, "macos") {
        if arm {
            return Ok("cybion-worker-macos-aarch64".to_owned());
        }
        if intel {
            return Ok("cybion-worker-macos-x86_64".to_owned());
        }
    } else if text::same(os, "linux") {
        if arm {
            return Ok("cybion-worker-linux-aarch64".to_owned());
        }
        if intel {
            return Ok("cybion-worker-linux-x86_64".to_owned());
        }
    } else if text::same(os, "windows") {
        if intel {
            return Ok("cybion-worker-windows-x86_64".to_owned());
        }
    }
    Err(InstallError::UnsupportedPlatform)
}

/// What has to be fetched and checked for an upgrade.
pub struct InstallPlan {
    pub version: (u64, u64, u64),
    /// The file name of the archive.
    pub asset: String,
    pub url: String,
    pub checksum_url: String,
    /// The path of the executable inside the archive.
    pub entry: String,
    /// What the new executable has to say of itself.
    pub banner: String,
}

/// The address of an asset of a release.
pub open spec fn asset_url(version: (u64, u64, u64), asset: Seq<char>) -> Seq<char> {
    "https://github.com/zccz14/cybion-worker/releases/download"@ + "/v"@ + version_text(version)
        + "/"@ + asset
}

/// The name of the worker's executable.
pub open spec fn executable_name(os: Seq<char>) -> Seq<char> {
    if os == "windows"@ {
        "cybion-worker.exe"@
    } else {
        "cybion-worker"@
    }
}

/// Whether `plan` is the plan for that version on that system.
pub open spec fn plans(
    plan: InstallPlan,
    version: (u64, u64, u64),
    folder: Seq<char>,
    os: Seq<char>,
) -> bool {
    &&& plan.version == version
    &&& plan.asset@ == folder + ".tar.gz"@
    &&& plan.url@ == asset_url(version, plan.asset@)
    &&& plan.checksum_url@ == plan.url@ + ".sha256"@
    &&& plan.entry@ == folder + "/"@ + executable_name(os)
    &&& plan.banner@ == "Cybion Worker "@ + version_text(version)
}

/// Whether `r` is the answer to the wish to install the release `requested` over the version
/// `current`: the plan, where both are versions, the requested one is newer, and there is an
/// official build for the system, or else the first of these that does not hold.
pub open spec fn is_planning(
    r: Result<InstallPlan, InstallError>,
    requested: Seq<char>,
    current: Seq<char>,
    os: Seq<char>,
    arch: Seq<char>,
) -> bool {
    match r {
        Ok(plan) => {
            &&& is_version(requested)
            &&& version_numbers(requested) is Some
            &&& is_version(current)
            &&& version_numbers(current) is Some
            &&& is_newer(version_numbers(requested)->Some_0, version_numbers(current)->Some_0)
            &&& platform_name(os, arch) is Some
            &&& plans(
                plan,
                version_numbers(requested)->Some_0,
                platform_name(os, arch)->Some_0,
                os,
            )
        },
        Err(InstallError::InvalidVersion) => !is_version(requested) || (version_numbers(
            requested,
        ) is Some && !is_version(current)),
        Err(InstallError::VersionTooLarge) => is_version(requested) && (version_numbers(
            requested,
        ) is None || (is_version(current) && version_numbers(current) is None)),
        Err(InstallError::NotNewer) => {
            &&& is_version(requested)
            &&& version_numbers(requested) is Some
            &&& is_version(current)
            &&& version_numbers(current) is Some
            &&& !is_newer(
                version_numbers(requested)->Some_0,
                version_numbers(current)->Some_0,
            )
        },
        Err(InstallError::UnsupportedPlatform) => {
            &&& is_version(requested)
            &&& version_numbers(requested) is Some
            &&& is_version(current)
            &&& version_numbers(current) is Some
            &&& is_newer(version_numbers(requested)->Some_0, version_numbers(current)->Some_0)
            &&& platform_name(os, arch) is None
        },
        Err(_) => false,
    }
}

/// Plans the installation of the release `requested` over the version `current`.
pub fn plan_install(requested: &str, current: &str, os: &str, arch: &str) -> (r: Result<
    InstallPlan,
    InstallError,
>)
    ensures
        is_planning(r, requested@, current@, os@, arch@),
{
    let wanted = match version(requested) {
        Ok(wanted) => wanted,
        Err(error) => return Err(error),
    };
    let running = match version(current) {
        Ok(running) => running,
        Err(error) => return Err(error),
    };
    if !newer(wanted, running) {
        return Err(InstallError::NotNewer);
    }
    let folder = match platform(os, arch) {
        Ok(folder) => folder,
        Err(error) => return Err(error),
    };
    let spelled = spell_version(wanted);
    let mut asset = folder.clone();
    asset.append(".tar.gz");
    let mut url = "https://github.com/zccz14/cybion-worker/releases/download".to_owned();
    url.append("/v");
    url.append(spelled.as_str());
    url.append("/");
    url.append(asset.as_str());
    let mut checksum_url = url.clone();
    checksum_url.append(".sha256");
    let mut entry = folder;
    entry.append("/");
    if text::same(os, "windows") {
        entry.append("cybion-worker.exe");
    } else {
        entry.append("cybion-worker");
    }
    let mut banner = "Cybion Worker ".to_owned();
    banner.append(spelled.as_str());
    Ok(InstallPlan { version: wanted, asset, url, checksum_url, entry, banner })
}

/// A file that is being downloaded.
pub struct Download {
    bytes: Vec<u8>,
    limit: usize,
}

/// The contents of a [`Download`].
pub struct DownloadView {
    pub bytes: Seq<u8>,
    pub limit: usize,
}

impl View for Download {
    type V = DownloadView;

    closed spec fn view(&self) -> DownloadView {
        DownloadView { bytes: self.bytes@, limit: self.limit }
    }
}

impl Download {
    /// A download never holds more than its limit.
    #[verifier::type_invariant]
    spec fn within_limit(self) -> bool {
        self.bytes@.len() <= self.limit
    }

    /// Starts a download, unless its announced length exceeds the limit.
    pub fn start(length: Option<u64>, limit: usize) -> (r: Result<Download, InstallError>)
        ensures
            match r {
                Ok(download) => {
                    &&& length matches Some(length) ==> length <= limit
                    &&& download@ == (DownloadView { bytes: Seq::<u8>::empty(), limit })
                },
                Err(error) => error is AssetTooLarge && length is Some && length->Some_0 > limit,
            },
    {
        if let Some(length) = length {
            if length > limit as u64 {
                return Err(InstallError::AssetTooLarge);
            }
        }
        Ok(Download { bytes: Vec::new(), limit })
    }

    /// Takes in the next bytes, unless they exceed the limit.
    pub fn receive(&mut self, chunk: &[u8]) -> (r: Result<(), InstallError>)
        ensures
            old(self)@.bytes.len() + chunk@.len() <= old(self)@.limit ==> r is Ok && final(self)@
                == (DownloadView { bytes: old(self)@.bytes + chunk@, ..old(self)@ }),
            old(self)@.bytes.len() + chunk@.len() > old(self)@.limit ==> (r matches Err(error)
                && error is AssetTooLarge) && final(self)@ == old(self)@,
    {
        proof {
            use_type_invariant(&*self);
        }
        if chunk.len() > self.limit - self.bytes.len() {
            return Err(InstallError::AssetTooLarge);
        }
        let mut bytes: Vec<u8> = Vec::new();
        core::mem::swap(&mut bytes, &mut self.bytes);
        bytes.extend_from_slice(chunk);
        assert(bytes@ =~= old(self).bytes@ + chunk@);
        self.bytes = bytes;
        Ok(())
    }

    /// The bytes that were downloaded.
    pub fn finish(self) -> (r: Vec<u8>)
        ensures
            r@ == self@.bytes,
            r@.len() <= self@.limit,
    {
        proof {
            use_type_invariant(&self);
        }
        self.bytes
    }
}

/// How a checksum judges an archive.
pub enum ChecksumVerdict {
    Matches,
    /// The checksum is not UTF-8.
    Undecodable,
    /// The checksum does not name the archive.
    Malformed,
    /// The archive is not the one that was published.
    Mismatch,
}

/// How the checksum of a release judges the archive `name`: it consists of the hexadecimal
/// SHA-256 digest and the name, in front of which an asterisk may stand.
pub open spec fn checksum_verdict(
    archive: Seq<u8>,
    checksum: Seq<u8>,
    name: Seq<char>,
) -> ChecksumVerdict {
    let fields = text::words(vstd::utf8::decode_utf8(checksum));
    if !vstd::utf8::valid_utf8(checksum) {
        ChecksumVerdict::Undecodable
    } else if fields.len() != 2 || text::trim_start_of(fields[1], '*') != name {
        ChecksumVerdict::Malformed
    } else if encoding::hex(encoding::sha256(archive)) != text::lowercase(fields[0]) {
        ChecksumVerdict::Mismatch
    } else {
        ChecksumVerdict::Matches
    }
}

/// Checks that an archive is the one that was published under `name`.
pub fn verify(archive: &[u8], checksum: &[u8], name: &str) -> (r: Result<(), InstallError>)
    ensures
        match checksum_verdict(archive@, checksum@, name@) {
            ChecksumVerdict::Matches => r is Ok,
            ChecksumVerdict::Undecodable => r matches Err(InstallError::ChecksumEncoding(reason))
                && reason@ == encoding::utf8_error(checksum@),
            ChecksumVerdict::Malformed => r matches Err(error) && error is ChecksumManifest,
            ChecksumVerdict::Mismatch => r matches Err(error) && error is ChecksumMismatch,
        },
{
    let manifest = match encoding::utf8_text(checksum) {
        Ok(manifest) => manifest,
        Err(reason) => return Err(InstallError::ChecksumEncoding(reason)),
    };
    let fields = text::text_words(manifest.as_str());
    let ghost all = text::texts(fields@);
    assert(all.len() == fields@.len());
    if fields.len() != 2 {
        return Err(InstallError::ChecksumManifest);
    }
    assert(all[0] == fields@[0]@ && all[1] == fields@[1]@);
    let named = text::trimmed_start_of(fields[1].as_str(), '*');
    if !text::same(named.as_str(), name) {
        return Err(InstallError::ChecksumManifest);
    }
    let digest = encoding::sha256_digest(archive);
    let actual = encoding::hex_text(digest.as_slice());
    let published = text::lowercased(fields[0].as_str());
    if !text::same(actual.as_str(), published.as_str()) {
        return Err(InstallError::ChecksumMismatch);
    }
    Ok(())
}

/// Two archives that one checksum accepts have the same digest.
pub proof fn checksum_pins_the_digest(
    a: Seq<u8>,
    b: Seq<u8>,
    checksum: Seq<u8>,
    name: Seq<char>,
    other: Seq<char>,
)
    requires
        checksum_verdict(a, checksum, name) is Matches,
        checksum_verdict(b, checksum, other) is Matches,
    ensures
        encoding::sha256(a) == encoding::sha256(b),
        name == other,
{
    encoding::hex_is_injective(encoding::sha256(a), encoding::sha256(b));
}

/// What comes out of a release archive under the path `expected`.
pub open spec fn extracted(archive: Seq<u8>, expected: Seq<char>, os: Os) -> Result<
    Seq<u8>,
    archive::EntryFault,
> {
    archive::extraction(archive, expected, MAX_ARCHIVE as u64, os)
}

/// Whether an error stands for a fault of an archive.
pub open spec fn is_refusal(error: InstallError, fault: archive::EntryFault) -> bool {
    match fault {
        archive::EntryFault::Unreadable(reason) => error matches InstallError::UnreadableArchive(
            shown,
        ) && shown@ == reason,
        archive::EntryFault::UnsupportedPath(path) => error matches InstallError::UnsupportedPath(
            shown,
        ) && shown@ == encoding::utf8_lossy(path),
        archive::EntryFault::Invalid => error is InvalidEntry,
        archive::EntryFault::Missing => error is MissingExecutable,
    }
}

/// Takes the executable out of a release archive.
pub fn extract(archive: &[u8], expected: &str, os: Os) -> (r: Result<Vec<u8>, InstallError>)
    ensures
        match r {
            Ok(bytes) => extracted(archive@, expected@, os) == Ok::<
                Seq<u8>,
                archive::EntryFault,
            >(bytes@),
            Err(error) => extracted(archive@, expected@, os) matches Err(fault) && is_refusal(
                error,
                fault,
            ),
        },
{
    match archive::extract_file(archive, expected, MAX_ARCHIVE as u64, os) {
        Ok(bytes) => Ok(bytes),
        Err(ArchiveError::Unreadable(reason)) => Err(InstallError::UnreadableArchive(reason)),
        Err(ArchiveError::UnsupportedPath(path)) => Err(InstallError::UnsupportedPath(path)),
        Err(ArchiveError::InvalidEntry) => Err(InstallError::InvalidEntry),
        Err(ArchiveError::MissingEntry) => Err(InstallError::MissingExecutable),
    }
}

/// Whether `r` is what becomes of an archive and its checksum: the executable of the release,
/// where the checksum matches and the archive holds it, or else the reason.
pub open spec fn is_staging(
    r: Result<Vec<u8>, InstallError>,
    plan: InstallPlan,
    archive: Seq<u8>,
    checksum: Seq<u8>,
    os: Os,
) -> bool {
    match checksum_verdict(archive, checksum, plan.asset@) {
        ChecksumVerdict::Matches => match r {
            Ok(bytes) => extracted(archive, plan.entry@, os) == Ok::<
                Seq<u8>,
                archive::EntryFault,
            >(bytes@),
            Err(error) => extracted(archive, plan.entry@, os) matches Err(fault) && is_refusal(
                error,
                fault,
            ),
        },
        ChecksumVerdict::Undecodable => r matches Err(InstallError::ChecksumEncoding(reason))
            && reason@ == encoding::utf8_error(checksum),
        ChecksumVerdict::Malformed => r matches Err(error) && error is ChecksumManifest,
        ChecksumVerdict::Mismatch => r matches Err(error) && error is ChecksumMismatch,
    }
}

/// The executable of a release, once its archive has been checked. Nothing is taken out of an
/// archive that was not published.
pub fn stage(plan: &InstallPlan, archive: &[u8], checksum: &[u8], os: Os) -> (r: Result<
    Vec<u8>,
    InstallError,
>)
    ensures
        is_staging(r, *plan, archive@, checksum@, os),
{
    match verify(archive, checksum, plan.asset.as_str()) {
        Ok(()) => extract(archive, plan.entry.as_str(), os),
        Err(error) => Err(error),
    }
}

/// Whether a new executable ran and said that it is the planned version.
pub open spec fn passes_preflight(plan: InstallPlan, success: bool, stdout: Seq<u8>) -> bool {
    success && text::holds(encoding::utf8_lossy(stdout), plan.banner@)
}

/// Checks that the new executable runs and says that it is the planned version.
pub fn preflight(plan: &InstallPlan, success: bool, stdout: &[u8]) -> (r: Result<(), InstallError>)
    ensures
        r is Ok <==> passes_preflight(*plan, success, stdout@),
        r matches Err(error) ==> error is PreflightFailed,
{
    if success {
        let said = encoding::lossy_text(stdout);
        if text::contains(said.as_str(), plan.banner.as_str()) {
            return Ok(());
        }
    }
    Err(InstallError::PreflightFailed)
}

/// The path under which the executable that is replaced is kept.
pub open spec fn kept_path(installed: Seq<char>, os: Os) -> Seq<char> {
    paths::with_extension(installed, "previous"@, os)
}

/// The path under which the executable that is replaced is kept.
pub fn backup_path(installed: &str, os: Os) -> (r: String)
    ensures
        r@ == kept_path(installed@, os),
{
    paths::replace_extension(installed, "previous", os)
}

/// A copy of one file over another.
pub struct FileCopy {
    pub from: String,
    pub to: String,
}

/// The contents of a [`FileCopy`].
pub struct CopyView {
    pub from: Seq<char>,
    pub to: Seq<char>,
}

impl View for FileCopy {
    type V = CopyView;

    open spec fn view(&self) -> CopyView {
        CopyView { from: self.from@, to: self.to@ }
    }
}

/// How the executable is kept before it is replaced.
pub open spec fn backup_copy(installed: Seq<char>, os: Os) -> CopyView {
    CopyView { from: installed, to: kept_path(installed, os) }
}

/// How the executable that was replaced is put back.
pub open spec fn rollback_copy(installed: Seq<char>, os: Os) -> CopyView {
    CopyView { from: kept_path(installed, os), to: installed }
}

/// How the executable is kept before it is replaced.
pub fn backup(installed: &str, os: Os) -> (r: FileCopy)
    ensures
        r@ == backup_copy(installed@, os),
{
    FileCopy { from: installed.to_owned(), to: backup_path(installed, os) }
}

/// How the executable that was replaced is put back: what [`backup`] copied goes the other way.
pub fn rollback(installed: &str, os: Os) -> (r: FileCopy)
    ensures
        r@ == rollback_copy(installed@, os),
{
    FileCopy { from: backup_path(installed, os), to: installed.to_owned() }
}

/// What the files hold behind a copy, or nothing where there is no file to copy: then the copy fails
/// and changes nothing.
pub open spec fn copied(files: Map<Seq<char>, Seq<u8>>, copy: CopyView) -> Option<
    Map<Seq<char>, Seq<u8>>,
> {
    if files.contains_key(copy.from) {
        Some(files.insert(copy.to, files[copy.from]))
    } else {
        None
    }
}

/// A rollback gives back what the executable held: where it was kept and then replaced by anything,
/// the rollback restores it and leaves the kept copy as it is, so that another rollback changes
/// nothing. Where nothing was kept, the rollback fails.
pub proof fn rollback_restores_the_executable(
    files: Map<Seq<char>, Seq<u8>>,
    installed: Seq<char>,
    os: Os,
    replacement: Seq<u8>,
)
    requires
        kept_path(installed, os) != installed,
    ensures
        files.contains_key(installed) ==> {
            let kept = copied(files, backup_copy(installed, os));
            let replaced = kept->Some_0.insert(installed, replacement);
            let restored = copied(replaced, rollback_copy(installed, os));
            &&& kept is Some
            &&& restored is Some
            &&& restored->Some_0[installed] == files[installed]
            &&& restored->Some_0[kept_path(installed, os)] == files[installed]
            &&& copied(restored->Some_0, rollback_copy(installed, os)) == restored
        },
        !files.contains_key(kept_path(installed, os)) ==> copied(
            files,
            rollback_copy(installed, os),
        ) is None,
{
    if files.contains_key(installed) {
        let kept = copied(files, backup_copy(installed, os))->Some_0;
        let replaced = kept.insert(installed, replacement);
        let restored = copied(replaced, rollback_copy(installed, os))->Some_0;
        assert(copied(restored, rollback_copy(installed, os))->Some_0 =~= restored);
    }
}

/// How far an upgrade has come.
pub enum Progress {
    Installing,
    /// The upgrade failed, for the given reason.
    Failed(String),
}

/// What the controller is told of an upgrade.
pub struct UpgradeReport {
    pub url: String,
    pub id: String,
    pub status: String,
    pub error: Option<String>,
}

/// What the controller is told of an upgrade.
pub fn report(config: &WorkerConfig, upgrade: &Upgrade, progress: Progress) -> (r: UpgradeReport)
    ensures
        r.url@ == config::worker_address(config@) + "/upgrade"@,
        r.id@ == upgrade.id@,
        match progress {
            Progress::Installing => r.status@ == "installing"@ && r.error is None,
            Progress::Failed(reason) => r.status@ == "failed"@ && r.error == Some(reason),
        },
{
    let url = config::endpoint(config, "/upgrade");
    let id = upgrade.id.clone();
    match progress {
        Progress::Installing => UpgradeReport {
            url,
            id,
            status: "installing".to_owned(),
            error: None,
        },
        Progress::Failed(reason) => UpgradeReport {
            url,
            id,
            status: "failed".to_owned(),
            error: Some(reason),
        },
    }
}

/// A version in its usual spelling, with or without the leading `v`, is that version.
pub proof fn version_round_trip(v: (u64, u64, u64))
    ensures
        is_version(version_text(v)),
        version_numbers(version_text(v)) == Some(v),
        is_version("v"@ + version_text(v)),
        version_numbers("v"@ + version_text(v)) == Some(v),
{
    reveal_strlit("v");
    reveal_strlit(".");
    let a = numbers::decimal(v.0 as nat);
    let b = numbers::decimal(v.1 as nat);
    let c = numbers::decimal(v.2 as nat);
    numbers::decimal_spells_its_number(v.0 as nat);
    numbers::decimal_spells_its_number(v.1 as nat);
    numbers::decimal_spells_its_number(v.2 as nat);
    numbers::decimal_round_trip(v.0);
    numbers::decimal_round_trip(v.1);
    numbers::decimal_round_trip(v.2);
    assert forall|k: int| 0 <= k < a.len() implies a[k] != '.' by {
        assert(numbers::is_digit(a[k]));
    }
    assert forall|k: int| 0 <= k < b.len() implies b[k] != '.' by {
        assert(numbers::is_digit(b[k]));
    }
    assert forall|k: int| 0 <= k < c.len() implies c[k] != '.' by {
        assert(numbers::is_digit(c[k]));
    }
    let plain = version_text(v);
    assert("."@ =~= seq!['.']);
    assert(plain =~= a + seq!['.'] + (b + seq!['.'] + c));
    text::pieces_are_split_off(a, '.', b + seq!['.'] + c);
    text::pieces_are_split_off(b, '.', c);
    text::pieces_are_split_off(c, '.', c);
    let parts = text::split(plain, '.');
    assert(parts =~= seq![a, b, c]);
    assert(numbers::is_digit(a[0]));
    assert(plain[0] == a[0]);
    if text::after_prefix(plain, "v"@) is Some {
        assert(plain.take(1)[0] == 'v');
    }
    assert(without_v(plain) == plain);
    assert(("v"@ + plain).take(1) =~= "v"@);
    assert(("v"@ + plain).skip(1) =~= plain);
    assert(without_v("v"@ + plain) == plain);
}

/// A release that is planned comes behind the running one, so that none is installed twice or
/// taken back, and is fetched from the official place.
pub proof fn only_newer_official_releases_are_planned(
    plan: InstallPlan,
    version: (u64, u64, u64),
    current: (u64, u64, u64),
    folder: Seq<char>,
    os: Seq<char>,
)
    requires
        plans(plan, version, folder, os),
        is_newer(version, current),
    ensures
        version != current,
        !is_newer(current, version),
        text::after_prefix(
            plan.url@,
            "https://github.com/zccz14/cybion-worker/releases/download"@,
        ) is Some,
        text::after_prefix(plan.checksum_url@, plan.url@) == Some(".sha256"@),
{
    let base = "https://github.com/zccz14/cybion-worker/releases/download"@;
    assert(plan.url@.take(base.len() as int) =~= base);
    assert(plan.checksum_url@.take(plan.url@.len() as int) =~= plan.url@);
    assert(plan.checksum_url@.skip(plan.url@.len() as int) =~= ".sha256"@);
}

/// Versions are totally ordered by their numbers, the first of them that differs deciding: none is
/// newer than itself, of two different ones exactly one is newer, and what is newer than a newer
/// one is newer.
pub proof fn versions_are_totally_ordered(
    a: (u64, u64, u64),
    b: (u64, u64, u64),
    c: (u64, u64, u64),
)
    ensures
        !is_newer(a, a),
        a != b ==> (is_newer(a, b) <==> !is_newer(b, a)),
        is_newer(a, b) && is_newer(b, c) ==> is_newer(a, c),
{
}

/// Raising one of the numbers gives a newer version, whatever becomes of the numbers behind it.
pub proof fn raised_versions_are_newer(
    major: u64,
    minor: u64,
    patch: u64,
    raised: u64,
    any: u64,
    other: u64,
)
    ensures
        raised > major ==> is_newer((raised, any, other), (major, minor, patch)),
        raised > minor ==> is_newer((major, raised, other), (major, minor, patch)),
        raised > patch ==> is_newer((major, minor, raised), (major, minor, patch)),
{
}

/// Three numbers in decimal digits, set apart by dots, are a version with these numbers, with or
/// without a `v` in front, as long as each of them fits.
#[verifier::rlimit(40)]
pub proof fn versions_are_three_numbers(major: Seq<char>, minor: Seq<char>, patch: Seq<char>)
    requires
        major.len() > 0 && minor.len() > 0 && patch.len() > 0,
        forall|i: int| 0 <= i < major.len() ==> '0' <= #[trigger] major[i] <= '9',
        forall|i: int| 0 <= i < minor.len() ==> '0' <= #[trigger] minor[i] <= '9',
        forall|i: int| 0 <= i < patch.len() ==> '0' <= #[trigger] patch[i] <= '9',
    ensures
        ({
            let plain = major + seq!['.'] + minor + seq!['.'] + patch;
            &&& is_version(plain)
            &&& is_version(seq!['v'] + plain)
            &&& version_numbers(seq!['v'] + plain) == version_numbers(plain)
            &&& match version_numbers(plain) {
                Some(v) => numbers::parse_u64(major) == Some(v.0) && numbers::parse_u64(minor)
                    == Some(v.1) && numbers::parse_u64(patch) == Some(v.2),
                None => numbers::parse_u64(major) is None || numbers::parse_u64(minor) is None
                    || numbers::parse_u64(patch) is None,
            }
        }),
{
    reveal_strlit("v");
    let plain = major + seq!['.'] + minor + seq!['.'] + patch;
    assert(plain =~= major + seq!['.'] + (minor + seq!['.'] + patch));
    text::pieces_are_split_off(major, '.', minor + seq!['.'] + patch);
    text::pieces_are_split_off(minor, '.', patch);
    text::pieces_are_split_off(patch, '.', patch);
    assert(text::split(plain, '.') =~= seq![major, minor, patch]);
    assert(plain[0] == major[0]);
    if text::after_prefix(plain, "v"@) is Some {
        assert(plain.take(1)[0] == 'v');
    }
    assert(without_v(plain) == plain);
    let marked = seq!['v'] + plain;
    assert(marked.take(1) =~= "v"@);
    assert(marked.skip(1) =~= plain);
    assert(without_v(marked) == plain);
    assert(numbers::all_digits(major) && numbers::all_digits(minor) && numbers::all_digits(patch));
}

/// Nothing else is a version: what is one consists of three numbers in decimal digits, set apart by
/// dots, behind an optional `v`.
#[verifier::rlimit(40)]
pub proof fn only_three_numbers_are_a_version(s: Seq<char>) -> (parts: (Seq<char>, Seq<char>, Seq<
    char,
>))
    requires
        is_version(s),
    ensures
        s == parts.0 + seq!['.'] + parts.1 + seq!['.'] + parts.2 || s == seq!['v'] + parts.0 + seq![
            '.',
        ] + parts.1 + seq!['.'] + parts.2,
        parts.0.len() > 0 && parts.1.len() > 0 && parts.2.len() > 0,
        forall|i: int| 0 <= i < parts.0.len() ==> '0' <= #[trigger] parts.0[i] <= '9',
        forall|i: int| 0 <= i < parts.1.len() ==> '0' <= #[trigger] parts.1[i] <= '9',
        forall|i: int| 0 <= i < parts.2.len() ==> '0' <= #[trigger] parts.2[i] <= '9',
{
    reveal_strlit("v");
    let plain = without_v(s);
    let pieces = text::split(plain, '.');
    text::split_pieces_rejoin(plain, '.');
    let rest = plain.skip(pieces[0].len() as int + 1);
    text::split_pieces_rejoin(rest, '.');
    let last = rest.skip(pieces[1].len() as int + 1);
    text::split_pieces_rejoin(last, '.');
    assert(text::split(rest, '.') =~= seq![pieces[1], pieces[2]]);
    assert(text::split(last, '.') =~= seq![pieces[2]]);
    assert(plain =~= pieces[0] + seq!['.'] + pieces[1] + seq!['.'] + pieces[2]);
    if text::after_prefix(s, "v"@) is Some {
        text::prefix_and_rest_make_the_text(s, "v"@, plain);
        assert(s =~= seq!['v'] + pieces[0] + seq!['.'] + pieces[1] + seq!['.'] + pieces[2]);
    }
    let (a, b, c) = (pieces[0], pieces[1], pieces[2]);
    assert forall|i: int| 0 <= i < a.len() implies '0' <= #[trigger] a[i] <= '9' by {
        assert(numbers::is_digit(pieces[0][i]));
    }
    assert forall|i: int| 0 <= i < b.len() implies '0' <= #[trigger] b[i] <= '9' by {
        assert(numbers::is_digit(pieces[1][i]));
    }
    assert forall|i: int| 0 <= i < c.len() implies '0' <= #[trigger] c[i] <= '9' by {
        assert(numbers::is_digit(pieces[2][i]));
    }
    (a, b, c)
}

/// Releases are published for macOS and Linux on both processors and for Windows on one, under a
/// name made of the system's own names.
#[verifier::rlimit(40)]
pub proof fn platforms_are_named_after_the_system(os: Seq<char>, arch: Seq<char>)
    ensures
        platform_name(os, arch) == (if ((os == "macos"@ || os == "linux"@) && (arch == "aarch64"@
            || arch == "x86_64"@)) || (os == "windows"@ && arch == "x86_64"@) {
            Some("cybion-worker-"@ + os + "-"@ + arch)
        } else {
            None
        }),
{
    reveal_strlit("macos");
    reveal_strlit("linux");
    reveal_strlit("windows");
    reveal_strlit("aarch64");
    reveal_strlit("x86_64");
    reveal_strlit("-");
    reveal_strlit("cybion-worker-");
    reveal_strlit("cybion-worker-macos-aarch64");
    reveal_strlit("cybion-worker-macos-x86_64");
    reveal_strlit("cybion-worker-linux-aarch64");
    reveal_strlit("cybion-worker-linux-x86_64");
    reveal_strlit("cybion-worker-windows-x86_64");
    assert("macos"@[0] == 'm' && "linux"@[0] == 'l' && "windows"@[0] == 'w');
    assert("aarch64"@[0] == 'a' && "x86_64"@[0] == 'x');
    assert("cybion-worker-macos-aarch64"@ =~= "cybion-worker-"@ + "macos"@ + "-"@ + "aarch64"@);
    assert("cybion-worker-macos-x86_64"@ =~= "cybion-worker-"@ + "macos"@ + "-"@ + "x86_64"@);
    assert("cybion-worker-linux-aarch64"@ =~= "cybion-worker-"@ + "linux"@ + "-"@ + "aarch64"@);
    assert("cybion-worker-linux-x86_64"@ =~= "cybion-worker-"@ + "linux"@ + "-"@ + "x86_64"@);
    assert("cybion-worker-windows-x86_64"@ =~= "cybion-worker-"@ + "windows"@ + "-"@ + "x86_64"@);
}

/// A version in its usual spelling consists of its numbers in decimal, set apart by dots.
pub proof fn spelled_versions_are_their_numbers(v: (u64, u64, u64))
    ensures
        text::split(version_text(v), '.') == seq![
            numbers::decimal(v.0 as nat),
            numbers::decimal(v.1 as nat),
            numbers::decimal(v.2 as nat),
        ],
{
    reveal_strlit(".");
    let a = numbers::decimal(v.0 as nat);
    let b = numbers::decimal(v.1 as nat);
    let c = numbers::decimal(v.2 as nat);
    numbers::decimal_spells_its_number(v.0 as nat);
    numbers::decimal_spells_its_number(v.1 as nat);
    numbers::decimal_spells_its_number(v.2 as nat);
    assert forall|k: int| 0 <= k < a.len() implies #[trigger] a[k] != '.' by {
        assert(numbers::is_digit(a[k]));
    }
    assert forall|k: int| 0 <= k < b.len() implies #[trigger] b[k] != '.' by {
        assert(numbers::is_digit(b[k]));
    }
    assert forall|k: int| 0 <= k < c.len() implies #[trigger] c[k] != '.' by {
        assert(numbers::is_digit(c[k]));
    }
    assert(version_text(v) =~= a + seq!['.'] + (b + seq!['.'] + c));
    text::pieces_are_split_off(a, '.', b + seq!['.'] + c);
    text::pieces_are_split_off(b, '.', c);
    text::pieces_are_split_off(c, '.', c);
    assert(text::split(version_text(v), '.') =~= seq![a, b, c]);
}

/// A release that comes behind the running one is planned wherever there is a build for the system,
/// and fetched from its place under the name of the system; without a build it is refused, and so
/// is one that does not come behind the running one.
#[verifier::rlimit(40)]
pub proof fn newer_releases_are_planned(
    r: Result<InstallPlan, InstallError>,
    requested: Seq<char>,
    current: Seq<char>,
    wanted: (u64, u64, u64),
    running: (u64, u64, u64),
    os: Seq<char>,
    arch: Seq<char>,
)
    requires
        is_planning(r, requested, current, os, arch),
        is_version(requested) && version_numbers(requested) == Some(wanted),
        is_version(current) && version_numbers(current) == Some(running),
    ensures
        !is_newer(wanted, running) ==> r matches Err(InstallError::NotNewer),
        is_newer(wanted, running) && platform_name(os, arch) is None ==> r matches Err(
            InstallError::UnsupportedPlatform,
        ),
        is_newer(wanted, running) && platform_name(os, arch) is Some ==> {
            let asset = platform_name(os, arch)->Some_0 + ".tar.gz"@;
            &&& r matches Ok(plan)
            &&& plan.version == wanted
            &&& plan.asset@ == asset
            &&& plan.url@ == "https://github.com/zccz14/cybion-worker/releases/download/v"@
                + version_text(wanted) + "/"@ + asset
            &&& plan.checksum_url@ == plan.url@ + ".sha256"@
            &&& plan.entry@ == platform_name(os, arch)->Some_0 + "/cybion-worker"@ + (if os
                == "windows"@ {
                ".exe"@
            } else {
                ""@
            })
            &&& plan.banner@ == "Cybion Worker "@ + version_text(wanted)
        },
{
    reveal_strlit("https://github.com/zccz14/cybion-worker/releases/download/v");
    reveal_strlit("https://github.com/zccz14/cybion-worker/releases/download");
    reveal_strlit("/v");
    reveal_strlit("/");
    reveal_strlit("/cybion-worker");
    reveal_strlit(".exe");
    reveal_strlit("");
    reveal_strlit("cybion-worker.exe");
    reveal_strlit("cybion-worker");
    assert("https://github.com/zccz14/cybion-worker/releases/download/v"@
        =~= "https://github.com/zccz14/cybion-worker/releases/download"@ + "/v"@);
    assert("/"@ + "cybion-worker"@ =~= "/cybion-worker"@);
    assert("cybion-worker.exe"@ =~= "cybion-worker"@ + ".exe"@);
    if is_newer(wanted, running) && platform_name(os, arch) is Some {
        let folder = platform_name(os, arch)->Some_0;
        let plan = r->Ok_0;
        assert(plan.url@ =~= "https://github.com/zccz14/cybion-worker/releases/download/v"@
            + version_text(wanted) + "/"@ + (folder + ".tar.gz"@));
        assert(folder + "/"@ + "cybion-worker"@ =~= folder + "/cybion-worker"@ + ""@);
        assert(folder + "/"@ + "cybion-worker.exe"@ =~= folder + "/cybion-worker"@ + ".exe"@);
    }
}

/// What is no version is never planned.
pub proof fn only_versions_are_planned(
    r: Result<InstallPlan, InstallError>,
    requested: Seq<char>,
    current: Seq<char>,
    os: Seq<char>,
    arch: Seq<char>,
)
    requires
        is_planning(r, requested, current, os, arch),
        !is_version(requested) || (version_numbers(requested) is Some && !is_version(current)),
    ensures
        r matches Err(InstallError::InvalidVersion),
{
}

/// The checksum of a release accepts exactly the archives with the digest that it names, in either
/// case of its letters, and only under the name that it gives, which an asterisk may mark.
#[verifier::rlimit(40)]
pub proof fn checksums_are_compared(
    archive: Seq<u8>,
    digest: Seq<char>,
    name: Seq<char>,
    other: Seq<char>,
)
    requires
        digest.len() > 0 && name.len() > 0,
        forall|k: int| 0 <= k < digest.len() ==> !text::is_white_space(#[trigger] digest[k]),
        forall|k: int| 0 <= k < name.len() ==> !text::is_white_space(#[trigger] name[k]),
        name[0] != '*',
        other != name,
    ensures
        ({
            let plain = vstd::utf8::encode_utf8(digest + seq![' ', ' '] + name + seq!['\n']);
            let marked = vstd::utf8::encode_utf8(digest + seq![' ', '*'] + name + seq!['\n']);
            &&& checksum_verdict(archive, plain, name) == checksum_verdict(archive, marked, name)
            &&& checksum_verdict(archive, plain, other) is Malformed
            &&& checksum_verdict(archive, plain, name) is Matches <==> text::lowercase(digest)
                == encoding::hex(encoding::sha256(archive))
            &&& checksum_verdict(archive, plain, name) is Mismatch <==> text::lowercase(digest)
                != encoding::hex(encoding::sha256(archive))
        }),
{
    let end = seq!['\n'];
    let plain = digest + seq![' ', ' '] + name + end;
    let marked = digest + seq![' ', '*'] + name + end;
    let starred = seq!['*'] + name;
    vstd::utf8::encode_utf8_decode_utf8(plain);
    vstd::utf8::encode_utf8_decode_utf8(marked);
    vstd::utf8::encode_utf8_valid_utf8(plain);
    vstd::utf8::encode_utf8_valid_utf8(marked);
    assert(plain =~= digest + seq![' '] + (seq![' '] + (name + end + seq![])));
    assert(marked =~= digest + seq![' '] + (starred + end + seq![]));
    text::words_are_split_off(digest, ' ', seq![' '] + (name + end + seq![]));
    text::words_are_split_off(digest, ' ', name + end + seq![]);
    text::words_are_split_off(digest, ' ', starred + end + seq![]);
    text::words_are_split_off(name, '\n', seq![]);
    assert forall|k: int| 0 <= k < starred.len() implies !text::is_white_space(
        #[trigger] starred[k],
    ) by {
        if k > 0 {
            assert(starred[k] == name[k - 1]);
        }
    }
    text::words_are_split_off(starred, '\n', seq![]);
    assert(text::words(plain) =~= seq![digest, name]);
    assert(text::words(marked) =~= seq![digest, starred]);
    assert(starred.drop_first() =~= name);
    assert(text::trim_start_of(name, '*') == name);
    assert(text::trim_start_of(starred, '*') == name) by {
        reveal_with_fuel(text::trim_start_of, 2);
    }
}

/// A checksum of any other shape accepts nothing: one field, or more than two, are no checksum.
pub proof fn other_checksums_are_refused(
    archive: Seq<u8>,
    field: Seq<char>,
    second: Seq<char>,
    third: Seq<char>,
    name: Seq<char>,
)
    requires
        field.len() > 0 && second.len() > 0 && third.len() > 0,
        forall|k: int| 0 <= k < field.len() ==> !text::is_white_space(#[trigger] field[k]),
        forall|k: int| 0 <= k < second.len() ==> !text::is_white_space(#[trigger] second[k]),
        forall|k: int| 0 <= k < third.len() ==> !text::is_white_space(#[trigger] third[k]),
    ensures
        checksum_verdict(archive, vstd::utf8::encode_utf8(field), name) is Malformed,
        checksum_verdict(
            archive,
            vstd::utf8::encode_utf8(field + seq![' '] + second + seq![' '] + third),
            name,
        ) is Malformed,
{
    let many = field + seq![' '] + second + seq![' '] + third;
    vstd::utf8::encode_utf8_decode_utf8(field);
    vstd::utf8::encode_utf8_valid_utf8(field);
    vstd::utf8::encode_utf8_decode_utf8(many);
    vstd::utf8::encode_utf8_valid_utf8(many);
    text::words_are_split_off(field, ' ', second + seq![' '] + third);
    text::words_are_split_off(second, ' ', third);
    text::words_are_split_off(third, ' ', third);
    assert(many =~= field + seq![' '] + (second + seq![' '] + third));
    assert(text::words(many) =~= seq![field, second, third]);
}

/// A new executable passes exactly where it ran and its output holds the banner of the planned
/// version somewhere.
pub proof fn new_executables_say_their_version(
    plan: InstallPlan,
    success: bool,
    stdout: Seq<u8>,
    front: Seq<char>,
    back: Seq<char>,
)
    ensures
        encoding::utf8_lossy(stdout) == front + plan.banner@ + back ==> (passes_preflight(
            plan,
            success,
            stdout,
        ) <==> success),
        passes_preflight(plan, success, stdout) ==> success && exists|before: Seq<char>, behind: Seq<
            char,
        >|
            encoding::utf8_lossy(stdout) == #[trigger] (before + plan.banner@ + behind),
{
    text::held_texts_stand_inside(encoding::utf8_lossy(stdout), plan.banner@);
}

proof fn lemma_data_in_front(line: Seq<char>, lines: Seq<Seq<char>>)
    ensures
        upgrade_data(seq![line] + lines) == upgrade_data(seq![line]) + upgrade_data(lines),
    decreases lines.len(),
{
    let all = seq![line] + lines;
    if lines.len() == 0 {
        assert(all =~= seq![line]);
        assert(upgrade_data(all) =~= upgrade_data(seq![line]) + upgrade_data(lines));
    } else {
        assert(all.drop_last() =~= seq![line] + lines.drop_last());
        assert(all.last() == lines.last());
        lemma_data_in_front(line, lines.drop_last());
        assert(upgrade_data(all) =~= upgrade_data(seq![line]) + upgrade_data(lines));
    }
}

proof fn lemma_data_of_line(line: Seq<char>)
    ensures
        upgrade_data(seq![line]) == (match text::after_prefix(line, "data:"@) {
            Some(value) => value,
            None => seq![],
        }),
{
    let all = seq![line];
    assert(all.drop_last() =~= seq![]);
    assert(upgrade_data(all.drop_last()) =~= seq![]);
    assert(upgrade_data(all) =~= match text::after_prefix(line, "data:"@) {
        Some(value) => value,
        None => seq![],
    });
}

proof fn lemma_event_is_no_data(value: Seq<char>)
    ensures
        text::after_prefix("event:"@ + value, "data:"@) is None,
        text::after_prefix("data:"@ + value, "event:"@) is None,
        text::after_prefix("event:"@ + value, "event:"@) == Some(value),
        text::after_prefix("data:"@ + value, "data:"@) == Some(value),
{
    reveal_strlit("event:");
    reveal_strlit("data:");
    if text::after_prefix("event:"@ + value, "data:"@) is Some {
        assert(("event:"@ + value).take(5)[0] == 'e');
    }
    if text::after_prefix("data:"@ + value, "event:"@) is Some {
        assert(("data:"@ + value).take(6)[0] == 'd');
    }
    text::prefix_and_rest_make_the_text("event:"@ + value, "event:"@, value);
    text::prefix_and_rest_make_the_text("data:"@ + value, "data:"@, value);
}

/// An event asks for an upgrade as soon as one of its lines names it; then each data line adds its
/// contents as they stand, in front of those of the later lines, and no other line adds anything.
#[verifier::rlimit(40)]
pub proof fn upgrades_carry_their_data(line: Seq<char>, value: Seq<char>, rest: Seq<char>)
    requires
        forall|k: int| 0 <= k < line.len() ==> #[trigger] line[k] != '\n',
        line.len() == 0 || line.last() != '\r',
        forall|k: int| 0 <= k < value.len() ==> #[trigger] value[k] != '\n',
        value.len() == 0 || value.last() != '\r',
        text::after_prefix(line, "data:"@) is None,
        text::after_prefix(line, "event:"@) is None,
    ensures
        ({
            let event = "event:"@ + value + seq!['\n'];
            let data = "data:"@ + value + seq!['\n'];
            &&& text::trim(value) == "upgrade"@ ==> upgrade_of(event + rest) is Some
            &&& text::trim(value) != "upgrade"@ ==> upgrade_of(event + rest) == upgrade_of(rest)
            &&& upgrade_of(data + rest) == (match upgrade_of(rest) {
                Some(later) => Some(value + later),
                None => None,
            })
            &&& upgrade_of(line + seq!['\n'] + rest) == upgrade_of(rest)
            &&& upgrade_of(rest) matches Some(later) ==> upgrade_of(event + rest) == Some(later)
        }),
{
    let named = "event:"@ + value;
    let data = "data:"@ + value;
    reveal_strlit("event:");
    reveal_strlit("data:");
    lemma_event_is_no_data(value);
    assert forall|k: int| 0 <= k < named.len() implies #[trigger] named[k] != '\n' by {
        if k >= 6 {
            assert(named[k] == value[k - 6]);
        }
    }
    assert forall|k: int| 0 <= k < data.len() implies #[trigger] data[k] != '\n' by {
        if k >= 5 {
            assert(data[k] == value[k - 5]);
        }
    }
    assert(value.len() > 0 ==> named.last() == value.last() && data.last() == value.last());
    text::lines_are_split_off(named, rest);
    text::lines_are_split_off(data, rest);
    text::lines_are_split_off(line, rest);
    let lines = text::lines(rest);
    lemma_data_in_front(named, lines);
    lemma_data_in_front(data, lines);
    lemma_data_in_front(line, lines);
    lemma_data_of_line(named);
    lemma_data_of_line(data);
    lemma_data_of_line(line);
    lemma_named_in_front(named, lines);
    lemma_named_in_front(data, lines);
    lemma_named_in_front(line, lines);
    assert(upgrade_data(seq![named] + lines) =~= upgrade_data(lines));
    assert(upgrade_data(seq![line] + lines) =~= upgrade_data(lines));
}

/// Whether one of the lines names the upgrade event.
spec fn some_names_upgrade(lines: Seq<Seq<char>>) -> bool {
    exists|i: int| 0 <= i < lines.len() && names_upgrade(#[trigger] lines[i])
}

proof fn lemma_named_in_front(line: Seq<char>, lines: Seq<Seq<char>>)
    ensures
        some_names_upgrade(seq![line] + lines) <==> names_upgrade(line) || some_names_upgrade(lines),
{
    let all = seq![line] + lines;
    if some_names_upgrade(all) {
        let i = choose|i: int| 0 <= i < all.len() && names_upgrade(#[trigger] all[i]);
        if i > 0 {
            assert(lines[i - 1] == all[i]);
        }
    }
    if names_upgrade(line) {
        assert(all[0] == line);
    }
    if some_names_upgrade(lines) {
        let i = choose|i: int| 0 <= i < lines.len() && names_upgrade(#[trigger] lines[i]);
        assert(all[i + 1] == lines[i]);
    }
}

/// The lines of an upgrade event may come in either order: data in front of the line that names the
/// event counts like data behind it, and an event without data asks for nothing in particular.
#[verifier::rlimit(40)]
pub proof fn upgrade_lines_come_in_any_order(name: Seq<char>, value: Seq<char>, rest: Seq<char>)
    requires
        forall|k: int| 0 <= k < name.len() ==> #[trigger] name[k] != '\n',
        name.len() == 0 || name.last() != '\r',
        forall|k: int| 0 <= k < value.len() ==> #[trigger] value[k] != '\n',
        value.len() == 0 || value.last() != '\r',
    ensures
        ({
            let event = "event:"@ + name + seq!['\n'];
            let data = "data:"@ + value + seq!['\n'];
            &&& upgrade_of(event + (data + rest)) == upgrade_of(data + (event + rest))
            &&& text::trim(name) == "upgrade"@ ==> upgrade_of(event) == Some(Seq::<char>::empty())
            &&& upgrade_of(seq![]) is None
        }),
{
    reveal_strlit("event:");
    reveal_strlit("data:");
    let named = "event:"@ + name;
    let data = "data:"@ + value;
    lemma_event_is_no_data(name);
    lemma_event_is_no_data(value);
    assert forall|k: int| 0 <= k < named.len() implies #[trigger] named[k] != '\n' by {
        if k >= 6 {
            assert(named[k] == name[k - 6]);
        }
    }
    assert forall|k: int| 0 <= k < data.len() implies #[trigger] data[k] != '\n' by {
        if k >= 5 {
            assert(data[k] == value[k - 5]);
        }
    }
    assert(name.len() > 0 ==> named.last() == name.last());
    assert(value.len() > 0 ==> data.last() == value.last());
    let event_line = named + seq!['\n'];
    let data_line = data + seq!['\n'];
    let lines = text::lines(rest);
    text::lines_are_split_off(named, data_line + rest);
    text::lines_are_split_off(data, rest);
    text::lines_are_split_off(data, event_line + rest);
    text::lines_are_split_off(named, rest);
    text::lines_are_split_off(named, seq![]);
    assert(event_line + seq![] =~= event_line);
    lemma_data_in_front(named, text::lines(data_line + rest));
    lemma_data_in_front(data, lines);
    lemma_data_in_front(data, text::lines(event_line + rest));
    lemma_data_in_front(named, lines);
    lemma_data_of_line(named);
    lemma_data_of_line(data);
    lemma_named_in_front(named, text::lines(data_line + rest));
    lemma_named_in_front(data, lines);
    lemma_named_in_front(data, text::lines(event_line + rest));
    lemma_named_in_front(named, lines);
    lemma_named_in_front(named, seq![]);
    lemma_data_in_front(named, seq![]);
    assert(upgrade_data(seq![]) =~= seq![]);
    assert(upgrade_data(text::lines(event_line + (data_line + rest))) =~= upgrade_data(
        text::lines(data_line + (event_line + rest)),
    ));
    assert(seq![named] + Seq::<Seq<char>>::empty() =~= seq![named]);
    assert(upgrade_data(seq![named]) =~= seq![]);
    assert(text::lines(seq![]) =~= Seq::<Seq<char>>::empty());
    assert(some_names_upgrade(text::lines(event_line)) == names_upgrade(named));
}

/// Nothing is taken out of an archive for which its checksum does not vouch, and what is taken out
/// is what the archive holds under the planned path.
pub proof fn only_published_archives_are_opened(
    r: Result<Vec<u8>, InstallError>,
    plan: InstallPlan,
    archive: Seq<u8>,
    checksum: Seq<u8>,
    os: Os,
)
    requires
        is_staging(r, plan, archive, checksum, os),
    ensures
        r is Ok <==> checksum_verdict(archive, checksum, plan.asset@) is Matches && extracted(
            archive,
            plan.entry@,
            os,
        ) is Ok,
        r matches Ok(bytes) ==> extracted(archive, plan.entry@, os)->Ok_0 == bytes@,
        !vstd::utf8::valid_utf8(checksum) ==> (r matches Err(InstallError::ChecksumEncoding(reason))
            && reason@ == encoding::utf8_error(checksum)),
{
}

/// What the user is told of an archive that yields no executable says what is wrong with it.
pub proof fn archive_faults_are_told(error: InstallError, reason: Seq<char>, path: Seq<u8>)
    ensures
        is_refusal(error, archive::EntryFault::Unreadable(reason)) ==> install_message(error) == reason,
        is_refusal(error, archive::EntryFault::UnsupportedPath(path)) ==> install_message(error)
            == "only Unicode paths are supported on Windows: "@ + encoding::utf8_lossy(path),
        is_refusal(error, archive::EntryFault::Invalid) ==> install_message(error)
            == "invalid executable entry"@,
        is_refusal(error, archive::EntryFault::Missing) ==> install_message(error)
            == "release archive has no expected executable"@,
{
}

/// The executable of a release may have 64 mebibytes, and no more, and so may its archive; its
/// checksum may have one kibibyte.
pub proof fn executables_are_limited(archive: Seq<u8>, expected: Seq<char>, os: Os)
    ensures
        MAX_ARCHIVE == 64 * 1024 * 1024,
        MAX_CHECKSUM == 1024,
        extracted(archive, expected, os) == archive::extraction(
            archive,
            expected,
            (64 * 1024 * 1024) as u64,
            os,
        ),
{
}

/// The fixed messages say what the matter is, and a reason that came from outside is passed on.
pub proof fn install_messages_give_the_reason(reason: String)
    ensures
        install_message(InstallError::ChecksumEncoding(reason)) == reason@,
        install_message(InstallError::UnreadableArchive(reason)) == reason@,
        install_message(InstallError::InvalidVersion) == "invalid release version"@,
        install_message(InstallError::VersionTooLarge) == "number too large to fit in target type"@,
        install_message(InstallError::NotNewer) == "only a newer official release may be installed"@,
        install_message(InstallError::UnsupportedPlatform)
            == "no official Worker build for this platform"@,
        install_message(InstallError::AssetTooLarge) == "release asset too large"@,
        install_message(InstallError::ChecksumManifest) == "invalid release checksum manifest"@,
        install_message(InstallError::ChecksumMismatch) == "release checksum mismatch"@,
        install_message(InstallError::PreflightFailed)
            == "downloaded executable failed version preflight"@,
{
}

/// The executable that is replaced is kept beside it, under its own name with another extension.
pub proof fn replaced_executables_are_kept_beside(
    front: Seq<char>,
    name: Seq<char>,
    old: Seq<char>,
    os: Os,
)
    requires
        name.len() > 0,
        name[0] != '.',
        forall|k: int| 0 <= k < old.len() ==> #[trigger] old[k] != '.',
        paths::ends_with_component(front, name + seq!['.'] + old, os),
    ensures
        kept_path(front + (name + seq!['.'] + old), os) == front + name + ".previous"@,
        (forall|k: int| 0 <= k < name.len() ==> #[trigger] name[k] != '.')
            && paths::ends_with_component(front, name, os) ==> kept_path(front + name, os) == front
            + name + ".previous"@,
{
    reveal_strlit(".previous");
    reveal_strlit("previous");
    assert(".previous"@ =~= seq!['.'] + "previous"@);
    paths::extensions_are_replaced(front, name, old, "previous"@, os);
    assert(front + name + seq!['.'] + "previous"@ =~= front + name + ".previous"@);
}

/// A copy is read from its own source and goes to its own target.
pub proof fn copies_are_taken_as_they_are(copy: FileCopy)
    ensures
        copy@.from == copy.from@,
        copy@.to == copy.to@,
{
}

/// How the lines of an event end does not matter, nor whether its last line ends at all.
pub proof fn line_ends_do_not_matter_for_upgrades(front: Seq<char>, rest: Seq<char>)
    requires
        front.len() == 0 || front.last() != '\r',
    ensures
        upgrade_of(front + seq!['\r', '\n'] + rest) == upgrade_of(front + seq!['\n'] + rest),
        front.len() > 0 && front.last() != '\n' ==> upgrade_of(front + seq!['\n']) == upgrade_of(front),
{
    text::carriage_returns_do_not_count(front, rest);
    if front.len() > 0 && front.last() != '\n' {
        text::final_line_feeds_do_not_count(front);
    }
}

/// Every checksum is judged by its words: of two, the first has to be the digest in either case of
/// its letters, and the second the name behind any asterisks; any other number of words, or another
/// name, is no checksum of the archive, and neither is what is not UTF-8.
pub proof fn checksums_are_judged_by_their_words(
    archive: Seq<u8>,
    manifest: Seq<char>,
    bytes: Seq<u8>,
    name: Seq<char>,
)
    ensures
        ({
            let words = text::words(manifest);
            let verdict = checksum_verdict(archive, vstd::utf8::encode_utf8(manifest), name);
            &&& words.len() != 2 ==> verdict is Malformed
            &&& words.len() == 2 && text::trim_start_of(words[1], '*') != name ==> verdict is Malformed
            &&& words.len() == 2 && text::trim_start_of(words[1], '*') == name ==> (if text::lowercase(
                words[0],
            ) == encoding::hex(encoding::sha256(archive)) {
                verdict is Matches
            } else {
                verdict is Mismatch
            })
        }),
        !vstd::utf8::valid_utf8(bytes) ==> checksum_verdict(archive, bytes, name) is Undecodable,
{
    vstd::utf8::encode_utf8_decode_utf8(manifest);
    vstd::utf8::encode_utf8_valid_utf8(manifest);
}

/// A release whose version does not fit is refused as such, and so is one over a version that does
/// not fit.
pub proof fn oversized_versions_are_refused(
    r: Result<InstallPlan, InstallError>,
    requested: Seq<char>,
    current: Seq<char>,
    os: Seq<char>,
    arch: Seq<char>,
)
    requires
        is_planning(r, requested, current, os, arch),
        is_version(requested),
        version_numbers(requested) is None || (is_version(current) && version_numbers(current) is None),
    ensures
        r matches Err(InstallError::VersionTooLarge),
{
}

} // verus!
