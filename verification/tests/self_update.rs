use cybion_worker::archive::{judge_entry, ArchiveEntry, EntryVerdict};
use cybion_worker::install::{
    begin_install, install, install_action, InstallAction, InstallEvent, InstallFailure,
    InstallState,
};
use cybion_worker::self_update::{
    backup, backup_path, extract, plan_install, platform, preflight, report, rollback, stage,
    verify, version, Download, FileCopy, InstallError, InstallPlan, Progress, Upgrade, MAX_ARCHIVE,
    MAX_CHECKSUM,
};
use cybion_worker::command::help;
use cybion_worker::config::WorkerConfig;
use cybion_worker::paths::Os;
use sha2::{Digest, Sha256};
use std::collections::HashMap;

/// A compressed archive with the given entries, the last of which is a link where asked for.
fn packed(entries: &[(&str, &[u8])], link: Option<&str>) -> Vec<u8> {
    let encoder = flate2::write::GzEncoder::new(Vec::new(), flate2::Compression::default());
    let mut archive = tar::Builder::new(encoder);
    for (path, bytes) in entries {
        let mut header = tar::Header::new_gnu();
        header.set_size(bytes.len() as u64);
        header.set_mode(0o755);
        header.set_cksum();
        archive.append_data(&mut header, path, *bytes).unwrap();
    }
    if let Some(path) = link {
        let mut header = tar::Header::new_gnu();
        header.set_entry_type(tar::EntryType::Symlink);
        header.set_size(0);
        archive.append_link(&mut header, path, "target").unwrap();
    }
    archive.into_inner().unwrap().finish().unwrap()
}

fn checksum_of(archive: &[u8], name: &str) -> Vec<u8> {
    format!("{}  {name}\n", hex::encode(Sha256::digest(archive))).into_bytes()
}

fn plan() -> InstallPlan {
    plan_install("v0.3.0", "0.2.0", "linux", "x86_64").ok().unwrap()
}

#[test]
fn only_numeric_versions_and_official_platforms_are_accepted() {
    assert_eq!(version("v0.2.0").ok().unwrap(), (0, 2, 0));
    for value in ["../evil", "0.2.0/evil", "0.2", "0.2.0;sh", "0.2.-1"] {
        assert!(version(value).is_err());
    }
    assert!(platform("linux", "x86_64").is_ok());
    assert!(platform("windows", "aarch64").is_err());
}

#[test]
fn checksum_must_match_both_asset_and_bytes() {
    let text = format!("{}  asset.tar.gz\n", hex::encode(Sha256::digest(b"fixture")));
    assert!(verify(b"fixture", text.as_bytes(), "asset.tar.gz").is_ok());
    assert!(verify(b"tampered", text.as_bytes(), "asset.tar.gz").is_err());
    assert!(verify(b"fixture", text.as_bytes(), "other.tar.gz").is_err());
}

#[test]
fn extraction_only_writes_the_exact_regular_executable() {
    let bytes = packed(&[("folder/cybion-worker", b"fixture")], None);
    let executable = extract(&bytes, "folder/cybion-worker", Os::Linux).ok().unwrap();
    assert!(extract(&bytes, "wrong/cybion-worker", Os::Linux).is_err());
    assert_eq!(executable.len(), 7);
    assert_eq!(executable, b"fixture");
}

#[test]
fn versions_have_three_numbers() {
    assert_eq!(version("12.0.345").ok().unwrap(), (12, 0, 345));
    assert_eq!(version("v12.0.345").ok().unwrap(), (12, 0, 345));
    assert_eq!(version("v007.1.2").ok().unwrap(), (7, 1, 2));
    for value in ["", "v", "1.2.3.4", "1..2", "vv1.2.3", "1.2.+3", "1.2.3 "] {
        assert!(matches!(version(value), Err(InstallError::InvalidVersion)));
    }
    assert!(version("18446744073709551615.0.0").is_ok());
    let large = version("18446744073709551616.0.0").err().unwrap();
    assert_eq!(large.message(), "number too large to fit in target type");
}

#[test]
fn platforms_name_their_builds() {
    assert_eq!(platform("linux", "x86_64").ok().unwrap(), "cybion-worker-linux-x86_64");
    assert_eq!(platform("linux", "aarch64").ok().unwrap(), "cybion-worker-linux-aarch64");
    assert_eq!(platform("macos", "aarch64").ok().unwrap(), "cybion-worker-macos-aarch64");
    assert_eq!(platform("macos", "x86_64").ok().unwrap(), "cybion-worker-macos-x86_64");
    assert_eq!(platform("windows", "x86_64").ok().unwrap(), "cybion-worker-windows-x86_64");
    let refused = platform("freebsd", "x86_64").err().unwrap();
    assert_eq!(refused.message(), "no official Worker build for this platform");
}

#[test]
fn only_newer_releases_are_planned() {
    let plan = plan();
    assert_eq!(plan.version, (0, 3, 0));
    assert_eq!(plan.asset, "cybion-worker-linux-x86_64.tar.gz");
    assert_eq!(
        plan.url,
        "https://github.com/zccz14/cybion-worker/releases/download/v0.3.0/cybion-worker-linux-x86_64.tar.gz"
    );
    assert_eq!(plan.checksum_url, plan.url.clone() + ".sha256");
    assert_eq!(plan.entry, "cybion-worker-linux-x86_64/cybion-worker");
    assert_eq!(plan.banner, "Cybion Worker 0.3.0");
    let windows = plan_install("1.0.0", "v0.9.9", "windows", "x86_64").ok().unwrap();
    assert_eq!(windows.entry, "cybion-worker-windows-x86_64/cybion-worker.exe");
    for requested in ["0.2.0", "v0.1.9", "0.0.99"] {
        let refused = plan_install(requested, "0.2.0", "linux", "x86_64").err().unwrap();
        assert_eq!(refused.message(), "only a newer official release may be installed");
    }
    assert!(matches!(
        plan_install("0.2", "0.2.0", "linux", "x86_64"),
        Err(InstallError::InvalidVersion)
    ));
    assert!(matches!(
        plan_install("0.3.0", "dev", "linux", "x86_64"),
        Err(InstallError::InvalidVersion)
    ));
    assert!(matches!(
        plan_install("0.3.0", "0.2.0", "linux", "riscv64"),
        Err(InstallError::UnsupportedPlatform)
    ));
}

#[test]
fn checksums_are_read_as_they_are_published() {
    let digest = hex::encode(Sha256::digest(b"fixture"));
    let upper = format!("{}\t*asset", digest.to_uppercase());
    assert!(verify(b"fixture", upper.as_bytes(), "asset").is_ok());
    let refused = verify(b"fixture", digest.as_bytes(), "asset").err().unwrap();
    assert_eq!(refused.message(), "invalid release checksum manifest");
    let long = format!("{digest} asset more");
    assert!(matches!(
        verify(b"fixture", long.as_bytes(), "asset"),
        Err(InstallError::ChecksumManifest)
    ));
    let wrong = format!("{digest} asset");
    let refused = verify(b"other", wrong.as_bytes(), "asset").err().unwrap();
    assert_eq!(refused.message(), "release checksum mismatch");
    assert!(matches!(
        verify(b"fixture", b"\xff asset", "asset"),
        Err(InstallError::ChecksumEncoding(_))
    ));
}

#[test]
fn archives_have_to_hold_one_regular_executable() {
    let twice = packed(&[("a/worker", b"1"), ("a/worker", b"2")], None);
    assert!(matches!(extract(&twice, "a/worker", Os::Linux), Err(InstallError::InvalidEntry)));
    let link = packed(&[("a/other", b"1")], Some("a/worker"));
    let refused = extract(&link, "a/worker", Os::Linux).err().unwrap();
    assert_eq!(refused.message(), "invalid executable entry");
    let missing = extract(&packed(&[], None), "a/worker", Os::Linux).err().unwrap();
    assert_eq!(missing.message(), "release archive has no expected executable");
    assert!(matches!(extract(b"no archive", "a/worker", Os::Linux), Err(InstallError::UnreadableArchive(_))));
    let more = packed(&[("a/other", b"1"), ("a/./worker", b"22"), ("b/worker", b"3")], None);
    assert_eq!(extract(&more, "a/worker", Os::Linux).ok().unwrap(), b"22");
    let mut cut = packed(&[("a/worker", &[7; 4096])], None);
    cut.truncate(cut.len() / 2);
    assert!(extract(&cut, "a/worker", Os::Linux).is_err());
}

#[test]
fn entries_are_judged_one_by_one() {
    let entry = |path: &[u8], regular: bool, size: u64| -> Result<ArchiveEntry, String> {
        Ok(ArchiveEntry { path: path.to_vec(), regular, size })
    };
    let judge = |entry: &Result<ArchiveEntry, String>, found: bool, os: Os| {
        judge_entry(entry, "a/worker", found, 10, os)
    };
    let unix = |path: &[u8]| judge(&entry(path, true, 10), false, Os::Linux);
    let windows = |path: &[u8]| judge(&entry(path, true, 10), false, Os::Windows);
    for path in [&b"a/worker"[..], b"a//worker/", b"a/./worker", b"a/worker/."] {
        assert!(unix(path) == EntryVerdict::Take);
        assert!(windows(path) == EntryVerdict::Take);
    }
    for path in [&b"/a/worker"[..], b"a/../a/worker", b"./a/worker", b"A/worker", b"a/worker.exe"] {
        assert!(unix(path) == EntryVerdict::Skip);
        assert!(windows(path) == EntryVerdict::Skip);
    }
    assert!(windows(b"a\\worker") == EntryVerdict::Take);
    assert!(unix(b"a\\worker") == EntryVerdict::Skip);
    assert!(judge(&entry(b"a/worker", true, 10), true, Os::Linux) == EntryVerdict::Invalid);
    assert!(judge(&entry(b"a/worker", false, 10), false, Os::Linux) == EntryVerdict::Invalid);
    assert!(judge(&entry(b"a/worker", true, 11), false, Os::Linux) == EntryVerdict::Invalid);
    assert!(unix(b"\xff") == EntryVerdict::Skip);
    assert!(windows(b"\xff") == EntryVerdict::UnsupportedPath);
    assert!(judge(&Err("cut".to_owned()), false, Os::Linux) == EntryVerdict::Unreadable);
}

#[test]
fn error_texts_are_those_of_the_readers() {
    let reason = verify(b"fixture", b"\xff asset", "asset").err().unwrap().message();
    assert_eq!(reason, std::str::from_utf8(b"\xff asset").err().unwrap().to_string());
    let mut archive = tar::Archive::new(flate2::read::GzDecoder::new(&b"no archive"[..]));
    let expected = archive.entries().unwrap().next().unwrap().err().unwrap().to_string();
    let reason = extract(b"no archive", "a/worker", Os::Linux).err().unwrap().message();
    assert_eq!(reason, expected);
}

#[test]
fn downloads_stay_within_their_limit() {
    let mut download = Download::start(Some(4), 4).ok().unwrap();
    assert!(download.receive(b"ab").is_ok());
    assert!(download.receive(b"cde").is_err());
    assert!(download.receive(b"cd").is_ok());
    assert!(download.receive(b"").is_ok());
    assert_eq!(download.finish(), b"abcd");
    let refused = Download::start(Some(5), 4).err().unwrap();
    assert_eq!(refused.message(), "release asset too large");
    assert!(Download::start(None, 0).is_ok());
}

#[test]
fn only_published_archives_are_staged() {
    let plan = plan();
    let archive = packed(&[("cybion-worker-linux-x86_64/cybion-worker", b"new")], None);
    let checksum = checksum_of(&archive, &plan.asset);
    assert_eq!(stage(&plan, &archive, &checksum, Os::Linux).ok().unwrap(), b"new");
    let other = packed(&[("cybion-worker-linux-x86_64/cybion-worker", b"evil")], None);
    assert!(matches!(stage(&plan, &other, &checksum, Os::Linux), Err(InstallError::ChecksumMismatch)));
}

#[test]
fn new_executables_have_to_name_their_version() {
    let plan = plan();
    assert!(preflight(&plan, true, b"Cybion Worker 0.3.0\n\nusage").is_ok());
    assert!(preflight(&plan, true, b"\xff Cybion Worker 0.3.0").is_ok());
    assert!(preflight(&plan, true, help("0.3.0").as_bytes()).is_ok());
    assert!(preflight(&plan, true, help("0.2.9").as_bytes()).is_err());
    assert!(preflight(&plan, false, b"Cybion Worker 0.3.0").is_err());
    let refused = preflight(&plan, true, b"Cybion Worker 0.2.0").err().unwrap();
    assert_eq!(refused.message(), "downloaded executable failed version preflight");
}

#[test]
fn a_release_is_installed_step_by_step() {
    let state = begin_install("0.3.0", "0.2.0", "linux", "x86_64");
    let plan = plan();
    assert!(matches!(
        install_action(&state),
        InstallAction::Fetch { url, limit: MAX_ARCHIVE } if url == plan.url
    ));
    let archive = packed(&[("cybion-worker-linux-x86_64/cybion-worker", b"new")], None);
    let checksum = checksum_of(&archive, &plan.asset);
    let state = install(state, InstallEvent::Fetched(archive), Os::Linux);
    assert!(matches!(
        install_action(&state),
        InstallAction::Fetch { url, limit: MAX_CHECKSUM } if url == plan.checksum_url
    ));
    let state = install(state, InstallEvent::Fetched(checksum), Os::Linux);
    assert!(matches!(&state, InstallState::Trying { executable, .. } if executable == b"new"));
    assert!(matches!(install_action(&state), InstallAction::Try));
    let state = install(state, InstallEvent::Replaced, Os::Linux);
    assert!(matches!(state, InstallState::Trying { .. }));
    let stdout = b"Cybion Worker 0.3.0".to_vec();
    let state = install(state, InstallEvent::Tried { success: true, stdout }, Os::Linux);
    assert!(matches!(install_action(&state), InstallAction::Backup));
    let state = install(state, InstallEvent::BackedUp, Os::Linux);
    assert!(matches!(install_action(&state), InstallAction::Replace));
    let state = install(state, InstallEvent::Replaced, Os::Linux);
    assert!(matches!(state, InstallState::Installed));
    assert!(matches!(install_action(&state), InstallAction::Finish));
}

#[test]
fn a_release_that_fails_is_not_installed() {
    let refused = begin_install("0.1.0", "0.2.0", "linux", "x86_64");
    match &refused {
        InstallState::Failed(failure) => {
            assert!(matches!(failure, InstallFailure::Refused(InstallError::NotNewer)));
            assert_eq!(failure.message(), "only a newer official release may be installed");
        }
        _ => panic!("an old release was accepted"),
    }
    let state = begin_install("0.3.0", "0.2.0", "linux", "x86_64");
    let state = install(state, InstallEvent::Broken("connection reset".to_owned()), Os::Linux);
    match &state {
        InstallState::Failed(failure) => assert_eq!(failure.message(), "connection reset"),
        _ => panic!("the installation went on"),
    }
    let state = install(state, InstallEvent::Fetched(Vec::new()), Os::Linux);
    assert!(matches!(state, InstallState::Failed(_)));
    let state = begin_install("0.3.0", "0.2.0", "linux", "x86_64");
    let state = install(state, InstallEvent::Fetched(b"junk".to_vec()), Os::Linux);
    let checksum = checksum_of(b"junk", "cybion-worker-linux-x86_64.tar.gz");
    let state = install(state, InstallEvent::Fetched(checksum), Os::Linux);
    assert!(matches!(
        state,
        InstallState::Failed(InstallFailure::Refused(InstallError::UnreadableArchive(_)))
    ));
}

#[test]
fn backups_stand_beside_the_executable() {
    assert_eq!(backup_path("cybion-worker", Os::Linux), "cybion-worker.previous");
    assert_eq!(backup_path("cybion-worker.exe", Os::Windows), "cybion-worker.previous");
    assert_eq!(backup_path("/opt/v1.2/.worker", Os::Linux), "/opt/v1.2/.worker.previous");
    assert_eq!(backup_path("a.b.c", Os::Linux), "a.b.previous");
}

#[test]
fn a_rollback_gives_back_what_the_executable_held() {
    let copy = |files: &mut HashMap<String, &'static str>, copy: FileCopy| -> bool {
        match files.get(&copy.from).copied() {
            Some(bytes) => {
                files.insert(copy.to, bytes);
                true
            }
            None => false,
        }
    };
    let path = "/opt/cybion-worker";
    let mut files: HashMap<String, &'static str> = HashMap::new();
    files.insert(path.to_owned(), "previous");
    assert!(!copy(&mut files, rollback(path, Os::Linux)));
    assert_eq!(files[path], "previous");
    assert!(copy(&mut files, backup(path, Os::Linux)));
    files.insert(path.to_owned(), "new");
    for _ in 0..2 {
        assert!(copy(&mut files, rollback(path, Os::Linux)));
        assert_eq!(files[path], "previous");
        assert_eq!(files["/opt/cybion-worker.previous"], "previous");
    }
}

#[test]
fn upgrades_are_reported_to_the_controller() {
    let config = WorkerConfig {
        controller_url: "https://c".to_owned(),
        user_id: "u".to_owned(),
        machine_id: "m".to_owned(),
        access_token: "t".to_owned(),
    };
    let upgrade = Upgrade {
        id: "7".to_owned(),
        version: "v1.0.0".to_owned(),
        boot_id: "b".to_owned(),
    };
    let begun = report(&config, &upgrade, Progress::Installing);
    assert_eq!(begun.url, "https://c/worker/v1/users/u/workers/m/upgrade");
    assert_eq!((begun.id.as_str(), begun.status.as_str()), ("7", "installing"));
    assert!(begun.error.is_none());
    let failed = report(&config, &upgrade, Progress::Failed("why".to_owned()));
    assert_eq!((failed.status.as_str(), failed.error.unwrap().as_str()), ("failed", "why"));
}
