//! The installation of a release, step by step.
use crate::archive;
use crate::paths::Os;
use crate::self_update;
use crate::self_update::InstallError;
use crate::self_update::InstallPlan;
use vstd::prelude::*;

verus! {

/// Why an installation failed.
pub enum InstallFailure {
    /// The release is not accepted.
    Refused(InstallError),
    /// Something outside failed, for the given reason.
    Outside(String),
}

impl InstallFailure {
    /// What the user is told.
    pub fn message(&self) -> (r: String)
        ensures
            r@ == match *self {
                InstallFailure::Refused(error) => self_update::install_message(error),
                InstallFailure::Outside(reason) => reason@,
            },
    {
        match self {
            InstallFailure::Refused(error) => error.message(),
            InstallFailure::Outside(reason) => reason.clone(),
        }
    }
}

/// How far an installation is.
pub enum InstallState {
    /// The archive has to be fetched.
    FetchingArchive(InstallPlan),
    /// The checksum has to be fetched.
    FetchingChecksum { plan: InstallPlan, archive: Vec<u8> },
    /// The new executable has to be tried.
    Trying { plan: InstallPlan, executable: Vec<u8> },
    /// The running executable has to be copied aside.
    BackingUp,
    /// The running executable has to be replaced.
    Replacing,
    Installed,
    Failed(InstallFailure),
}

/// Something that happens to an installation.
pub enum InstallEvent {
    /// What was fetched.
    Fetched(Vec<u8>),
    /// How the new executable ended, and what it said.
    Tried { success: bool, stdout: Vec<u8> },
    BackedUp,
    Replaced,
    /// Something failed, for the given reason.
    Broken(String),
}

/// Where an installation begins, given the answer to the wish for it.
pub open spec fn first_state(r: Result<InstallPlan, InstallError>) -> InstallState {
    match r {
        Ok(plan) => InstallState::FetchingArchive(plan),
        Err(error) => InstallState::Failed(InstallFailure::Refused(error)),
    }
}

/// Begins to install the release `requested` over the version `current`.
pub fn begin_install(requested: &str, current: &str, os: &str, arch: &str) -> (r: InstallState)
    ensures
        exists|planned: Result<InstallPlan, InstallError>|
            #[trigger] self_update::is_planning(planned, requested@, current@, os@, arch@) && r
                == first_state(planned),
{
    let planned = self_update::plan_install(requested, current, os, arch);
    assert(self_update::is_planning(planned, requested@, current@, os@, arch@));
    match planned {
        Ok(plan) => InstallState::FetchingArchive(plan),
        Err(error) => InstallState::Failed(InstallFailure::Refused(error)),
    }
}

/// Whether an installation has come to its end.
pub open spec fn is_over(state: InstallState) -> bool {
    state is Installed || state is Failed
}

/// The state behind an attempt to take the executable out of an archive.
pub open spec fn behind_staging(plan: InstallPlan, r: Result<Vec<u8>, InstallError>) -> InstallState {
    match r {
        Ok(executable) => InstallState::Trying { plan, executable },
        Err(error) => InstallState::Failed(InstallFailure::Refused(error)),
    }
}

/// Whether an installation goes from `state` to `next` behind an event. An event that it does not
/// wait for changes nothing.
pub open spec fn follows(
    state: InstallState,
    event: InstallEvent,
    os: Os,
    next: InstallState,
) -> bool {
    match (state, event) {
        (InstallState::FetchingArchive(plan), InstallEvent::Fetched(archive)) => next
            == (InstallState::FetchingChecksum { plan, archive }),
        (InstallState::FetchingChecksum { plan, archive }, InstallEvent::Fetched(checksum)) => {
            exists|r: Result<Vec<u8>, InstallError>|
                #[trigger] self_update::is_staging(r, plan, archive@, checksum@, os) && next
                    == behind_staging(plan, r)
        },
        (InstallState::Trying { plan, executable }, InstallEvent::Tried { success, stdout }) => {
            if self_update::passes_preflight(plan, success, stdout@) {
                next == InstallState::BackingUp
            } else {
                next == InstallState::Failed(InstallFailure::Refused(InstallError::PreflightFailed))
            }
        },
        (InstallState::BackingUp, InstallEvent::BackedUp) => next == InstallState::Replacing,
        (InstallState::Replacing, InstallEvent::Replaced) => next == InstallState::Installed,
        (_, InstallEvent::Broken(reason)) => if is_over(state) {
            next == state
        } else {
            next == InstallState::Failed(InstallFailure::Outside(reason))
        },
        _ => next == state,
    }
}

/// How an installation goes on behind an event.
pub fn install(state: InstallState, event: InstallEvent, os: Os) -> (r: InstallState)
    ensures
        follows(state, event, os, r),
{
    match (state, event) {
        (InstallState::FetchingArchive(plan), InstallEvent::Fetched(archive)) => {
            InstallState::FetchingChecksum { plan, archive }
        },
        (InstallState::FetchingChecksum { plan, archive }, InstallEvent::Fetched(checksum)) => {
            let staged = self_update::stage(
                &plan,
                archive.as_slice(),
                checksum.as_slice(),
                os,
            );
            assert(self_update::is_staging(staged, plan, archive@, checksum@, os));
            match staged {
                Ok(executable) => InstallState::Trying { plan, executable },
                Err(error) => InstallState::Failed(InstallFailure::Refused(error)),
            }
        },
        (InstallState::Trying { plan, executable: _ }, InstallEvent::Tried { success, stdout }) => {
            match self_update::preflight(&plan, success, stdout.as_slice()) {
                Ok(()) => InstallState::BackingUp,
                Err(error) => InstallState::Failed(InstallFailure::Refused(error)),
            }
        },
        (InstallState::BackingUp, InstallEvent::BackedUp) => InstallState::Replacing,
        (InstallState::Replacing, InstallEvent::Replaced) => InstallState::Installed,
        (InstallState::Installed, _) => InstallState::Installed,
        (InstallState::Failed(failure), _) => InstallState::Failed(failure),
        (_, InstallEvent::Broken(reason)) => InstallState::Failed(InstallFailure::Outside(reason)),
        (state, _) => state,
    }
}

/// Whether the states are those of one installation, each behind the event that leads to it.
pub open spec fn is_history(
    states: Seq<InstallState>,
    events: Seq<InstallEvent>,
    os: Os,
) -> bool {
    &&& states.len() == events.len() + 1
    &&& states[0] is FetchingArchive
    &&& forall|i: int|
        0 <= i < events.len() ==> follows(
            #[trigger] states[i],
            events[i],
            os,
            states[i + 1],
        )
}

/// Whether `archive` was fetched in the first `n` events.
pub open spec fn fetched(events: Seq<InstallEvent>, n: int, archive: Seq<u8>) -> bool {
    exists|i: int|
        0 <= i < n && (#[trigger] events[i] matches InstallEvent::Fetched(bytes) && bytes@
            == archive)
}

/// Whether `executable` was fetched in the first `n` events: it is what the release's archive
/// holds, and the release's checksum vouches for the archive.
pub open spec fn vouched(
    events: Seq<InstallEvent>,
    n: int,
    plan: InstallPlan,
    os: Os,
    executable: Seq<u8>,
) -> bool {
    exists|i: int, archive: Seq<u8>|
        #![trigger events[i], fetched(events, i, archive)]
        0 <= i < n && fetched(events, i, archive) && (events[i] matches InstallEvent::Fetched(
            checksum,
        ) && self_update::checksum_verdict(archive, checksum@, plan.asset@) is Matches
            && self_update::extracted(archive, plan.entry@, os) == Ok::<
            Seq<u8>,
            archive::EntryFault,
        >(executable))
}

/// Whether, in the first `n` events, an executable was fetched and vouched for, and then a trial was
/// passed.
pub open spec fn tried(events: Seq<InstallEvent>, n: int, plan: InstallPlan, os: Os) -> bool {
    exists|i: int, executable: Seq<u8>|
        #![trigger events[i], vouched(events, i, plan, os, executable)]
        0 <= i < n && vouched(events, i, plan, os, executable) && (events[i] matches
            InstallEvent::Tried { success, stdout } && self_update::passes_preflight(
            plan,
            success,
            stdout@,
        ))
}

/// Whether, in the first `n` events, a trial was passed as [`tried`] says, and then the running
/// executable was copied aside.
pub open spec fn kept(events: Seq<InstallEvent>, n: int, plan: InstallPlan, os: Os) -> bool {
    exists|i: int|
        0 <= i < n && #[trigger] events[i] is BackedUp && tried(events, i, plan, os)
}

/// The plan with which an installation began.
pub open spec fn first_plan(states: Seq<InstallState>) -> InstallPlan {
    match states[0] {
        InstallState::FetchingArchive(plan) => plan,
        _ => arbitrary(),
    }
}

proof fn lemma_history(
    states: Seq<InstallState>,
    events: Seq<InstallEvent>,
    os: Os,
    n: int,
)
    requires
        is_history(states, events, os),
        0 <= n <= events.len(),
    ensures
        ({
            let first = first_plan(states);
            match states[n] {
                InstallState::FetchingArchive(plan) => plan == first,
                InstallState::FetchingChecksum { plan, archive } => plan == first && fetched(
                    events,
                    n,
                    archive@,
                ),
                InstallState::Trying { plan, executable } => plan == first && vouched(
                    events,
                    n,
                    plan,
                    os,
                    executable@,
                ),
                InstallState::BackingUp => tried(events, n, first, os),
                InstallState::Replacing => kept(events, n, first, os),
                InstallState::Installed => kept(events, n, first, os),
                InstallState::Failed(_) => true,
            }
        }),
    decreases n,
{
    if n > 0 {
        let m = n - 1;
        let first = first_plan(states);
        lemma_history(states, events, os, m);
        let event = events[m];
        assert(follows(states[m], events[m], os, states[m + 1]));
        match states[m] {
            InstallState::FetchingArchive(plan) => {
                if let InstallEvent::Fetched(bytes) = event {
                    assert(fetched(events, n, bytes@));
                }
            },
            InstallState::FetchingChecksum { plan, archive } => {
                let i = choose|i: int|
                    0 <= i < m && (#[trigger] events[i] matches InstallEvent::Fetched(bytes)
                        && bytes@ == archive@);
                assert(fetched(events, n, archive@));
                if let InstallEvent::Fetched(checksum) = event {
                    let r = choose|r: Result<Vec<u8>, InstallError>|
                        #[trigger] self_update::is_staging(
                            r,
                            plan,
                            archive@,
                            checksum@,
                            os,
                        ) && states[n] == behind_staging(plan, r);
                    if let Ok(executable) = r {
                        assert(fetched(events, m, archive@));
                        assert(vouched(events, n, plan, os, executable@));
                    }
                }
            },
            InstallState::Trying { plan, executable } => {
                let (i, archive) = choose|i: int, archive: Seq<u8>|
                    #![trigger events[i], fetched(events, i, archive)]
                    0 <= i < m && fetched(events, i, archive) && (events[i] matches
                        InstallEvent::Fetched(checksum) && self_update::checksum_verdict(
                        archive,
                        checksum@,
                        plan.asset@,
                    ) is Matches && self_update::extracted(archive, plan.entry@, os) == Ok::<
                        Seq<u8>,
                        archive::EntryFault,
                    >(executable@));
                assert(vouched(events, n, plan, os, executable@));
                assert(vouched(events, m, plan, os, executable@));
            },
            InstallState::BackingUp => {
                let (i, executable) = choose|i: int, executable: Seq<u8>|
                    #![trigger events[i], vouched(events, i, first, os, executable)]
                    0 <= i < m && vouched(events, i, first, os, executable) && (
                    events[i] matches InstallEvent::Tried { success, stdout }
                        && self_update::passes_preflight(first, success, stdout@));
                assert(tried(events, n, first, os));
            },
            InstallState::Replacing | InstallState::Installed => {
                let i = choose|i: int|
                    0 <= i < m && #[trigger] events[i] is BackedUp && tried(
                        events,
                        i,
                        first,
                        os,
                    );
                assert(kept(events, n, first, os));
            },
            InstallState::Failed(_) => {},
        }
    }
}

/// The running executable is replaced only after an executable that the planned release holds, and
/// for whose archive the release's checksum vouched, was there, a trial was passed with the planned
/// version, and then the running executable was copied aside.
pub proof fn only_tried_releases_are_installed(
    states: Seq<InstallState>,
    events: Seq<InstallEvent>,
    os: Os,
)
    requires
        is_history(states, events, os),
    ensures
        states.last() is Replacing || states.last() is Installed ==> kept(
            events,
            events.len() as int,
            first_plan(states),
            os,
        ),
{
    lemma_history(states, events, os, events.len() as int);
}

/// Whether the executable that is held at step `i` was vouched for and passed its trial there, and
/// no other one was tried up to step `n`.
pub open spec fn is_last_trial(
    states: Seq<InstallState>,
    events: Seq<InstallEvent>,
    os: Os,
    i: int,
    n: int,
) -> bool {
    let first = first_plan(states);
    &&& 0 <= i < n
    &&& states[i] matches InstallState::Trying { plan, executable } && plan == first && vouched(
        events,
        i,
        first,
        os,
        executable@,
    )
    &&& events[i] matches InstallEvent::Tried { success, stdout } && self_update::passes_preflight(
        first,
        success,
        stdout@,
    )
    &&& forall|j: int| i < j <= n ==> #[trigger] states[j] !is Trying
}

proof fn lemma_last_trial(
    states: Seq<InstallState>,
    events: Seq<InstallEvent>,
    os: Os,
    n: int,
)
    requires
        is_history(states, events, os),
        0 <= n <= events.len(),
    ensures
        states[n] is BackingUp || states[n] is Replacing || states[n] is Installed ==> exists|
            i: int,
        | #[trigger] is_last_trial(states, events, os, i, n),
    decreases n,
{
    if n > 0 {
        let m = n - 1;
        lemma_last_trial(states, events, os, m);
        lemma_history(states, events, os, m);
        assert(follows(states[m], events[m], os, states[m + 1]));
        if states[n] is BackingUp || states[n] is Replacing || states[n] is Installed {
            if states[m] is Trying {
                assert(is_last_trial(states, events, os, m, n));
            } else {
                if states[m] is FetchingChecksum {
                    let plan = states[m]->FetchingChecksum_plan;
                    if let InstallEvent::Fetched(checksum) = events[m] {
                        let r = choose|r: Result<Vec<u8>, InstallError>|
                            #[trigger] self_update::is_staging(
                                r,
                                plan,
                                states[m]->archive@,
                                checksum@,
                                os,
                            ) && states[n] == behind_staging(plan, r);
                        assert(states[n] == behind_staging(plan, r));
                    }
                }
                assert(states[m] is BackingUp || states[m] is Replacing || states[m] is Installed);
                let i = choose|i: int| #[trigger] is_last_trial(states, events, os, i, m);
                assert(is_last_trial(states, events, os, i, n));
            }
        }
    }
}

/// The executable that takes the place of the running one is the one that was held when the trial
/// was passed: the release's checksum vouched for it, and no other one was tried later.
pub proof fn replaced_by_what_was_tried(
    states: Seq<InstallState>,
    events: Seq<InstallEvent>,
    os: Os,
)
    requires
        is_history(states, events, os),
    ensures
        states.last() is Replacing || states.last() is Installed ==> exists|i: int|
            #[trigger] is_last_trial(states, events, os, i, events.len() as int),
{
    lemma_last_trial(states, events, os, events.len() as int);
}

/// What has to be done for an installation.
pub enum InstallAction {
    /// Fetch the file under the address, which may have so many bytes.
    Fetch { url: String, limit: usize },
    /// Write the new executable beside the running one, and run it with `--help`.
    Try,
    /// Copy the running executable aside.
    Backup,
    /// Put the new executable in the place of the running one.
    Replace,
    /// Nothing: the installation has come to its end.
    Finish,
}

/// What has to be done in a state of an installation.
pub fn install_action(state: &InstallState) -> (r: InstallAction)
    ensures
        match *state {
            InstallState::FetchingArchive(plan) => r matches InstallAction::Fetch { url, limit }
                && url == plan.url && limit == self_update::MAX_ARCHIVE,
            InstallState::FetchingChecksum { plan, .. } => r matches InstallAction::Fetch {
                url,
                limit,
            } && url == plan.checksum_url && limit == self_update::MAX_CHECKSUM,
            InstallState::Trying { .. } => r is Try,
            InstallState::BackingUp => r is Backup,
            InstallState::Replacing => r is Replace,
            InstallState::Installed => r is Finish,
            InstallState::Failed(_) => r is Finish,
        },
{
    match state {
        InstallState::FetchingArchive(plan) => InstallAction::Fetch {
            url: plan.url.clone(),
            limit: self_update::MAX_ARCHIVE,
        },
        InstallState::FetchingChecksum { plan, archive: _ } => InstallAction::Fetch {
            url: plan.checksum_url.clone(),
            limit: self_update::MAX_CHECKSUM,
        },
        InstallState::Trying { plan: _, executable: _ } => InstallAction::Try,
        InstallState::BackingUp => InstallAction::Backup,
        InstallState::Replacing => InstallAction::Replace,
        InstallState::Installed => InstallAction::Finish,
        InstallState::Failed(_) => InstallAction::Finish,
    }
}

/// An installation begins with the archive of its plan, and with nothing where there is no plan.
pub proof fn installations_begin_with_their_plan(plan: InstallPlan, error: InstallError)
    ensures
        first_state(Ok(plan)) == InstallState::FetchingArchive(plan),
        first_state(Err(error)) == InstallState::Failed(InstallFailure::Refused(error)),
{
}

/// An installation goes on as long as all is well: from the archive to its checksum, from an
/// executable that passed its trial to its copy, and then into the place of the running one.
pub proof fn installations_come_to_their_end(
    plan: InstallPlan,
    bytes: Vec<u8>,
    executable: Vec<u8>,
    success: bool,
    os: Os,
    next: InstallState,
)
    ensures
        follows(InstallState::FetchingArchive(plan), InstallEvent::Fetched(bytes), os, next)
            <==> next == (InstallState::FetchingChecksum { plan, archive: bytes }),
        self_update::passes_preflight(plan, success, bytes@) ==> (follows(
            InstallState::Trying { plan, executable },
            InstallEvent::Tried { success, stdout: bytes },
            os,
            next,
        ) <==> next is BackingUp),
        !self_update::passes_preflight(plan, success, bytes@) ==> (follows(
            InstallState::Trying { plan, executable },
            InstallEvent::Tried { success, stdout: bytes },
            os,
            next,
        ) <==> next == InstallState::Failed(InstallFailure::Refused(InstallError::PreflightFailed))),
        follows(InstallState::BackingUp, InstallEvent::BackedUp, os, next) <==> next is Replacing,
        follows(InstallState::Replacing, InstallEvent::Replaced, os, next) <==> next is Installed,
{
}

/// What follows the checksum depends on it and on the archive: where the checksum vouches for the
/// archive and the archive holds the executable, exactly that executable is tried next, and else the
/// installation fails for the reason that was found.
pub proof fn vouched_executables_are_tried(
    plan: InstallPlan,
    archive: Vec<u8>,
    checksum: Vec<u8>,
    os: Os,
    next: InstallState,
)
    requires
        follows(
            InstallState::FetchingChecksum { plan, archive },
            InstallEvent::Fetched(checksum),
            os,
            next,
        ),
    ensures
        match self_update::checksum_verdict(archive@, checksum@, plan.asset@) {
            self_update::ChecksumVerdict::Matches => match self_update::extracted(
                archive@,
                plan.entry@,
                os,
            ) {
                Ok(bytes) => next matches InstallState::Trying { plan: kept, executable } && kept
                    == plan && executable@ == bytes,
                Err(fault) => next matches InstallState::Failed(InstallFailure::Refused(error))
                    && self_update::is_refusal(error, fault),
            },
            self_update::ChecksumVerdict::Undecodable => next matches InstallState::Failed(
                InstallFailure::Refused(InstallError::ChecksumEncoding(reason)),
            ) && reason@ == crate::encoding::utf8_error(checksum@),
            self_update::ChecksumVerdict::Malformed => next matches InstallState::Failed(
                InstallFailure::Refused(InstallError::ChecksumManifest),
            ),
            self_update::ChecksumVerdict::Mismatch => next matches InstallState::Failed(
                InstallFailure::Refused(InstallError::ChecksumMismatch),
            ),
        },
{
    let r = choose|r: Result<Vec<u8>, InstallError>|
        #[trigger] self_update::is_staging(r, plan, archive@, checksum@, os) && next
            == behind_staging(plan, r);
    assert(next == behind_staging(plan, r));
}

/// An installation that is broken off fails with the reason, unless it has ended before; then it
/// stays as it ended, whatever happens. Nothing else than what a state waits for changes it.
pub proof fn ended_installations_stay_ended(
    state: InstallState,
    event: InstallEvent,
    reason: String,
    os: Os,
    next: InstallState,
)
    ensures
        (state is Installed || state is Failed) && follows(state, event, os, next) ==> next == state,
        state !is Installed && state !is Failed && follows(
            state,
            InstallEvent::Broken(reason),
            os,
            next,
        ) ==> next == InstallState::Failed(InstallFailure::Outside(reason)),
        event !is Broken && follows(state, event, os, next) && next != state ==> match state {
            InstallState::FetchingArchive(_) => event is Fetched,
            InstallState::FetchingChecksum { .. } => event is Fetched,
            InstallState::Trying { .. } => event is Tried,
            InstallState::BackingUp => event is BackedUp,
            InstallState::Replacing => event is Replaced,
            InstallState::Installed => false,
            InstallState::Failed(_) => false,
        },
{
}

} // verus!
