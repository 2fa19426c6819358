//! Installing and reporting the curated profile.

use vstd::prelude::*;
use vstd::string::*;
use crate::manifest::{archive_name, archive_name_of, find_kind, object_name, object_name_of};
use crate::manifest::{valid_digest, ArtifactError, ArtifactSpec};
use crate::text::{chars_of, concat};

verus! {

/// What came of one step of an installation.
#[derive(Debug, Clone, Copy)]
pub enum StepOutcome {
    /// The step succeeded, or what was looked for is there and valid.
    Succeeded,
    /// What was looked for is absent or invalid, or the step was refused on its merits.
    Refused(ArtifactError),
    /// The step could not be carried out.
    Failed(ArtifactError),
}

/// Where an installation stands.
#[derive(Debug, Clone, Copy)]
pub enum InstallState {
    /// The installed object is being looked for.
    FindingObject,
    /// The installed object is being verified.
    CheckingObject,
    /// An invalid object is being moved aside.
    PreservingObject,
    /// The downloaded archive is being looked for.
    FindingArchive,
    /// The downloaded archive is being verified.
    CheckingArchive,
    /// An invalid archive is being moved aside.
    PreservingArchive,
    /// The archive is being looked for once more, after an invalid one was moved aside.
    FindingValidArchive,
    /// The archive is being downloaded.
    Downloading,
    /// A staging directory is being created.
    Staging,
    /// The archive is being verified right before it is extracted.
    VerifyingArchive,
    /// The archive is being extracted into the staging directory.
    Extracting,
    /// The staged object is being verified.
    CheckingStaged,
    /// A staging directory is being moved aside after this failure.
    PreservingStaged(ArtifactError),
    /// The staged object is being moved to its place.
    Activating,
    /// The installation is over.
    Finished,
}

/// What is to be done next.
#[derive(Debug, Clone, Copy)]
pub enum InstallAction {
    /// Look for the installed object.
    FindObject,
    /// Verify the installed object.
    CheckObject,
    /// Move the invalid object aside.
    PreserveObject,
    /// Look for the downloaded archive.
    FindArchive,
    /// Verify the downloaded archive.
    CheckArchive,
    /// Move the invalid archive aside.
    PreserveArchive,
    /// Download the archive.
    Download,
    /// Create a staging directory.
    CreateStaging,
    /// Verify the archive that is about to be extracted.
    VerifyArchive,
    /// Extract the archive.
    Extract,
    /// Verify the staged object.
    CheckStaged,
    /// Move the staging directory aside.
    PreserveStaged,
    /// Move the staged object to its place.
    Activate,
    /// Report success: the object was already there, or has been installed.
    Report(ObjectState),
    /// Report failure.
    Fail(ArtifactError),
    /// Nothing is left to do.
    Rest,
}

/// State of one artifact's object.
#[derive(Debug, Clone, Copy, PartialEq, Eq, Structural)]
pub enum ObjectState {
    /// The object was installed just now.
    Installed,
    /// The object was there and passed verification.
    Verified,
    /// The object is not there.
    Missing,
    /// The object is there and fails verification.
    Invalid,
}

impl ObjectState {
    /// Stable name.
    pub open spec fn name(self) -> Seq<char> {
        match self {
            ObjectState::Installed => "installed"@,
            ObjectState::Verified => "verified"@,
            ObjectState::Missing => "missing"@,
            ObjectState::Invalid => "invalid"@,
        }
    }

    /// Stable name.
    pub fn as_str(self) -> (name: &'static str)
        ensures
            name@ == self.name(),
    {
        match self {
            ObjectState::Installed => "installed",
            ObjectState::Verified => "verified",
            ObjectState::Missing => "missing",
            ObjectState::Invalid => "invalid",
        }
    }
}

/// A state and what it calls for.
pub open spec fn calls_for(state: InstallState) -> InstallAction {
    match state {
        InstallState::FindingObject => InstallAction::FindObject,
        InstallState::CheckingObject => InstallAction::CheckObject,
        InstallState::PreservingObject => InstallAction::PreserveObject,
        InstallState::FindingArchive => InstallAction::FindArchive,
        InstallState::CheckingArchive => InstallAction::CheckArchive,
        InstallState::PreservingArchive => InstallAction::PreserveArchive,
        InstallState::FindingValidArchive => InstallAction::FindArchive,
        InstallState::Downloading => InstallAction::Download,
        InstallState::Staging => InstallAction::CreateStaging,
        InstallState::VerifyingArchive => InstallAction::VerifyArchive,
        InstallState::Extracting => InstallAction::Extract,
        InstallState::CheckingStaged => InstallAction::CheckStaged,
        InstallState::PreservingStaged(_) => InstallAction::PreserveStaged,
        InstallState::Activating => InstallAction::Activate,
        InstallState::Finished => InstallAction::Rest,
    }
}

/// What follows a step: another state, a report, or a failure with its message.
pub enum Next {
    /// The installation goes on.
    Continue(InstallState),
    /// It is over successfully.
    Done(ObjectState),
    /// It is over with a failure.
    Stop(ArtifactError),
    /// It is over because an offline setup needs a complete verified profile.
    Offline,
}

/// What a state expects, and what follows.
pub open spec fn follow(offline: bool, state: InstallState, outcome: StepOutcome) -> Next {
    match (state, outcome) {
        (InstallState::Finished, _) => Next::Continue(InstallState::Finished),
        // Looking for things: absent is an answer.
        (InstallState::FindingObject, StepOutcome::Succeeded) => Next::Continue(
            InstallState::CheckingObject,
        ),
        (InstallState::FindingObject, _) => if offline {
            Next::Offline
        } else {
            Next::Continue(InstallState::FindingArchive)
        },
        (InstallState::FindingArchive, StepOutcome::Succeeded) => Next::Continue(
            InstallState::CheckingArchive,
        ),
        (InstallState::FindingArchive, _) => Next::Continue(InstallState::FindingValidArchive),
        (InstallState::FindingValidArchive, StepOutcome::Succeeded) => Next::Continue(
            InstallState::Staging,
        ),
        (InstallState::FindingValidArchive, _) => Next::Continue(InstallState::Downloading),
        // Verifying things: invalid is an answer.
        (InstallState::CheckingObject, StepOutcome::Succeeded) => Next::Done(ObjectState::Verified),
        (InstallState::CheckingObject, StepOutcome::Refused(_)) => Next::Continue(
            InstallState::PreservingObject,
        ),
        (InstallState::CheckingArchive, StepOutcome::Succeeded) => Next::Continue(
            InstallState::FindingValidArchive,
        ),
        (InstallState::CheckingArchive, StepOutcome::Refused(_)) => Next::Continue(
            InstallState::PreservingArchive,
        ),
        (InstallState::VerifyingArchive, StepOutcome::Refused(error)) => Next::Continue(
            InstallState::PreservingStaged(error),
        ),
        (InstallState::Extracting, StepOutcome::Refused(error)) => Next::Continue(
            InstallState::PreservingStaged(error),
        ),
        (InstallState::CheckingStaged, StepOutcome::Refused(error)) => Next::Continue(
            InstallState::PreservingStaged(error),
        ),
        // Everything else must succeed.
        (_, StepOutcome::Refused(error)) => Next::Stop(error),
        (_, StepOutcome::Failed(error)) => Next::Stop(error),
        (InstallState::PreservingObject, StepOutcome::Succeeded) => if offline {
            Next::Offline
        } else {
            Next::Continue(InstallState::FindingArchive)
        },
        (InstallState::PreservingArchive, StepOutcome::Succeeded) => Next::Continue(
            InstallState::FindingValidArchive,
        ),
        (InstallState::Downloading, StepOutcome::Succeeded) => Next::Continue(
            InstallState::Staging,
        ),
        (InstallState::Staging, StepOutcome::Succeeded) => Next::Continue(
            InstallState::VerifyingArchive,
        ),
        (InstallState::VerifyingArchive, StepOutcome::Succeeded) => Next::Continue(
            InstallState::Extracting,
        ),
        (InstallState::Extracting, StepOutcome::Succeeded) => Next::Continue(
            InstallState::CheckingStaged,
        ),
        (InstallState::CheckingStaged, StepOutcome::Succeeded) => Next::Continue(
            InstallState::Activating,
        ),
        (InstallState::PreservingStaged(error), StepOutcome::Succeeded) => Next::Stop(error),
        (InstallState::Activating, StepOutcome::Succeeded) => Next::Done(ObjectState::Installed),
    }
}

/// Takes an installation one step further.
pub fn advance(offline: bool, state: InstallState, outcome: StepOutcome) -> (r: (
    InstallState,
    InstallAction,
))
    ensures
        match follow(offline, state, outcome) {
            Next::Continue(next) => r == (next, calls_for(next)),
            Next::Done(object) => r == (InstallState::Finished, InstallAction::Report(object)),
            Next::Stop(error) => r == (InstallState::Finished, InstallAction::Fail(error)),
            Next::Offline => {
                &&& r.0 is Finished
                &&& r.1 is Fail
                &&& r.1->Fail_0.message@
                    == "offline setup requires a complete verified artifact profile"@
            },
        },
{
    match state {
        InstallState::Finished => (InstallState::Finished, InstallAction::Rest),
        InstallState::FindingObject => match outcome {
            StepOutcome::Succeeded => (InstallState::CheckingObject, InstallAction::CheckObject),
            _ => without_object(offline),
        },
        InstallState::CheckingObject => match outcome {
            StepOutcome::Succeeded => finish(ObjectState::Verified),
            StepOutcome::Refused(_) => (
                InstallState::PreservingObject,
                InstallAction::PreserveObject,
            ),
            StepOutcome::Failed(error) => stop(error),
        },
        InstallState::PreservingObject => match outcome {
            StepOutcome::Succeeded => without_object(offline),
            StepOutcome::Refused(error) => stop(error),
            StepOutcome::Failed(error) => stop(error),
        },
        InstallState::FindingArchive => match outcome {
            StepOutcome::Succeeded => (InstallState::CheckingArchive, InstallAction::CheckArchive),
            _ => (InstallState::FindingValidArchive, InstallAction::FindArchive),
        },
        InstallState::CheckingArchive => match outcome {
            StepOutcome::Succeeded => (
                InstallState::FindingValidArchive,
                InstallAction::FindArchive,
            ),
            StepOutcome::Refused(_) => (
                InstallState::PreservingArchive,
                InstallAction::PreserveArchive,
            ),
            StepOutcome::Failed(error) => stop(error),
        },
        InstallState::PreservingArchive => match outcome {
            StepOutcome::Succeeded => (
                InstallState::FindingValidArchive,
                InstallAction::FindArchive,
            ),
            StepOutcome::Refused(error) => stop(error),
            StepOutcome::Failed(error) => stop(error),
        },
        InstallState::FindingValidArchive => match outcome {
            StepOutcome::Succeeded => (InstallState::Staging, InstallAction::CreateStaging),
            _ => (InstallState::Downloading, InstallAction::Download),
        },
        InstallState::Downloading => match outcome {
            StepOutcome::Succeeded => (InstallState::Staging, InstallAction::CreateStaging),
            StepOutcome::Refused(error) => stop(error),
            StepOutcome::Failed(error) => stop(error),
        },
        InstallState::Staging => match outcome {
            StepOutcome::Succeeded => (
                InstallState::VerifyingArchive,
                InstallAction::VerifyArchive,
            ),
            StepOutcome::Refused(error) => stop(error),
            StepOutcome::Failed(error) => stop(error),
        },
        InstallState::VerifyingArchive => match outcome {
            StepOutcome::Succeeded => (InstallState::Extracting, InstallAction::Extract),
            StepOutcome::Refused(error) => (
                InstallState::PreservingStaged(error),
                InstallAction::PreserveStaged,
            ),
            StepOutcome::Failed(error) => stop(error),
        },
        InstallState::Extracting => match outcome {
            StepOutcome::Succeeded => (InstallState::CheckingStaged, InstallAction::CheckStaged),
            StepOutcome::Refused(error) => (
                InstallState::PreservingStaged(error),
                InstallAction::PreserveStaged,
            ),
            StepOutcome::Failed(error) => stop(error),
        },
        InstallState::CheckingStaged => match outcome {
            StepOutcome::Succeeded => (InstallState::Activating, InstallAction::Activate),
            StepOutcome::Refused(error) => (
                InstallState::PreservingStaged(error),
                InstallAction::PreserveStaged,
            ),
            StepOutcome::Failed(error) => stop(error),
        },
        InstallState::PreservingStaged(first) => match outcome {
            StepOutcome::Succeeded => stop(first),
            StepOutcome::Refused(error) => stop(error),
            StepOutcome::Failed(error) => stop(error),
        },
        InstallState::Activating => match outcome {
            StepOutcome::Succeeded => finish(ObjectState::Installed),
            StepOutcome::Refused(error) => stop(error),
            StepOutcome::Failed(error) => stop(error),
        },
    }
}

fn finish(object: ObjectState) -> (r: (InstallState, InstallAction))
    ensures
        r == (InstallState::Finished, InstallAction::Report(object)),
{
    (InstallState::Finished, InstallAction::Report(object))
}

fn stop(error: ArtifactError) -> (r: (InstallState, InstallAction))
    ensures
        r == (InstallState::Finished, InstallAction::Fail(error)),
{
    (InstallState::Finished, InstallAction::Fail(error))
}

fn without_object(offline: bool) -> (r: (InstallState, InstallAction))
    ensures
        if offline {
            &&& r.0 is Finished
            &&& r.1 is Fail
            &&& r.1->Fail_0.message@
                == "offline setup requires a complete verified artifact profile"@
        } else {
            r == (InstallState::FindingArchive, InstallAction::FindArchive)
        },
{
    if offline {
        stop(
            ArtifactError::new("offline setup requires a complete verified artifact profile"),
        )
    } else {
        (InstallState::FindingArchive, InstallAction::FindArchive)
    }
}

/// The state after outcomes in a row; `None` once the installation is over.
pub open spec fn after_outcomes(offline: bool, outcomes: Seq<StepOutcome>) -> Option<InstallState>
    decreases outcomes.len(),
{
    if outcomes.len() == 0 {
        Some(InstallState::FindingObject)
    } else {
        match after_outcomes(offline, outcomes.drop_last()) {
            None => None,
            Some(state) => match follow(offline, state, outcomes.last()) {
                Next::Continue(next) => Some(next),
                _ => None,
            },
        }
    }
}

/// Offline setup touches nothing but installed objects: whatever happens, it never looks for an
/// archive, never downloads, never extracts, and never activates anything.
pub proof fn offline_setup_stays_offline(outcomes: Seq<StepOutcome>)
    ensures
        match after_outcomes(true, outcomes) {
            None => true,
            Some(state) => {
                ||| state is FindingObject
                ||| state is CheckingObject
                ||| state is PreservingObject
            },
        },
    decreases outcomes.len(),
{
    if outcomes.len() > 0 {
        offline_setup_stays_offline(outcomes.drop_last());
    }
}

/// Offline setup succeeds only with an object that was there and passed verification.
pub proof fn offline_setup_only_verifies(outcomes: Seq<StepOutcome>, outcome: StepOutcome)
    ensures
        match after_outcomes(true, outcomes) {
            None => true,
            Some(state) => follow(true, state, outcome) matches Next::Done(object) ==> {
                &&& object == ObjectState::Verified
                &&& state is CheckingObject
                &&& outcome is Succeeded
            },
        },
{
    offline_setup_stays_offline(outcomes);
}

/// Nothing is activated before it was verified: activation follows a successful verification of
/// the staged object, which follows a successful extraction.
pub proof fn activation_follows_verification(offline: bool, outcomes: Seq<StepOutcome>)
    requires
        after_outcomes(offline, outcomes) == Some(InstallState::Activating),
    ensures
        outcomes.len() >= 2,
        outcomes[outcomes.len() - 1] is Succeeded,
        after_outcomes(offline, outcomes.drop_last()) == Some(InstallState::CheckingStaged),
        outcomes[outcomes.len() - 2] is Succeeded,
        after_outcomes(offline, outcomes.drop_last().drop_last()) == Some(InstallState::Extracting),
{
    let before = outcomes.drop_last();
    assert(after_outcomes(offline, before) == Some(InstallState::CheckingStaged));
    assert(before.len() > 0);
    assert(before.last() == outcomes[outcomes.len() - 2]);
}

/// Nothing is extracted from an archive that was not verified: extraction follows at once on a
/// successful verification of the archive, however the archive came to be there.
pub proof fn extraction_follows_verification(offline: bool, outcomes: Seq<StepOutcome>)
    requires
        after_outcomes(offline, outcomes) == Some(InstallState::Extracting),
    ensures
        outcomes.len() >= 1,
        outcomes.last() is Succeeded,
        after_outcomes(offline, outcomes.drop_last()) == Some(InstallState::VerifyingArchive),
{
}

/// How far an installation has come.
pub open spec fn progress(state: InstallState) -> nat {
    match state {
        InstallState::FindingObject => 0,
        InstallState::CheckingObject => 1,
        InstallState::PreservingObject => 2,
        InstallState::FindingArchive => 3,
        InstallState::CheckingArchive => 4,
        InstallState::PreservingArchive => 5,
        InstallState::FindingValidArchive => 6,
        InstallState::Downloading => 7,
        InstallState::Staging => 8,
        InstallState::VerifyingArchive => 9,
        InstallState::Extracting => 10,
        InstallState::CheckingStaged => 11,
        InstallState::PreservingStaged(_) => 12,
        InstallState::Activating => 13,
        InstallState::Finished => 14,
    }
}

/// An installation always comes to an end: every step that goes on goes forward.
pub proof fn installation_goes_forward(offline: bool, state: InstallState, outcome: StepOutcome)
    requires
        !(state is Finished),
    ensures
        follow(offline, state, outcome) matches Next::Continue(next) ==> progress(next) > progress(
            state,
        ),
{
}

/// The state of an artifact's object: whether it is there decides, then what verifying it came to.
pub fn object_state(exists_there: bool, check: Result<(), ArtifactError>) -> (state: ObjectState)
    ensures
        state == if !exists_there {
            ObjectState::Missing
        } else if check is Ok {
            ObjectState::Verified
        } else {
            ObjectState::Invalid
        },
{
    if !exists_there {
        ObjectState::Missing
    } else {
        match check {
            Ok(()) => ObjectState::Verified,
            Err(_) => ObjectState::Invalid,
        }
    }
}

/// Per-artifact installation result.
#[derive(Debug)]
pub struct ArtifactResult {
    /// Stable curated artifact identifier.
    pub id: String,
    /// Artifact role: runtime, STT model, or TTS model.
    pub kind: String,
    /// Whether setup installed bytes or verified an existing object.
    pub state: &'static str,
}

/// Machine-readable setup or offline-verification report.
#[derive(Debug)]
pub struct SetupReport {
    /// Curated profile identifier.
    pub profile: String,
    /// Selected supported platform.
    pub platform: &'static str,
    /// Overall status.
    pub status: &'static str,
    /// Results for the platform runtime and both models.
    pub artifacts: Vec<ArtifactResult>,
}

/// Whether a result is that of an artifact in a state.
pub open spec fn result_of(
    result: ArtifactResult,
    artifact: ArtifactSpec,
    state: ObjectState,
) -> bool {
    &&& result.id@ == artifact.id@
    &&& result.kind@ == artifact.kind@
    &&& result.state@ == state.name()
}

/// Whether an object can be used.
pub open spec fn usable(state: ObjectState) -> bool {
    state == ObjectState::Installed || state == ObjectState::Verified
}

/// Reports the objects of a profile: ready exactly when every one can be used.
pub fn profile_report(
    profile: &str,
    platform: &'static str,
    selected: &[&ArtifactSpec],
    states: &[ObjectState],
) -> (report: SetupReport)
    requires
        selected@.len() == states@.len(),
    ensures
        report.profile@ == profile@,
        report.platform@ == platform@,
        report.status@ == if forall|i: int| 0 <= i < states@.len() ==> usable(#[trigger] states@[i]) {
            "ready"@
        } else {
            "not-ready"@
        },
        report.artifacts@.len() == selected@.len(),
        forall|i: int|
            0 <= i < selected@.len() ==> result_of(
                #[trigger] report.artifacts@[i],
                *selected@[i],
                states@[i],
            ),
{
    let mut artifacts: Vec<ArtifactResult> = Vec::new();
    let mut ready = true;
    let mut i: usize = 0;
    while i < selected.len()
        invariant
            i <= selected@.len(),
            selected@.len() == states@.len(),
            artifacts@.len() == i,
            ready <==> forall|j: int| 0 <= j < i ==> usable(#[trigger] states@[j]),
            forall|j: int|
                0 <= j < i ==> result_of(#[trigger] artifacts@[j], *selected@[j], states@[j]),
        decreases selected@.len() - i,
    {
        let state = states[i];
        if state == ObjectState::Missing || state == ObjectState::Invalid {
            ready = false;
            assert(!usable(states@[i as int]));
        }
        artifacts.push(
            ArtifactResult {
                id: selected[i].id.clone(),
                kind: selected[i].kind.clone(),
                state: state.as_str(),
            },
        );
        i += 1;
    }
    SetupReport {
        profile: profile.to_owned(),
        platform,
        status: if ready {
            "ready"
        } else {
            "not-ready"
        },
        artifacts,
    }
}

/// A path below a directory.
pub open spec fn below(directory: Seq<char>, name: Seq<char>) -> Seq<char> {
    if directory.len() == 0 || directory.last() == '/' {
        directory + name
    } else {
        directory + "/"@ + name
    }
}

/// A path below a directory.
pub fn join_path(directory: &str, name: &str) -> (path: String)
    ensures
        path@ == below(directory@, name@),
{
    let chars = chars_of(directory);
    if chars.len() == 0 || chars[chars.len() - 1] == '/' {
        concat(directory, name)
    } else {
        let mut path = concat(directory, "/");
        path.append(name);
        path
    }
}

/// Content-addressed artifact store.
#[derive(Debug)]
pub struct ArtifactStore {
    root: String,
}

impl ArtifactStore {
    /// The store's directory.
    pub closed spec fn directory(self) -> Seq<char> {
        self.root@
    }

    /// Creates an artifact store without reading, writing, or downloading anything.
    pub fn new(root: String) -> (store: Self)
        ensures
            store.directory() == root@,
    {
        ArtifactStore { root }
    }

    /// Where an artifact's object stands.
    pub open spec fn object_of(self, artifact: ArtifactSpec) -> Seq<char> {
        below(below(self.directory(), "objects"@), object_name_of(artifact))
    }

    /// Where an artifact's archive stands.
    pub open spec fn archive_of(self, artifact: ArtifactSpec) -> Seq<char> {
        below(below(self.directory(), "downloads"@), archive_name_of(artifact))
    }

    /// A directory of the store.
    pub fn subdirectory(&self, name: &str) -> (path: String)
        ensures
            path@ == below(self.directory(), name@),
    {
        join_path(self.root.as_str(), name)
    }

    /// Where an artifact's object stands.
    pub fn object_path(&self, artifact: &ArtifactSpec) -> (path: String)
        requires
            valid_digest(artifact.sha256@),
        ensures
            path@ == self.object_of(*artifact),
    {
        let objects = self.subdirectory("objects");
        let name = object_name(artifact);
        join_path(objects.as_str(), name.as_str())
    }

    /// Where an artifact's archive stands.
    pub fn archive_path(&self, artifact: &ArtifactSpec) -> (path: String)
        ensures
            path@ == self.archive_of(*artifact),
    {
        let downloads = self.subdirectory("downloads");
        let name = archive_name(artifact);
        join_path(downloads.as_str(), name.as_str())
    }

    /// The engine paths of a selection whose objects have been verified: each check tells what
    /// verifying that role's object came to, and the first failure in order decides.
    pub fn verified_profile(
        &self,
        selected: &[&ArtifactSpec],
        runtime_check: Result<(), ArtifactError>,
        stt_check: Result<(), ArtifactError>,
        tts_check: Result<(), ArtifactError>,
    ) -> (r: Result<VerifiedProfile, ArtifactError>)
        requires
            forall|i: int|
                0 <= i < selected@.len() ==> valid_digest((#[trigger] selected@[i]).sha256@),
        ensures
            match r {
                Ok(profile) => {
                    &&& runtime_check is Ok && stt_check is Ok && tts_check is Ok
                    &&& first_of_kind(selected@, "runtime"@) is Some
                    &&& first_of_kind(selected@, "stt-model"@) is Some
                    &&& first_of_kind(selected@, "tts-model"@) is Some
                    &&& profile.runtime_at() == self.object_of(
                        first_of_kind(selected@, "runtime"@)->0,
                    )
                    &&& profile.stt_at() == self.object_of(
                        first_of_kind(selected@, "stt-model"@)->0,
                    )
                    &&& profile.tts_at() == self.object_of(
                        first_of_kind(selected@, "tts-model"@)->0,
                    )
                },
                Err(e) => profile_failure(
                    selected@,
                    check_message(runtime_check),
                    check_message(stt_check),
                    check_message(tts_check),
                ) == Some(e.message@),
            },
    {
        let runtime = match checked_kind(selected, "runtime", runtime_check) {
            Ok(artifact) => self.object_path(artifact),
            Err(e) => {
                return Err(e);
            },
        };
        let stt = match checked_kind(selected, "stt-model", stt_check) {
            Ok(artifact) => self.object_path(artifact),
            Err(e) => {
                return Err(e);
            },
        };
        let tts = match checked_kind(selected, "tts-model", tts_check) {
            Ok(artifact) => self.object_path(artifact),
            Err(e) => {
                return Err(e);
            },
        };
        Ok(VerifiedProfile { runtime, stt, tts })
    }
}

/// The first artifact of a role.
pub open spec fn first_of_kind(selected: Seq<&ArtifactSpec>, kind: Seq<char>) -> Option<
    ArtifactSpec,
>
    decreases selected.len(),
{
    if selected.len() == 0 {
        None
    } else if selected[0].kind@ == kind {
        Some(*selected[0])
    } else {
        first_of_kind(selected.skip(1), kind)
    }
}

/// The message of a failed check.
pub open spec fn check_message(check: Result<(), ArtifactError>) -> Option<Seq<char>> {
    match check {
        Ok(()) => None,
        Err(e) => Some(e.message@),
    }
}

/// Why one role cannot be used, if it cannot: it must be selected and its object verified.
pub open spec fn kind_failure(
    selected: Seq<&ArtifactSpec>,
    kind: Seq<char>,
    check: Option<Seq<char>>,
) -> Option<Seq<char>> {
    if first_of_kind(selected, kind) is None {
        Some("curated artifact profile is incomplete"@)
    } else {
        check
    }
}

/// Why a profile cannot be used, if it cannot.
pub open spec fn profile_failure(
    selected: Seq<&ArtifactSpec>,
    runtime: Option<Seq<char>>,
    stt: Option<Seq<char>>,
    tts: Option<Seq<char>>,
) -> Option<Seq<char>> {
    if kind_failure(selected, "runtime"@, runtime) is Some {
        kind_failure(selected, "runtime"@, runtime)
    } else if kind_failure(selected, "stt-model"@, stt) is Some {
        kind_failure(selected, "stt-model"@, stt)
    } else {
        kind_failure(selected, "tts-model"@, tts)
    }
}

/// The first artifact stands where none of the role stands before it.
proof fn first_of_kind_is(selected: Seq<&ArtifactSpec>, kind: Seq<char>, i: int)
    requires
        0 <= i <= selected.len(),
        i < selected.len() ==> selected[i].kind@ == kind,
        forall|j: int| 0 <= j < i ==> (#[trigger] selected[j]).kind@ != kind,
    ensures
        first_of_kind(selected, kind) == if i < selected.len() {
            Some(*selected[i])
        } else {
            None
        },
    decreases selected.len(),
{
    if i > 0 {
        assert(selected[0].kind@ != kind);
        let rest = selected.skip(1);
        assert forall|j: int| 0 <= j < i - 1 implies (#[trigger] rest[j]).kind@ != kind by {
            assert(rest[j] == selected[j + 1]);
        }
        first_of_kind_is(rest, kind, i - 1);
    }
}

/// The first artifact of a role, if its object was verified.
fn checked_kind<'a>(
    selected: &[&'a ArtifactSpec],
    kind: &str,
    check: Result<(), ArtifactError>,
) -> (r: Result<&'a ArtifactSpec, ArtifactError>)
    ensures
        match r {
            Ok(artifact) => {
                &&& check is Ok
                &&& first_of_kind(selected@, kind@) == Some(*artifact)
                &&& exists|i: int| 0 <= i < selected@.len() && #[trigger] selected@[i] == artifact
            },
            Err(e) => kind_failure(selected@, kind@, check_message(check)) == Some(e.message@),
        },
{
    match find_kind(selected, kind) {
        Ok(artifact) => {
            proof {
                let i = choose|i: int|
                    {
                        &&& 0 <= i < selected@.len()
                        &&& #[trigger] selected@[i] == artifact
                        &&& artifact.kind@ == kind@
                        &&& forall|j: int| 0 <= j < i ==> (#[trigger] selected@[j]).kind@ != kind@
                    };
                first_of_kind_is(selected@, kind@, i);
            }
            match check {
                Ok(()) => Ok(artifact),
                Err(e) => Err(e),
            }
        },
        Err(e) => {
            proof {
                first_of_kind_is(selected@, kind@, selected@.len() as int);
            }
            Err(e)
        },
    }
}

/// Verified private paths required to load the curated native engines.
#[derive(Debug)]
pub struct VerifiedProfile {
    runtime: String,
    stt: String,
    tts: String,
}

impl VerifiedProfile {
    /// The runtime object's directory.
    pub closed spec fn runtime_at(self) -> Seq<char> {
        self.runtime@
    }

    /// The speech-to-text object's directory.
    pub closed spec fn stt_at(self) -> Seq<char> {
        self.stt@
    }

    /// The text-to-speech object's directory.
    pub closed spec fn tts_at(self) -> Seq<char> {
        self.tts@
    }

    /// Root of the selected platform runtime object.
    pub fn runtime_root(&self) -> (path: &str)
        ensures
            path@ == self.runtime_at(),
    {
        self.runtime.as_str()
    }

    /// Streaming NeMo CTC model path.
    pub fn stt_model(&self) -> (path: String)
        ensures
            path@ == below(self.stt_at(), "model.int8.onnx"@),
    {
        join_path(self.stt.as_str(), "model.int8.onnx")
    }

    /// Streaming NeMo token table path.
    pub fn stt_tokens(&self) -> (path: String)
        ensures
            path@ == below(self.stt_at(), "tokens.txt"@),
    {
        join_path(self.stt.as_str(), "tokens.txt")
    }

    /// Kristin VITS model path.
    pub fn tts_model(&self) -> (path: String)
        ensures
            path@ == below(self.tts_at(), "en_US-kristin-medium.onnx"@),
    {
        join_path(self.tts.as_str(), "en_US-kristin-medium.onnx")
    }

    /// Kristin VITS token table path.
    pub fn tts_tokens(&self) -> (path: String)
        ensures
            path@ == below(self.tts_at(), "tokens.txt"@),
    {
        join_path(self.tts.as_str(), "tokens.txt")
    }

    /// Pinned `espeak-ng-data` path used for English phonemization.
    pub fn tts_data_dir(&self) -> (path: String)
        ensures
            path@ == below(self.tts_at(), "espeak-ng-data"@),
    {
        join_path(self.tts.as_str(), "espeak-ng-data")
    }
}

/// An installation succeeds in two ways and no other: an object that was found passes its check, or
/// an object that was extracted and checked is activated.
pub proof fn installations_succeed_in_two_ways(
    offline: bool,
    state: InstallState,
    outcome: StepOutcome,
)
    ensures
        follow(offline, state, outcome) == Next::Done(ObjectState::Verified) <==> state
            == InstallState::CheckingObject && outcome is Succeeded,
        follow(offline, state, outcome) == Next::Done(ObjectState::Installed) <==> state
            == InstallState::Activating && outcome is Succeeded,
        follow(offline, state, outcome) matches Next::Done(object) ==> usable(object),
{
}

/// Nothing is downloaded but what is missing: a download follows at once on looking for a valid
/// archive and not finding one, and what is found is staged without.
pub proof fn only_missing_archives_are_downloaded(
    offline: bool,
    state: InstallState,
    outcome: StepOutcome,
)
    ensures
        follow(offline, state, outcome) == Next::Continue(InstallState::Downloading) <==> state
            == InstallState::FindingValidArchive && !(outcome is Succeeded),
        follow(offline, InstallState::FindingValidArchive, StepOutcome::Succeeded)
            == Next::Continue(InstallState::Staging),
{
}

/// A missing object is installed step by step: look for its archive, check it, download it where
/// there is none, stage, verify, extract, check, activate.
pub proof fn missing_objects_are_installed(missing: StepOutcome)
    requires
        !(missing is Succeeded),
    ensures
        ({
            let done = StepOutcome::Succeeded;
            let found = seq![missing, done, done, done, done, done, done, done];
            let fetched = seq![missing, missing, missing, done, done, done, done, done];
            &&& after_outcomes(false, found) == Some(InstallState::Activating)
            &&& after_outcomes(false, fetched) == Some(InstallState::Activating)
            &&& after_outcomes(true, seq![missing]) is None
        }),
{
    let done = StepOutcome::Succeeded;
    let start = Seq::<StepOutcome>::empty();
    let a1 = start.push(missing);
    outcomes_follow(false, start, missing);
    outcomes_follow(true, start, missing);
    assert(a1 =~= seq![missing]);
    let a2 = a1.push(done);
    outcomes_follow(false, a1, done);
    let a3 = a2.push(done);
    outcomes_follow(false, a2, done);
    let a4 = a3.push(done);
    outcomes_follow(false, a3, done);
    let a5 = a4.push(done);
    outcomes_follow(false, a4, done);
    let a6 = a5.push(done);
    outcomes_follow(false, a5, done);
    let a7 = a6.push(done);
    outcomes_follow(false, a6, done);
    let a8 = a7.push(done);
    outcomes_follow(false, a7, done);
    assert(a8 =~= seq![missing, done, done, done, done, done, done, done]);
    let b2 = a1.push(missing);
    outcomes_follow(false, a1, missing);
    let b3 = b2.push(missing);
    outcomes_follow(false, b2, missing);
    let b4 = b3.push(done);
    outcomes_follow(false, b3, done);
    let b5 = b4.push(done);
    outcomes_follow(false, b4, done);
    let b6 = b5.push(done);
    outcomes_follow(false, b5, done);
    let b7 = b6.push(done);
    outcomes_follow(false, b6, done);
    let b8 = b7.push(done);
    outcomes_follow(false, b7, done);
    assert(b8 =~= seq![missing, missing, missing, done, done, done, done, done]);
}

/// One more outcome takes an installation one step further.
proof fn outcomes_follow(offline: bool, outcomes: Seq<StepOutcome>, next: StepOutcome)
    ensures
        after_outcomes(offline, outcomes.push(next)) == match after_outcomes(offline, outcomes) {
            None => None,
            Some(state) => match follow(offline, state, next) {
                Next::Continue(reached) => Some(reached),
                _ => None,
            },
        },
        after_outcomes(offline, Seq::empty()) == Some(InstallState::FindingObject),
{
    assert(outcomes.push(next).drop_last() =~= outcomes);
}

/// What fails verification is put aside before anything else happens: an object or an archive that
/// was there, and whatever was staged. What was put aside from staging ends the installation with
/// the failure that it was put aside for.
pub proof fn refused_things_are_put_aside(offline: bool, error: ArtifactError)
    ensures
        ({
            let refused = StepOutcome::Refused(error);
            let aside = Next::Continue(InstallState::PreservingStaged(error));
            &&& follow(offline, InstallState::CheckingObject, refused) == Next::Continue(
                InstallState::PreservingObject,
            )
            &&& follow(offline, InstallState::CheckingArchive, refused) == Next::Continue(
                InstallState::PreservingArchive,
            )
            &&& follow(offline, InstallState::VerifyingArchive, refused) == aside
            &&& follow(offline, InstallState::Extracting, refused) == aside
            &&& follow(offline, InstallState::CheckingStaged, refused) == aside
            &&& follow(
                offline,
                InstallState::PreservingStaged(error),
                StepOutcome::Succeeded,
            ) == Next::Stop(error)
            &&& follow(offline, InstallState::PreservingObject, StepOutcome::Succeeded) == if offline {
                Next::Offline
            } else {
                Next::Continue(InstallState::FindingArchive)
            }
            &&& follow(offline, InstallState::PreservingArchive, StepOutcome::Succeeded)
                == Next::Continue(InstallState::FindingValidArchive)
        }),
{
}

/// A step that fails ends the installation with its failure, unless it only looked whether something
/// is there, which then counts as missing.
pub proof fn failures_end_the_installation(
    offline: bool,
    state: InstallState,
    error: ArtifactError,
)
    ensures
        follow(offline, state, StepOutcome::Failed(error)) == Next::Stop(error) <==> {
            &&& state != InstallState::Finished
            &&& state != InstallState::FindingObject
            &&& state != InstallState::FindingArchive
            &&& state != InstallState::FindingValidArchive
        },
{
}

/// A path below a directory has exactly one separator between the two: whether the directory is
/// written with one at its end does not matter.
pub proof fn paths_are_joined_by_one_separator(directory: Seq<char>, name: Seq<char>)
    requires
        directory.len() > 0,
        directory.last() != '/',
    ensures
        below(directory, name) == below(directory.push('/'), name),
        below(directory, name) == directory.push('/') + name,
        below(Seq::empty(), name) == name,
{
    reveal_strlit("/");
    assert("/"@ =~= seq!['/']);
    assert(directory + "/"@ =~= directory.push('/'));
    assert(Seq::<char>::empty() + name =~= name);
}

/// Objects and archives stand apart, each in a directory of its own below the store's.
pub proof fn objects_and_archives_stand_apart(store: ArtifactStore, artifact: ArtifactSpec)
    requires
        store.directory().len() > 0,
        store.directory().last() != '/',
    ensures
        store.object_of(artifact) == store.directory() + "/objects/"@ + object_name_of(artifact),
        store.archive_of(artifact) == store.directory() + "/downloads/"@ + archive_name_of(artifact),
{
    reveal_strlit("/");
    reveal_strlit("objects");
    reveal_strlit("downloads");
    reveal_strlit("/objects/");
    reveal_strlit("/downloads/");
    let directory = store.directory();
    let objects = below(directory, "objects"@);
    let downloads = below(directory, "downloads"@);
    assert(objects.last() == 's' && downloads.last() == 's');
    assert("/"@ + "objects"@ + "/"@ =~= "/objects/"@);
    assert("/"@ + "downloads"@ + "/"@ =~= "/downloads/"@);
    assert(objects + "/"@ =~= directory + ("/"@ + "objects"@ + "/"@));
    assert(downloads + "/"@ =~= directory + ("/"@ + "downloads"@ + "/"@));
}

/// A profile can be used exactly when every role is selected and its object verified; of several
/// failures that of the runtime comes first, then recognition, then synthesis.
pub proof fn profiles_need_every_role(
    selected: Seq<&ArtifactSpec>,
    runtime: Option<Seq<char>>,
    stt: Option<Seq<char>>,
    tts: Option<Seq<char>>,
)
    ensures
        ({
            let chosen = |kind: Seq<char>| exists|i: int|
                0 <= i < selected.len() && (#[trigger] selected[i]).kind@ == kind;
            let failure = profile_failure(selected, runtime, stt, tts);
            &&& failure is None <==> {
                &&& chosen("runtime"@) && chosen("stt-model"@) && chosen("tts-model"@)
                &&& runtime is None && stt is None && tts is None
            }
            &&& chosen("runtime"@) && runtime is Some ==> failure == runtime
            &&& chosen("runtime"@) && runtime is None && chosen("stt-model"@) && stt is Some ==> failure
                == stt
            &&& !chosen("runtime"@) ==> failure == Some("curated artifact profile is incomplete"@)
        }),
{
    roles_are_found(selected, "runtime"@);
    roles_are_found(selected, "stt-model"@);
    roles_are_found(selected, "tts-model"@);
}

/// A role is found exactly when an artifact has it.
proof fn roles_are_found(selected: Seq<&ArtifactSpec>, kind: Seq<char>)
    ensures
        first_of_kind(selected, kind) is Some <==> exists|i: int|
            0 <= i < selected.len() && (#[trigger] selected[i]).kind@ == kind,
    decreases selected.len(),
{
    if selected.len() > 0 && selected[0].kind@ != kind {
        let rest = selected.skip(1);
        roles_are_found(rest, kind);
        if exists|i: int| 0 <= i < selected.len() && (#[trigger] selected[i]).kind@ == kind {
            let i = choose|i: int| 0 <= i < selected.len() && (#[trigger] selected[i]).kind@ == kind;
            assert(rest[i - 1].kind@ == kind);
        }
        if exists|i: int| 0 <= i < rest.len() && (#[trigger] rest[i]).kind@ == kind {
            let i = choose|i: int| 0 <= i < rest.len() && (#[trigger] rest[i]).kind@ == kind;
            assert(selected[i + 1].kind@ == kind);
        }
    }
}

/// An object can be used exactly when it was verified, where it was or as it was installed.
pub proof fn usable_objects_were_verified(state: ObjectState)
    ensures
        usable(state) <==> state != ObjectState::Missing && state != ObjectState::Invalid,
        state.name() == match state {
            ObjectState::Installed => "installed"@,
            ObjectState::Verified => "verified"@,
            ObjectState::Missing => "missing"@,
            ObjectState::Invalid => "invalid"@,
        },
{
}

/// Each action belongs to one state of an installation, but that archives are looked for twice:
/// nothing is downloaded, extracted, or activated but in the state for it.
pub proof fn actions_belong_to_their_state(state: InstallState)
    ensures
        calls_for(state) is Download <==> state is Downloading,
        calls_for(state) is Extract <==> state is Extracting,
        calls_for(state) is Activate <==> state is Activating,
        calls_for(state) is VerifyArchive <==> state is VerifyingArchive,
        calls_for(state) is CheckStaged <==> state is CheckingStaged,
        calls_for(state) is CheckObject <==> state is CheckingObject,
        calls_for(state) is CheckArchive <==> state is CheckingArchive,
        calls_for(state) is CreateStaging <==> state is Staging,
        calls_for(state) is FindObject <==> state is FindingObject,
        calls_for(state) is FindArchive <==> state is FindingArchive || state
            is FindingValidArchive,
        calls_for(state) is PreserveObject <==> state is PreservingObject,
        calls_for(state) is PreserveArchive <==> state is PreservingArchive,
        calls_for(state) is PreserveStaged <==> state is PreservingStaged,
        calls_for(state) is Rest <==> state is Finished,
{
}

/// An installation that is advanced does what its next state calls for, and ends only with a report
/// or a failure.
pub proof fn installations_do_what_is_called_for(
    offline: bool,
    state: InstallState,
    outcome: StepOutcome,
    next: (InstallState, InstallAction),
)
    requires
        call_ensures(advance, (offline, state, outcome), next),
    ensures
        !(next.0 is Finished) ==> next.1 == calls_for(next.0),
        next.0 is Finished && !(state is Finished) ==> next.1 is Report || next.1 is Fail,
        next.1 matches InstallAction::Report(object) ==> outcome is Succeeded && usable(object),
        state is FindingObject && offline && !(outcome is Succeeded) ==> next.1 is Fail,
{
}

/// A report is ready exactly when every object can be used, and lists each artifact in its place,
/// with its own identifier, role, and state.
pub proof fn reports_list_every_artifact(
    profile: &str,
    platform: &'static str,
    selected: &[&ArtifactSpec],
    states: &[ObjectState],
    report: SetupReport,
    i: int,
)
    requires
        selected@.len() == states@.len(),
        call_ensures(profile_report, (profile, platform, selected, states), report),
        0 <= i < states@.len(),
    ensures
        report.status@ == "ready"@ ==> states@[i] == ObjectState::Installed || states@[i]
            == ObjectState::Verified,
        states@[i] == ObjectState::Missing || states@[i] == ObjectState::Invalid
            ==> report.status@ == "not-ready"@,
        report.artifacts@.len() == selected@.len(),
        report.artifacts@[i].id@ == selected@[i].id@,
        report.artifacts@[i].kind@ == selected@[i].kind@,
        report.artifacts@[i].state@ == states@[i].name(),
        report.profile@ == profile@,
        report.platform@ == platform@,
{
    reveal_strlit("ready");
    reveal_strlit("not-ready");
    assert("ready"@.len() == 5 && "not-ready"@.len() == 9);
    assert(result_of(report.artifacts@[i], *selected@[i], states@[i]));
    if states@[i] == ObjectState::Missing || states@[i] == ObjectState::Invalid {
        assert(!usable(states@[i]));
    }
}

/// An object is missing, verified, or invalid: what is there counts as its check came out.
pub proof fn objects_are_judged_by_their_check(
    there: bool,
    check: Result<(), ArtifactError>,
    state: ObjectState,
)
    requires
        call_ensures(object_state, (there, check), state),
    ensures
        state == ObjectState::Missing <==> !there,
        state == ObjectState::Verified <==> there && check is Ok,
        usable(state) <==> there && check is Ok,
{
}

}
