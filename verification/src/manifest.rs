//! The curated artifact manifest: what may be installed, for which platform, and from where.

use vstd::prelude::*;
use vstd::string::*;
use vstd::utf8::encode_utf8;
use crate::number::{digests_are_their_digits, hex};
use crate::paths::{is_safe_path, safe_path, PathStyle};
use crate::text::{chars_of, concat, same_text};

verus! {

/// Sanitized artifact lifecycle failure.
#[derive(Debug, Clone, Copy, PartialEq, Eq)]
pub struct ArtifactError {
    /// Stable message without request detail.
    pub message: &'static str,
}

impl ArtifactError {
    /// Creates a failure with a stable message.
    pub fn new(message: &'static str) -> (error: Self)
        ensures
            error.message@ == message@,
    {
        ArtifactError { message }
    }
}

/// One license that applies to a part of an artifact.
#[derive(Debug)]
pub struct LicenseSpec {
    /// What the license covers.
    pub scope: String,
    /// SPDX identifier.
    pub spdx: String,
    /// Where the license comes from.
    pub source: String,
    /// Pinned revision of that source.
    pub revision: String,
}

/// One curated artifact.
#[derive(Debug)]
pub struct ArtifactSpec {
    /// Stable identifier.
    pub id: String,
    /// Artifact role.
    pub kind: String,
    /// Platforms that need it.
    pub platforms: Vec<String>,
    /// Where its archive is downloaded from.
    pub url: String,
    /// Archive size in bytes.
    pub size: u64,
    /// Archive SHA-256 in hexadecimal.
    pub sha256: String,
    /// The archive's only top-level directory.
    pub archive_root: String,
    /// Most bytes its files may unpack to.
    pub max_unpacked_bytes: u64,
    /// Paths that an installation must have.
    pub required_paths: Vec<String>,
    /// Licenses.
    pub licenses: Vec<LicenseSpec>,
}

/// The curated profile.
#[derive(Debug)]
pub struct CuratedManifest {
    /// Version of the manifest's form.
    pub schema_version: u32,
    /// Profile identifier.
    pub profile: String,
    /// Its artifacts.
    pub artifacts: Vec<ArtifactSpec>,
}

/// Characters of an artifact identifier.
pub open spec fn identifier_char(c: char) -> bool {
    ||| 'a' <= c <= 'z'
    ||| 'A' <= c <= 'Z'
    ||| '0' <= c <= '9'
    ||| c == '-'
    ||| c == '_'
    ||| c == '.'
}

/// Hexadecimal digits of either case.
pub open spec fn hex_digit_char(c: char) -> bool {
    ||| 'a' <= c <= 'f'
    ||| 'A' <= c <= 'F'
    ||| '0' <= c <= '9'
}

/// Whether an identifier is well formed.
pub open spec fn valid_id(id: Seq<char>) -> bool {
    id.len() > 0 && forall|i: int| 0 <= i < id.len() ==> identifier_char(#[trigger] id[i])
}

/// Whether a digest is written as 64 hexadecimal digits.
pub open spec fn valid_digest(digest: Seq<char>) -> bool {
    digest.len() == 64 && forall|i: int|
        0 <= i < digest.len() ==> hex_digit_char(#[trigger] digest[i])
}

/// The artifact roles of a profile.
pub open spec fn known_kind(kind: Seq<char>) -> bool {
    kind == "runtime"@ || kind == "stt-model"@ || kind == "tts-model"@
}

/// Whether a license names everything it must.
pub open spec fn complete_license(license: LicenseSpec) -> bool {
    &&& license.scope@.len() > 0
    &&& license.spdx@.len() > 0
    &&& license.source@.len() > 0
    &&& license.revision@.len() > 0
}

/// Whether an entry's own fields are acceptable.
pub open spec fn valid_fields(artifact: ArtifactSpec) -> bool {
    &&& valid_id(artifact.id@)
    &&& known_kind(artifact.kind@)
    &&& artifact.size != 0
    &&& artifact.max_unpacked_bytes != 0
    &&& valid_digest(artifact.sha256@)
    &&& artifact.archive_root@.len() > 0
    &&& artifact.required_paths@.len() > 0
    &&& artifact.licenses@.len() > 0
}

/// Why an entry is refused, if it is.
pub open spec fn artifact_failure(artifact: ArtifactSpec, style: PathStyle) -> Option<Seq<char>> {
    if !valid_fields(artifact) {
        Some("curated artifact manifest contains an invalid entry"@)
    } else if exists|i: int|
        0 <= i < artifact.licenses@.len() && !complete_license(#[trigger] artifact.licenses@[i]) {
        Some("curated artifact license metadata is incomplete"@)
    } else if exists|i: int|
        0 <= i < artifact.required_paths@.len() && !safe_path(
            encode_utf8((#[trigger] artifact.required_paths@[i])@),
            style,
        ) {
        Some("artifact relative path is invalid"@)
    } else {
        None
    }
}

/// Why the first `n` entries are refused, if they are: the first entry that is unacceptable in
/// itself or repeats an identifier decides.
pub open spec fn entries_failure(artifacts: Seq<ArtifactSpec>, n: int, style: PathStyle) -> Option<
    Seq<char>,
>
    decreases n,
{
    if n <= 0 {
        None
    } else if entries_failure(artifacts, n - 1, style) is Some {
        entries_failure(artifacts, n - 1, style)
    } else if artifact_failure(artifacts[n - 1], style) is Some {
        artifact_failure(artifacts[n - 1], style)
    } else if exists|j: int|
        0 <= j < n - 1 && (#[trigger] artifacts[j]).id@ == artifacts[n - 1].id@ {
        Some("curated artifact manifest contains duplicate identifiers"@)
    } else {
        None
    }
}

/// Why a manifest is refused, if it is.
pub open spec fn manifest_failure(manifest: CuratedManifest, style: PathStyle) -> Option<
    Seq<char>,
> {
    if manifest.schema_version != 1 || manifest.profile@ != "impossible-voice-en-cpu-v1"@ {
        Some("curated artifact manifest identity is invalid"@)
    } else {
        entries_failure(manifest.artifacts@, manifest.artifacts@.len() as int, style)
    }
}

/// Whether an artifact is needed on a platform.
pub open spec fn supports(artifact: ArtifactSpec, platform: Seq<char>) -> bool {
    exists|i: int|
        0 <= i < artifact.platforms@.len() && (#[trigger] artifact.platforms@[i])@ == platform
}

/// The artifacts of a platform, in manifest order.
pub open spec fn platform_artifacts(artifacts: Seq<ArtifactSpec>, platform: Seq<char>) -> Seq<
    ArtifactSpec,
> {
    artifacts.filter(|artifact: ArtifactSpec| supports(artifact, platform))
}

/// How many artifacts have a role.
pub open spec fn kind_count(artifacts: Seq<ArtifactSpec>, kind: Seq<char>) -> nat {
    artifacts.filter(|artifact: ArtifactSpec| artifact.kind@ == kind).len()
}

/// Whether a selection is one runtime, one speech-to-text model, and one text-to-speech model.
pub open spec fn complete_selection(selected: Seq<ArtifactSpec>) -> bool {
    &&& selected.len() == 3
    &&& kind_count(selected, "runtime"@) == 1
    &&& kind_count(selected, "stt-model"@) == 1
    &&& kind_count(selected, "tts-model"@) == 1
}

/// The artifacts behind references.
pub open spec fn referenced(selected: Seq<&ArtifactSpec>) -> Seq<ArtifactSpec> {
    selected.map_values(|artifact: &ArtifactSpec| *artifact)
}

/// Whether an identifier is well formed.
fn is_valid_id(id: &str) -> (r: bool)
    ensures
        r == valid_id(id@),
{
    let chars = chars_of(id);
    if chars.len() == 0 {
        return false;
    }
    let mut i: usize = 0;
    while i < chars.len()
        invariant
            chars@ == id@,
            i <= chars@.len(),
            forall|j: int| 0 <= j < i ==> identifier_char(#[trigger] id@[j]),
        decreases chars@.len() - i,
    {
        let c = chars[i];
        let accepted = ('a' <= c && c <= 'z') || ('A' <= c && c <= 'Z') || ('0' <= c && c <= '9')
            || c == '-' || c == '_' || c == '.';
        if !accepted {
            assert(!identifier_char(id@[i as int]));
            return false;
        }
        i += 1;
    }
    true
}

/// Whether a digest is well formed.
fn is_valid_digest(digest: &str) -> (r: bool)
    ensures
        r == valid_digest(digest@),
{
    let chars = chars_of(digest);
    if chars.len() != 64 {
        return false;
    }
    let mut i: usize = 0;
    while i < chars.len()
        invariant
            chars@ == digest@,
            chars@.len() == 64,
            i <= chars@.len(),
            forall|j: int| 0 <= j < i ==> hex_digit_char(#[trigger] digest@[j]),
        decreases chars@.len() - i,
    {
        let c = chars[i];
        let accepted = ('a' <= c && c <= 'f') || ('A' <= c && c <= 'F') || ('0' <= c && c <= '9');
        if !accepted {
            assert(!hex_digit_char(digest@[i as int]));
            return false;
        }
        i += 1;
    }
    true
}

/// Whether a text has no characters.
fn is_empty_text(text: &str) -> (r: bool)
    ensures
        r == (text@.len() == 0),
{
    let r = same_text(text, "");
    proof {
        reveal_strlit("");
        if text@.len() == 0 {
            assert(text@ =~= ""@);
        }
    }
    r
}

/// Refuses an entry that could not be installed, or not be told apart from a broken one.
pub fn validate_artifact(artifact: &ArtifactSpec, style: PathStyle) -> (r: Result<
    (),
    ArtifactError,
>)
    ensures
        match r {
            Ok(()) => artifact_failure(*artifact, style) is None,
            Err(e) => artifact_failure(*artifact, style) == Some(e.message@),
        },
{
    let kind = artifact.kind.as_str();
    let known = same_text(kind, "runtime") || same_text(kind, "stt-model") || same_text(
        kind,
        "tts-model",
    );
    if !is_valid_id(artifact.id.as_str()) || !known || artifact.size == 0
        || artifact.max_unpacked_bytes == 0 || !is_valid_digest(artifact.sha256.as_str())
        || is_empty_text(artifact.archive_root.as_str()) || artifact.required_paths.len() == 0
        || artifact.licenses.len() == 0 {
        return Err(ArtifactError::new("curated artifact manifest contains an invalid entry"));
    }
    let mut i: usize = 0;
    while i < artifact.licenses.len()
        invariant
            valid_fields(*artifact),
            i <= artifact.licenses@.len(),
            forall|j: int| 0 <= j < i ==> complete_license(#[trigger] artifact.licenses@[j]),
        decreases artifact.licenses@.len() - i,
    {
        let license = &artifact.licenses[i];
        if is_empty_text(license.scope.as_str()) || is_empty_text(license.spdx.as_str())
            || is_empty_text(license.source.as_str()) || is_empty_text(license.revision.as_str()) {
            assert(!complete_license(artifact.licenses@[i as int]));
            return Err(ArtifactError::new("curated artifact license metadata is incomplete"));
        }
        i += 1;
    }
    let mut k: usize = 0;
    while k < artifact.required_paths.len()
        invariant
            valid_fields(*artifact),
            forall|j: int|
                0 <= j < artifact.licenses@.len() ==> complete_license(
                    #[trigger] artifact.licenses@[j],
                ),
            k <= artifact.required_paths@.len(),
            forall|j: int|
                0 <= j < k ==> safe_path(
                    encode_utf8((#[trigger] artifact.required_paths@[j])@),
                    style,
                ),
        decreases artifact.required_paths@.len() - k,
    {
        match safe_relative_path(artifact.required_paths[k].as_str(), style) {
            Ok(()) => {},
            Err(e) => {
                assert(!safe_path(encode_utf8(artifact.required_paths@[k as int]@), style));
                return Err(e);
            },
        }
        k += 1;
    }
    Ok(())
}

/// Accepts exactly paths that stay below where they are applied.
pub fn safe_relative_path(path: &str, style: PathStyle) -> (r: Result<(), ArtifactError>)
    ensures
        r is Ok <==> safe_path(encode_utf8(path@), style),
        r matches Err(e) ==> e.message@ == "artifact relative path is invalid"@,
{
    if is_safe_path(path.as_bytes(), style) {
        Ok(())
    } else {
        Err(ArtifactError::new("artifact relative path is invalid"))
    }
}

/// Refuses a manifest of another identity or with an unacceptable or repeated entry.
pub fn validate_manifest(manifest: &CuratedManifest, style: PathStyle) -> (r: Result<
    (),
    ArtifactError,
>)
    ensures
        match r {
            Ok(()) => manifest_failure(*manifest, style) is None,
            Err(e) => manifest_failure(*manifest, style) == Some(e.message@),
        },
{
    if manifest.schema_version != 1 || !same_text(
        manifest.profile.as_str(),
        "impossible-voice-en-cpu-v1",
    ) {
        return Err(ArtifactError::new("curated artifact manifest identity is invalid"));
    }
    let artifacts = &manifest.artifacts;
    let mut i: usize = 0;
    while i < artifacts.len()
        invariant
            artifacts@ == manifest.artifacts@,
            manifest_failure(*manifest, style) == entries_failure(
                artifacts@,
                artifacts@.len() as int,
                style,
            ),
            i <= artifacts@.len(),
            entries_failure(artifacts@, i as int, style) is None,
        decreases artifacts@.len() - i,
    {
        match validate_artifact(&artifacts[i], style) {
            Ok(()) => {},
            Err(e) => {
                proof {
                    first_failure_decides(artifacts@, i + 1, artifacts@.len() as int, style);
                }
                return Err(e);
            },
        }
        let mut j: usize = 0;
        while j < i
            invariant
                j <= i < artifacts@.len(),
                artifacts@ == manifest.artifacts@,
                manifest_failure(*manifest, style) == entries_failure(
                    artifacts@,
                    artifacts@.len() as int,
                    style,
                ),
                entries_failure(artifacts@, i as int, style) is None,
                artifact_failure(artifacts@[i as int], style) is None,
                forall|k: int|
                    0 <= k < j ==> (#[trigger] artifacts@[k]).id@ != artifacts@[i as int].id@,
            decreases i - j,
        {
            if same_text(artifacts[j].id.as_str(), artifacts[i].id.as_str()) {
                proof {
                    assert(artifacts@[j as int].id@ == artifacts@[i as int].id@);
                    first_failure_decides(artifacts@, i + 1, artifacts@.len() as int, style);
                }
                return Err(
                    ArtifactError::new("curated artifact manifest contains duplicate identifiers"),
                );
            }
            j += 1;
        }
        i += 1;
    }
    Ok(())
}

/// A failure among the first entries is the failure of all.
proof fn first_failure_decides(artifacts: Seq<ArtifactSpec>, n: int, m: int, style: PathStyle)
    requires
        0 <= n <= m,
        entries_failure(artifacts, n, style) is Some,
    ensures
        entries_failure(artifacts, m, style) == entries_failure(artifacts, n, style),
    decreases m,
{
    if n < m {
        first_failure_decides(artifacts, n, m - 1, style);
    }
}

/// Whether an artifact is needed on a platform.
fn is_supported(artifact: &ArtifactSpec, platform: &str) -> (r: bool)
    ensures
        r == supports(*artifact, platform@),
{
    let mut i: usize = 0;
    while i < artifact.platforms.len()
        invariant
            i <= artifact.platforms@.len(),
            forall|j: int| 0 <= j < i ==> (#[trigger] artifact.platforms@[j])@ != platform@,
        decreases artifact.platforms@.len() - i,
    {
        if same_text(artifact.platforms[i].as_str(), platform) {
            assert(artifact.platforms@[i as int]@ == platform@);
            return true;
        }
        i += 1;
    }
    false
}

/// Counts the artifacts of a role.
fn count_kind(selected: &[&ArtifactSpec], kind: &str) -> (n: usize)
    ensures
        n == kind_count(referenced(selected@), kind@),
{
    let ghost all = referenced(selected@);
    let ghost has = |artifact: ArtifactSpec| artifact.kind@ == kind@;
    let mut n: usize = 0;
    let mut i: usize = 0;
    proof {
        reveal(Seq::filter);
        assert(all.take(0) =~= Seq::empty());
    }
    while i < selected.len()
        invariant
            i <= selected@.len(),
            n <= i,
            all == referenced(selected@),
            forall|artifact: ArtifactSpec| #[trigger] has(artifact) == (artifact.kind@ == kind@),
            n == all.take(i as int).filter(has).len(),
        decreases selected@.len() - i,
    {
        proof {
            reveal(Seq::filter);
            assert(all.take(i + 1).drop_last() =~= all.take(i as int));
            assert(all.take(i + 1).last() == all[i as int]);
            assert(all[i as int] == *selected@[i as int]);
            assert(has(all[i as int]) == (all[i as int].kind@ == kind@));
        }
        if same_text(selected[i].kind.as_str(), kind) {
            n += 1;
        }
        i += 1;
    }
    assert(all.take(i as int) =~= all);
    n
}

/// Selects the artifacts of a platform: exactly one runtime and one model of each kind.
pub fn select_artifacts<'a>(manifest: &'a CuratedManifest, platform: &str) -> (r: Result<
    Vec<&'a ArtifactSpec>,
    ArtifactError,
>)
    ensures
        r is Ok <==> complete_selection(platform_artifacts(manifest.artifacts@, platform@)),
        match r {
            Ok(selected) => referenced(selected@) == platform_artifacts(
                manifest.artifacts@,
                platform@,
            ),
            Err(e) => e.message@ == "curated artifact profile is incomplete for this platform"@,
        },
{
    let mut selected: Vec<&'a ArtifactSpec> = Vec::new();
    let ghost all = manifest.artifacts@;
    let ghost fits = |artifact: ArtifactSpec| supports(artifact, platform@);
    let mut i: usize = 0;
    proof {
        reveal(Seq::filter);
        assert(all.take(0) =~= Seq::empty());
        assert(referenced(selected@) =~= all.take(0).filter(fits));
    }
    while i < manifest.artifacts.len()
        invariant
            i <= all.len(),
            all == manifest.artifacts@,
            forall|artifact: ArtifactSpec| #[trigger]
                fits(artifact) == supports(artifact, platform@),
            referenced(selected@) == all.take(i as int).filter(fits),
        decreases all.len() - i,
    {
        let artifact = &manifest.artifacts[i];
        let ghost before = referenced(selected@);
        proof {
            reveal(Seq::filter);
            assert(all.take(i + 1).drop_last() =~= all.take(i as int));
            assert(all.take(i + 1).last() == all[i as int]);
            assert(fits(all[i as int]) == supports(all[i as int], platform@));
        }
        if is_supported(artifact, platform) {
            selected.push(artifact);
            assert(referenced(selected@) =~= before.push(all[i as int]));
        }
        i += 1;
    }
    proof {
        assert(all.take(i as int) =~= all);
        assert(referenced(selected@).len() == selected@.len());
    }
    if selected.len() != 3 || count_kind(selected.as_slice(), "runtime") != 1 || count_kind(
        selected.as_slice(),
        "stt-model",
    ) != 1 || count_kind(selected.as_slice(), "tts-model") != 1 {
        return Err(
            ArtifactError::new("curated artifact profile is incomplete for this platform"),
        );
    }
    Ok(selected)
}

/// Finds the first selected artifact of a role.
pub fn find_kind<'a>(selected: &[&'a ArtifactSpec], kind: &str) -> (r: Result<
    &'a ArtifactSpec,
    ArtifactError,
>)
    ensures
        match r {
            Ok(artifact) => exists|i: int|
                {
                    &&& 0 <= i < selected@.len()
                    &&& #[trigger] selected@[i] == artifact
                    &&& artifact.kind@ == kind@
                    &&& forall|j: int| 0 <= j < i ==> (#[trigger] selected@[j]).kind@ != kind@
                },
            Err(e) => {
                &&& forall|j: int|
                    0 <= j < selected@.len() ==> (#[trigger] selected@[j]).kind@ != kind@
                &&& e.message@ == "curated artifact profile is incomplete"@
            },
        },
{
    let mut i: usize = 0;
    while i < selected.len()
        invariant
            i <= selected@.len(),
            forall|j: int| 0 <= j < i ==> (#[trigger] selected@[j]).kind@ != kind@,
        decreases selected@.len() - i,
    {
        if same_text(selected[i].kind.as_str(), kind) {
            assert(selected@[i as int].kind@ == kind@);
            return Ok(selected[i]);
        }
        i += 1;
    }
    Err(ArtifactError::new("curated artifact profile is incomplete"))
}

/// A complete selection has an artifact of each role, so that looking one up never fails.
pub proof fn complete_selection_has_every_kind(selected: Seq<ArtifactSpec>, kind: Seq<char>)
    requires
        complete_selection(selected),
        known_kind(kind),
    ensures
        exists|i: int| 0 <= i < selected.len() && (#[trigger] selected[i]).kind@ == kind,
{
    counted_kind_exists(selected, kind);
}

/// A role that is counted is there.
proof fn counted_kind_exists(artifacts: Seq<ArtifactSpec>, kind: Seq<char>)
    requires
        kind_count(artifacts, kind) > 0,
    ensures
        exists|i: int| 0 <= i < artifacts.len() && (#[trigger] artifacts[i]).kind@ == kind,
    decreases artifacts.len(),
{
    reveal(Seq::filter);
    if artifacts.len() > 0 {
        let last = artifacts.len() - 1;
        if artifacts[last].kind@ != kind {
            let front = artifacts.drop_last();
            counted_kind_exists(front, kind);
            let i = choose|i: int| 0 <= i < front.len() && (#[trigger] front[i]).kind@ == kind;
            assert(artifacts[i].kind@ == kind);
        }
    }
}

/// The platform that an operating system and an architecture make, if the profile supports it.
pub open spec fn platform_of(os: Seq<char>, arch: Seq<char>) -> Option<Seq<char>> {
    if os == "windows"@ && arch == "x86_64"@ {
        Some("windows-x86_64"@)
    } else if os == "linux"@ && arch == "x86_64"@ {
        Some("linux-x86_64"@)
    } else {
        None
    }
}

/// Names the platform of an operating system and an architecture.
pub fn current_platform(os: &str, arch: &str) -> (r: Result<&'static str, ArtifactError>)
    ensures
        match r {
            Ok(platform) => platform_of(os@, arch@) == Some(platform@),
            Err(e) => {
                &&& platform_of(os@, arch@) is None
                &&& e.message@ == "the curated artifact profile does not support this platform"@
            },
        },
{
    if same_text(os, "windows") && same_text(arch, "x86_64") {
        Ok("windows-x86_64")
    } else if same_text(os, "linux") && same_text(arch, "x86_64") {
        Ok("linux-x86_64")
    } else {
        Err(ArtifactError::new("the curated artifact profile does not support this platform"))
    }
}

/// The directory name of an installed artifact: its identifier and the start of its digest.
pub open spec fn object_name_of(artifact: ArtifactSpec) -> Seq<char> {
    artifact.id@ + "-"@ + artifact.sha256@.take(16)
}

/// The file name of a downloaded archive.
pub open spec fn archive_name_of(artifact: ArtifactSpec) -> Seq<char> {
    artifact.id@ + "-"@ + artifact.sha256@ + ".tar.bz2"@
}

/// The directory name of an installed artifact.
pub fn object_name(artifact: &ArtifactSpec) -> (name: String)
    requires
        valid_digest(artifact.sha256@),
    ensures
        name@ == object_name_of(*artifact),
{
    let mut name = concat(artifact.id.as_str(), "-");
    let chars = chars_of(artifact.sha256.as_str());
    let ghost start = name@;
    let mut i: usize = 0;
    while i < 16
        invariant
            i <= 16,
            chars@ == artifact.sha256@,
            chars@.len() == 64,
            name@ =~= start + artifact.sha256@.take(i as int),
        decreases 16 - i,
    {
        name.push(chars[i]);
        i += 1;
    }
    name
}

/// The file name of a downloaded archive.
pub fn archive_name(artifact: &ArtifactSpec) -> (name: String)
    ensures
        name@ == archive_name_of(*artifact),
{
    let mut name = concat(artifact.id.as_str(), "-");
    name.append(artifact.sha256.as_str());
    name.append(".tar.bz2");
    name
}

/// What a validated manifest promises: every entry is acceptable in itself, and no two share an
/// identifier.
pub proof fn validated_entries_are_acceptable(
    manifest: CuratedManifest,
    style: PathStyle,
    i: int,
    j: int,
)
    requires
        manifest_failure(manifest, style) is None,
        0 <= i < j < manifest.artifacts@.len(),
    ensures
        valid_fields(manifest.artifacts@[i]),
        valid_fields(manifest.artifacts@[j]),
        artifact_failure(manifest.artifacts@[i], style) is None,
        artifact_failure(manifest.artifacts@[j], style) is None,
        manifest.artifacts@[i].id@ != manifest.artifacts@[j].id@,
{
    let artifacts = manifest.artifacts@;
    accepted_prefix(artifacts, j + 1, artifacts.len() as int, style);
    accepted_prefix(artifacts, i + 1, artifacts.len() as int, style);
    assert(artifacts[i].id@ != artifacts[j].id@);
}

/// Where all entries are accepted, so are the first ones.
proof fn accepted_prefix(artifacts: Seq<ArtifactSpec>, n: int, m: int, style: PathStyle)
    requires
        0 <= n <= m,
        entries_failure(artifacts, m, style) is None,
    ensures
        entries_failure(artifacts, n, style) is None,
    decreases m,
{
    if n < m {
        accepted_prefix(artifacts, n, m - 1, style);
    }
}

/// Different artifacts never share a place: their identifiers keep their objects and their
/// archives apart.
pub proof fn places_do_not_collide(a: ArtifactSpec, b: ArtifactSpec)
    requires
        valid_digest(a.sha256@),
        valid_digest(b.sha256@),
        a.id@ != b.id@,
    ensures
        object_name_of(a) != object_name_of(b),
        archive_name_of(a) != archive_name_of(b),
{
    reveal_strlit("-");
    reveal_strlit(".tar.bz2");
    if object_name_of(a) == object_name_of(b) {
        let n = a.id@.len() as int;
        assert(object_name_of(a).len() == a.id@.len() + 17);
        assert(object_name_of(b).len() == b.id@.len() + 17);
        assert(object_name_of(a).take(n) =~= a.id@);
        assert(object_name_of(b).take(n) =~= b.id@);
    }
    if archive_name_of(a) == archive_name_of(b) {
        let n = a.id@.len() as int;
        assert(archive_name_of(a).len() == a.id@.len() + 73);
        assert(archive_name_of(b).len() == b.id@.len() + 73);
        assert(archive_name_of(a).take(n) =~= a.id@);
        assert(archive_name_of(b).take(n) =~= b.id@);
    }
}

/// An identifier is made of ASCII letters and digits, `-`, `_`, and `.`, and is not empty; anything
/// else at any place, a separator or a blank among them, makes it none.
pub proof fn identifiers_are_plain(before: Seq<char>, c: char, after: Seq<char>)
    ensures
        !valid_id(Seq::empty()),
        valid_id(before.push(c) + after) <==> {
            let n = c as u32;
            &&& 48 <= n <= 57 || 65 <= n <= 90 || 97 <= n <= 122 || n == 45 || n == 46 || n == 95
            &&& before.len() == 0 || valid_id(before)
            &&& after.len() == 0 || valid_id(after)
        },
{
    let id = before.push(c) + after;
    assert(id[before.len() as int] == c);
    if valid_id(id) {
        assert forall|i: int| 0 <= i < before.len() implies identifier_char(#[trigger] before[i]) by {
            assert(id[i] == before[i]);
        }
        assert forall|i: int| 0 <= i < after.len() implies identifier_char(#[trigger] after[i]) by {
            assert(id[before.len() + 1 + i] == after[i]);
        }
    }
    if identifier_char(c) && (before.len() == 0 || valid_id(before)) && (after.len() == 0 || valid_id(
        after,
    )) {
        assert forall|i: int| 0 <= i < id.len() implies identifier_char(#[trigger] id[i]) by {
            if i < before.len() {
                assert(id[i] == before[i]);
            } else if i > before.len() {
                assert(id[i] == after[i - before.len() - 1]);
            }
        }
    }
}

/// A digest is written as 64 hexadecimal digits: every SHA-256 digest is one as it is rendered, in
/// capitals too, and nothing shorter, longer, or with another character is.
pub proof fn digests_are_64_digits(bytes: Seq<u8>, digest: Seq<char>, i: int)
    ensures
        bytes.len() == 32 ==> valid_digest(hex(bytes)),
        bytes.len() != 32 ==> !valid_digest(hex(bytes)),
        valid_digest(digest) ==> digest.len() == 64,
        valid_digest(digest) && 0 <= i < 64 ==> '0' <= digest[i] <= '9' || 'a' <= digest[i] <= 'f'
            || 'A' <= digest[i] <= 'F',
        digest.len() == 64 && (forall|j: int|
            0 <= j < 64 ==> '0' <= #[trigger] digest[j] <= '9' || 'a' <= digest[j] <= 'f' || 'A'
                <= digest[j] <= 'F') ==> valid_digest(digest),
{
    if bytes.len() == 32 {
        let text = hex(bytes);
        assert forall|j: int| 0 <= j < text.len() implies hex_digit_char(#[trigger] text[j]) by {
            digests_are_their_digits(bytes, j / 2);
            if j % 2 == 0 {
                assert(j == 2 * (j / 2));
            } else {
                assert(j == 2 * (j / 2) + 1);
            }
        }
    }
}

/// An entry is acceptable exactly when all of it is: an identifier, one of three roles, sizes and
/// lists that are not empty, a digest, complete licenses, and paths that stay inside. Its fields are
/// looked at before its licenses, and these before its paths.
pub proof fn acceptable_entries_are_complete(artifact: ArtifactSpec, style: PathStyle)
    ensures
        artifact_failure(artifact, style) is None <==> {
            &&& valid_id(artifact.id@)
            &&& artifact.kind@ == "runtime"@ || artifact.kind@ == "stt-model"@ || artifact.kind@
                == "tts-model"@
            &&& artifact.size > 0
            &&& artifact.max_unpacked_bytes > 0
            &&& valid_digest(artifact.sha256@)
            &&& artifact.archive_root@.len() > 0
            &&& artifact.required_paths@.len() > 0
            &&& artifact.licenses@.len() > 0
            &&& forall|i: int|
                0 <= i < artifact.licenses@.len() ==> {
                    let license = #[trigger] artifact.licenses@[i];
                    &&& license.scope@.len() > 0
                    &&& license.spdx@.len() > 0
                    &&& license.source@.len() > 0
                    &&& license.revision@.len() > 0
                }
            &&& forall|i: int|
                0 <= i < artifact.required_paths@.len() ==> safe_path(
                    encode_utf8((#[trigger] artifact.required_paths@[i])@),
                    style,
                )
        },
        !valid_fields(artifact) ==> artifact_failure(artifact, style) == Some(
            "curated artifact manifest contains an invalid entry"@,
        ),
        valid_fields(artifact) && (exists|i: int|
            0 <= i < artifact.licenses@.len() && !complete_license(#[trigger] artifact.licenses@[i]))
            ==> artifact_failure(artifact, style) == Some(
            "curated artifact license metadata is incomplete"@,
        ),
{
    if artifact_failure(artifact, style) is None {
        assert forall|i: int| 0 <= i < artifact.licenses@.len() implies complete_license(
            #[trigger] artifact.licenses@[i],
        ) by {}
    }
}

/// A manifest is accepted exactly when it is of the one known form and profile, every entry is
/// acceptable, and no two entries share an identifier.
pub proof fn accepted_manifests_are_sound(manifest: CuratedManifest, style: PathStyle)
    ensures
        manifest_failure(manifest, style) is None <==> {
            let artifacts = manifest.artifacts@;
            &&& manifest.schema_version == 1
            &&& manifest.profile@ == "impossible-voice-en-cpu-v1"@
            &&& forall|i: int|
                0 <= i < artifacts.len() ==> artifact_failure(#[trigger] artifacts[i], style) is None
            &&& forall|i: int, j: int|
                0 <= i < j < artifacts.len() ==> (#[trigger] artifacts[i]).id@ != (
                #[trigger] artifacts[j]).id@
        },
{
    entries_are_sound(manifest.artifacts@, manifest.artifacts@.len() as int, style);
}

proof fn entries_are_sound(artifacts: Seq<ArtifactSpec>, n: int, style: PathStyle)
    requires
        0 <= n <= artifacts.len(),
    ensures
        entries_failure(artifacts, n, style) is None <==> {
            &&& forall|i: int|
                0 <= i < n ==> artifact_failure(#[trigger] artifacts[i], style) is None
            &&& forall|i: int, j: int|
                0 <= i < j < n ==> (#[trigger] artifacts[i]).id@ != (#[trigger] artifacts[j]).id@
        },
    decreases n,
{
    if n > 0 {
        entries_are_sound(artifacts, n - 1, style);
        if entries_failure(artifacts, n, style) is None {
            assert forall|i: int, j: int| 0 <= i < j < n implies (#[trigger] artifacts[i]).id@ != (
            #[trigger] artifacts[j]).id@ by {}
        } else if entries_failure(artifacts, n - 1, style) is None {
            assert(artifact_failure(artifacts[n - 1], style) is Some || exists|j: int|
                0 <= j < n - 1 && (#[trigger] artifacts[j]).id@ == artifacts[n - 1].id@);
        }
    }
}

/// The first bad entry decides: whatever stands behind it does not matter.
pub proof fn the_first_bad_entry_decides(
    artifacts: Seq<ArtifactSpec>,
    n: int,
    m: int,
    style: PathStyle,
)
    requires
        0 <= n <= m <= artifacts.len(),
        entries_failure(artifacts, n, style) is Some,
    ensures
        entries_failure(artifacts, m, style) == entries_failure(artifacts, n, style),
    decreases m,
{
    if n < m {
        the_first_bad_entry_decides(artifacts, n, m - 1, style);
    }
}

/// A platform's artifacts are those that name it, all of them and no other, in the order of the
/// manifest.
pub proof fn platforms_get_what_names_them(
    artifacts: Seq<ArtifactSpec>,
    next: ArtifactSpec,
    platform: Seq<char>,
)
    ensures
        platform_artifacts(Seq::empty(), platform).len() == 0,
        platform_artifacts(artifacts.push(next), platform) == if exists|i: int|
            0 <= i < next.platforms@.len() && (#[trigger] next.platforms@[i])@ == platform {
            platform_artifacts(artifacts, platform).push(next)
        } else {
            platform_artifacts(artifacts, platform)
        },
{
    reveal(Seq::filter);
    assert(artifacts.push(next).drop_last() =~= artifacts);
    Seq::<ArtifactSpec>::empty().lemma_filter_len(
        |artifact: ArtifactSpec| supports(artifact, platform),
    );
}

/// A selection of three artifacts is complete exactly when it has one of each role, in any order.
pub proof fn complete_selections_have_one_of_each(
    a: ArtifactSpec,
    b: ArtifactSpec,
    c: ArtifactSpec,
)
    ensures
        ({
            let runtime = "runtime"@;
            let stt = "stt-model"@;
            let tts = "tts-model"@;
            complete_selection(seq![a, b, c]) <==> {
                ||| a.kind@ == runtime && b.kind@ == stt && c.kind@ == tts
                ||| a.kind@ == runtime && b.kind@ == tts && c.kind@ == stt
                ||| a.kind@ == stt && b.kind@ == runtime && c.kind@ == tts
                ||| a.kind@ == stt && b.kind@ == tts && c.kind@ == runtime
                ||| a.kind@ == tts && b.kind@ == runtime && c.kind@ == stt
                ||| a.kind@ == tts && b.kind@ == stt && c.kind@ == runtime
            }
        }),
{
    reveal_strlit("runtime");
    reveal_strlit("stt-model");
    reveal_strlit("tts-model");
    assert("runtime"@.len() == 7 && "stt-model"@.len() == 9 && "tts-model"@.len() == 9);
    assert("stt-model"@[0] == 's' && "tts-model"@[0] == 't');
    kinds_of_three(a, b, c, "runtime"@);
    kinds_of_three(a, b, c, "stt-model"@);
    kinds_of_three(a, b, c, "tts-model"@);
}

proof fn kinds_of_three(a: ArtifactSpec, b: ArtifactSpec, c: ArtifactSpec, kind: Seq<char>)
    ensures
        kind_count(seq![a, b, c], kind) == (if a.kind@ == kind {
            1int
        } else {
            0
        }) + (if b.kind@ == kind {
            1int
        } else {
            0
        }) + (if c.kind@ == kind {
            1int
        } else {
            0
        }),
{
    let none = Seq::<ArtifactSpec>::empty();
    let one = none.push(a);
    let two = one.push(b);
    assert(two.push(c) =~= seq![a, b, c]);
    kinds_add_up(none, a, kind);
    kinds_add_up(one, b, kind);
    kinds_add_up(two, c, kind);
}

/// One more artifact counts for its role.
proof fn kinds_add_up(artifacts: Seq<ArtifactSpec>, next: ArtifactSpec, kind: Seq<char>)
    ensures
        kind_count(Seq::empty(), kind) == 0,
        kind_count(artifacts.push(next), kind) == kind_count(artifacts, kind) + if next.kind@
            == kind {
            1int
        } else {
            0
        },
{
    reveal(Seq::filter);
    assert(artifacts.push(next).drop_last() =~= artifacts);
}

/// Two platforms are supported, each named by its system and its processor.
pub proof fn two_platforms_are_supported(os: Seq<char>, arch: Seq<char>)
    ensures
        platform_of(os, arch) is Some <==> (os == "windows"@ || os == "linux"@) && arch
            == "x86_64"@,
        platform_of("windows"@, "x86_64"@) == Some("windows-x86_64"@),
        platform_of("linux"@, "x86_64"@) == Some("linux-x86_64"@),
{
    reveal_strlit("windows");
    reveal_strlit("linux");
    assert("windows"@.len() == 7 && "linux"@.len() == 5);
}

/// Names of installed objects begin with the identifier and end with the first 16 digits of the
/// digest; names of archives hold all of it.
pub proof fn names_carry_the_digest(artifact: ArtifactSpec)
    requires
        valid_digest(artifact.sha256@),
    ensures
        ({
            let n = artifact.id@.len() as int;
            let object = object_name_of(artifact);
            let archive = archive_name_of(artifact);
            &&& object.len() == n + 17
            &&& object.take(n) == artifact.id@
            &&& object[n] == '-'
            &&& object.skip(n + 1) == artifact.sha256@.take(16)
            &&& archive.len() == n + 73
            &&& archive.take(n) == artifact.id@
            &&& archive[n] == '-'
            &&& archive.subrange(n + 1, n + 65) == artifact.sha256@
            &&& archive.skip(n + 65) == ".tar.bz2"@
        }),
{
    reveal_strlit("-");
    reveal_strlit(".tar.bz2");
    let n = artifact.id@.len() as int;
    assert(object_name_of(artifact).take(n) =~= artifact.id@);
    assert(object_name_of(artifact).skip(n + 1) =~= artifact.sha256@.take(16));
    assert(archive_name_of(artifact).take(n) =~= artifact.id@);
    assert(archive_name_of(artifact).subrange(n + 1, n + 65) =~= artifact.sha256@);
    assert(archive_name_of(artifact).skip(n + 65) =~= ".tar.bz2"@);
}

/// What is selected for a platform is what names it, in order, and only where that is one of each
/// role.
pub proof fn selections_are_complete(
    manifest: &CuratedManifest,
    platform: &str,
    selected: Result<Vec<&ArtifactSpec>, ArtifactError>,
    i: int,
)
    requires
        call_ensures(select_artifacts, (manifest, platform), selected),
    ensures
        selected is Ok <==> complete_selection(
            platform_artifacts(manifest.artifacts@, platform@),
        ),
        selected matches Ok(found) ==> found@.len() == 3,
        (selected matches Ok(found) && 0 <= i < found@.len()) ==> supports(
            *selected->Ok_0@[i],
            platform@,
        ) && manifest.artifacts@.contains(*selected->Ok_0@[i]),
{
    if selected is Ok {
        let found = selected->Ok_0@;
        let fits = |artifact: ArtifactSpec| supports(artifact, platform@);
        let chosen = manifest.artifacts@.filter(fits);
        assert(referenced(found) == chosen);
        assert(found.len() == referenced(found).len());
        if 0 <= i < found.len() {
            assert(referenced(found)[i] == *found[i]);
            manifest.artifacts@.lemma_filter_pred(fits, i);
            assert(chosen.contains(chosen[i]));
            manifest.artifacts@.lemma_filter_contains_rev(fits, chosen[i]);
        }
    }
}

}
