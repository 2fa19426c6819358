//! Verification of installed objects against their inventories.

use vstd::prelude::*;
use vstd::string::*;
use vstd::utf8::{decode_utf8_encode_utf8, encode_utf8, valid_utf8};
use crate::digest::{content_matches, sha256, ContentDigest};
use crate::install::{installation_file, inventoried, inventory_path, inventory_paths};
use crate::install::{Extraction, InstallationManifest, InstalledFile};
use crate::manifest::{safe_relative_path, ArtifactError, ArtifactSpec};
use crate::names::{before_is_asymmetric, name_before, NameSet};
use crate::number::hex;
use crate::paths::{installable_name, installable_paths_are_safe, joined, safe_path, unseparated};
use crate::paths::PathStyle;
use crate::text::same_text;

verus! {

/// What a file system says of a path.
#[derive(Debug, Clone, Copy, PartialEq, Eq)]
pub struct FileMetadata {
    /// Whether it is a regular file.
    pub is_file: bool,
    /// Its length in bytes.
    pub length: u64,
}

/// Why a file is refused before it is read, if it is.
pub open spec fn metadata_failure(metadata: Option<FileMetadata>, size: u64) -> Option<Seq<char>> {
    match metadata {
        None => Some("artifact archive could not be inspected"@),
        Some(found) => if found.is_file && found.length == size {
            None
        } else {
            Some("artifact archive size mismatch"@)
        },
    }
}

/// Checks a file before it is read; `None` stands for one that cannot be inspected.
pub fn check_metadata(metadata: Option<FileMetadata>, size: u64) -> (r: Result<(), ArtifactError>)
    ensures
        match r {
            Ok(()) => metadata_failure(metadata, size) is None,
            Err(e) => metadata_failure(metadata, size) == Some(e.message@),
        },
{
    match metadata {
        None => Err(ArtifactError::new("artifact archive could not be inspected")),
        Some(found) => if found.is_file && found.length == size {
            Ok(())
        } else {
            Err(ArtifactError::new("artifact archive size mismatch"))
        },
    }
}

/// Checks a file's content; `None` stands for one that could not be read.
pub fn check_digest(content: Option<ContentDigest>, digest: &str) -> (r: Result<(), ArtifactError>)
    ensures
        match content {
            None => r matches Err(e) && e.message@ == "artifact archive could not be inspected"@,
            Some(content) => {
                &&& r is Ok <==> hex(sha256(content.content())) == digest@
                &&& r matches Err(e) ==> e.message@ == "artifact archive digest mismatch"@
            },
        },
{
    match content {
        None => Err(ArtifactError::new("artifact archive could not be inspected")),
        Some(content) => {
            let text = content.digest_text();
            if same_text(text.as_str(), digest) {
                Ok(())
            } else {
                Err(ArtifactError::new("artifact archive digest mismatch"))
            }
        },
    }
}

/// The content of a file, where it could be read.
pub open spec fn content_view(content: Option<ContentDigest>) -> Option<Seq<u8>> {
    match content {
        Some(content) => Some(content.content()),
        None => None,
    }
}

/// Why a file is not the one promised, if it is not.
pub open spec fn file_failure(
    metadata: Option<FileMetadata>,
    content: Option<Seq<u8>>,
    size: u64,
    digest: Seq<char>,
) -> Option<Seq<char>> {
    match metadata_failure(metadata, size) {
        Some(message) => Some(message),
        None => match content {
            None => Some("artifact archive could not be inspected"@),
            Some(bytes) => if hex(sha256(bytes)) == digest {
                None
            } else {
                Some("artifact archive digest mismatch"@)
            },
        },
    }
}

/// Checks that a file is the one promised. Its content decides only where its metadata agrees.
pub fn verify_archive_file(
    metadata: Option<FileMetadata>,
    content: Option<ContentDigest>,
    size: u64,
    sha256: &str,
) -> (r: Result<(), ArtifactError>)
    ensures
        match r {
            Ok(()) => file_failure(metadata, content_view(content), size, sha256@) is None,
            Err(e) => file_failure(metadata, content_view(content), size, sha256@) == Some(
                e.message@,
            ),
        },
{
    match check_metadata(metadata, size) {
        Ok(()) => check_digest(content, sha256),
        Err(e) => Err(e),
    }
}

/// Whether an inventory belongs to an artifact.
pub open spec fn identifies(installation: InstallationManifest, artifact: ArtifactSpec) -> bool {
    &&& installation.schema_version == 1
    &&& installation.artifact_id@ == artifact.id@
    &&& installation.archive_sha256@ == artifact.sha256@
    &&& installation.files@.len() > 0
}

/// Why an inventory entry is refused, if it is: its path must stay inside the object and be new.
pub open spec fn entry_failure(
    files: Seq<InstalledFile>,
    index: int,
    style: PathStyle,
) -> Option<Seq<char>> {
    if !safe_path(encode_utf8(files[index].path@), style) {
        Some("artifact relative path is invalid"@)
    } else if inventory_paths(files).take(index).contains(files[index].path@) {
        Some("installation inventory contains duplicate files"@)
    } else {
        None
    }
}

/// Whether the first entries of an inventory are acceptable and these are their contents.
pub open spec fn verified_prefix(
    files: Seq<InstalledFile>,
    style: PathStyle,
    contents: Seq<Seq<u8>>,
) -> bool {
    &&& contents.len() <= files.len()
    &&& forall|i: int|
        0 <= i < contents.len() ==> hex(sha256(#[trigger] contents[i])) == files[i].sha256@
            && entry_failure(files, i, style) is None
}

/// A verification in progress: every file handed out so far was the one listed.
pub struct Verification<'a> {
    installation: &'a InstallationManifest,
    style: PathStyle,
    index: usize,
    expected: NameSet,
    contents: Ghost<Seq<Seq<u8>>>,
}

/// What a verification needs next.
pub enum VerificationStep<'a> {
    /// A file is to be inspected.
    Inspect(PendingFile<'a>),
    /// Every file was the one listed.
    Listed(ListedFiles<'a>),
}

/// A verification that waits for the inspection of one file.
pub struct PendingFile<'a> {
    installation: &'a InstallationManifest,
    style: PathStyle,
    index: usize,
    expected: NameSet,
    contents: Ghost<Seq<Seq<u8>>>,
}

/// A verification in which every listed file was the one listed.
pub struct ListedFiles<'a> {
    installation: &'a InstallationManifest,
    style: PathStyle,
    expected: NameSet,
    contents: Ghost<Seq<Seq<u8>>>,
}

/// Whether a set of names holds the paths of the first entries.
spec fn lists(expected: NameSet, files: Seq<InstalledFile>, count: int) -> bool {
    expected.listed().to_set() == inventory_paths(files).take(count).to_set()
}

impl<'a> Verification<'a> {
    #[verifier::type_invariant]
    spec fn well_formed(self) -> bool {
        &&& self.index == self.contents@.len()
        &&& verified_prefix(self.installation.files@, self.style, self.contents@)
        &&& lists(self.expected, self.installation.files@, self.index as int)
    }

    /// The inventory's files.
    pub closed spec fn files(self) -> Seq<InstalledFile> {
        self.installation.files@
    }

    /// Whose path rules apply.
    pub closed spec fn path_style(self) -> PathStyle {
        self.style
    }

    /// The contents of the files verified so far.
    pub closed spec fn verified(self) -> Seq<Seq<u8>> {
        self.contents@
    }

    /// Starts the verification of an object that claims to be an artifact.
    pub fn begin(
        installation: &'a InstallationManifest,
        artifact: &ArtifactSpec,
        style: PathStyle,
    ) -> (r: Result<Self, ArtifactError>)
        ensures
            r is Ok <==> identifies(*installation, *artifact),
            match r {
                Ok(verification) => {
                    &&& verification.files() == installation.files@
                    &&& verification.path_style() == style
                    &&& verification.verified() == Seq::<Seq<u8>>::empty()
                },
                Err(e) => e.message@ == "installation identity is invalid"@,
            },
    {
        if installation.schema_version != 1 || !same_text(
            installation.artifact_id.as_str(),
            artifact.id.as_str(),
        ) || !same_text(installation.archive_sha256.as_str(), artifact.sha256.as_str())
            || installation.files.len() == 0 {
            return Err(ArtifactError::new("installation identity is invalid"));
        }
        let expected = NameSet::new();
        assert(lists(expected, installation.files@, 0)) by {
            assert(expected.listed().to_set() =~= inventory_paths(installation.files@).take(
                0,
            ).to_set());
        }
        Ok(Verification { installation, style, index: 0, expected, contents: Ghost(Seq::empty()) })
    }

    /// Admits the next inventory entry for inspection, or finds that there is none left.
    pub fn next_file(self) -> (r: Result<VerificationStep<'a>, ArtifactError>)
        ensures
            ({
                let index = self.verified().len() as int;
                match r {
                    Ok(VerificationStep::Inspect(pending)) => {
                        &&& index < self.files().len()
                        &&& entry_failure(self.files(), index, self.path_style()) is None
                        &&& pending.files() == self.files()
                        &&& pending.path_style() == self.path_style()
                        &&& pending.verified() == self.verified()
                    },
                    Ok(VerificationStep::Listed(listed)) => {
                        &&& index == self.files().len()
                        &&& listed.files() == self.files()
                        &&& listed.path_style() == self.path_style()
                        &&& listed.verified() == self.verified()
                    },
                    Err(e) => {
                        &&& index < self.files().len()
                        &&& entry_failure(self.files(), index, self.path_style()) == Some(e.message@)
                    },
                }
            }),
    {
        proof {
            use_type_invariant(&self);
        }
        let Verification { installation, style, index, mut expected, contents } = self;
        let ghost paths = inventory_paths(installation.files@);
        if index == installation.files.len() {
            assert(paths.take(index as int) =~= paths);
            return Ok(
                VerificationStep::Listed(ListedFiles { installation, style, expected, contents }),
            );
        }
        let file = &installation.files[index];
        match safe_relative_path(file.path.as_str(), style) {
            Ok(()) => {},
            Err(e) => {
                return Err(e);
            },
        }
        let ghost seen = paths.take(index as int);
        let ghost listed = expected.listed();
        assert(listed.to_set().contains(file.path@) == seen.to_set().contains(file.path@));
        if expected.contains(file.path.as_str()) {
            return Err(ArtifactError::new("installation inventory contains duplicate files"));
        }
        let placed: Option<usize> = expected.insert(file.path.as_str());
        proof {
            inserted_set(listed, expected.listed(), file.path@, placed);
            assert(paths.take(index + 1) =~= seen.insert(index as int, file.path@));
            inserted_set(seen, paths.take(index + 1), file.path@, Some(index));
        }
        Ok(
            VerificationStep::Inspect(
                PendingFile { installation, style, index, expected, contents },
            ),
        )
    }
}

impl<'a> PendingFile<'a> {
    #[verifier::type_invariant]
    spec fn well_formed(self) -> bool {
        &&& self.index == self.contents@.len()
        &&& self.index < self.installation.files@.len()
        &&& verified_prefix(self.installation.files@, self.style, self.contents@)
        &&& entry_failure(self.installation.files@, self.index as int, self.style) is None
        &&& lists(self.expected, self.installation.files@, self.index + 1)
    }

    /// The inventory's files.
    pub closed spec fn files(self) -> Seq<InstalledFile> {
        self.installation.files@
    }

    /// Whose path rules apply.
    pub closed spec fn path_style(self) -> PathStyle {
        self.style
    }

    /// The contents of the files verified so far.
    pub closed spec fn verified(self) -> Seq<Seq<u8>> {
        self.contents@
    }

    /// The file to inspect: the one listed next.
    pub fn file(&self) -> (file: &InstalledFile)
        ensures
            self.verified().len() < self.files().len(),
            *file == self.files()[self.verified().len() as int],
            entry_failure(self.files(), self.verified().len() as int, self.path_style()) is None,
    {
        proof {
            use_type_invariant(self);
        }
        &self.installation.files[self.index]
    }

    /// Goes on where the file is the one listed; `None` stands for what could not be read.
    pub fn inspected(self, metadata: Option<FileMetadata>, content: Option<ContentDigest>) -> (r:
        Result<Verification<'a>, ArtifactError>)
        ensures
            ({
                let listed = self.files()[self.verified().len() as int];
                let failure = file_failure(
                    metadata,
                    content_view(content),
                    listed.size,
                    listed.sha256@,
                );
                match r {
                    Ok(verification) => {
                        &&& failure is None
                        &&& verification.files() == self.files()
                        &&& verification.path_style() == self.path_style()
                        &&& verification.verified() == self.verified().push(
                            content_view(content)->0,
                        )
                    },
                    Err(e) => failure == Some(e.message@),
                }
            }),
    {
        proof {
            use_type_invariant(&self);
        }
        let PendingFile { installation, style, index, expected, contents } = self;
        assert(index < installation.files.len());
        let file = &installation.files[index];
        let ghost bytes = content_view(content);
        match verify_archive_file(metadata, content, file.size, file.sha256.as_str()) {
            Ok(()) => Ok(
                Verification {
                    installation,
                    style,
                    index: index + 1,
                    expected,
                    contents: Ghost(contents@.push(bytes->0)),
                },
            ),
            Err(e) => Err(e),
        }
    }
}

impl<'a> ListedFiles<'a> {
    #[verifier::type_invariant]
    spec fn well_formed(self) -> bool {
        &&& self.contents@.len() == self.installation.files@.len()
        &&& verified_prefix(self.installation.files@, self.style, self.contents@)
        &&& self.expected.listed().to_set() == inventory_paths(self.installation.files@).to_set()
    }

    /// The inventory's files.
    pub closed spec fn files(self) -> Seq<InstalledFile> {
        self.installation.files@
    }

    /// Whose path rules apply.
    pub closed spec fn path_style(self) -> PathStyle {
        self.style
    }

    /// The contents of the files.
    pub closed spec fn verified(self) -> Seq<Seq<u8>> {
        self.contents@
    }

    /// Ends the verification: the files that are there must be those listed, and every required
    /// path must be there. What passes has, under every listed path and nowhere else, a file with
    /// the listed digest.
    pub fn finish(self, actual: &NameSet, required: &[bool]) -> (r: Result<(), ArtifactError>)
        ensures
            self.verified().len() == self.files().len(),
            verified_prefix(self.files(), self.path_style(), self.verified()),
            match r {
                Ok(()) => object_failure(self.files(), actual.listed(), required@) is None,
                Err(e) => object_failure(self.files(), actual.listed(), required@) == Some(
                    e.message@,
                ),
            },
    {
        proof {
            use_type_invariant(&self);
        }
        if !actual.same(&self.expected) {
            return Err(ArtifactError::new("installed artifact inventory does not match"));
        }
        let mut i: usize = 0;
        while i < required.len()
            invariant
                i <= required@.len(),
                forall|k: int| 0 <= k < i ==> required@[k],
                self.verified().len() == self.files().len(),
                verified_prefix(self.files(), self.path_style(), self.verified()),
                actual.listed().to_set() == inventory_paths(self.files()).to_set(),
            decreases required@.len() - i,
        {
            if !required[i] {
                return Err(ArtifactError::new("installed artifact is missing a required path"));
            }
            i += 1;
        }
        Ok(())
    }
}

/// Why an object whose listed files are all intact is refused, if it is: `actual` are the paths of
/// the files that are there, `required` tells of each required path whether it is there.
pub open spec fn object_failure(
    files: Seq<InstalledFile>,
    actual: Seq<Seq<char>>,
    required: Seq<bool>,
) -> Option<Seq<char>> {
    if actual.to_set() != inventory_paths(files).to_set() {
        Some("installed artifact inventory does not match"@)
    } else if exists|i: int| 0 <= i < required.len() && !#[trigger] required[i] {
        Some("installed artifact is missing a required path"@)
    } else {
        None
    }
}

/// What a directory entry of an installed object is.
#[derive(Debug, Clone, Copy, PartialEq, Eq, Structural)]
pub enum DiskEntry {
    /// A symbolic link.
    Symlink,
    /// A directory.
    Directory,
    /// A regular file.
    File,
    /// Anything else.
    Other,
}

/// A text in which `\` is written as `/`.
pub open spec fn slashed(text: Seq<char>) -> Seq<char> {
    text.map_values(
        |c: char|
            if c == '\\' {
                '/'
            } else {
                c
            },
    )
}

/// A text in which `\` is written as `/`.
fn with_forward_slashes(text: &str) -> (s: String)
    ensures
        s@ == slashed(text@),
{
    let chars = crate::text::chars_of(text);
    let mut s = String::new();
    let mut i: usize = 0;
    while i < chars.len()
        invariant
            chars@ == text@,
            i <= chars@.len(),
            s@ =~= slashed(text@).take(i as int),
        decreases chars@.len() - i,
    {
        s.push(
            if chars[i] == '\\' {
                '/'
            } else {
                chars[i]
            },
        );
        i += 1;
    }
    assert(slashed(text@).take(i as int) =~= slashed(text@));
    s
}

/// Why a directory entry stops an inventory, if it does; `None` stands for a path that is no text.
pub open spec fn disk_failure(kind: DiskEntry, relative: Option<Seq<char>>) -> Option<Seq<char>> {
    match kind {
        DiskEntry::Symlink => Some("installed artifact contains a redirected path"@),
        DiskEntry::Other => Some("installed artifact contains an unsupported entry"@),
        DiskEntry::Directory => None,
        DiskEntry::File => if relative is None {
            Some("installed artifact path is invalid"@)
        } else {
            None
        },
    }
}

/// The view of an optional text.
pub open spec fn text_view(text: Option<&str>) -> Option<Seq<char>> {
    match text {
        Some(text) => Some(text@),
        None => None,
    }
}

/// The names of an object's files once one more entry was found.
pub open spec fn recorded(
    names: Set<Seq<char>>,
    kind: DiskEntry,
    relative: Option<Seq<char>>,
) -> Set<Seq<char>> {
    match relative {
        Some(path) if kind == DiskEntry::File && slashed(path) != installation_file() => names.insert(
            slashed(path),
        ),
        _ => names,
    }
}

/// Records one directory entry of an installed object: files are listed, but for the inventory
/// itself.
pub fn record_entry(files: &mut NameSet, kind: DiskEntry, relative: Option<&str>) -> (r: Result<
    (),
    ArtifactError,
>)
    ensures
        match r {
            Ok(()) => {
                &&& disk_failure(kind, text_view(relative)) is None
                &&& final(files).listed().to_set() == if kind == DiskEntry::File && slashed(
                    relative->0@,
                ) != installation_file() {
                    old(files).listed().to_set().insert(slashed(relative->0@))
                } else {
                    old(files).listed().to_set()
                }
                &&& final(files).listed().to_set() == recorded(
                    old(files).listed().to_set(),
                    kind,
                    text_view(relative),
                )
            },
            Err(e) => {
                &&& disk_failure(kind, text_view(relative)) == Some(e.message@)
                &&& final(files).listed() == old(files).listed()
            },
        },
{
    match kind {
        DiskEntry::Symlink => Err(
            ArtifactError::new("installed artifact contains a redirected path"),
        ),
        DiskEntry::Other => Err(
            ArtifactError::new("installed artifact contains an unsupported entry"),
        ),
        DiskEntry::Directory => Ok(()),
        DiskEntry::File => match relative {
            None => Err(ArtifactError::new("installed artifact path is invalid")),
            Some(relative) => {
                let name = with_forward_slashes(relative);
                if !same_text(name.as_str(), ".impossible-voice-installation.json") {
                    let ghost listed = files.listed();
                    let placed: Option<usize> = files.insert(name.as_str());
                    proof {
                        inserted_set(listed, files.listed(), name@, placed);
                    }
                }
                Ok(())
            },
        },
    }
}

/// Inserting a name inserts it into the set of names.
proof fn inserted_set(
    before: Seq<Seq<char>>,
    after: Seq<Seq<char>>,
    name: Seq<char>,
    placed: Option<usize>,
)
    requires
        match placed {
            Some(i) => i <= before.len() && after == before.insert(i as int, name),
            None => before.contains(name) && after == before,
        },
    ensures
        after.to_set() == before.to_set().insert(name),
{
    assert forall|other: Seq<char>| after.to_set().contains(other) == before.to_set().insert(
        name,
    ).contains(other) by {
        if let Some(i) = placed {
            if after.contains(other) {
                let k = choose|k: int| 0 <= k < after.len() && after[k] == other;
                if k < i {
                    assert(before[k] == other);
                } else if k > i {
                    assert(before[k - 1] == other);
                }
            }
            if before.contains(other) {
                let k = choose|k: int| 0 <= k < before.len() && before[k] == other;
                if k < i {
                    assert(after[k] == other);
                } else {
                    assert(after[k + 1] == other);
                }
            }
            if other == name {
                assert(after[i as int] == other);
            }
        }
    }
    assert(after.to_set() =~= before.to_set().insert(name));
}

/// What was extracted verifies: an object whose files are those that an extraction wrote under paths
/// native to the platform, beside the inventory that the extraction finished with and with every
/// required path there, passes every step of its verification.
pub proof fn extraction_verifies(
    extraction: Extraction,
    artifact: ArtifactSpec,
    installation: InstallationManifest,
    actual: Seq<Seq<char>>,
    required: Seq<bool>,
)
    requires
        inventoried(extraction, artifact, installation),
        extraction.all_native(),
        actual.to_set() == extraction.contents().dom(),
        forall|i: int| 0 <= i < required.len() ==> #[trigger] required[i],
    ensures
        identifies(installation, artifact),
        forall|i: int|
            0 <= i < installation.files@.len() ==> (#[trigger] entry_failure(
                installation.files@,
                i,
                extraction.path_style(),
            )) is None,
        forall|i: int|
            0 <= i < installation.files@.len() ==> {
                let file = #[trigger] installation.files@[i];
                let content = extraction.contents()[file.path@];
                &&& extraction.contents().contains_key(file.path@)
                &&& file_failure(
                    Some(FileMetadata { is_file: true, length: content.len() as u64 }),
                    Some(content),
                    file.size,
                    file.sha256@,
                ) is None
            },
        object_failure(installation.files@, actual, required) is None,
{
    let files = installation.files@;
    let contents = extraction.contents();
    let paths = inventory_paths(files);
    assert forall|i: int| 0 <= i < files.len() implies contents.contains_key(
        (#[trigger] files[i]).path@,
    ) by {
        assert(paths[i] == files[i].path@);
        assert(paths.to_set().contains(files[i].path@));
    }
    assert forall|i: int| 0 <= i < files.len() implies (#[trigger] entry_failure(
        files,
        i,
        extraction.path_style(),
    )) is None by {
        assert(contents.contains_key(files[i].path@));
        if paths.take(i).contains(files[i].path@) {
            let j = choose|j: int| 0 <= j < i && paths.take(i)[j] == files[i].path@;
            assert(paths[j] == paths[i]);
            assert(name_before(paths[j], paths[i]));
            before_is_asymmetric(encode_utf8(paths[i]), encode_utf8(paths[i]));
        }
    }
}

/// Altered content never passes: a file whose size or digest is not the listed one is refused.
pub proof fn altered_content_is_refused(file: InstalledFile, content: Seq<u8>)
    requires
        content.len() <= u64::MAX,
        !content_matches(content, file.size, file.sha256@),
    ensures
        file_failure(
            Some(FileMetadata { is_file: true, length: content.len() as u64 }),
            Some(content),
            file.size,
            file.sha256@,
        ) is Some,
{
}

/// A lost or foreign file never passes: an object whose files are not those listed is refused.
pub proof fn altered_inventory_is_refused(
    files: Seq<InstalledFile>,
    actual: Seq<Seq<char>>,
    required: Seq<bool>,
    path: Seq<char>,
)
    requires
        actual.contains(path) != inventory_paths(files).contains(path),
    ensures
        object_failure(files, actual, required) is Some,
{
    assert(actual.to_set().contains(path) != inventory_paths(files).to_set().contains(path));
}

/// Paths that an extraction accepts stay inside the object, unless a name holds a separator of
/// another platform.
pub proof fn extracted_paths_are_safe(names: Seq<Seq<u8>>, style: PathStyle)
    requires
        names.len() > 0,
        valid_utf8(joined(names)),
        forall|i: int|
            0 <= i < names.len() ==> installable_name(#[trigger] names[i], style) && unseparated(
                names[i],
            ),
    ensures
        safe_path(encode_utf8(inventory_path(names)), style),
{
    installable_paths_are_safe(names, style);
    decode_utf8_encode_utf8(joined(names));
}

/// A file is the promised one exactly when it can be inspected, is a regular file of the promised
/// length, can be read, and has the promised digest. The length is checked before the content.
pub proof fn promised_files_are_intact(
    metadata: Option<FileMetadata>,
    content: Option<Seq<u8>>,
    size: u64,
    digest: Seq<char>,
)
    ensures
        file_failure(metadata, content, size, digest) is None <==> {
            &&& metadata is Some && metadata->0.is_file && metadata->0.length == size
            &&& content is Some && hex(sha256(content->0)) == digest
        },
        metadata is Some && (!metadata->0.is_file || metadata->0.length != size) ==> file_failure(
            metadata,
            content,
            size,
            digest,
        ) == Some("artifact archive size mismatch"@),
        metadata is None ==> file_failure(metadata, content, size, digest) == Some(
            "artifact archive could not be inspected"@,
        ),
{
}

/// An inventory entry is acceptable exactly when its path stays inside the object and no entry before
/// it has the same path.
pub proof fn inventory_entries_are_new_and_inside(
    files: Seq<InstalledFile>,
    index: int,
    style: PathStyle,
)
    requires
        0 <= index < files.len(),
    ensures
        entry_failure(files, index, style) is None <==> {
            &&& safe_path(encode_utf8(files[index].path@), style)
            &&& forall|j: int| 0 <= j < index ==> (#[trigger] files[j]).path@ != files[index].path@
        },
        !safe_path(encode_utf8(files[index].path@), style) ==> entry_failure(files, index, style)
            == Some("artifact relative path is invalid"@),
{
    let paths = inventory_paths(files).take(index);
    if paths.contains(files[index].path@) {
        let j = choose|j: int| 0 <= j < paths.len() && paths[j] == files[index].path@;
        assert(files[j].path@ == files[index].path@);
    } else {
        assert forall|j: int| 0 <= j < index implies (#[trigger] files[j]).path@
            != files[index].path@ by {
            assert(paths[j] == files[j].path@);
            assert(paths.contains(paths[j]));
        }
    }
}

/// An object is complete exactly when the files that are there are those listed, no more and no
/// fewer, in whatever order they are found, and every required path is there.
pub proof fn complete_objects_hold_what_is_listed(
    files: Seq<InstalledFile>,
    actual: Seq<Seq<char>>,
    required: Seq<bool>,
)
    ensures
        object_failure(files, actual, required) is None <==> {
            &&& forall|path: Seq<char>|
                #[trigger] actual.contains(path) <==> inventory_paths(files).contains(path)
            &&& forall|i: int| 0 <= i < required.len() ==> #[trigger] required[i]
        },
{
    let listed = inventory_paths(files);
    if actual.to_set() == listed.to_set() {
        assert forall|path: Seq<char>| #[trigger] actual.contains(path) <==> listed.contains(
            path,
        ) by {
            assert(actual.to_set().contains(path) == listed.to_set().contains(path));
        }
    }
    if forall|path: Seq<char>| #[trigger] actual.contains(path) <==> listed.contains(path) {
        assert(actual.to_set() =~= listed.to_set());
    }
}

/// A directory of an object may hold directories and files with readable names, and nothing that
/// leads elsewhere or is neither.
pub proof fn objects_hold_files_and_directories(kind: DiskEntry, relative: Option<Seq<char>>)
    ensures
        disk_failure(kind, relative) is None <==> kind == DiskEntry::Directory || (kind
            == DiskEntry::File && relative is Some),
        disk_failure(DiskEntry::Symlink, relative) == Some(
            "installed artifact contains a redirected path"@,
        ),
        disk_failure(DiskEntry::Other, relative) == Some(
            "installed artifact contains an unsupported entry"@,
        ),
{
}

/// Paths are listed with `/` between names, wherever they come from; every other character stays.
pub proof fn listed_paths_have_forward_slashes(text: Seq<char>, i: int)
    requires
        0 <= i < text.len(),
    ensures
        slashed(text).len() == text.len(),
        text[i] == '\\' ==> slashed(text)[i] == '/',
        text[i] != '\\' ==> slashed(text)[i] == text[i],
{
}

/// An inventory belongs to an artifact by its identifier and its archive's digest, in the one known
/// form, and only where it lists something.
pub proof fn inventories_belong_to_their_artifact(
    installation: InstallationManifest,
    a: ArtifactSpec,
    b: ArtifactSpec,
)
    ensures
        identifies(installation, a) && identifies(installation, b) ==> a.id@ == b.id@ && a.sha256@
            == b.sha256@,
        identifies(installation, a) ==> installation.schema_version == 1
            && installation.files@.len() > 0,
        installation.schema_version == 1 && installation.files@.len() > 0
            && installation.artifact_id@ == a.id@ && installation.archive_sha256@ == a.sha256@
            ==> identifies(installation, a),
{
}

/// The names of an object's files are found one by one: a file is listed under its path with forward
/// slashes, unless it is the inventory itself, and directories are not listed.
pub proof fn files_are_listed_but_the_inventory(names: Set<Seq<char>>, path: Seq<char>)
    ensures
        recorded(names, DiskEntry::Directory, Some(path)) == names,
        recorded(names, DiskEntry::File, Some(".impossible-voice-installation.json"@)) == names,
        slashed(path) != ".impossible-voice-installation.json"@ ==> recorded(
            names,
            DiskEntry::File,
            Some(path),
        ) == names.insert(slashed(path)),
        forall|c: char| path.contains(c) ==> c != '\\' ==> #[trigger] slashed(path).contains(c),
        !slashed(path).contains('\\'),
{
    let name = ".impossible-voice-installation.json"@;
    reveal_strlit(".impossible-voice-installation.json");
    assert(slashed(name) =~= name);
    assert forall|c: char| path.contains(c) && c != '\\' implies #[trigger] slashed(path).contains(
        c,
    ) by {
        let i = choose|i: int| 0 <= i < path.len() && path[i] == c;
        assert(slashed(path)[i] == c);
    }
    if slashed(path).contains('\\') {
        let i = choose|i: int| 0 <= i < slashed(path).len() && slashed(path)[i] == '\\';
        assert(slashed(path)[i] != '\\');
    }
}

/// An object is verified only against an inventory that belongs to its artifact.
pub proof fn verification_begins_with_the_inventory<'a>(
    installation: &'a InstallationManifest,
    artifact: &ArtifactSpec,
    style: PathStyle,
    begun: Result<Verification<'a>, ArtifactError>,
)
    requires
        call_ensures(Verification::<'a>::begin, (installation, artifact, style), begun),
    ensures
        begun is Ok <==> installation.schema_version == 1 && installation.artifact_id@
            == artifact.id@ && installation.archive_sha256@ == artifact.sha256@
            && installation.files@.len() > 0,
        begun matches Ok(verification) ==> verification.files() == installation.files@
            && verification.verified().len() == 0,
{
}

}
