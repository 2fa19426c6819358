//! Archive extraction and installed-object verification.

use vstd::prelude::*;
use vstd::utf8::{decode_utf8, decode_utf8_encode_utf8, encode_utf8, valid_utf8};
use crate::digest::{content_matches, digest_bound, digestible, sha256, ContentDigest};
use crate::digest::MAX_DIGEST_BYTES;
use crate::manifest::{ArtifactError, ArtifactSpec};
use crate::names::{ordered, NameSet};
use crate::paths::{archive_paths_cannot_escape, below_root, join_names, joined, names_below_root};
use crate::paths::{safe_path, views, PathStyle};
use crate::text::utf8_text;

verus! {

/// Most entries an archive may have.
pub const MAX_ARCHIVE_ENTRIES: usize = 16_384;

/// Name of the inventory inside an installed object.
pub open spec fn installation_file() -> Seq<char> {
    ".impossible-voice-installation.json"@
}

/// One installed file.
#[derive(Debug)]
pub struct InstalledFile {
    /// Path below the object, with `/` between names.
    pub path: String,
    /// Size in bytes.
    pub size: u64,
    /// SHA-256 in lower-case hexadecimal.
    pub sha256: String,
}

/// The inventory of an installed object.
#[derive(Debug)]
pub struct InstallationManifest {
    /// Version of the inventory's form.
    pub schema_version: u32,
    /// The artifact installed.
    pub artifact_id: String,
    /// Digest of the archive it came from.
    pub archive_sha256: String,
    /// Every file.
    pub files: Vec<InstalledFile>,
}

/// What an archive entry is.
#[derive(Debug, Clone, Copy, PartialEq, Eq, Structural)]
pub enum EntryKind {
    /// A directory.
    Directory,
    /// A regular file.
    File,
    /// Anything else: links, devices, extensions.
    Other,
}

/// What is to be done with an archive entry.
#[derive(Debug)]
pub enum EntryAction {
    /// Nothing: the entry is the archive's root.
    Skip,
    /// Create the directory of these names.
    CreateDirectory(Vec<Vec<u8>>),
    /// Write the file of these names.
    WriteFile(Vec<Vec<u8>>),
}

/// What is to be done with an archive entry, over plain names.
pub enum EntryPlan {
    /// Nothing.
    Skip,
    /// Create a directory.
    CreateDirectory(Seq<Seq<u8>>),
    /// Write a file.
    WriteFile(Seq<Seq<u8>>),
}

/// The plan of an action.
pub open spec fn plan_of(action: EntryAction) -> EntryPlan {
    match action {
        EntryAction::Skip => EntryPlan::Skip,
        EntryAction::CreateDirectory(names) => EntryPlan::CreateDirectory(views(names@)),
        EntryAction::WriteFile(names) => EntryPlan::WriteFile(views(names@)),
    }
}

/// The inventory path of names below the root.
pub open spec fn inventory_path(names: Seq<Seq<u8>>) -> Seq<char> {
    decode_utf8(joined(names))
}

/// What becomes of an entry when the files of `installed` are already there. A path that is not
/// Unicode is refused as a whole on Windows, and elsewhere below the root.
pub open spec fn entry_plan(
    installed: Set<Seq<char>>,
    path: Seq<u8>,
    root: Seq<char>,
    style: PathStyle,
    kind: EntryKind,
) -> Result<EntryPlan, Seq<char>> {
    if style == PathStyle::Windows && !valid_utf8(path) {
        Err("artifact archive path is invalid"@)
    } else {
        match below_root(path, encode_utf8(root), style) {
            Err(message) => Err(message),
            Ok(names) => if names.len() == 0 {
                Ok(EntryPlan::Skip)
            } else if !valid_utf8(joined(names)) {
                Err("artifact archive path is invalid"@)
            } else if kind == EntryKind::Directory {
                Ok(EntryPlan::CreateDirectory(names))
            } else if kind != EntryKind::File || installed.contains(inventory_path(names)) {
                Err("artifact archive contains an unsupported or duplicate entry"@)
            } else {
                Ok(EntryPlan::WriteFile(names))
            },
        }
    }
}

/// Removes an archive's root directory from an entry path.
pub fn strip_archive_root(path: &[u8], root: &str, style: PathStyle) -> (r: Result<
    Vec<Vec<u8>>,
    ArtifactError,
>)
    ensures
        match r {
            Ok(names) => below_root(path@, encode_utf8(root@), style) == Ok::<
                Seq<Seq<u8>>,
                Seq<char>,
            >(views(names@)),
            Err(e) => below_root(path@, encode_utf8(root@), style) == Err::<
                Seq<Seq<u8>>,
                Seq<char>,
            >(e.message@),
        },
{
    match names_below_root(path, root.as_bytes(), style) {
        Ok(names) => Ok(names),
        Err(refusal) => Err(ArtifactError::new(refusal.message)),
    }
}

/// The paths of an inventory in order.
pub open spec fn inventory_paths(files: Seq<InstalledFile>) -> Seq<Seq<char>> {
    files.map_values(|file: InstalledFile| file.path@)
}

/// Whether an inventory lists exactly these files, in strict path order, with their true sizes and
/// digests.
pub open spec fn describes(files: Seq<InstalledFile>, contents: Map<Seq<char>, Seq<u8>>) -> bool {
    &&& ordered(inventory_paths(files))
    &&& inventory_paths(files).to_set() == contents.dom()
    &&& forall|i: int|
        0 <= i < files.len() ==> content_matches(
            contents[(#[trigger] files[i]).path@],
            files[i].size,
            files[i].sha256@,
        )
}

/// Bytes of all files of an inventory.
pub open spec fn total_size(files: Seq<InstalledFile>) -> nat
    decreases files.len(),
{
    if files.len() == 0 {
        0
    } else {
        total_size(files.drop_last()) + files.last().size as nat
    }
}

/// Inserting a file adds its size.
proof fn total_size_insert(files: Seq<InstalledFile>, at: int, file: InstalledFile)
    requires
        0 <= at <= files.len(),
    ensures
        total_size(files.insert(at, file)) == total_size(files) + file.size,
    decreases files.len(),
{
    let more = files.insert(at, file);
    if at == files.len() {
        assert(more.drop_last() =~= files);
    } else {
        assert(more.drop_last() =~= files.drop_last().insert(at, file));
        total_size_insert(files.drop_last(), at, file);
    }
}

struct OpenFile {
    path: String,
    content: ContentDigest,
}

/// An extraction in progress.
pub struct Extraction {
    archive_root: String,
    max_unpacked_bytes: u64,
    style: PathStyle,
    entries: usize,
    total: u64,
    paths: NameSet,
    files: Vec<InstalledFile>,
    open: Option<OpenFile>,
    written: Ghost<Map<Seq<char>, Seq<u8>>>,
    clean: Ghost<bool>,
}

/// The files once a piece was offered to the one being written: it is taken whole where there is
/// room, and changes no other file.
pub open spec fn written_after(
    contents: Map<Seq<char>, Seq<u8>>,
    open: Option<Seq<char>>,
    chunk: Seq<u8>,
    room: bool,
) -> Map<Seq<char>, Seq<u8>> {
    match open {
        Some(path) if room => contents.insert(path, contents[path] + chunk),
        _ => contents,
    }
}

/// Whether a path holds a `\` where that is no separator: an inventory writes it as `/`.
pub open spec fn foreign(path: Seq<u8>, style: PathStyle) -> bool {
    style != PathStyle::Windows && path.contains(0x5c)
}

impl Extraction {
    #[verifier::type_invariant]
    spec fn well_formed(self) -> bool {
        &&& self.entries <= MAX_ARCHIVE_ENTRIES
        &&& self.total <= self.max_unpacked_bytes <= MAX_DIGEST_BYTES
        &&& self.paths.listed() == inventory_paths(self.files@)
        &&& describes(self.files@, self.written@)
        &&& match self.open {
            Some(file) => {
                &&& !self.written@.contains_key(file.path@)
                &&& self.total == total_size(self.files@) + file.content.content().len()
            },
            None => self.total == total_size(self.files@),
        }
        &&& self.clean@ ==> forall|path: Seq<char>| #[trigger]
            self.written@.contains_key(path) ==> safe_path(encode_utf8(path), self.style)
        &&& self.clean@ && self.open is Some ==> safe_path(
            encode_utf8(self.open->0.path@),
            self.style,
        )
    }

    /// The archive's only top-level directory.
    pub closed spec fn root(self) -> Seq<char> {
        self.archive_root@
    }

    /// Whose path rules apply.
    pub closed spec fn path_style(self) -> PathStyle {
        self.style
    }

    /// Most bytes its files may unpack to, as far as a digest can be taken of them.
    pub closed spec fn budget(self) -> u64 {
        self.max_unpacked_bytes
    }

    /// Entries seen so far.
    pub closed spec fn entries_seen(self) -> nat {
        self.entries as nat
    }

    /// Bytes unpacked so far.
    pub closed spec fn unpacked(self) -> nat {
        self.total as nat
    }

    /// The file being written, if there is one.
    pub closed spec fn open_path(self) -> Option<Seq<char>> {
        match self.open {
            Some(file) => Some(file.path@),
            None => None,
        }
    }

    /// Every file with its content so far, the one being written among them.
    pub closed spec fn contents(self) -> Map<Seq<char>, Seq<u8>> {
        match self.open {
            Some(file) => self.written@.insert(file.path@, file.content.content()),
            None => self.written@,
        }
    }

    /// Whether no file was accepted under a foreign path.
    pub closed spec fn all_native(self) -> bool {
        self.clean@
    }

    /// What stays the same throughout an extraction.
    pub open spec fn same_archive(self, other: Extraction) -> bool {
        &&& self.root() == other.root()
        &&& self.path_style() == other.path_style()
        &&& self.budget() == other.budget()
    }

    /// Starts the extraction of an artifact's archive.
    pub fn new(artifact: &ArtifactSpec, style: PathStyle) -> (extraction: Self)
        ensures
            extraction.root() == artifact.archive_root@,
            extraction.path_style() == style,
            extraction.budget() == digestible(artifact.max_unpacked_bytes),
            extraction.entries_seen() == 0,
            extraction.unpacked() == 0,
            extraction.open_path() is None,
            extraction.contents() == Map::<Seq<char>, Seq<u8>>::empty(),
            extraction.all_native(),
    {
        Extraction::blank(
            artifact.archive_root.clone(),
            digest_bound(artifact.max_unpacked_bytes),
            style,
        )
    }

    fn blank(archive_root: String, max_unpacked_bytes: u64, style: PathStyle) -> (extraction: Self)
        requires
            max_unpacked_bytes <= MAX_DIGEST_BYTES,
        ensures
            extraction.root() == archive_root@,
            extraction.path_style() == style,
            extraction.budget() == max_unpacked_bytes,
            extraction.entries_seen() == 0,
            extraction.unpacked() == 0,
            extraction.open_path() is None,
            extraction.contents() == Map::<Seq<char>, Seq<u8>>::empty(),
            extraction.all_native(),
    {
        let paths = NameSet::new();
        let files: Vec<InstalledFile> = Vec::new();
        proof {
            assert(inventory_paths(files@) =~= Seq::empty());
            assert(inventory_paths(files@).to_set() =~= Set::<Seq<char>>::empty());
            assert(Map::<Seq<char>, Seq<u8>>::empty().dom() =~= Set::<Seq<char>>::empty());
        }
        Extraction {
            archive_root,
            max_unpacked_bytes,
            style,
            entries: 0,
            total: 0,
            paths,
            files,
            open: None,
            written: Ghost(Map::empty()),
            clean: Ghost(true),
        }
    }

    /// Counts one more entry.
    pub fn next_entry(&mut self) -> (r: Result<(), ArtifactError>)
        ensures
            final(self).same_archive(*old(self)),
            final(self).unpacked() == old(self).unpacked(),
            final(self).open_path() == old(self).open_path(),
            final(self).contents() == old(self).contents(),
            final(self).all_native() == old(self).all_native(),
            r is Ok <==> old(self).entries_seen() < MAX_ARCHIVE_ENTRIES,
            final(self).entries_seen() == old(self).entries_seen() + if r is Ok {
                1int
            } else {
                0
            },
            r matches Err(e) ==> e.message@ == "artifact archive has too many entries"@,
    {
        proof {
            use_type_invariant(&*self);
        }
        if self.entries >= MAX_ARCHIVE_ENTRIES {
            return Err(ArtifactError::new("artifact archive has too many entries"));
        }
        self.entries += 1;
        Ok(())
    }

    /// Takes the whole state out.
    fn take(&mut self) -> (taken: Self)
        ensures
            taken == *old(self),
            final(self).same_archive(*old(self)),
    {
        proof {
            use_type_invariant(&*self);
        }
        let mut taken = Extraction::blank(
            self.archive_root.clone(),
            self.max_unpacked_bytes,
            self.style,
        );
        std::mem::swap(&mut taken, self);
        taken
    }

    /// Puts the file being written among the installed ones.
    fn close(self) -> (closed: Self)
        ensures
            closed.same_archive(self),
            closed.entries_seen() == self.entries_seen(),
            closed.unpacked() == self.unpacked(),
            closed.open_path() is None,
            closed.contents() == self.contents(),
            closed.all_native() == self.all_native(),
    {
        proof {
            use_type_invariant(&self);
        }
        let Extraction {
            archive_root,
            max_unpacked_bytes,
            style,
            entries,
            total,
            mut paths,
            mut files,
            open,
            written,
            clean,
        } = self;
        match open {
            None => Extraction {
                archive_root,
                max_unpacked_bytes,
                style,
                entries,
                total,
                paths,
                files,
                open: None,
                written,
                clean,
            },
            Some(file) => {
                let OpenFile { path, content } = file;
                let ghost before = files@;
                let ghost bytes = content.content();
                let size: u64 = content.size();
                let digest = content.digest_text();
                let placed: Option<usize> = paths.insert(path.as_str());
                proof {
                    if inventory_paths(before).contains(path@) {
                        assert(inventory_paths(before).to_set().contains(path@));
                    }
                }
                let ghost name = path@;
                if let Some(at) = placed {
                    let entry = InstalledFile { path, size, sha256: digest };
                    let ghost record = entry;
                    files.insert(at, entry);
                    proof {
                        total_size_insert(before, at as int, record);
                        assert(files@ == before.insert(at as int, record));
                        assert(inventory_paths(files@) =~= inventory_paths(before).insert(
                            at as int,
                            name,
                        ));
                        insertion_describes(before, written@, at as int, record, bytes);
                    }
                    Extraction {
                        archive_root,
                        max_unpacked_bytes,
                        style,
                        entries,
                        total,
                        paths,
                        files,
                        open: None,
                        written: Ghost(written@.insert(name, bytes)),
                        clean,
                    }
                } else {
                    Extraction::blank(archive_root, max_unpacked_bytes, style)
                }
            },
        }
    }

    /// Decides what becomes of an archive entry. A file becomes the one being written.
    pub fn accept_entry(&mut self, path: &[u8], kind: EntryKind) -> (r: Result<
        EntryAction,
        ArtifactError,
    >)
        ensures
            final(self).same_archive(*old(self)),
            final(self).entries_seen() == old(self).entries_seen(),
            final(self).unpacked() == old(self).unpacked(),
            ({
                let plan = entry_plan(
                    old(self).contents().dom(),
                    path@,
                    old(self).root(),
                    old(self).path_style(),
                    kind,
                );
                match r {
                    Ok(action) => {
                        &&& plan == Ok::<EntryPlan, Seq<char>>(plan_of(action))
                        &&& match plan_of(action) {
                            EntryPlan::WriteFile(names) => {
                                &&& final(self).open_path() == Some(inventory_path(names))
                                &&& final(self).contents() == old(self).contents().insert(
                                    inventory_path(names),
                                    Seq::empty(),
                                )
                                &&& final(self).all_native() == (old(self).all_native() && !foreign(
                                    path@,
                                    old(self).path_style(),
                                ))
                            },
                            _ => {
                                &&& final(self).all_native() == old(self).all_native()
                                &&& final(self).open_path() is None
                                &&& final(self).contents() == old(self).contents()
                            },
                        }
                    },
                    Err(e) => {
                        &&& plan == Err::<EntryPlan, Seq<char>>(e.message@)
                        &&& final(self).all_native() == old(self).all_native()
                        &&& final(self).open_path() is None
                        &&& final(self).contents() == old(self).contents()
                    },
                }
            }),
    {
        let taken = self.take();
        *self = taken.close();
        if self.style == PathStyle::Windows && utf8_text(path).is_none() {
            return Err(ArtifactError::new("artifact archive path is invalid"));
        }
        let names = match strip_archive_root(path, self.archive_root.as_str(), self.style) {
            Ok(names) => names,
            Err(e) => {
                return Err(e);
            },
        };
        assert(views(names@).len() == names@.len());
        if names.len() == 0 {
            return Ok(EntryAction::Skip);
        }
        let bytes = join_names(names.as_slice());
        let text = match utf8_text(bytes.as_slice()) {
            Some(text) => text,
            None => {
                return Err(ArtifactError::new("artifact archive path is invalid"));
            },
        };
        if kind == EntryKind::Directory {
            return Ok(EntryAction::CreateDirectory(names));
        }
        proof {
            use_type_invariant(&*self);
            assert(self.contents() == self.written@);
            assert(self.written@.dom().contains(text@) == inventory_paths(self.files@).to_set().contains(
                text@,
            ));
        }
        if kind != EntryKind::File || self.paths.contains(text.as_str()) {
            return Err(
                ArtifactError::new("artifact archive contains an unsupported or duplicate entry"),
            );
        }
        let taken = self.take();
        proof {
            use_type_invariant(&taken);
        }
        let Extraction {
            archive_root,
            max_unpacked_bytes,
            style,
            entries,
            total,
            paths,
            files,
            written,
            clean,
            ..
        } = taken;
        let ghost still_clean = clean@ && !foreign(path@, style);
        proof {
            let names = views(names@);
            if !foreign(path@, style) {
                archive_paths_cannot_escape(path@, encode_utf8(archive_root@), style);
                decode_utf8_encode_utf8(joined(names));
                assert(safe_path(encode_utf8(text@), style));
            }
        }
        *self =
        Extraction {
            archive_root,
            max_unpacked_bytes,
            style,
            entries,
            total,
            paths,
            files,
            open: Some(OpenFile { path: text, content: ContentDigest::new() }),
            written,
            clean: Ghost(still_clean),
        };
        Ok(EntryAction::WriteFile(names))
    }

    /// Accepts a piece of the file being written, or refuses it where the archive would unpack to
    /// more than its budget.
    pub fn write(&mut self, chunk: &[u8]) -> (r: Result<(), ArtifactError>)
        ensures
            final(self).same_archive(*old(self)),
            final(self).entries_seen() == old(self).entries_seen(),
            final(self).open_path() == old(self).open_path(),
            final(self).all_native() == old(self).all_native(),
            match old(self).open_path() {
                None => {
                    &&& r is Err
                    &&& final(self).contents() == old(self).contents()
                    &&& final(self).unpacked() == old(self).unpacked()
                },
                Some(path) => {
                    &&& r is Ok <==> old(self).unpacked() + chunk@.len() <= old(self).budget()
                    &&& final(self).unpacked() == old(self).unpacked() + if r is Ok {
                        chunk@.len()
                    } else {
                        0
                    }
                    &&& final(self).contents() == if r is Ok {
                        old(self).contents().insert(path, old(self).contents()[path] + chunk@)
                    } else {
                        old(self).contents()
                    }
                },
            },
            final(self).contents() == written_after(
                old(self).contents(),
                old(self).open_path(),
                chunk@,
                old(self).unpacked() + chunk@.len() <= old(self).budget(),
            ),
            r matches Err(e) ==> e.message@ == if old(self).open_path() is None {
                "artifact file extraction failed"@
            } else {
                "artifact extraction exceeded its bound"@
            },
    {
        proof {
            use_type_invariant(&*self);
        }
        if self.open.is_none() {
            return Err(ArtifactError::new("artifact file extraction failed"));
        }
        if chunk.len() as u64 > self.max_unpacked_bytes - self.total {
            return Err(ArtifactError::new("artifact extraction exceeded its bound"));
        }
        let taken = self.take();
        let Extraction {
            archive_root,
            max_unpacked_bytes,
            style,
            entries,
            total,
            paths,
            files,
            open,
            written,
            clean,
        } = taken;
        if let Some(file) = open {
            let OpenFile { path, mut content } = file;
            let ghost before = content.content();
            content.push(chunk);
            let total: u64 = total + chunk.len() as u64;
            *self =
            Extraction {
                archive_root,
                max_unpacked_bytes,
                style,
                entries,
                total,
                paths,
                files,
                open: Some(OpenFile { path, content }),
                written,
                clean,
            };
            assert(self.contents() =~= old(self).contents().insert(
                path@,
                old(self).contents()[path@] + chunk@,
            ));
        }
        Ok(())
    }

    /// Finishes the extraction with its inventory.
    pub fn finish(self, artifact: &ArtifactSpec) -> (r: Result<InstallationManifest, ArtifactError>)
        ensures
            r is Ok <==> self.contents().dom() != Set::<Seq<char>>::empty(),
            match r {
                Ok(manifest) => {
                    &&& inventoried(self, *artifact, manifest)
                    &&& total_size(manifest.files@) == self.unpacked()
                    &&& self.unpacked() <= self.budget()
                },
                Err(e) => e.message@ == "artifact archive contained no files"@,
            },
    {
        let closed = self.close();
        proof {
            use_type_invariant(&closed);
        }
        let Extraction { files, written, .. } = closed;
        if files.len() == 0 {
            assert(inventory_paths(files@).to_set() =~= Set::<Seq<char>>::empty());
            return Err(ArtifactError::new("artifact archive contained no files"));
        }
        proof {
            assert(inventory_paths(files@)[0] == files@[0].path@);
            assert(inventory_paths(files@).to_set().contains(files@[0].path@));
        }
        Ok(
            InstallationManifest {
                schema_version: 1,
                artifact_id: artifact.id.clone(),
                archive_sha256: artifact.sha256.clone(),
                files,
            },
        )
    }
}

/// Whether a manifest is the inventory of what an extraction wrote for an artifact: it lists every
/// file with its content, and where no path was foreign, every listed path stays inside the object.
pub open spec fn inventoried(
    extraction: Extraction,
    artifact: ArtifactSpec,
    manifest: InstallationManifest,
) -> bool {
    &&& manifest.schema_version == 1
    &&& manifest.artifact_id@ == artifact.id@
    &&& manifest.archive_sha256@ == artifact.sha256@
    &&& manifest.files@.len() > 0
    &&& describes(manifest.files@, extraction.contents())
    &&& extraction.all_native() ==> forall|path: Seq<char>| #[trigger]
        extraction.contents().contains_key(path) ==> safe_path(
            encode_utf8(path),
            extraction.path_style(),
        )
}

/// Inserting a file at its place keeps an inventory true.
proof fn insertion_describes(
    files: Seq<InstalledFile>,
    contents: Map<Seq<char>, Seq<u8>>,
    at: int,
    file: InstalledFile,
    bytes: Seq<u8>,
)
    requires
        describes(files, contents),
        0 <= at <= files.len(),
        !contents.contains_key(file.path@),
        ordered(inventory_paths(files.insert(at, file))),
        content_matches(bytes, file.size, file.sha256@),
    ensures
        describes(files.insert(at, file), contents.insert(file.path@, bytes)),
{
    let now = files.insert(at, file);
    let all = contents.insert(file.path@, bytes);
    assert forall|path: Seq<char>| inventory_paths(now).to_set().contains(path)
        == all.dom().contains(path) by {
        if inventory_paths(now).contains(path) {
            let i = choose|i: int| 0 <= i < now.len() && inventory_paths(now)[i] == path;
            if i < at {
                assert(inventory_paths(files)[i] == path);
                assert(inventory_paths(files).to_set().contains(path));
            } else if i > at {
                assert(inventory_paths(files)[i - 1] == path);
                assert(inventory_paths(files).to_set().contains(path));
            }
        }
        if all.dom().contains(path) {
            if path == file.path@ {
                assert(inventory_paths(now)[at] == path);
            } else {
                assert(inventory_paths(files).to_set().contains(path));
                let i = choose|i: int| 0 <= i < files.len() && inventory_paths(files)[i] == path;
                if i < at {
                    assert(inventory_paths(now)[i] == path);
                } else {
                    assert(inventory_paths(now)[i + 1] == path);
                }
            }
        }
    }
    assert(inventory_paths(now).to_set() =~= all.dom());
    assert forall|i: int| 0 <= i < now.len() implies content_matches(
        all[(#[trigger] now[i]).path@],
        now[i].size,
        now[i].sha256@,
    ) by {
        if i != at {
            let k = if i < at {
                i
            } else {
                i - 1
            };
            assert(now[i] == files[k]);
            assert(inventory_paths(files)[k] == files[k].path@);
            assert(inventory_paths(files).to_set().contains(files[k].path@));
        }
    }
}

/// An archive installs files and directories below its root and nothing else. The root itself is
/// skipped whatever it is; an entry that is neither is refused; and so is a file that is already
/// there, while a directory may be.
pub proof fn archives_install_files_and_directories(
    installed: Set<Seq<char>>,
    path: Seq<u8>,
    root: Seq<char>,
    style: PathStyle,
    names: Seq<Seq<u8>>,
)
    requires
        style == PathStyle::Windows ==> valid_utf8(path),
        below_root(path, encode_utf8(root), style) == Ok::<Seq<Seq<u8>>, Seq<char>>(names),
    ensures
        names.len() == 0 ==> forall|kind: EntryKind| #[trigger]
            entry_plan(installed, path, root, style, kind) == Ok::<EntryPlan, Seq<char>>(
                EntryPlan::Skip,
            ),
        names.len() > 0 && valid_utf8(joined(names)) ==> {
            let refused = Err::<EntryPlan, Seq<char>>(
                "artifact archive contains an unsupported or duplicate entry"@,
            );
            let there = installed.insert(inventory_path(names));
            let gone = installed.remove(inventory_path(names));
            &&& entry_plan(there, path, root, style, EntryKind::Directory) == Ok::<
                EntryPlan,
                Seq<char>,
            >(EntryPlan::CreateDirectory(names))
            &&& entry_plan(gone, path, root, style, EntryKind::Directory) == Ok::<
                EntryPlan,
                Seq<char>,
            >(EntryPlan::CreateDirectory(names))
            &&& entry_plan(gone, path, root, style, EntryKind::File) == Ok::<EntryPlan, Seq<char>>(
                EntryPlan::WriteFile(names),
            )
            &&& entry_plan(there, path, root, style, EntryKind::File) == refused
            &&& entry_plan(gone, path, root, style, EntryKind::Other) == refused
        },
        names.len() > 0 && !valid_utf8(joined(names)) ==> forall|kind: EntryKind| #[trigger]
            entry_plan(installed, path, root, style, kind) == Err::<EntryPlan, Seq<char>>(
                "artifact archive path is invalid"@,
            ),
{
}

/// A path outside the root, and on Windows one that is no text, is refused whatever the entry is.
pub proof fn outside_entries_are_refused(
    installed: Set<Seq<char>>,
    path: Seq<u8>,
    root: Seq<char>,
    style: PathStyle,
    kind: EntryKind,
)
    ensures
        below_root(path, encode_utf8(root), style) is Err ==> entry_plan(
            installed,
            path,
            root,
            style,
            kind,
        ) is Err,
        !valid_utf8(path) ==> entry_plan(installed, path, root, PathStyle::Windows, kind) == Err::<
            EntryPlan,
            Seq<char>,
        >("artifact archive path is invalid"@),
{
}

/// A file is its pieces in a row, however they are cut, and writing one file touches no other. What
/// there is no room for, or what belongs to no open file, is not written.
pub proof fn files_are_their_pieces(
    contents: Map<Seq<char>, Seq<u8>>,
    path: Seq<char>,
    other: Seq<char>,
    first: Seq<u8>,
    second: Seq<u8>,
)
    requires
        contents.contains_key(path),
    ensures
        ({
            let once = written_after(contents, Some(path), first, true);
            let twice = written_after(once, Some(path), second, true);
            &&& once.dom() == contents.dom()
            &&& once[path] == contents[path] + first
            &&& twice =~= written_after(contents, Some(path), first + second, true)
            &&& other != path && contents.contains_key(other) ==> twice[other] == contents[other]
            &&& written_after(contents, Some(path), first, false) == contents
            &&& written_after(contents, None, first, true) == contents
        }),
{
    assert(contents[path] + first + second =~= contents[path] + (first + second));
    assert(written_after(contents, Some(path), first, true).dom() =~= contents.dom());
}

}
