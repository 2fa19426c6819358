//! Curated artifacts: manifest, download, extraction, verification, and setup.

use std::io::Read;

use bzip2::read::BzDecoder;
use bzip2::write::BzEncoder;
use bzip2::Compression;
use impossible_voice::digest::{check_content, digest_bound, ContentDigest, MAX_DIGEST_BYTES};
use impossible_voice::download::{check_artifact_origin, check_origin, Download, UrlParts};
use impossible_voice::install::{
    strip_archive_root, EntryAction, EntryKind, Extraction, InstallationManifest, InstalledFile,
};
use impossible_voice::manifest::{
    archive_name, current_platform, find_kind, object_name, safe_relative_path, select_artifacts,
    validate_artifact, validate_manifest, ArtifactError, ArtifactSpec, CuratedManifest,
    LicenseSpec,
};
use impossible_voice::names::NameSet;
use impossible_voice::number::hex_digest;
use impossible_voice::paths::PathStyle;
use impossible_voice::setup::{
    advance, join_path, object_state, profile_report, ArtifactStore, InstallAction, InstallState, ObjectState,
    StepOutcome,
};
use impossible_voice::verify_object::{
    check_digest, check_metadata, record_entry, verify_archive_file, DiskEntry, FileMetadata,
    Verification, VerificationStep,
};

const ABC: &str = "ba7816bf8f01cfea414140de5dae2223b00361a396177a9cb410ff61f20015ad";

fn license() -> LicenseSpec {
    LicenseSpec {
        scope: "all".to_string(),
        spdx: "MIT".to_string(),
        source: "https://github.com/example/fixture".to_string(),
        revision: "1".to_string(),
    }
}

fn fixture_spec(size: u64, sha256: String) -> ArtifactSpec {
    ArtifactSpec {
        id: "fixture".to_string(),
        kind: "runtime".to_string(),
        platforms: vec!["fixture".to_string()],
        url: "https://github.com/example/fixture".to_string(),
        size,
        sha256,
        archive_root: "fixture".to_string(),
        max_unpacked_bytes: 1024,
        required_paths: vec!["required.bin".to_string()],
        licenses: vec![],
    }
}

fn curated(id: &str, kind: &str, platforms: &[&str]) -> ArtifactSpec {
    ArtifactSpec {
        id: id.to_string(),
        kind: kind.to_string(),
        platforms: platforms.iter().map(|name| name.to_string()).collect(),
        licenses: vec![license()],
        ..fixture_spec(3, ABC.to_string())
    }
}

fn profile() -> CuratedManifest {
    CuratedManifest {
        schema_version: 1,
        profile: "impossible-voice-en-cpu-v1".to_string(),
        artifacts: vec![
            curated("runtime-linux", "runtime", &["linux-x86_64"]),
            curated("runtime-windows", "runtime", &["windows-x86_64"]),
            curated("stt", "stt-model", &["linux-x86_64", "windows-x86_64"]),
            curated("tts", "tts-model", &["windows-x86_64", "linux-x86_64"]),
        ],
    }
}

fn digest(bytes: &[u8]) -> String {
    let mut content = ContentDigest::new();
    assert!(content.push(bytes));
    content.digest_text()
}

fn joined(names: Vec<Vec<u8>>) -> String {
    let names: Vec<String> = names
        .into_iter()
        .map(|name| String::from_utf8(name).unwrap())
        .collect();
    names.join("/")
}

#[test]
fn archive_paths_cannot_escape_the_expected_root() {
    assert!(strip_archive_root(b"fixture/../escape", "fixture", PathStyle::Unix).is_err());
    assert!(strip_archive_root(b"other/file", "fixture", PathStyle::Unix).is_err());
    assert!(strip_archive_root(b"fixture/../escape", "fixture", PathStyle::Windows).is_err());
    assert!(strip_archive_root(b"other/file", "fixture", PathStyle::Windows).is_err());
}

#[test]
fn archive_paths_follow_the_component_rules() {
    let strip = |path: &[u8], style| strip_archive_root(path, "fixture", style).map(joined);
    for style in [PathStyle::Unix, PathStyle::Windows] {
        assert_eq!(strip(b"fixture", style).unwrap(), "");
        assert_eq!(strip(b"fixture/", style).unwrap(), "");
        assert_eq!(strip(b"fixture/a/b", style).unwrap(), "a/b");
        assert_eq!(strip(b"fixture//a/./b/", style).unwrap(), "a/b");
        for path in ["/fixture/a", "./fixture/a", "../fixture/a", "", "."] {
            assert_eq!(
                strip(path.as_bytes(), style).unwrap_err().message,
                "artifact archive root is invalid"
            );
        }
        assert_eq!(
            strip(b"fixture/a/..", style).unwrap_err().message,
            "artifact archive path is invalid"
        );
    }
    assert_eq!(strip(b"fixture/a\\b", PathStyle::Unix).unwrap(), "a\\b");
    assert_eq!(strip(b"fixture\\a\\b", PathStyle::Windows).unwrap(), "a/b");
    assert!(strip(b"fixture\\a", PathStyle::Unix).is_err());
    assert!(strip(b"C:fixture/a", PathStyle::Windows).is_err());
    assert!(strip(b"fixture/C:/a", PathStyle::Windows).is_err());
    assert_eq!(strip(b"fixture/C:/a", PathStyle::Unix).unwrap(), "C:/a");
    assert!(strip_archive_root(b"../a", "..", PathStyle::Unix).is_err());
    assert!(strip_archive_root(b"./a", ".", PathStyle::Unix).is_err());
}

#[test]
fn inventory_paths_must_stay_inside_the_object() {
    let safe = |path: &str, style| safe_relative_path(path, style).is_ok();
    for style in [PathStyle::Unix, PathStyle::Windows] {
        assert!(safe("a", style));
        assert!(safe("a/b.txt", style));
        assert!(safe("a/./b", style));
        for path in ["", "/a", "../a", "a/../b", "./a", "..", "."] {
            assert!(!safe(path, style));
        }
    }
    assert!(safe("a\\..\\b", PathStyle::Unix));
    assert!(!safe("a\\..\\b", PathStyle::Windows));
    assert!(!safe("\\a", PathStyle::Windows));
    assert!(!safe("c:\\a", PathStyle::Windows));
    assert!(safe("c:a", PathStyle::Unix));
    assert_eq!(
        safe_relative_path("..", PathStyle::Unix).unwrap_err().message,
        "artifact relative path is invalid"
    );
}

#[test]
fn complete_manifest_selects_one_artifact_of_each_kind() {
    let manifest = profile();
    assert!(validate_manifest(&manifest, PathStyle::Unix).is_ok());
    for platform in ["linux-x86_64", "windows-x86_64"] {
        let artifacts = select_artifacts(&manifest, platform).unwrap();
        assert_eq!(artifacts.len(), 3);
        assert!(artifacts.iter().all(|item| item.url.starts_with("https://github.com/")));
        for kind in ["runtime", "stt-model", "tts-model"] {
            assert_eq!(find_kind(&artifacts, kind).unwrap().kind, kind);
        }
        assert_eq!(
            find_kind(&artifacts, "other").unwrap_err().message,
            "curated artifact profile is incomplete"
        );
    }
    assert_eq!(
        select_artifacts(&manifest, "linux-arm").unwrap_err().message,
        "curated artifact profile is incomplete for this platform"
    );
    let mut doubled = profile();
    doubled.artifacts.push(curated("tts-two", "tts-model", &["linux-x86_64"]));
    assert!(select_artifacts(&doubled, "linux-x86_64").is_err());
    doubled.artifacts.remove(2);
    assert!(select_artifacts(&doubled, "linux-x86_64").is_err());
}

#[test]
fn curated_manifest_is_complete_for_supported_platform() {
    let manifest = profile();
    let platform = current_platform("linux", "x86_64").unwrap();
    validate_manifest(&manifest, PathStyle::Unix).unwrap();
    let artifacts = select_artifacts(&manifest, platform).unwrap();
    assert_eq!(artifacts.len(), 3);
    assert!(artifacts.iter().all(|item| item.url.starts_with("https://github.com/")));
}

#[test]
fn manifest_failures_are_told_apart() {
    let message = |manifest: CuratedManifest| {
        validate_manifest(&manifest, PathStyle::Unix).unwrap_err().message
    };
    assert_eq!(
        message(CuratedManifest { schema_version: 2, ..profile() }),
        "curated artifact manifest identity is invalid"
    );
    assert_eq!(
        message(CuratedManifest { profile: "other".to_string(), ..profile() }),
        "curated artifact manifest identity is invalid"
    );
    let mut repeated = profile();
    repeated.artifacts[3].id = "stt".to_string();
    assert_eq!(
        message(repeated),
        "curated artifact manifest contains duplicate identifiers"
    );
    let entry = |change: &dyn Fn(&mut ArtifactSpec)| {
        let mut artifact = curated("a", "runtime", &[]);
        change(&mut artifact);
        validate_artifact(&artifact, PathStyle::Unix).unwrap_err().message
    };
    let invalid = "curated artifact manifest contains an invalid entry";
    assert_eq!(entry(&|a| a.id = String::new()), invalid);
    assert_eq!(entry(&|a| a.id = "a/b".to_string()), invalid);
    assert_eq!(entry(&|a| a.kind = "voice".to_string()), invalid);
    assert_eq!(entry(&|a| a.size = 0), invalid);
    assert_eq!(entry(&|a| a.max_unpacked_bytes = 0), invalid);
    assert_eq!(entry(&|a| a.sha256 = "ab".to_string()), invalid);
    assert_eq!(entry(&|a| a.sha256 = "g".repeat(64)), invalid);
    assert_eq!(entry(&|a| a.archive_root = String::new()), invalid);
    assert_eq!(entry(&|a| a.required_paths.clear()), invalid);
    assert_eq!(entry(&|a| a.licenses.clear()), invalid);
    assert_eq!(
        entry(&|a| a.licenses[0].spdx = String::new()),
        "curated artifact license metadata is incomplete"
    );
    assert_eq!(
        entry(&|a| a.required_paths[0] = "../x".to_string()),
        "artifact relative path is invalid"
    );
    assert!(validate_artifact(&curated("A-z_0.9", "runtime", &[]), PathStyle::Unix).is_ok());
}

#[test]
fn platforms_and_names_are_derived_from_the_manifest() {
    assert_eq!(current_platform("linux", "x86_64").unwrap(), "linux-x86_64");
    assert_eq!(current_platform("windows", "x86_64").unwrap(), "windows-x86_64");
    assert_eq!(
        current_platform("linux", "aarch64").unwrap_err().message,
        "the curated artifact profile does not support this platform"
    );
    let artifact = curated("stt", "stt-model", &[]);
    assert_eq!(object_name(&artifact), "stt-ba7816bf8f01cfea");
    assert_eq!(archive_name(&artifact), format!("stt-{ABC}.tar.bz2"));
    let other = curated("stt-ba7816bf", "stt-model", &[]);
    assert_ne!(object_name(&other), object_name(&artifact));
    assert_ne!(archive_name(&other), archive_name(&artifact));
    let store = ArtifactStore::new("runtime-artifacts".to_string());
    assert_eq!(
        store.object_path(&artifact),
        "runtime-artifacts/objects/stt-ba7816bf8f01cfea"
    );
    assert_eq!(
        store.archive_path(&artifact),
        format!("runtime-artifacts/downloads/stt-{ABC}.tar.bz2")
    );
    assert_eq!(join_path("", "a"), "a");
    assert_eq!(join_path("a/", "b"), "a/b");
}

#[test]
fn digests_are_sha256_in_lower_case_hexadecimal() {
    assert_eq!(digest(b"abc"), ABC);
    assert_eq!(
        digest(b""),
        "e3b0c44298fc1c149afbf4c8996fb92427ae41e4649b934ca495991b7852b855"
    );
    assert_eq!(hex_digest(&[0, 15, 16, 255]), "000f10ff");
    let mut pieces = ContentDigest::new();
    for piece in [&b"a"[..], b"", b"bc"] {
        assert!(pieces.push(piece));
    }
    assert_eq!(pieces.size(), 3);
    assert!(check_content(pieces, 3, ABC));
    let mut other = ContentDigest::new();
    other.push(b"abd");
    assert!(!check_content(other, 3, ABC));
    assert_eq!(digest_bound(1_024), 1_024);
    assert_eq!(digest_bound(u64::MAX), MAX_DIGEST_BYTES);
    assert_eq!(MAX_DIGEST_BYTES, u64::MAX / 8);
}

#[test]
fn only_the_permitted_origin_is_contacted() {
    let origin = |url: &str| {
        check_artifact_origin(&ArtifactSpec {
            url: url.to_string(),
            ..curated("a", "runtime", &[])
        })
    };
    assert!(origin("https://github.com/a/b").is_ok());
    assert!(origin("HTTPS://GitHub.com/a/b").is_ok());
    for url in [
        "http://github.com/a",
        "https://github.com.example.org/a",
        "https://example.org/github.com",
        "https://github.com@example.org/a",
        "file:///github.com",
    ] {
        assert_eq!(
            origin(url).unwrap_err().message,
            "curated artifact origin is not permitted"
        );
    }
    assert_eq!(origin("github.com/a").unwrap_err().message, "curated artifact URL is invalid");
    assert!(check_origin(&None).is_err());
    assert!(check_origin(&Some(UrlParts { scheme: "https".to_string(), host: None })).is_err());
    assert!(check_origin(&Some(UrlParts {
        scheme: "https".to_string(),
        host: Some("github.com".to_string()),
    }))
    .is_ok());
}

#[test]
fn downloads_are_bounded_and_verified() {
    let artifact = curated("a", "runtime", &[]);
    assert_eq!(
        Download::begin(&artifact, Some(4)).err().unwrap().message,
        "artifact download size mismatch"
    );
    let mut download = Download::begin(&artifact, Some(3)).ok().unwrap();
    assert!(download.receive(b"ab").is_ok());
    assert_eq!(
        download.receive(b"cd").unwrap_err().message,
        "artifact download exceeded its bound"
    );
    assert!(download.receive(b"c").is_ok());
    assert!(download.finish(&artifact).is_ok());
    for content in [&b"ab"[..], b"abd"] {
        let mut download = Download::begin(&artifact, None).ok().unwrap();
        assert!(download.receive(content).is_ok());
        assert_eq!(
            download.finish(&artifact).unwrap_err().message,
            "artifact download integrity mismatch"
        );
    }
}

fn extract(entries: &[(&str, EntryKind, &[u8])]) -> Result<InstallationManifest, ArtifactError> {
    let artifact = curated("fixture", "runtime", &[]);
    let mut extraction = Extraction::new(&artifact, PathStyle::Unix);
    for (path, kind, content) in entries {
        extraction.next_entry()?;
        if let EntryAction::WriteFile(_) = extraction.accept_entry(path.as_bytes(), *kind)? {
            for piece in content.chunks(3) {
                extraction.write(piece)?;
            }
        }
    }
    extraction.finish(&artifact)
}

fn inspect(
    installation: &InstallationManifest,
    artifact: &ArtifactSpec,
    files: &[(&str, &[u8])],
) -> Result<(), ArtifactError> {
    let mut verification = Verification::begin(installation, artifact, PathStyle::Unix)?;
    let listed = loop {
        match verification.next_file()? {
            VerificationStep::Inspect(pending) => {
                let found = files.iter().find(|(path, _)| *path == pending.file().path);
                let metadata = found.map(|(_, content)| FileMetadata {
                    is_file: true,
                    length: content.len() as u64,
                });
                let content = found.map(|(_, content)| {
                    let mut digest = ContentDigest::new();
                    digest.push(content);
                    digest
                });
                verification = pending.inspected(metadata, content)?;
            }
            VerificationStep::Listed(listed) => break listed,
        }
    };
    let mut actual = NameSet::new();
    record_entry(&mut actual, DiskEntry::Directory, Some("sub"))?;
    record_entry(
        &mut actual,
        DiskEntry::File,
        Some(".impossible-voice-installation.json"),
    )?;
    for (path, _) in files {
        record_entry(&mut actual, DiskEntry::File, Some(path))?;
    }
    let required: Vec<bool> = artifact
        .required_paths
        .iter()
        .map(|required| files.iter().any(|(path, _)| path == required))
        .collect();
    listed.finish(&actual, &required)
}

#[test]
fn safe_fixture_extracts_and_detects_later_corruption() {
    let encoder = BzEncoder::new(Vec::new(), Compression::best());
    let mut builder = tar::Builder::new(encoder);
    let payload = b"verified fixture";
    let mut header = tar::Header::new_gnu();
    header.set_size(payload.len() as u64);
    header.set_mode(0o644);
    header.set_cksum();
    builder
        .append_data(&mut header, "fixture/required.bin", payload.as_slice())
        .unwrap();
    builder.finish().unwrap();
    let archive_bytes = builder.into_inner().unwrap().finish().unwrap();
    let spec = fixture_spec(archive_bytes.len() as u64, digest(&archive_bytes));

    let mut content = ContentDigest::new();
    content.push(&archive_bytes);
    let metadata = FileMetadata {
        is_file: true,
        length: archive_bytes.len() as u64,
    };
    assert!(verify_archive_file(Some(metadata), Some(content), spec.size, &spec.sha256).is_ok());
    let mut extraction = Extraction::new(&spec, PathStyle::Unix);
    let mut archive = tar::Archive::new(BzDecoder::new(archive_bytes.as_slice()));
    for entry in archive.entries().unwrap() {
        extraction.next_entry().unwrap();
        let mut entry = entry.unwrap();
        assert!(entry.header().entry_type().is_file());
        let path = entry.path_bytes().into_owned();
        let action = extraction.accept_entry(&path, EntryKind::File).unwrap();
        let EntryAction::WriteFile(names) = action else {
            panic!("a file is written");
        };
        assert_eq!(joined(names), "required.bin");
        let mut bytes = Vec::new();
        entry.read_to_end(&mut bytes).unwrap();
        extraction.write(&bytes).unwrap();
    }
    let installation = extraction.finish(&spec).unwrap();
    assert!(inspect(&installation, &spec, &[("required.bin", payload)]).is_ok());
    assert!(inspect(&installation, &spec, &[("required.bin", b"verified fixturechanged")]).is_err());
}

#[test]
fn extracted_objects_verify_and_later_corruption_is_detected() {
    let artifact = curated("fixture", "runtime", &[]);
    let payload: &[u8] = b"verified fixture";
    let installation = extract(&[
        ("fixture/", EntryKind::Directory, b""),
        ("fixture/sub", EntryKind::Directory, b""),
        ("fixture/sub/z", EntryKind::File, b"z"),
        ("fixture/required.bin", EntryKind::File, payload),
        ("fixture/sub/a", EntryKind::File, b""),
    ])
    .unwrap();
    let paths: Vec<&str> = installation.files.iter().map(|file| file.path.as_str()).collect();
    assert_eq!(paths, ["required.bin", "sub/a", "sub/z"]);
    assert_eq!(installation.schema_version, 1);
    assert_eq!(installation.artifact_id, "fixture");
    assert_eq!(installation.archive_sha256, ABC);
    assert_eq!(installation.files[0].size, 16);
    assert_eq!(installation.files[0].sha256, digest(payload));

    let tree: Vec<(&str, &[u8])> = vec![("sub/z", b"z"), ("required.bin", payload), ("sub/a", b"")];
    assert!(inspect(&installation, &artifact, &tree).is_ok());

    let grown: Vec<(&str, &[u8])> =
        vec![("sub/z", b"z"), ("required.bin", b"verified fixturechanged"), ("sub/a", b"")];
    assert_eq!(
        inspect(&installation, &artifact, &grown).unwrap_err().message,
        "artifact archive size mismatch"
    );
    let altered: Vec<(&str, &[u8])> =
        vec![("sub/z", b"y"), ("required.bin", payload), ("sub/a", b"")];
    assert_eq!(
        inspect(&installation, &artifact, &altered).unwrap_err().message,
        "artifact archive digest mismatch"
    );
    let lost: Vec<(&str, &[u8])> = vec![("required.bin", payload), ("sub/a", b"")];
    assert_eq!(
        inspect(&installation, &artifact, &lost).unwrap_err().message,
        "artifact archive could not be inspected"
    );
    let extra: Vec<(&str, &[u8])> =
        vec![("sub/z", b"z"), ("required.bin", payload), ("sub/a", b""), ("new", b"")];
    assert_eq!(
        inspect(&installation, &artifact, &extra).unwrap_err().message,
        "installed artifact inventory does not match"
    );
    let without = extract(&[("fixture/other", EntryKind::File, b"x")]).unwrap();
    assert_eq!(
        inspect(&without, &artifact, &[("other", b"x")]).unwrap_err().message,
        "installed artifact is missing a required path"
    );
}

#[test]
fn extraction_refuses_what_it_cannot_install() {
    let message = |entries: &[(&str, EntryKind, &[u8])]| extract(entries).unwrap_err().message;
    let unsupported = "artifact archive contains an unsupported or duplicate entry";
    assert_eq!(
        message(&[("fixture/a", EntryKind::File, b"1"), ("fixture/./a", EntryKind::File, b"2")]),
        unsupported
    );
    assert_eq!(message(&[("fixture/a", EntryKind::Other, b"")]), unsupported);
    assert_eq!(message(&[("fixture/../a", EntryKind::File, b"")]), "artifact archive path is invalid");
    assert_eq!(message(&[("a", EntryKind::File, b"")]), "artifact archive root is invalid");
    assert_eq!(message(&[]), "artifact archive contained no files");
    assert_eq!(
        message(&[("fixture", EntryKind::Other, b"")]),
        "artifact archive contained no files"
    );
    let big = vec![0_u8; 1000];
    assert_eq!(
        message(&[("fixture/a", EntryKind::File, &big), ("fixture/b", EntryKind::File, &big)]),
        "artifact extraction exceeded its bound"
    );
    let artifact = curated("fixture", "runtime", &[]);
    let mut extraction = Extraction::new(&artifact, PathStyle::Unix);
    assert!(extraction.accept_entry(b"fixture/\xff", EntryKind::File).is_err());
    for (style, refusal) in [
        (PathStyle::Unix, "artifact archive root is invalid"),
        (PathStyle::Windows, "artifact archive path is invalid"),
    ] {
        let mut other = Extraction::new(&artifact, style);
        let refused = other.accept_entry(b"other/\xff", EntryKind::File);
        assert_eq!(refused.err().unwrap().message, refusal);
    }
    assert_eq!(
        extraction.write(b"x").unwrap_err().message,
        "artifact file extraction failed"
    );
    for _ in 0..16_384 {
        assert!(extraction.next_entry().is_ok());
    }
    assert_eq!(
        extraction.next_entry().unwrap_err().message,
        "artifact archive has too many entries"
    );
}

fn entry(path: &str) -> InstalledFile {
    InstalledFile { path: path.to_string(), size: 3, sha256: ABC.to_string() }
}

#[test]
fn inventories_are_checked_before_anything_is_opened() {
    let artifact = curated("fixture", "runtime", &[]);
    let inventory = |files: Vec<InstalledFile>| InstallationManifest {
        schema_version: 1,
        artifact_id: "fixture".to_string(),
        archive_sha256: ABC.to_string(),
        files,
    };
    let identity = "installation identity is invalid";
    let begin = |installation: &InstallationManifest| {
        Verification::begin(installation, &artifact, PathStyle::Unix).err().map(|e| e.message)
    };
    assert_eq!(begin(&inventory(vec![])), Some(identity));
    let mut other = inventory(vec![entry("a")]);
    assert_eq!(begin(&other), None);
    other.schema_version = 2;
    assert_eq!(begin(&other), Some(identity));
    let mut other = inventory(vec![entry("a")]);
    other.artifact_id = "x".to_string();
    assert_eq!(begin(&other), Some(identity));
    let mut other = inventory(vec![entry("a")]);
    other.archive_sha256 = "x".to_string();
    assert_eq!(begin(&other), Some(identity));

    let escaping = inventory(vec![entry("b"), entry("../a")]);
    assert_eq!(
        inspect(&escaping, &artifact, &[("b", b"abc")]).unwrap_err().message,
        "artifact relative path is invalid"
    );
    let repeated = inventory(vec![entry("b"), entry("a"), entry("b")]);
    assert_eq!(
        inspect(&repeated, &artifact, &[("a", b"abc"), ("b", b"abc")]).unwrap_err().message,
        "installation inventory contains duplicate files"
    );
    let alone = inventory(vec![entry("b")]);
    assert_eq!(
        inspect(&alone, &artifact, &[("a", b"abc"), ("b", b"abc")]).unwrap_err().message,
        "installed artifact inventory does not match"
    );
}

#[test]
fn installed_objects_hold_only_files_and_directories() {
    let mut names = NameSet::new();
    assert_eq!(
        record_entry(&mut names, DiskEntry::Symlink, Some("a")).unwrap_err().message,
        "installed artifact contains a redirected path"
    );
    assert_eq!(
        record_entry(&mut names, DiskEntry::Other, Some("a")).unwrap_err().message,
        "installed artifact contains an unsupported entry"
    );
    assert_eq!(
        record_entry(&mut names, DiskEntry::File, None).unwrap_err().message,
        "installed artifact path is invalid"
    );
    assert!(record_entry(&mut names, DiskEntry::File, Some("a\\b")).is_ok());
    assert!(names.contains("a/b"));
    assert_eq!(names.len(), 1);
    assert_eq!(
        check_metadata(Some(FileMetadata { is_file: false, length: 3 }), 3).unwrap_err().message,
        "artifact archive size mismatch"
    );
    assert!(check_digest(None, ABC).is_err());
}

#[test]
fn name_sets_keep_byte_order() {
    let mut names = NameSet::new();
    for name in ["b", "a", "ab", "B", "\u{e9}", "a", ""] {
        let known = names.contains(name);
        assert_eq!(names.insert(name).is_none(), known);
    }
    assert_eq!(names.len(), 6);
    let mut other = NameSet::new();
    for name in ["", "\u{e9}", "B", "ab", "a"] {
        other.insert(name);
    }
    assert!(!names.same(&other));
    other.insert("b");
    assert!(names.same(&other));
}

fn run(offline: bool, outcomes: &[StepOutcome]) -> Vec<InstallAction> {
    let mut state = InstallState::FindingObject;
    let mut actions = vec![InstallAction::FindObject];
    for outcome in outcomes {
        let (next, action) = advance(offline, state, *outcome);
        state = next;
        actions.push(action);
    }
    actions
}

#[test]
fn offline_setup_never_goes_beyond_installed_objects() {
    let error = ArtifactError::new("refused");
    let no = StepOutcome::Refused(error);
    let yes = StepOutcome::Succeeded;
    let message = |actions: Vec<InstallAction>| match actions.last() {
        Some(InstallAction::Fail(error)) => error.message,
        _ => panic!("the setup did not fail"),
    };
    let offline = "offline setup requires a complete verified artifact profile";
    assert_eq!(message(run(true, &[no])), offline);
    assert_eq!(message(run(true, &[yes, no, yes])), offline);
    assert!(matches!(
        run(true, &[yes, yes]).last(),
        Some(InstallAction::Report(ObjectState::Verified))
    ));
    assert_eq!(message(run(true, &[yes, no, no])), "refused");
}

#[test]
fn online_setup_downloads_verifies_and_activates_in_order() {
    let error = ArtifactError::new("refused");
    let failure = ArtifactError::new("failed");
    let no = StepOutcome::Refused(error);
    let yes = StepOutcome::Succeeded;
    let actions = run(false, &[no, no, no, yes, yes, yes, yes, yes, yes]);
    assert!(matches!(actions[1], InstallAction::FindArchive));
    assert!(matches!(actions[2], InstallAction::FindArchive));
    assert!(matches!(actions[3], InstallAction::Download));
    assert!(matches!(actions[4], InstallAction::CreateStaging));
    assert!(matches!(actions[5], InstallAction::VerifyArchive));
    assert!(matches!(actions[6], InstallAction::Extract));
    assert!(matches!(actions[7], InstallAction::CheckStaged));
    assert!(matches!(actions[8], InstallAction::Activate));
    assert!(matches!(actions[9], InstallAction::Report(ObjectState::Installed)));

    let cached = run(false, &[no, yes, yes, yes]);
    assert!(matches!(cached[2], InstallAction::CheckArchive));
    assert!(matches!(cached[4], InstallAction::CreateStaging));
    let stale = run(false, &[yes, no, yes, yes, no, yes, no, yes]);
    assert!(matches!(stale[2], InstallAction::PreserveObject));
    assert!(matches!(stale[5], InstallAction::PreserveArchive));
    assert!(matches!(stale[7], InstallAction::Download));

    let broken = run(false, &[no, no, yes, yes, no, yes]);
    assert!(matches!(broken[5], InstallAction::PreserveStaged));
    assert!(matches!(broken[6], InstallAction::Fail(e) if e.message == "refused"));
    assert!(!broken.iter().any(|action| matches!(action, InstallAction::Extract)));
    let unverified = run(false, &[no, no, yes, yes, yes, yes, no, yes, yes]);
    assert!(matches!(unverified[7], InstallAction::PreserveStaged));
    assert!(matches!(unverified[8], InstallAction::Fail(e) if e.message == "refused"));
    assert!(matches!(unverified[9], InstallAction::Rest));
    let crashed = run(false, &[no, no, yes, yes, StepOutcome::Failed(failure)]);
    assert!(matches!(crashed[5], InstallAction::Fail(e) if e.message == "failed"));
}

#[test]
fn objects_are_missing_verified_or_invalid() {
    let bad = || Err(ArtifactError::new("altered"));
    assert!(matches!(object_state(false, bad()), ObjectState::Missing));
    assert!(matches!(object_state(false, Ok(())), ObjectState::Missing));
    assert!(matches!(object_state(true, Ok(())), ObjectState::Verified));
    assert!(matches!(object_state(true, bad()), ObjectState::Invalid));
}

#[test]
fn status_is_read_only_and_reports_missing_profile() {
    let manifest = profile();
    let selected = select_artifacts(&manifest, "linux-x86_64").unwrap();
    let report = profile_report(
        &manifest.profile,
        "linux-x86_64",
        &selected,
        &[ObjectState::Missing; 3],
    );
    assert_eq!(report.status, "not-ready");
    assert!(report.artifacts.iter().all(|item| item.state == "missing"));
    assert_eq!(report.profile, "impossible-voice-en-cpu-v1");
    assert_eq!(report.platform, "linux-x86_64");

    let mixed = profile_report(
        &manifest.profile,
        "linux-x86_64",
        &selected,
        &[ObjectState::Verified, ObjectState::Invalid, ObjectState::Installed],
    );
    assert_eq!(mixed.status, "not-ready");
    let states: Vec<&str> = mixed.artifacts.iter().map(|item| item.state).collect();
    assert_eq!(states, ["verified", "invalid", "installed"]);
    let ids: Vec<&str> = mixed.artifacts.iter().map(|item| item.id.as_str()).collect();
    assert_eq!(ids, ["runtime-linux", "stt", "tts"]);
    let ready = profile_report(
        &manifest.profile,
        "linux-x86_64",
        &selected,
        &[ObjectState::Verified, ObjectState::Verified, ObjectState::Installed],
    );
    assert_eq!(ready.status, "ready");
}

#[test]
fn verified_profiles_give_the_engine_paths() {
    let manifest = profile();
    let selected = select_artifacts(&manifest, "linux-x86_64").unwrap();
    let store = ArtifactStore::new("root".to_string());
    let profile = store.verified_profile(&selected, Ok(()), Ok(()), Ok(())).unwrap();
    assert_eq!(profile.runtime_root(), "root/objects/runtime-linux-ba7816bf8f01cfea");
    assert_eq!(profile.stt_model(), "root/objects/stt-ba7816bf8f01cfea/model.int8.onnx");
    assert_eq!(profile.stt_tokens(), "root/objects/stt-ba7816bf8f01cfea/tokens.txt");
    assert_eq!(profile.tts_model(), "root/objects/tts-ba7816bf8f01cfea/en_US-kristin-medium.onnx");
    assert_eq!(profile.tts_tokens(), "root/objects/tts-ba7816bf8f01cfea/tokens.txt");
    assert_eq!(profile.tts_data_dir(), "root/objects/tts-ba7816bf8f01cfea/espeak-ng-data");
    let bad = |text| Err(ArtifactError::new(text));
    let error = store.verified_profile(&selected, Ok(()), bad("stt"), bad("tts")).unwrap_err();
    assert_eq!(error.message, "stt");
    let error = store
        .verified_profile(&selected[..2], Ok(()), Ok(()), bad("tts"))
        .unwrap_err();
    assert_eq!(error.message, "curated artifact profile is incomplete");
}
