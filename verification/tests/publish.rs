use std::collections::BTreeMap;

use cargo_depot::checksum::checksum;
use cargo_depot::index::Decoded;
use cargo_depot::publish::build_args;
use cargo_depot::workspace::exit_status;
use cargo_depot::{
    Action, DirtyTreeError, Event, Feature, Flow, IndexConfig, IndexMeta, Job, ManifestError, Next,
    Outcome, Package, ParseError, Phase, PublishError, Registry, Skip, Target,
};

const CARGO_TOML: &str = "/w/demo/Cargo.toml";
const SNAPSHOT: &str = "/w/demo/Cargo.toml.pre-edit";
const LEDGER: &str = "/reg/index/de/mo/demo";
const ARCHIVE: &str = "/reg/crates/demo/demo-1.0.0.crate";
const PACKAGED: &str = "/w/target/package/demo-1.0.0.crate";
const CARGO_TOML_TEXT: &str =
    "[package]\nname = \"demo\"\nversion = \"1.0.0\"\n\n[[bin]]\nname = \"tool\"\npath = \"src/main.rs\"\n";

/// Files in memory, and programs that answer as the test says.
struct World {
    files: BTreeMap<String, Vec<u8>>,
    dirs: Vec<String>,
    status: Option<String>,
    build_succeeds: bool,
    /// The action, by its number in the run, that is reported as failed.
    fails_at: Option<usize>,
    done: Vec<Action>,
    /// The manifest as the build tool saw it.
    built_from: Option<Vec<u8>>,
    /// Where the build tool leaves the archive.
    packaged: String,
}

fn world() -> World {
    let mut files = BTreeMap::new();
    files.insert(CARGO_TOML.to_string(), CARGO_TOML_TEXT.as_bytes().to_vec());
    World {
        files,
        dirs: vec![],
        status: Some(String::new()),
        build_succeeds: true,
        fails_at: None,
        done: vec![],
        built_from: None,
        packaged: PACKAGED.to_string(),
    }
}

fn package(kinds: &[&str]) -> Package {
    Package {
        name: "demo".to_string(),
        version: "1.0.0".to_string(),
        dependencies: vec![],
        features: vec![Feature { name: "extra".to_string(), enables: vec![] }],
        license: Some("MIT".to_string()),
        license_file: None,
        manifest_path: CARGO_TOML.to_string(),
        targets: kinds.iter().map(|k| Target { kind: vec![k.to_string()] }).collect(),
    }
}

fn job(kinds: &[&str]) -> Job {
    Job {
        registry: Registry("/reg".to_string()),
        package: package(kinds),
        workspace_root: "/w".to_string(),
        target_directory: "/w/target".to_string(),
    }
}

fn encode(record: &IndexMeta) -> String {
    let mut object = serde_json::Map::new();
    object.insert("name".to_string(), serde_json::Value::String(record.name.clone()));
    object.insert("vers".to_string(), serde_json::Value::String(record.vers.clone()));
    object.insert("cksum".to_string(), serde_json::Value::String(record.cksum.clone()));
    serde_json::to_string(&serde_json::Value::Object(object)).unwrap()
}

fn decode(line: &str) -> Result<IndexMeta, String> {
    let value: serde_json::Value = serde_json::from_str(line).map_err(|e| e.to_string())?;
    let field = |key: &str| -> Result<String, String> {
        value.get(key).and_then(|v| v.as_str()).map(|s| s.to_string()).ok_or(key.to_string())
    };
    Ok(IndexMeta {
        name: field("name")?,
        vers: field("vers")?,
        deps: vec![],
        features: vec![],
        license: None,
        license_file: None,
        cksum: field("cksum")?,
        v: 2,
        yanked: false,
    })
}

fn perform(world: &mut World, action: &Action) -> Event {
    let number = world.done.len();
    world.done.push(action.clone());
    if world.fails_at == Some(number) {
        return Event::Failed(format!("action {} failed", number));
    }
    match action {
        Action::ReadLedger { path } => Event::Ledger(
            world.files.get(path).map(|bytes| String::from_utf8(bytes.clone()).unwrap()),
        ),
        Action::Decode { lines } => Event::Decoded(
            lines.iter().map(|l| Decoded { line: l.clone(), record: decode(l) }).collect(),
        ),
        Action::QueryStatus { dir } => {
            assert_eq!(dir, "/w");
            Event::Status(world.status.clone())
        }
        Action::ReadManifest { path } => match world.files.get(path) {
            Some(bytes) => Event::Manifest(String::from_utf8(bytes.clone()).unwrap()),
            None => Event::Failed("no such file".to_string()),
        },
        Action::Rename { from, to } => match world.files.remove(from) {
            Some(bytes) => {
                world.files.insert(to.clone(), bytes);
                Event::Done
            }
            None => Event::Failed("no such file".to_string()),
        },
        Action::WriteFile { path, contents } => {
            world.files.insert(path.clone(), contents.as_bytes().to_vec());
            Event::Done
        }
        Action::CreateDir { path } => {
            world.dirs.push(path.clone());
            Event::Done
        }
        Action::Build { manifest, arguments } => {
            assert_eq!(arguments, &build_args("demo"));
            world.built_from = world.files.get(manifest).cloned();
            if world.build_succeeds {
                world.files.insert(world.packaged.clone(), b"the archive of demo".to_vec());
            }
            Event::Built(world.build_succeeds)
        }
        Action::ReadArchive { path } => match world.files.get(path) {
            Some(bytes) => Event::Archive(bytes.clone()),
            None => Event::Failed("no such file".to_string()),
        },
        Action::Probe { path } => Event::Probed(world.files.contains_key(path)),
        Action::Copy { from, to } => match world.files.get(from).cloned() {
            Some(bytes) => {
                world.files.insert(to.clone(), bytes);
                Event::Done
            }
            None => Event::Failed("no such file".to_string()),
        },
        Action::Encode { record } => Event::Encoded(encode(record)),
        Action::Append { dir, path, line } => {
            world.dirs.push(dir.clone());
            world.files.entry(path.clone()).or_default().extend_from_slice(line.as_bytes());
            Event::Done
        }
    }
}

fn publish(world: &mut World, job: Job) -> Outcome {
    world.done.clear();
    let (mut flow, mut next) = Flow::begin(job);
    loop {
        match next {
            Next::Finished(outcome) => {
                assert_eq!(flow.phase, Phase::Finished);
                assert!(flow.pending().is_none());
                return outcome;
            }
            Next::Do(action) => {
                assert_eq!(flow.pending(), Some(action.clone()));
                let event = perform(world, &action);
                let stepped = flow.step(event);
                flow = stepped.0;
                next = stepped.1;
            }
        }
    }
}

fn ledger_text(world: &World) -> String {
    String::from_utf8(world.files.get(LEDGER).cloned().unwrap_or_default()).unwrap()
}

#[test]
fn build_arguments_package_everything_unverified() {
    assert_eq!(
        build_args("demo"),
        vec!["package", "-p", "demo", "--no-verify", "--all-features", "--allow-dirty"]
    );
}

#[test]
fn library_is_published() {
    let mut world = world();
    let (registry, config) = Registry::open("/reg", Some("https://host/reg/"), false).unwrap();
    assert_eq!(
        config,
        Some(IndexConfig::from_url("https://host/reg"))
    );
    assert_eq!(config.unwrap().dl(), "https://host/reg/crates/{crate}/{crate}-{version}.crate");
    assert_eq!(registry.config_path(), "/reg/index/config.json");

    let outcome = publish(&mut world, job(&["lib"]));
    let record = match outcome {
        Outcome::Published(record) => record,
        other => panic!("{:?}", other),
    };
    assert_eq!(record, IndexMeta::from_package(&package(&["lib"]), record.cksum.clone()));

    let ledger = ledger_text(&world);
    assert!(ledger.ends_with('\n'));
    let lines: Vec<&str> = ledger.lines().collect();
    assert_eq!(lines.len(), 1);
    let read = decode(lines[0]).unwrap();
    assert_eq!(read.name, "demo");
    assert_eq!(read.vers, "1.0.0");

    let archive = world.files.get(ARCHIVE).unwrap();
    assert_eq!(archive, b"the archive of demo");
    assert_eq!(checksum(archive), read.cksum);
    assert_eq!(record.cksum, read.cksum);
    assert_eq!(
        read.cksum,
        checksum(b"the archive of demo")
    );
    assert!(world.dirs.contains(&"/reg/crates/demo".to_string()));
    assert!(world.dirs.contains(&"/reg/index/de/mo".to_string()));
}

#[test]
fn steps_come_in_their_order() {
    let mut world = world();
    publish(&mut world, job(&["lib"]));
    let kinds: Vec<&str> = world
        .done
        .iter()
        .map(|a| match a {
            Action::ReadLedger { .. } => "read ledger",
            Action::Decode { .. } => "decode",
            Action::QueryStatus { .. } => "status",
            Action::ReadManifest { .. } => "read manifest",
            Action::Rename { .. } => "rename",
            Action::WriteFile { .. } => "write",
            Action::CreateDir { .. } => "create dir",
            Action::Build { .. } => "build",
            Action::ReadArchive { .. } => "read archive",
            Action::Probe { .. } => "probe",
            Action::Copy { .. } => "copy",
            Action::Encode { .. } => "encode",
            Action::Append { .. } => "append",
        })
        .collect();
    assert_eq!(
        kinds,
        vec![
            "read ledger",
            "status",
            "read manifest",
            "rename",
            "write",
            "create dir",
            "build",
            "rename",
            "read archive",
            "probe",
            "copy",
            "encode",
            "append"
        ]
    );
    assert_eq!(world.done[0], Action::ReadLedger { path: LEDGER.to_string() });
    assert_eq!(
        world.done[3],
        Action::Rename { from: CARGO_TOML.to_string(), to: SNAPSHOT.to_string() }
    );
    assert_eq!(
        world.done[7],
        Action::Rename { from: SNAPSHOT.to_string(), to: CARGO_TOML.to_string() }
    );
    assert_eq!(world.done[8], Action::ReadArchive { path: PACKAGED.to_string() });
    assert_eq!(world.done[9], Action::Probe { path: ARCHIVE.to_string() });
    assert_eq!(
        world.done[10],
        Action::Copy { from: PACKAGED.to_string(), to: ARCHIVE.to_string() }
    );
}

#[test]
fn manifest_is_edited_for_the_build_only() {
    let mut world = world();
    publish(&mut world, job(&["lib"]));
    let seen = String::from_utf8(world.built_from.clone().unwrap()).unwrap();
    assert!(seen.contains("autoexamples = false"));
    assert!(!seen.contains("[[bin]]"));
    assert_eq!(world.files.get(CARGO_TOML).unwrap(), CARGO_TOML_TEXT.as_bytes());
    assert!(!world.files.contains_key(SNAPSHOT));
}

#[test]
fn manifest_is_restored_after_a_failed_build() {
    let mut world = world();
    world.build_succeeds = false;
    let outcome = publish(&mut world, job(&["lib"]));
    assert_eq!(outcome, Outcome::Failed(PublishError::Build));
    assert_eq!(world.files.get(CARGO_TOML).unwrap(), CARGO_TOML_TEXT.as_bytes());
    assert!(!world.files.contains_key(SNAPSHOT));
    assert!(!world.files.contains_key(LEDGER));
    assert!(!world.files.contains_key(ARCHIVE));
    assert_eq!(
        world.done.last(),
        Some(&Action::Rename { from: SNAPSHOT.to_string(), to: CARGO_TOML.to_string() })
    );
}

#[test]
fn manifest_is_restored_whatever_fails_in_between() {
    // 4: writing the edited manifest; 5: creating the directory; 6: running the build tool.
    for number in [4usize, 5, 6] {
        let mut world = world();
        world.fails_at = Some(number);
        let outcome = publish(&mut world, job(&["lib"]));
        assert_eq!(
            outcome,
            Outcome::Failed(PublishError::Io(format!("action {} failed", number)))
        );
        assert_eq!(world.files.get(CARGO_TOML).unwrap(), CARGO_TOML_TEXT.as_bytes());
        assert!(!world.files.contains_key(SNAPSHOT));
        assert!(!world.files.contains_key(LEDGER));
    }
}

#[test]
fn manifest_that_cannot_be_put_back_is_an_error_of_its_own() {
    let mut world = world();
    world.fails_at = Some(7);
    let outcome = publish(&mut world, job(&["lib"]));
    assert_eq!(
        outcome,
        Outcome::Failed(PublishError::ManifestNotRestored("action 7 failed".to_string()))
    );
    let mut world = self::world();
    world.fails_at = Some(7);
    world.build_succeeds = false;
    let outcome = publish(&mut world, job(&["lib"]));
    assert_eq!(
        outcome,
        Outcome::Failed(PublishError::ManifestNotRestored("action 7 failed".to_string()))
    );
    assert!(!world.files.contains_key(LEDGER));
}

#[test]
fn failures_before_the_snapshot_end_the_flow() {
    let mut world = world();
    world.fails_at = Some(0);
    assert_eq!(
        publish(&mut world, job(&["lib"])),
        Outcome::Failed(PublishError::Io("action 0 failed".to_string()))
    );
    assert_eq!(world.done.len(), 1);
    let mut world = self::world();
    world.fails_at = Some(2);
    assert_eq!(
        publish(&mut world, job(&["lib"])),
        Outcome::Failed(PublishError::Io("action 2 failed".to_string()))
    );
    let mut world = self::world();
    world.fails_at = Some(3);
    assert_eq!(
        publish(&mut world, job(&["lib"])),
        Outcome::Failed(PublishError::Io("action 3 failed".to_string()))
    );
    assert_eq!(world.done.len(), 4);
    assert_eq!(world.files.get(CARGO_TOML).unwrap(), CARGO_TOML_TEXT.as_bytes());
}

#[test]
fn status_that_cannot_be_asked_for_counts_as_no_version_control() {
    let mut world = world();
    world.fails_at = Some(1);
    assert!(matches!(publish(&mut world, job(&["lib"])), Outcome::Published(_)));
}

#[test]
fn tree_without_version_control_is_published_from() {
    let mut world = world();
    world.status = None;
    assert!(matches!(publish(&mut world, job(&["lib"])), Outcome::Published(_)));
}

#[test]
fn same_version_is_not_published_twice() {
    let mut world = world();
    assert!(matches!(publish(&mut world, job(&["lib"])), Outcome::Published(_)));
    let after_first = world.files.clone();
    let outcome = publish(&mut world, job(&["lib"]));
    assert_eq!(outcome, Outcome::Skipped(Skip::AlreadyPublished));
    assert_eq!(world.files, after_first);
    assert_eq!(ledger_text(&world).lines().count(), 1);
    assert_eq!(world.done.len(), 2);
    assert_eq!(exit_status(&vec![outcome]), 0);
}

#[test]
fn another_version_is_appended() {
    let mut world = world();
    assert!(matches!(publish(&mut world, job(&["lib"])), Outcome::Published(_)));
    let mut next = job(&["lib"]);
    next.package.version = "1.1.0".to_string();
    world.packaged = "/w/target/package/demo-1.1.0.crate".to_string();
    assert!(matches!(publish(&mut world, next), Outcome::Published(_)));
    let ledger = ledger_text(&world);
    let versions: Vec<String> = ledger.lines().map(|l| decode(l).unwrap().vers).collect();
    assert_eq!(versions, vec!["1.0.0", "1.1.0"]);
    assert!(world.files.contains_key("/reg/crates/demo/demo-1.1.0.crate"));
}

#[test]
fn dirty_tree_is_not_published_from() {
    let mut world = world();
    world.status = Some("?? extra.txt\n M Cargo.lock\n".to_string());
    let before = world.files.clone();
    let outcome = publish(&mut world, job(&["lib"]));
    assert_eq!(
        outcome,
        Outcome::Failed(PublishError::DirtyTree(DirtyTreeError {
            paths: vec!["?? extra.txt".to_string()]
        }))
    );
    assert_eq!(world.files, before);
    assert!(!world.files.contains_key(LEDGER));
    assert!(!world.files.contains_key(ARCHIVE));
    assert_eq!(exit_status(&vec![outcome]), 2);
}

#[test]
fn changed_lock_file_alone_does_not_stop_publishing() {
    let mut world = world();
    world.status = Some(" M Cargo.lock\n".to_string());
    assert!(matches!(publish(&mut world, job(&["lib"])), Outcome::Published(_)));
}

#[test]
fn binary_is_skipped() {
    let mut world = world();
    let before = world.files.clone();
    let outcome = publish(&mut world, job(&["bin"]));
    assert_eq!(outcome, Outcome::Skipped(Skip::NotALibrary));
    assert!(world.done.is_empty());
    assert_eq!(world.files, before);
    assert_eq!(exit_status(&vec![outcome]), 0);
}

#[test]
fn procedural_macro_is_published() {
    let mut world = world();
    assert!(matches!(publish(&mut world, job(&["bin", "proc-macro"])), Outcome::Published(_)));
}

#[test]
fn archive_in_place_is_not_overwritten() {
    let mut world = world();
    world.files.insert(ARCHIVE.to_string(), b"an older archive".to_vec());
    let outcome = publish(&mut world, job(&["lib"]));
    assert_eq!(outcome, Outcome::Failed(PublishError::AlreadyExists(ARCHIVE.to_string())));
    assert_eq!(world.files.get(ARCHIVE).unwrap(), b"an older archive");
    assert!(!world.files.contains_key(LEDGER));
    assert_eq!(world.files.get(CARGO_TOML).unwrap(), CARGO_TOML_TEXT.as_bytes());
    assert!(matches!(world.done.last(), Some(Action::Probe { .. })));
}

#[test]
fn archive_that_cannot_be_read_fails_the_checksum() {
    let mut world = world();
    world.fails_at = Some(8);
    assert_eq!(
        publish(&mut world, job(&["lib"])),
        Outcome::Failed(PublishError::ChecksumIo("action 8 failed".to_string()))
    );
    assert!(!world.files.contains_key(ARCHIVE));
}

#[test]
fn record_that_cannot_be_appended_fails_the_ledger() {
    let mut world = world();
    world.fails_at = Some(12);
    assert_eq!(
        publish(&mut world, job(&["lib"])),
        Outcome::Failed(PublishError::LedgerWrite("action 12 failed".to_string()))
    );
    let mut world = self::world();
    world.fails_at = Some(11);
    assert_eq!(
        publish(&mut world, job(&["lib"])),
        Outcome::Failed(PublishError::LedgerWrite("action 11 failed".to_string()))
    );
}

#[test]
fn malformed_ledger_line_is_named() {
    let mut world = world();
    world.files.insert(
        LEDGER.to_string(),
        b"{\"name\":\"demo\",\"vers\":\"0.9.0\",\"cksum\":\"00\"}\n\nnot a record\n".to_vec(),
    );
    let before = world.files.clone();
    match publish(&mut world, job(&["lib"])) {
        Outcome::Failed(PublishError::Ledger(ParseError { line, detail })) => {
            assert_eq!(line, "not a record");
            assert!(!detail.is_empty());
        }
        other => panic!("{:?}", other),
    }
    assert_eq!(world.files, before);
}

#[test]
fn manifest_that_is_none_ends_the_flow_before_anything_is_moved() {
    let mut world = world();
    world.files.insert(CARGO_TOML.to_string(), b"[package".to_vec());
    let before = world.files.clone();
    assert!(matches!(
        publish(&mut world, job(&["lib"])),
        Outcome::Failed(PublishError::Manifest(ManifestError::Parse(_)))
    ));
    assert_eq!(world.files, before);
}

#[test]
fn record_of_several_lines_is_refused() {
    let (flow, _) = Flow::begin(job(&["lib"]));
    let flow = Flow { job: flow.job, phase: Phase::Record { checksum: "00".to_string() } };
    let (flow, next) = flow.step(Event::Encoded("{\n}".to_string()));
    assert_eq!(flow.phase, Phase::Finished);
    assert_eq!(
        next,
        Next::Finished(Outcome::Failed(PublishError::LedgerWrite(
            "the record spans more than one line".to_string()
        )))
    );
}

#[test]
fn unexpected_events_fail_the_flow() {
    let (flow, next) = Flow::begin(job(&["lib"]));
    assert_eq!(next, Next::Do(Action::ReadLedger { path: LEDGER.to_string() }));
    let (flow, next) = flow.step(Event::Built(true));
    assert_eq!(next, Next::Finished(Outcome::Failed(PublishError::Unexpected)));
    let (_, next) = flow.step(Event::Done);
    assert_eq!(next, Next::Finished(Outcome::Failed(PublishError::Unexpected)));
}

#[test]
fn unexpected_events_still_restore_the_manifest() {
    let (flow, _) = Flow::begin(job(&["lib"]));
    let flow = Flow { job: flow.job, phase: Phase::Build };
    let (flow, next) = flow.step(Event::Probed(true));
    assert_eq!(
        next,
        Next::Do(Action::Rename { from: SNAPSHOT.to_string(), to: CARGO_TOML.to_string() })
    );
    let (_, next) = flow.step(Event::Done);
    assert_eq!(next, Next::Finished(Outcome::Failed(PublishError::Unexpected)));
}

#[test]
fn advance_takes_the_edit_as_given() {
    let (flow, _) = Flow::begin(job(&["lib"]));
    let flow = Flow { job: flow.job, phase: Phase::Manifest };
    let (flow, next) =
        flow.advance(Event::Manifest("anything".to_string()), Ok("edited".to_string()));
    assert_eq!(flow.phase, Phase::Snapshot { edited: "edited".to_string() });
    assert_eq!(
        next,
        Next::Do(Action::Rename { from: CARGO_TOML.to_string(), to: SNAPSHOT.to_string() })
    );
    let (flow, next) = flow.step(Event::Done);
    assert_eq!(
        next,
        Next::Do(Action::WriteFile { path: CARGO_TOML.to_string(), contents: "edited".to_string() })
    );
    assert_eq!(flow.phase, Phase::Rewrite { edited: "edited".to_string() });
}

#[test]
fn registry_starts_the_flow() {
    let registry = Registry("/reg".to_string());
    let (flow, next) = registry.add_package(package(&["lib"]), "/w", "/w/target");
    assert_eq!(flow.job, job(&["lib"]));
    assert_eq!(flow.phase, Phase::Ledger);
    assert_eq!(next, Next::Do(Action::ReadLedger { path: LEDGER.to_string() }));
    let (flow, next) = registry.add_package(package(&["bin"]), "/w", "/w/target");
    assert_eq!(flow.phase, Phase::Finished);
    assert_eq!(next, Next::Finished(Outcome::Skipped(Skip::NotALibrary)));
}

#[test]
fn errors_in_words() {
    assert_eq!(PublishError::Build.message(), "Failed to build package");
    assert_eq!(PublishError::Io("disk full".to_string()).message(), "disk full");
    assert_eq!(PublishError::Unexpected.message(), "Unexpected answer to an action");
    assert_eq!(
        PublishError::AlreadyExists(ARCHIVE.to_string()).message(),
        "/reg/crates/demo/demo-1.0.0.crate already exists"
    );
    assert_eq!(
        PublishError::ManifestNotRestored("denied".to_string()).message(),
        "The manifest could not be put back: denied"
    );
    assert_eq!(
        PublishError::ChecksumIo("denied".to_string()).message(),
        "Failed to read the package: denied"
    );
    assert_eq!(
        PublishError::LedgerWrite("denied".to_string()).message(),
        "Failed to write to the index: denied"
    );
    assert_eq!(
        PublishError::Ledger(ParseError { line: "{oops".to_string(), detail: "EOF".to_string() })
            .message(),
        "Malformed line in the index: {oops: EOF"
    );
    assert_eq!(
        PublishError::DirtyTree(DirtyTreeError { paths: vec!["?? a".to_string()] }).message(),
        DirtyTreeError { paths: vec!["?? a".to_string()] }.message()
    );
    assert_eq!(
        PublishError::Manifest(ManifestError::Parse("bad".to_string())).message(),
        "bad"
    );
    assert_eq!(
        PublishError::Manifest(ManifestError::Render("worse".to_string())).message(),
        "worse"
    );
}

#[test]
fn name_in_another_case_is_the_same_package() {
    let mut world = world();
    assert!(matches!(publish(&mut world, job(&["lib"])), Outcome::Published(_)));
    let after_first = world.files.clone();
    let mut again = job(&["lib"]);
    again.package.name = "Demo".to_string();
    assert_eq!(publish(&mut world, again), Outcome::Skipped(Skip::AlreadyPublished));
    assert_eq!(world.files, after_first);
    assert_eq!(world.done[0], Action::ReadLedger { path: LEDGER.to_string() });
}

#[test]
fn file_called_like_the_lock_file_with_more_behind_stops_publishing() {
    let mut world = world();
    world.status = Some("?? Cargo.lock.bak\n".to_string());
    let before = world.files.clone();
    assert_eq!(
        publish(&mut world, job(&["lib"])),
        Outcome::Failed(PublishError::DirtyTree(DirtyTreeError {
            paths: vec!["?? Cargo.lock.bak".to_string()]
        }))
    );
    assert_eq!(world.files, before);
    assert_eq!(world.done.len(), 2);
}

#[test]
fn manifest_that_the_reader_cannot_be_given_ends_the_flow() {
    let mut world = world();
    let text = format!("{}\n[profile.dev.package.\"https://example.com/foo#\"]\nopt-level = 3\n", CARGO_TOML_TEXT);
    world.files.insert(CARGO_TOML.to_string(), text.into_bytes());
    let before = world.files.clone();
    assert!(matches!(
        publish(&mut world, job(&["lib"])),
        Outcome::Failed(PublishError::Manifest(ManifestError::Parse(_)))
    ));
    assert_eq!(world.files, before);
}
