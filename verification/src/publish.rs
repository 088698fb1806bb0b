//! Publishing one package, as a sequence of steps.
//!
//! The work that touches the file system and runs other programs is not done
//! here. A `Flow` says which action comes next; whoever drives it carries the
//! action out and reports what happened as an `Event`; the flow then decides
//! how to go on. The order is fixed: look the version up in the ledger, check
//! the working tree, edit the manifest behind a snapshot, build, put the
//! manifest back, take the checksum, place the archive, append the record.

use vstd::prelude::*;
use crate::checksum::{checksum, hex, sha256};
use crate::dirty::{check_dirty, dirt, DirtyTreeError, DirtyTreeErrorView};
use crate::index::{
    is_published, ledger_entries, ledger_lines, ledger_of_decoded, published, record_of, records,
    Decoded, DecodedView, IndexMeta, IndexMetaView, ParseError, ParseErrorView,
};
use crate::layout::{
    archive_file, below, packaged_archive, snapshot_of, snapshot_path, Registry,
};
use crate::manifest::{edit_manifest, edit_view, is_edit_of, ManifestError, ManifestErrorView};
use crate::package::{has_library, Package, PackageView};
use crate::text::{append_text, clone_texts, contains, occurs_in};

verus! {

/// Why a package was left alone.
#[derive(Debug, Clone, Copy, PartialEq, Eq)]
pub enum Skip {
    /// It has neither a library nor a procedural macro.
    NotALibrary,
    /// The ledger already holds its version.
    AlreadyPublished,
}

/// Why a package could not be published.
#[derive(Debug, Clone, PartialEq, Eq)]
pub enum PublishError {
    /// An action could not be carried out; with the reason.
    Io(String),
    /// The flow was told of something it was not waiting for.
    Unexpected,
    /// A line of the ledger holds no record.
    Ledger(ParseError),
    /// The working tree has changes that are not committed.
    DirtyTree(DirtyTreeError),
    /// The manifest cannot be edited.
    Manifest(ManifestError),
    /// The build tool failed.
    Build,
    /// The manifest could not be put back; with the reason. The source tree is
    /// left with the edited manifest, and the original beside it.
    ManifestNotRestored(String),
    /// The archive could not be read for its checksum; with the reason.
    ChecksumIo(String),
    /// An archive of this version is already in place; with its path.
    AlreadyExists(String),
    /// The record could not be appended to the ledger; with the reason.
    LedgerWrite(String),
}

pub enum PublishErrorView {
    Io(Seq<char>),
    Unexpected,
    Ledger(ParseErrorView),
    DirtyTree(DirtyTreeErrorView),
    Manifest(ManifestErrorView),
    Build,
    ManifestNotRestored(Seq<char>),
    ChecksumIo(Seq<char>),
    AlreadyExists(Seq<char>),
    LedgerWrite(Seq<char>),
}

impl View for PublishError {
    type V = PublishErrorView;

    open spec fn view(&self) -> PublishErrorView {
        match self {
            PublishError::Io(d) => PublishErrorView::Io(d@),
            PublishError::Unexpected => PublishErrorView::Unexpected,
            PublishError::Ledger(e) => PublishErrorView::Ledger(e@),
            PublishError::DirtyTree(e) => PublishErrorView::DirtyTree(e@),
            PublishError::Manifest(e) => PublishErrorView::Manifest(e@),
            PublishError::Build => PublishErrorView::Build,
            PublishError::ManifestNotRestored(d) => PublishErrorView::ManifestNotRestored(d@),
            PublishError::ChecksumIo(d) => PublishErrorView::ChecksumIo(d@),
            PublishError::AlreadyExists(p) => PublishErrorView::AlreadyExists(p@),
            PublishError::LedgerWrite(d) => PublishErrorView::LedgerWrite(d@),
        }
    }
}

impl DeepView for PublishError {
    type V = PublishErrorView;

    open spec fn deep_view(&self) -> PublishErrorView {
        self@
    }
}

impl PublishError {
    /// The error in words.
    pub open spec fn message_of(e: PublishErrorView) -> Seq<char> {
        match e {
            PublishErrorView::Io(reason) => reason,
            PublishErrorView::Unexpected => "Unexpected answer to an action"@,
            PublishErrorView::Ledger(e) => ParseError::message_of(e),
            PublishErrorView::DirtyTree(e) => DirtyTreeError::message_of(e.paths),
            PublishErrorView::Manifest(e) => ManifestError::message_of(e),
            PublishErrorView::Build => "Failed to build package"@,
            PublishErrorView::ManifestNotRestored(reason) => "The manifest could not be put back: "@
                + reason,
            PublishErrorView::ChecksumIo(reason) => "Failed to read the package: "@ + reason,
            PublishErrorView::AlreadyExists(path) => path + " already exists"@,
            PublishErrorView::LedgerWrite(reason) => "Failed to write to the index: "@ + reason,
        }
    }

    /// The error in words.
    pub fn message(&self) -> (r: String)
        ensures
            r@ == Self::message_of(self@),
    {
        match self {
            PublishError::Io(reason) => reason.clone(),
            PublishError::Unexpected => "Unexpected answer to an action".to_owned(),
            PublishError::Ledger(e) => e.message(),
            PublishError::DirtyTree(e) => e.message(),
            PublishError::Manifest(e) => e.message(),
            PublishError::Build => "Failed to build package".to_owned(),
            PublishError::ManifestNotRestored(reason) => append_text(
                "The manifest could not be put back: ",
                reason.as_str(),
            ),
            PublishError::ChecksumIo(reason) => append_text(
                "Failed to read the package: ",
                reason.as_str(),
            ),
            PublishError::AlreadyExists(path) => append_text(path.as_str(), " already exists"),
            PublishError::LedgerWrite(reason) => append_text(
                "Failed to write to the index: ",
                reason.as_str(),
            ),
        }
    }
}

/// How publishing a package ended.
#[derive(Debug, Clone, PartialEq, Eq)]
pub enum Outcome {
    /// The archive is in place and the ledger holds this record.
    Published(IndexMeta),
    /// Nothing was done, and nothing is wrong.
    Skipped(Skip),
    Failed(PublishError),
}

pub enum OutcomeView {
    Published(IndexMetaView),
    Skipped(Skip),
    Failed(PublishErrorView),
}

impl View for Outcome {
    type V = OutcomeView;

    open spec fn view(&self) -> OutcomeView {
        match self {
            Outcome::Published(m) => OutcomeView::Published(m@),
            Outcome::Skipped(s) => OutcomeView::Skipped(*s),
            Outcome::Failed(e) => OutcomeView::Failed(e@),
        }
    }
}

/// Something to be done outside.
#[derive(Debug, Clone, PartialEq, Eq)]
pub enum Action {
    /// Read the ledger at `path`; it may not exist.
    ReadLedger { path: String },
    /// Decode each line as a record.
    Decode { lines: Vec<String> },
    /// Ask version control for the changes in the working tree at `dir`, one on
    /// each line.
    QueryStatus { dir: String },
    /// Read the manifest at `path`.
    ReadManifest { path: String },
    /// Move the file at `from` to `to`.
    Rename { from: String, to: String },
    /// Write `contents` to the file at `path`.
    WriteFile { path: String, contents: String },
    /// Create the directory at `path`, with those above it.
    CreateDir { path: String },
    /// Run the build tool with `arguments`, in the directory of `manifest`.
    Build { manifest: String, arguments: Vec<String> },
    /// Read the archive at `path`.
    ReadArchive { path: String },
    /// Find out whether `path` exists.
    Probe { path: String },
    /// Copy the file at `from` to `to`.
    Copy { from: String, to: String },
    /// Write the record as one line of text.
    Encode { record: IndexMeta },
    /// Create the directory `dir` if need be, and append `line` to the file at
    /// `path`.
    Append { dir: String, path: String, line: String },
}

pub enum ActionView {
    ReadLedger { path: Seq<char> },
    Decode { lines: Seq<Seq<char>> },
    QueryStatus { dir: Seq<char> },
    ReadManifest { path: Seq<char> },
    Rename { from: Seq<char>, to: Seq<char> },
    WriteFile { path: Seq<char>, contents: Seq<char> },
    CreateDir { path: Seq<char> },
    Build { manifest: Seq<char>, arguments: Seq<Seq<char>> },
    ReadArchive { path: Seq<char> },
    Probe { path: Seq<char> },
    Copy { from: Seq<char>, to: Seq<char> },
    Encode { record: IndexMetaView },
    Append { dir: Seq<char>, path: Seq<char>, line: Seq<char> },
}

impl View for Action {
    type V = ActionView;

    open spec fn view(&self) -> ActionView {
        match self {
            Action::ReadLedger { path } => ActionView::ReadLedger { path: path@ },
            Action::Decode { lines } => ActionView::Decode { lines: lines.deep_view() },
            Action::QueryStatus { dir } => ActionView::QueryStatus { dir: dir@ },
            Action::ReadManifest { path } => ActionView::ReadManifest { path: path@ },
            Action::Rename { from, to } => ActionView::Rename { from: from@, to: to@ },
            Action::WriteFile { path, contents } => ActionView::WriteFile {
                path: path@,
                contents: contents@,
            },
            Action::CreateDir { path } => ActionView::CreateDir { path: path@ },
            Action::Build { manifest, arguments } => ActionView::Build {
                manifest: manifest@,
                arguments: arguments.deep_view(),
            },
            Action::ReadArchive { path } => ActionView::ReadArchive { path: path@ },
            Action::Probe { path } => ActionView::Probe { path: path@ },
            Action::Copy { from, to } => ActionView::Copy { from: from@, to: to@ },
            Action::Encode { record } => ActionView::Encode { record: record@ },
            Action::Append { dir, path, line } => ActionView::Append {
                dir: dir@,
                path: path@,
                line: line@,
            },
        }
    }
}

/// What has become of an action.
#[derive(Debug, PartialEq, Eq)]
pub enum Event {
    /// It could not be carried out; with the reason.
    Failed(String),
    /// It was carried out, and there is nothing to report.
    Done,
    /// The text of the ledger; none where the file does not exist.
    Ledger(Option<String>),
    /// The lines, each with what decoding made of it.
    Decoded(Vec<Decoded>),
    /// What version control printed; none where the tree is not under version
    /// control.
    Status(Option<String>),
    /// The text of the manifest.
    Manifest(String),
    /// The build tool has run; whether it reported success.
    Built(bool),
    /// The contents of the archive.
    Archive(Vec<u8>),
    /// Whether the path exists.
    Probed(bool),
    /// The record as text.
    Encoded(String),
}

pub enum EventView {
    Failed(Seq<char>),
    Done,
    Ledger(Option<Seq<char>>),
    Decoded(Seq<DecodedView>),
    Status(Option<Seq<char>>),
    Manifest(Seq<char>),
    Built(bool),
    Archive(Seq<u8>),
    Probed(bool),
    Encoded(Seq<char>),
}

impl View for Event {
    type V = EventView;

    open spec fn view(&self) -> EventView {
        match self {
            Event::Failed(d) => EventView::Failed(d@),
            Event::Done => EventView::Done,
            Event::Ledger(t) => EventView::Ledger(t.deep_view()),
            Event::Decoded(l) => EventView::Decoded(l.deep_view()),
            Event::Status(t) => EventView::Status(t.deep_view()),
            Event::Manifest(t) => EventView::Manifest(t@),
            Event::Built(ok) => EventView::Built(*ok),
            Event::Archive(b) => EventView::Archive(b@),
            Event::Probed(there) => EventView::Probed(*there),
            Event::Encoded(t) => EventView::Encoded(t@),
        }
    }
}

/// What is to be published, and where.
#[derive(Debug, Clone, PartialEq, Eq)]
pub struct Job {
    pub registry: Registry,
    pub package: Package,
    /// The root of the workspace that the package belongs to.
    pub workspace_root: String,
    /// The directory that the build tool writes to.
    pub target_directory: String,
}

pub struct JobView {
    /// The root of the registry.
    pub registry: Seq<char>,
    pub package: PackageView,
    pub workspace_root: Seq<char>,
    pub target_directory: Seq<char>,
}

impl View for Job {
    type V = JobView;

    open spec fn view(&self) -> JobView {
        JobView {
            registry: self.registry.0@,
            package: self.package@,
            workspace_root: self.workspace_root@,
            target_directory: self.target_directory@,
        }
    }
}

/// How far a flow has come: what it is waiting for.
#[derive(Debug, Clone, PartialEq, Eq)]
pub enum Phase {
    /// For the text of the ledger.
    Ledger,
    /// For the records of these lines.
    Records { lines: Vec<String> },
    /// For the status of the working tree.
    Status,
    /// For the text of the manifest.
    Manifest,
    /// For the manifest to be moved aside; `edited` will take its place.
    Snapshot { edited: String },
    /// For `edited` to be written where the manifest was.
    Rewrite { edited: String },
    /// For the directory of the archives.
    ArchiveDir,
    /// For the build tool.
    Build,
    /// For the manifest to be put back; `failure` is what went wrong before.
    Restore { failure: Option<PublishError> },
    /// For the contents of the archive.
    Archive,
    /// For the place of the archive to be looked at.
    Probe { checksum: String },
    /// For the archive to be copied in place.
    Place { checksum: String },
    /// For the record as text.
    Record { checksum: String },
    /// For the record to be appended.
    Append { checksum: String, line: String },
    /// For nothing: the flow has ended.
    Finished,
}

pub enum PhaseView {
    Ledger,
    Records { lines: Seq<Seq<char>> },
    Status,
    Manifest,
    Snapshot { edited: Seq<char> },
    Rewrite { edited: Seq<char> },
    ArchiveDir,
    Build,
    Restore { failure: Option<PublishErrorView> },
    Archive,
    Probe { checksum: Seq<char> },
    Place { checksum: Seq<char> },
    Record { checksum: Seq<char> },
    Append { checksum: Seq<char>, line: Seq<char> },
    Finished,
}

impl View for Phase {
    type V = PhaseView;

    open spec fn view(&self) -> PhaseView {
        match self {
            Phase::Ledger => PhaseView::Ledger,
            Phase::Records { lines } => PhaseView::Records { lines: lines.deep_view() },
            Phase::Status => PhaseView::Status,
            Phase::Manifest => PhaseView::Manifest,
            Phase::Snapshot { edited } => PhaseView::Snapshot { edited: edited@ },
            Phase::Rewrite { edited } => PhaseView::Rewrite { edited: edited@ },
            Phase::ArchiveDir => PhaseView::ArchiveDir,
            Phase::Build => PhaseView::Build,
            Phase::Restore { failure } => PhaseView::Restore { failure: failure.deep_view() },
            Phase::Archive => PhaseView::Archive,
            Phase::Probe { checksum } => PhaseView::Probe { checksum: checksum@ },
            Phase::Place { checksum } => PhaseView::Place { checksum: checksum@ },
            Phase::Record { checksum } => PhaseView::Record { checksum: checksum@ },
            Phase::Append { checksum, line } => PhaseView::Append {
                checksum: checksum@,
                line: line@,
            },
            Phase::Finished => PhaseView::Finished,
        }
    }
}

/// The publishing of one package, under way.
#[derive(Debug, Clone, PartialEq, Eq)]
pub struct Flow {
    pub job: Job,
    pub phase: Phase,
}

pub struct FlowView {
    pub job: JobView,
    pub phase: PhaseView,
}

impl View for Flow {
    type V = FlowView;

    open spec fn view(&self) -> FlowView {
        FlowView { job: self.job@, phase: self.phase@ }
    }
}

/// What the driver of a flow does next.
#[derive(Debug, Clone, PartialEq, Eq)]
pub enum Next {
    /// Carry out the action and report what became of it.
    Do(Action),
    /// Nothing: the flow has ended.
    Finished(Outcome),
}

pub enum NextView {
    Do(ActionView),
    Finished(OutcomeView),
}

impl View for Next {
    type V = NextView;

    open spec fn view(&self) -> NextView {
        match self {
            Next::Do(a) => NextView::Do(a@),
            Next::Finished(o) => NextView::Finished(o@),
        }
    }
}

/// The arguments that the build tool is run with, to package `name`: all
/// features on, no verification of the archive, and a working tree that may be
/// dirty, since the manifest is.
pub open spec fn build_arguments(name: Seq<char>) -> Seq<Seq<char>> {
    seq!["package"@, "-p"@, name, "--no-verify"@, "--all-features"@, "--allow-dirty"@]
}

impl JobView {
    /// The ledger of the package.
    pub open spec fn ledger(self) -> Seq<char> {
        Registry::ledger_of(self.registry, self.package.name)
    }

    /// The directory of the ledger.
    pub open spec fn shard_dir(self) -> Seq<char> {
        Registry::shard_dir_of(self.registry, self.package.name)
    }

    /// The manifest of the package.
    pub open spec fn manifest(self) -> Seq<char> {
        self.package.manifest_path
    }

    /// Where the manifest is kept while the edited one stands in its place.
    pub open spec fn snapshot(self) -> Seq<char> {
        snapshot_of(self.package.manifest_path)
    }

    /// The directory of the package's archives.
    pub open spec fn archive_dir(self) -> Seq<char> {
        Registry::archives_of(self.registry, self.package.name)
    }

    /// The place of the archive of the package's version.
    pub open spec fn archive(self) -> Seq<char> {
        Registry::archive_of(self.registry, self.package.name, self.package.version)
    }

    /// Where the build tool leaves the archive.
    pub open spec fn packaged(self) -> Seq<char> {
        below(
            below(self.target_directory, "package"@),
            archive_file(self.package.name, self.package.version),
        )
    }
}

/// The action that a flow is waiting for; none once it has ended.
pub open spec fn awaited(flow: FlowView) -> Option<ActionView> {
    let job = flow.job;
    match flow.phase {
        PhaseView::Ledger => Some(ActionView::ReadLedger { path: job.ledger() }),
        PhaseView::Records { lines } => Some(ActionView::Decode { lines }),
        PhaseView::Status => Some(ActionView::QueryStatus { dir: job.workspace_root }),
        PhaseView::Manifest => Some(ActionView::ReadManifest { path: job.manifest() }),
        PhaseView::Snapshot { edited } => Some(
            ActionView::Rename { from: job.manifest(), to: job.snapshot() },
        ),
        PhaseView::Rewrite { edited } => Some(
            ActionView::WriteFile { path: job.manifest(), contents: edited },
        ),
        PhaseView::ArchiveDir => Some(ActionView::CreateDir { path: job.archive_dir() }),
        PhaseView::Build => Some(
            ActionView::Build {
                manifest: job.manifest(),
                arguments: build_arguments(job.package.name),
            },
        ),
        PhaseView::Restore { failure } => Some(
            ActionView::Rename { from: job.snapshot(), to: job.manifest() },
        ),
        PhaseView::Archive => Some(ActionView::ReadArchive { path: job.packaged() }),
        PhaseView::Probe { checksum } => Some(ActionView::Probe { path: job.archive() }),
        PhaseView::Place { checksum } => Some(
            ActionView::Copy { from: job.packaged(), to: job.archive() },
        ),
        PhaseView::Record { checksum } => Some(
            ActionView::Encode { record: record_of(job.package, checksum) },
        ),
        PhaseView::Append { checksum, line } => Some(
            ActionView::Append { dir: job.shard_dir(), path: job.ledger(), line },
        ),
        PhaseView::Finished => None,
    }
}

/// How a flow goes on: into another phase, or to its end.
pub enum Turn {
    Go(PhaseView),
    End(OutcomeView),
}

/// The error for an event that is not the awaited answer: the reason of an
/// action that failed, or that the event was not expected at all.
pub open spec fn failure(event: EventView) -> PublishErrorView {
    match event {
        EventView::Failed(reason) => PublishErrorView::Io(reason),
        _ => PublishErrorView::Unexpected,
    }
}

/// How a flow goes on once the status of the working tree is known.
pub open spec fn after_status(status: Option<Seq<char>>) -> Turn {
    let found = dirt(status);
    if found.len() == 0 {
        Turn::Go(PhaseView::Manifest)
    } else {
        Turn::End(
            OutcomeView::Failed(PublishErrorView::DirtyTree(DirtyTreeErrorView { paths: found })),
        )
    }
}

/// How a flow goes on once the ledger's lines are decoded.
pub open spec fn after_records(version: Seq<char>, decoded: Seq<DecodedView>) -> Turn {
    match ledger_of_decoded(decoded) {
        Err(e) => Turn::End(OutcomeView::Failed(PublishErrorView::Ledger(e))),
        Ok(entries) => if published(entries, version) {
            Turn::End(OutcomeView::Skipped(Skip::AlreadyPublished))
        } else {
            Turn::Go(PhaseView::Status)
        },
    }
}

/// How a flow goes on once the record is there as text. A record is one line.
pub open spec fn after_encoding(checksum: Seq<char>, text: Seq<char>) -> Turn {
    if occurs_in("\n"@, text) {
        Turn::End(
            OutcomeView::Failed(
                PublishErrorView::LedgerWrite("the record spans more than one line"@),
            ),
        )
    } else {
        Turn::Go(PhaseView::Append { checksum, line: text + "\n"@ })
    }
}

/// How the flow `flow` goes on when it is told of `event`. `edited` is the
/// manifest after the edit for packaging, or why it cannot be edited; it
/// counts only where the event brings the manifest's text.
///
/// Until the manifest has been moved aside, and again after it has been put
/// back, whatever goes wrong ends the flow. In between nothing does: the flow
/// goes on to put the manifest back, and fails only then. That the manifest
/// cannot be put back is an error of its own. That version control cannot be
/// asked is no error at all: the working tree then counts as one that is not
/// under version control.
pub open spec fn turn(
    flow: FlowView,
    event: EventView,
    edited: Result<Seq<char>, ManifestErrorView>,
) -> Turn {
    let job = flow.job;
    let fail = Turn::End(OutcomeView::Failed(failure(event)));
    let restore = Turn::Go(PhaseView::Restore { failure: Some(failure(event)) });
    match flow.phase {
        PhaseView::Ledger => match event {
            EventView::Ledger(None) => Turn::Go(PhaseView::Status),
            EventView::Ledger(Some(text)) => Turn::Go(PhaseView::Records { lines: records(text) }),
            _ => fail,
        },
        PhaseView::Records { lines } => match event {
            EventView::Decoded(decoded) => after_records(job.package.version, decoded),
            _ => fail,
        },
        PhaseView::Status => match event {
            EventView::Status(status) => after_status(status),
            EventView::Failed(reason) => after_status(None),
            _ => fail,
        },
        PhaseView::Manifest => match event {
            EventView::Manifest(text) => match edited {
                Ok(edited) => Turn::Go(PhaseView::Snapshot { edited }),
                Err(e) => Turn::End(OutcomeView::Failed(PublishErrorView::Manifest(e))),
            },
            _ => fail,
        },
        PhaseView::Snapshot { edited } => match event {
            EventView::Done => Turn::Go(PhaseView::Rewrite { edited }),
            _ => fail,
        },
        PhaseView::Rewrite { edited } => match event {
            EventView::Done => Turn::Go(PhaseView::ArchiveDir),
            _ => restore,
        },
        PhaseView::ArchiveDir => match event {
            EventView::Done => Turn::Go(PhaseView::Build),
            _ => restore,
        },
        PhaseView::Build => match event {
            EventView::Built(true) => Turn::Go(PhaseView::Restore { failure: None }),
            EventView::Built(false) => Turn::Go(
                PhaseView::Restore { failure: Some(PublishErrorView::Build) },
            ),
            _ => restore,
        },
        PhaseView::Restore { failure } => match event {
            EventView::Done => match failure {
                Some(e) => Turn::End(OutcomeView::Failed(e)),
                None => Turn::Go(PhaseView::Archive),
            },
            EventView::Failed(reason) => Turn::End(
                OutcomeView::Failed(PublishErrorView::ManifestNotRestored(reason)),
            ),
            _ => Turn::End(
                OutcomeView::Failed(PublishErrorView::ManifestNotRestored(Seq::empty())),
            ),
        },
        PhaseView::Archive => match event {
            EventView::Archive(data) => Turn::Go(PhaseView::Probe { checksum: hex(sha256(data)) }),
            EventView::Failed(reason) => Turn::End(
                OutcomeView::Failed(PublishErrorView::ChecksumIo(reason)),
            ),
            _ => fail,
        },
        PhaseView::Probe { checksum } => match event {
            EventView::Probed(true) => Turn::End(
                OutcomeView::Failed(PublishErrorView::AlreadyExists(job.archive())),
            ),
            EventView::Probed(false) => Turn::Go(PhaseView::Place { checksum }),
            _ => fail,
        },
        PhaseView::Place { checksum } => match event {
            EventView::Done => Turn::Go(PhaseView::Record { checksum }),
            _ => fail,
        },
        PhaseView::Record { checksum } => match event {
            EventView::Encoded(text) => after_encoding(checksum, text),
            EventView::Failed(reason) => Turn::End(
                OutcomeView::Failed(PublishErrorView::LedgerWrite(reason)),
            ),
            _ => fail,
        },
        PhaseView::Append { checksum, line } => match event {
            EventView::Done => Turn::End(
                OutcomeView::Published(record_of(job.package, checksum)),
            ),
            EventView::Failed(reason) => Turn::End(
                OutcomeView::Failed(PublishErrorView::LedgerWrite(reason)),
            ),
            _ => fail,
        },
        PhaseView::Finished => fail,
    }
}

/// The flow after a turn, with what its driver does next.
pub open spec fn settled(job: JobView, turn: Turn) -> (FlowView, NextView) {
    match turn {
        Turn::Go(phase) => {
            let flow = FlowView { job, phase };
            match awaited(flow) {
                Some(action) => (flow, NextView::Do(action)),
                None => (
                    flow,
                    NextView::Finished(OutcomeView::Failed(PublishErrorView::Unexpected)),
                ),
            }
        },
        Turn::End(outcome) => (
            FlowView { job, phase: PhaseView::Finished },
            NextView::Finished(outcome),
        ),
    }
}

/// The flow that publishes `job`, with its first action. A package without a
/// library or a procedural macro is skipped at once.
pub open spec fn started(job: JobView) -> (FlowView, NextView) {
    if has_library(job.package.targets) {
        settled(job, Turn::Go(PhaseView::Ledger))
    } else {
        settled(job, Turn::End(OutcomeView::Skipped(Skip::NotALibrary)))
    }
}

/// The flow `flow` after it is told of `event`, with what its driver does
/// next.
pub open spec fn react(
    flow: FlowView,
    event: EventView,
    edited: Result<Seq<char>, ManifestErrorView>,
) -> (FlowView, NextView) {
    settled(flow.job, turn(flow, event, edited))
}

/// Whether `edited` is what editing the manifest in `event` gives, where the
/// event brings one.
pub open spec fn edit_agrees(event: EventView, edited: Result<Seq<char>, ManifestErrorView>) -> bool {
    event matches EventView::Manifest(text) ==> is_edit_of(text, edited)
}

enum Way {
    Go(Phase),
    End(Outcome),
}

impl View for Way {
    type V = Turn;

    closed spec fn view(&self) -> Turn {
        match self {
            Way::Go(phase) => Turn::Go(phase@),
            Way::End(outcome) => Turn::End(outcome@),
        }
    }
}

fn failure_of(event: Event) -> (e: PublishError)
    ensures
        e@ == failure(event@),
{
    match event {
        Event::Failed(reason) => PublishError::Io(reason),
        _ => PublishError::Unexpected,
    }
}

fn way_after_status(status: Option<&str>) -> (way: Way)
    ensures
        way@ == after_status(status.deep_view()),
{
    match check_dirty(status) {
        Ok(_) => Way::Go(Phase::Manifest),
        Err(e) => Way::End(Outcome::Failed(PublishError::DirtyTree(e))),
    }
}

fn way_after_records(version: &str, decoded: Vec<Decoded>) -> (way: Way)
    ensures
        way@ == after_records(version@, decoded.deep_view()),
{
    match ledger_entries(decoded) {
        Err(e) => Way::End(Outcome::Failed(PublishError::Ledger(e))),
        Ok(entries) => {
            if is_published(&entries, version) {
                Way::End(Outcome::Skipped(Skip::AlreadyPublished))
            } else {
                Way::Go(Phase::Status)
            }
        },
    }
}

fn way_after_encoding(checksum: String, text: String) -> (way: Way)
    ensures
        way@ == after_encoding(checksum@, text@),
{
    if contains(text.as_str(), "\n") {
        Way::End(
            Outcome::Failed(
                PublishError::LedgerWrite("the record spans more than one line".to_owned()),
            ),
        )
    } else {
        Way::Go(Phase::Append { checksum, line: append_text(text.as_str(), "\n") })
    }
}

/// The arguments that the build tool is run with, to package `name`.
pub fn build_args(name: &str) -> (r: Vec<String>)
    ensures
        r.deep_view() == build_arguments(name@),
{
    let mut r: Vec<String> = Vec::new();
    r.push("package".to_owned());
    r.push("-p".to_owned());
    r.push(name.to_owned());
    r.push("--no-verify".to_owned());
    r.push("--all-features".to_owned());
    r.push("--allow-dirty".to_owned());
    assert(r.deep_view() =~= build_arguments(name@));
    r
}

impl Job {
    /// The manifest of the package.
    pub fn manifest(&self) -> (r: String)
        ensures
            r@ == self@.manifest(),
    {
        self.package.manifest_path.clone()
    }

    /// Where the manifest is kept while the edited one stands in its place.
    pub fn snapshot(&self) -> (r: String)
        ensures
            r@ == self@.snapshot(),
    {
        snapshot_path(self.package.manifest_path.as_str())
    }

    /// The ledger of the package.
    pub fn ledger(&self) -> (r: String)
        ensures
            r@ == self@.ledger(),
    {
        self.registry.package_index(self.package.name.as_str())
    }

    /// The place of the archive of the package's version.
    pub fn archive(&self) -> (r: String)
        ensures
            r@ == self@.archive(),
    {
        self.registry.archive_path(self.package.name.as_str(), self.package.version.as_str())
    }

    /// Where the build tool leaves the archive.
    pub fn packaged(&self) -> (r: String)
        ensures
            r@ == self@.packaged(),
    {
        packaged_archive(
            self.target_directory.as_str(),
            self.package.name.as_str(),
            self.package.version.as_str(),
        )
    }
}

impl Registry {
    /// Starts to add the package `package` to the registry: the flow that
    /// publishes it, with its first action. `workspace_root` is the root of the
    /// workspace that the package belongs to, `target_directory` the directory
    /// that the build tool writes to.
    pub fn add_package(
        &self,
        package: Package,
        workspace_root: &str,
        target_directory: &str,
    ) -> (r: (Flow, Next))
        ensures
            (r.0@, r.1@) == started(
                JobView {
                    registry: self.0@,
                    package: package@,
                    workspace_root: workspace_root@,
                    target_directory: target_directory@,
                },
            ),
    {
        Flow::begin(
            Job {
                registry: Registry(self.0.clone()),
                package,
                workspace_root: workspace_root.to_owned(),
                target_directory: target_directory.to_owned(),
            },
        )
    }
}

impl Flow {
    /// The action that the flow is waiting for; none once it has ended.
    pub fn pending(&self) -> (r: Option<Action>)
        ensures
            match r {
                Some(action) => awaited(self@) == Some(action@),
                None => awaited(self@) is None,
            },
    {
        let job = &self.job;
        match &self.phase {
            Phase::Ledger => Some(Action::ReadLedger { path: job.ledger() }),
            Phase::Records { lines } => Some(Action::Decode { lines: clone_texts(lines) }),
            Phase::Status => Some(Action::QueryStatus { dir: job.workspace_root.clone() }),
            Phase::Manifest => Some(Action::ReadManifest { path: job.manifest() }),
            Phase::Snapshot { edited } => Some(
                Action::Rename { from: job.manifest(), to: job.snapshot() },
            ),
            Phase::Rewrite { edited } => Some(
                Action::WriteFile { path: job.manifest(), contents: edited.clone() },
            ),
            Phase::ArchiveDir => Some(
                Action::CreateDir { path: job.registry.archive_dir(job.package.name.as_str()) },
            ),
            Phase::Build => Some(
                Action::Build {
                    manifest: job.manifest(),
                    arguments: build_args(job.package.name.as_str()),
                },
            ),
            Phase::Restore { failure } => Some(
                Action::Rename { from: job.snapshot(), to: job.manifest() },
            ),
            Phase::Archive => Some(Action::ReadArchive { path: job.packaged() }),
            Phase::Probe { checksum } => Some(Action::Probe { path: job.archive() }),
            Phase::Place { checksum } => Some(
                Action::Copy { from: job.packaged(), to: job.archive() },
            ),
            Phase::Record { checksum } => Some(
                Action::Encode { record: IndexMeta::from_package(&job.package, checksum.clone()) },
            ),
            Phase::Append { checksum, line } => Some(
                Action::Append {
                    dir: job.registry.shard_dir(job.package.name.as_str()),
                    path: job.ledger(),
                    line: line.clone(),
                },
            ),
            Phase::Finished => None,
        }
    }

    fn settle(job: Job, way: Way) -> (r: (Flow, Next))
        ensures
            (r.0@, r.1@) == settled(job@, way@),
    {
        match way {
            Way::Go(phase) => {
                let flow = Flow { job, phase };
                match flow.pending() {
                    Some(action) => (flow, Next::Do(action)),
                    None => (flow, Next::Finished(Outcome::Failed(PublishError::Unexpected))),
                }
            },
            Way::End(outcome) => (Flow { job, phase: Phase::Finished }, Next::Finished(outcome)),
        }
    }

    /// Starts to publish `job`. A package without a library or a procedural
    /// macro is skipped at once; for any other the ledger is read first.
    pub fn begin(job: Job) -> (r: (Flow, Next))
        ensures
            (r.0@, r.1@) == started(job@),
    {
        if job.package.is_library() {
            Flow::settle(job, Way::Go(Phase::Ledger))
        } else {
            Flow::settle(job, Way::End(Outcome::Skipped(Skip::NotALibrary)))
        }
    }

    /// Goes on after `event`, where the edit of the manifest, if the event
    /// brings one, has given `edited`.
    pub fn advance(self, event: Event, edited: Result<String, ManifestError>) -> (r: (Flow, Next))
        ensures
            (r.0@, r.1@) == react(self@, event@, edit_view(edited)),
    {
        let Flow { job, phase } = self;
        let way = match phase {
            Phase::Ledger => match event {
                Event::Ledger(None) => Way::Go(Phase::Status),
                Event::Ledger(Some(text)) => Way::Go(
                    Phase::Records { lines: ledger_lines(text.as_str()) },
                ),
                other => Way::End(Outcome::Failed(failure_of(other))),
            },
            Phase::Records { lines } => match event {
                Event::Decoded(decoded) => way_after_records(
                    job.package.version.as_str(),
                    decoded,
                ),
                other => Way::End(Outcome::Failed(failure_of(other))),
            },
            Phase::Status => match event {
                Event::Status(Some(report)) => way_after_status(Some(report.as_str())),
                Event::Status(None) => way_after_status(None),
                Event::Failed(reason) => way_after_status(None),
                other => Way::End(Outcome::Failed(failure_of(other))),
            },
            Phase::Manifest => match event {
                Event::Manifest(text) => match edited {
                    Ok(edited) => Way::Go(Phase::Snapshot { edited }),
                    Err(e) => Way::End(Outcome::Failed(PublishError::Manifest(e))),
                },
                other => Way::End(Outcome::Failed(failure_of(other))),
            },
            Phase::Snapshot { edited } => match event {
                Event::Done => Way::Go(Phase::Rewrite { edited }),
                other => Way::End(Outcome::Failed(failure_of(other))),
            },
            Phase::Rewrite { edited } => match event {
                Event::Done => Way::Go(Phase::ArchiveDir),
                other => Way::Go(Phase::Restore { failure: Some(failure_of(other)) }),
            },
            Phase::ArchiveDir => match event {
                Event::Done => Way::Go(Phase::Build),
                other => Way::Go(Phase::Restore { failure: Some(failure_of(other)) }),
            },
            Phase::Build => match event {
                Event::Built(true) => Way::Go(Phase::Restore { failure: None }),
                Event::Built(false) => Way::Go(
                    Phase::Restore { failure: Some(PublishError::Build) },
                ),
                other => Way::Go(Phase::Restore { failure: Some(failure_of(other)) }),
            },
            Phase::Restore { failure } => match event {
                Event::Done => match failure {
                    Some(e) => Way::End(Outcome::Failed(e)),
                    None => Way::Go(Phase::Archive),
                },
                Event::Failed(reason) => Way::End(
                    Outcome::Failed(PublishError::ManifestNotRestored(reason)),
                ),
                _ => Way::End(Outcome::Failed(PublishError::ManifestNotRestored(String::new()))),
            },
            Phase::Archive => match event {
                Event::Archive(data) => Way::Go(
                    Phase::Probe { checksum: checksum(data.as_slice()) },
                ),
                Event::Failed(reason) => Way::End(
                    Outcome::Failed(PublishError::ChecksumIo(reason)),
                ),
                other => Way::End(Outcome::Failed(failure_of(other))),
            },
            Phase::Probe { checksum } => match event {
                Event::Probed(true) => Way::End(
                    Outcome::Failed(PublishError::AlreadyExists(job.archive())),
                ),
                Event::Probed(false) => Way::Go(Phase::Place { checksum }),
                other => Way::End(Outcome::Failed(failure_of(other))),
            },
            Phase::Place { checksum } => match event {
                Event::Done => Way::Go(Phase::Record { checksum }),
                other => Way::End(Outcome::Failed(failure_of(other))),
            },
            Phase::Record { checksum } => match event {
                Event::Encoded(text) => way_after_encoding(checksum, text),
                Event::Failed(reason) => Way::End(
                    Outcome::Failed(PublishError::LedgerWrite(reason)),
                ),
                other => Way::End(Outcome::Failed(failure_of(other))),
            },
            Phase::Append { checksum, line } => match event {
                Event::Done => Way::End(
                    Outcome::Published(IndexMeta::from_package(&job.package, checksum)),
                ),
                Event::Failed(reason) => Way::End(
                    Outcome::Failed(PublishError::LedgerWrite(reason)),
                ),
                other => Way::End(Outcome::Failed(failure_of(other))),
            },
            Phase::Finished => Way::End(Outcome::Failed(failure_of(event))),
        };
        Flow::settle(job, way)
    }

    /// Goes on after `event`. Where the event brings the manifest's text, the
    /// manifest is edited for packaging first.
    pub fn step(self, event: Event) -> (r: (Flow, Next))
        ensures
            exists|edited: Result<Seq<char>, ManifestErrorView>|
                edit_agrees(event@, edited) && #[trigger] react(self@, event@, edited) == (
                    r.0@,
                    r.1@,
                ),
    {
        let edited = match &event {
            Event::Manifest(text) => edit_manifest(text.as_str()),
            _ => Err(ManifestError::Parse(String::new())),
        };
        let ghost e = edit_view(edited);
        let r = self.advance(event, edited);
        assert(edit_agrees(event@, e) && react(self@, event@, e) == (r.0@, r.1@));
        r
    }
}

} // verus!
