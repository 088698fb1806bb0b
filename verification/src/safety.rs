//! What every run of a flow keeps: the manifest of the package, an archive
//! that is already in place, and a ledger that already holds the version.

use vstd::prelude::*;
use crate::checksum::{hex, sha256};
use crate::dirty::{dirt, DirtyTreeErrorView};
use crate::index::{
    distinct_versions, ledger_of_decoded, lemma_ledger_of_appended, lemma_records_of_appended,
    lemma_versions_stay_distinct, published, record_of, records, DecodedView, IndexMetaView,
};
use crate::layout::snapshot_of;
use crate::manifest::{edited_manifest, ManifestErrorView, ManifestFailure};
use crate::package::has_library;
use crate::publish::{
    after_records, awaited, edit_agrees, react, settled, started, turn, ActionView, EventView,
    FlowView,
    JobView, NextView, OutcomeView, PhaseView, PublishErrorView, Skip, Turn,
};
use crate::text::{is_blank, occurs_at, occurs_in};
use crate::tree::{
    answers, decoded, ending, performed, same_at, text_at, truthful, unfolds, Content, Moment,
    Outside, Tree,
};

verus! {

/// The snapshot of a manifest is another file than the manifest.
pub proof fn lemma_snapshot_apart(manifest: Seq<char>)
    ensures
        snapshot_of(manifest) != manifest,
{
    reveal_strlit(".pre-edit");
    assert(snapshot_of(manifest).len() == manifest.len() + 9);
}

/// In the step `m` the driver carries out what `flow` waits for, and reports it
/// as it was.
pub open spec fn stepped(flow: FlowView, tree: Tree, m: Moment, outside: Outside) -> bool {
    awaited(flow) matches Some(action) && answers(action, m.event) && truthful(
        action,
        m.event,
        tree,
        outside,
    ) && performed(action, m.event, tree, m.tree, outside)
}

/// What `next` tells the driver is what the flow waits for.
pub open spec fn in_step(flow: FlowView, next: NextView) -> bool {
    match awaited(flow) {
        Some(action) => next == NextView::Do(action),
        None => next is Finished,
    }
}

/// The file at `path` holds `content`.
pub open spec fn holds(tree: Tree, path: Seq<char>, content: Content) -> bool {
    tree.contains_key(path) && tree[path] == content
}

/// Where the contents that the manifest had at first are while a flow runs:
/// in the snapshot from the moment the manifest is moved aside until it is put
/// back, in the manifest before and after. A flow that has ended has left them
/// in the manifest, unless it ended because the manifest could not be put
/// back. While a flow waits for the archive to be copied, nothing is in the
/// archive's place.
pub open spec fn manifest_safe(flow: FlowView, next: NextView, tree: Tree, original: Content) -> bool {
    let job = flow.job;
    &&& in_step(flow, next)
    &&& match flow.phase {
        PhaseView::Rewrite { .. } | PhaseView::ArchiveDir | PhaseView::Build | PhaseView::Restore {
            ..
        } => holds(tree, job.snapshot(), original),
        PhaseView::Place { .. } => holds(tree, job.manifest(), original) && !tree.contains_key(
            job.archive(),
        ),
        PhaseView::Finished => next matches NextView::Finished(outcome) && (outcome
            matches OutcomeView::Failed(PublishErrorView::ManifestNotRestored(_)) || holds(
            tree,
            job.manifest(),
            original,
        )),
        _ => holds(tree, job.manifest(), original),
    }
}

/// What the laws on the manifest suppose of the files: the build tool leaves
/// the manifest and its snapshot alone, and the ledger is another file than
/// the manifest.
pub open spec fn manifest_apart(job: JobView, outside: Outside) -> bool {
    &&& outside.kept.contains(job.manifest())
    &&& outside.kept.contains(job.snapshot())
    &&& job.ledger() != job.manifest()
}

/// One step keeps the manifest's first contents where `manifest_safe` says.
pub proof fn lemma_manifest_safe_step(
    flow: FlowView,
    next: NextView,
    tree: Tree,
    m: Moment,
    outside: Outside,
    original: Content,
)
    requires
        manifest_safe(flow, next, tree, original),
        manifest_apart(flow.job, outside),
        stepped(flow, tree, m, outside),
    ensures
        react(flow, m.event, m.edited).0.job == flow.job,
        manifest_safe(
            react(flow, m.event, m.edited).0,
            react(flow, m.event, m.edited).1,
            m.tree,
            original,
        ),
{
    lemma_snapshot_apart(flow.job.manifest());
    let t = turn(flow, m.event, m.edited);
    let (f, n) = settled(flow.job, t);
    assert(react(flow, m.event, m.edited) == (f, n));
    if flow.phase is Rewrite {
        assert(same_at(tree, m.tree, flow.job.snapshot()));
    }
    if flow.phase is Place || flow.phase is Append {
        assert(same_at(tree, m.tree, flow.job.manifest()));
    }
}

/// A run keeps the manifest's first contents where `manifest_safe` says.
pub proof fn lemma_manifest_safe_run(
    flow: FlowView,
    next: NextView,
    tree: Tree,
    moments: Seq<Moment>,
    outside: Outside,
    original: Content,
)
    requires
        manifest_safe(flow, next, tree, original),
        manifest_apart(flow.job, outside),
        unfolds(flow, tree, moments, outside),
    ensures
        ({
            let (f, n, t) = ending(flow, next, tree, moments);
            f.job == flow.job && manifest_safe(f, n, t, original)
        }),
    decreases moments.len(),
{
    if moments.len() > 0 {
        let m = moments[0];
        lemma_manifest_safe_step(flow, next, tree, m, outside, original);
        let (f, n) = react(flow, m.event, m.edited);
        lemma_manifest_safe_run(f, n, m.tree, moments.drop_first(), outside, original);
    }
}

/// When a flow has ended, the manifest holds what it held before the flow
/// began, whether the build succeeded or failed and whatever else went wrong;
/// unless the flow ended because the manifest could not be put back.
///
/// This is said of every run in which the driver carries out each action and
/// reports it as it was, on files of which `manifest_apart` holds.
pub proof fn lemma_manifest_restored(
    job: JobView,
    tree: Tree,
    moments: Seq<Moment>,
    outside: Outside,
)
    requires
        tree.contains_key(job.manifest()),
        manifest_apart(job, outside),
        unfolds(started(job).0, tree, moments, outside),
    ensures
        ({
            let (flow, next, last) = ending(started(job).0, started(job).1, tree, moments);
            next matches NextView::Finished(outcome) ==> (outcome
                matches OutcomeView::Failed(PublishErrorView::ManifestNotRestored(_)) || holds(
                last,
                job.manifest(),
                tree[job.manifest()],
            ))
        }),
{
    let (flow, next) = started(job);
    let original = tree[job.manifest()];
    assert(manifest_safe(flow, next, tree, original));
    lemma_manifest_safe_run(flow, next, tree, moments, outside, original);
}

/// What the law on an archive in place supposes of the files: the build tool
/// leaves the archive alone, and neither the manifest nor its snapshot lies
/// where the archive does.
pub open spec fn archive_apart(job: JobView, outside: Outside) -> bool {
    &&& outside.kept.contains(job.archive())
    &&& job.archive() != job.manifest()
    &&& job.archive() != job.snapshot()
}

/// While a flow runs on files that hold an archive of the version, that
/// archive stays as it is, and the flow does not get as far as to copy
/// another over it.
pub open spec fn archive_safe(flow: FlowView, next: NextView, tree: Tree, original: Content) -> bool {
    &&& in_step(flow, next)
    &&& holds(tree, flow.job.archive(), original)
    &&& !(flow.phase is Place || flow.phase is Record || flow.phase is Append)
    &&& !(next matches NextView::Finished(OutcomeView::Published(_)))
}

/// One step leaves an archive that is in place as it is.
pub proof fn lemma_archive_safe_step(
    flow: FlowView,
    next: NextView,
    tree: Tree,
    m: Moment,
    outside: Outside,
    original: Content,
)
    requires
        archive_safe(flow, next, tree, original),
        archive_apart(flow.job, outside),
        stepped(flow, tree, m, outside),
    ensures
        react(flow, m.event, m.edited).0.job == flow.job,
        archive_safe(
            react(flow, m.event, m.edited).0,
            react(flow, m.event, m.edited).1,
            m.tree,
            original,
        ),
{
    let t = turn(flow, m.event, m.edited);
    let (f, n) = settled(flow.job, t);
    assert(react(flow, m.event, m.edited) == (f, n));
    assert(same_at(tree, m.tree, flow.job.archive()));
}

/// A run leaves an archive that is in place as it is.
pub proof fn lemma_archive_safe_run(
    flow: FlowView,
    next: NextView,
    tree: Tree,
    moments: Seq<Moment>,
    outside: Outside,
    original: Content,
)
    requires
        archive_safe(flow, next, tree, original),
        archive_apart(flow.job, outside),
        unfolds(flow, tree, moments, outside),
    ensures
        ({
            let (f, n, t) = ending(flow, next, tree, moments);
            f.job == flow.job && archive_safe(f, n, t, original)
        }),
    decreases moments.len(),
{
    if moments.len() > 0 {
        let m = moments[0];
        lemma_archive_safe_step(flow, next, tree, m, outside, original);
        let (f, n) = react(flow, m.event, m.edited);
        lemma_archive_safe_run(f, n, m.tree, moments.drop_first(), outside, original);
    }
}

/// Where an archive of the version is already in place, no run changes it,
/// and none ends with the package published.
///
/// This is said of every run in which the driver carries out each action and
/// reports it as it was, on files of which `archive_apart` holds.
pub proof fn lemma_archive_untouched(
    job: JobView,
    tree: Tree,
    moments: Seq<Moment>,
    outside: Outside,
)
    requires
        tree.contains_key(job.archive()),
        archive_apart(job, outside),
        unfolds(started(job).0, tree, moments, outside),
    ensures
        ({
            let (flow, next, last) = ending(started(job).0, started(job).1, tree, moments);
            &&& holds(last, job.archive(), tree[job.archive()])
            &&& !(next matches NextView::Finished(OutcomeView::Published(_)))
        }),
{
    let (flow, next) = started(job);
    lemma_archive_safe_run(flow, next, tree, moments, outside, tree[job.archive()]);
}

/// A flow that is told that the archive's place is taken ends at once: it
/// fails with `AlreadyExists`, which names the place, and asks for nothing
/// more to be done.
pub proof fn lemma_taken_place_fails(flow: FlowView, edited: Result<Seq<char>, ManifestErrorView>)
    requires
        flow.phase is Probe,
    ensures
        react(flow, EventView::Probed(true), edited).1 == NextView::Finished(
            OutcomeView::Failed(PublishErrorView::AlreadyExists(flow.job.archive())),
        ),
        react(flow, EventView::Probed(true), edited).0.phase is Finished,
{
}

/// The ledger of the package holds a record of the package's version.
pub open spec fn ledger_holds_version(job: JobView, tree: Tree, outside: Outside) -> bool {
    &&& tree.contains_key(job.ledger())
    &&& tree[job.ledger()] matches Content::Text(text) && after_records(
        job.package.version,
        decoded(records(text), outside),
    ) == Turn::End(OutcomeView::Skipped(Skip::AlreadyPublished))
}

/// How a flow ends that leaves the package alone: a package without a library
/// is skipped as such, any other because its version is published.
pub open spec fn skip_of(job: JobView) -> OutcomeView {
    if has_library(job.package.targets) {
        OutcomeView::Skipped(Skip::AlreadyPublished)
    } else {
        OutcomeView::Skipped(Skip::NotALibrary)
    }
}

/// A flow on a ledger that holds the version only reads, and ends with a skip
/// or because it could not read.
pub open spec fn only_reads(flow: FlowView, next: NextView, tree: Tree) -> bool {
    &&& in_step(flow, next)
    &&& match flow.phase {
        PhaseView::Ledger => has_library(flow.job.package.targets),
        PhaseView::Records { lines } => has_library(flow.job.package.targets) && (tree[flow.job.ledger()]
            matches Content::Text(text) && lines == records(text)),
        PhaseView::Finished => next matches NextView::Finished(outcome) && (outcome
            == skip_of(flow.job) || outcome matches OutcomeView::Failed(PublishErrorView::Io(_))),
        _ => false,
    }
}

/// One step of a flow on a ledger that holds the version changes no file.
pub proof fn lemma_only_reads_step(
    flow: FlowView,
    next: NextView,
    tree: Tree,
    m: Moment,
    outside: Outside,
)
    requires
        only_reads(flow, next, tree),
        ledger_holds_version(flow.job, tree, outside),
        stepped(flow, tree, m, outside),
    ensures
        react(flow, m.event, m.edited).0.job == flow.job,
        m.tree == tree,
        only_reads(react(flow, m.event, m.edited).0, react(flow, m.event, m.edited).1, tree),
{
    let t = turn(flow, m.event, m.edited);
    let (f, n) = settled(flow.job, t);
    assert(react(flow, m.event, m.edited) == (f, n));
}

/// A run of a flow on a ledger that holds the version changes no file.
pub proof fn lemma_only_reads_run(
    flow: FlowView,
    next: NextView,
    tree: Tree,
    moments: Seq<Moment>,
    outside: Outside,
)
    requires
        only_reads(flow, next, tree),
        ledger_holds_version(flow.job, tree, outside),
        unfolds(flow, tree, moments, outside),
    ensures
        ({
            let (f, n, t) = ending(flow, next, tree, moments);
            f.job == flow.job && t == tree && only_reads(f, n, tree)
        }),
    decreases moments.len(),
{
    if moments.len() > 0 {
        let m = moments[0];
        lemma_only_reads_step(flow, next, tree, m, outside);
        let (f, n) = react(flow, m.event, m.edited);
        lemma_only_reads_run(f, n, tree, moments.drop_first(), outside);
    }
}

/// Publishing a version that the ledger already holds changes no file: no
/// line is appended, no archive placed, the manifest never touched. Such a run
/// ends with a skip, which is no error; it fails only where the ledger cannot
/// be read.
pub proof fn lemma_published_version_skipped(
    job: JobView,
    tree: Tree,
    moments: Seq<Moment>,
    outside: Outside,
)
    requires
        ledger_holds_version(job, tree, outside),
        unfolds(started(job).0, tree, moments, outside),
    ensures
        ({
            let (flow, next, last) = ending(started(job).0, started(job).1, tree, moments);
            &&& last == tree
            &&& (next matches NextView::Finished(outcome) ==> (outcome == skip_of(job) || outcome
                matches OutcomeView::Failed(PublishErrorView::Io(_))))
            &&& (next matches NextView::Do(action) ==> (action is ReadLedger || action is Decode))
        }),
{
    let (flow, next) = started(job);
    lemma_only_reads_run(flow, next, tree, moments, outside);
}

/// What the law on publishing twice supposes of the files: the build tool
/// leaves the ledger alone, and neither the manifest, its snapshot nor the
/// archive lies where the ledger does.
pub open spec fn ledger_apart(job: JobView, outside: Outside) -> bool {
    &&& outside.kept.contains(job.ledger())
    &&& job.ledger() != job.manifest()
    &&& job.ledger() != job.snapshot()
    &&& job.ledger() != job.archive()
}

/// What the law on publishing twice supposes of records as text: the record
/// of the package, whatever the checksum, is read back from its text, and its
/// text is not blank and does not end with a carriage return.
pub open spec fn reads_back(job: JobView, outside: Outside) -> bool {
    forall|checksum: Seq<char>|
        {
            let record = #[trigger] record_of(job.package, checksum);
            let text = (outside.encode)(record);
            &&& (outside.decode)(text) == Ok::<IndexMetaView, Seq<char>>(record)
            &&& !is_blank(text)
            &&& text.len() == 0 || text.last() != '\r'
        }
}

/// The file at `path` holds the text `text`; a file that does not exist holds
/// the empty text.
pub open spec fn reads_as(tree: Tree, path: Seq<char>, text: Seq<char>) -> bool {
    if tree.contains_key(path) {
        tree[path] == Content::Text(text)
    } else {
        text.len() == 0
    }
}

/// The ledger with the text `ledger` holds records only, and none of the
/// package's version.
pub open spec fn unpublished(job: JobView, ledger: Seq<char>, outside: Outside) -> bool {
    after_records(job.package.version, decoded(records(ledger), outside)) == Turn::Go(
        PhaseView::Status,
    )
}

/// What becomes of the ledger while a flow runs: it stays as it was until the
/// flow ends with the package published, and then holds one line more, the
/// text of the new record.
pub open spec fn ledger_tracked(
    flow: FlowView,
    next: NextView,
    tree: Tree,
    ledger: Seq<char>,
    outside: Outside,
) -> bool {
    let job = flow.job;
    &&& in_step(flow, next)
    &&& match flow.phase {
        PhaseView::Ledger => reads_as(tree, job.ledger(), ledger),
        PhaseView::Records { lines } => reads_as(tree, job.ledger(), ledger) && lines == records(
            ledger,
        ),
        PhaseView::Append { checksum, line } => {
            let text = (outside.encode)(record_of(job.package, checksum));
            &&& reads_as(tree, job.ledger(), ledger)
            &&& unpublished(job, ledger, outside)
            &&& line == text + "\n"@
            &&& !occurs_in("\n"@, text)
        },
        PhaseView::Finished => next matches NextView::Finished(outcome) && (outcome
            matches OutcomeView::Published(record) ==> {
            let text = (outside.encode)(record);
            &&& record == record_of(job.package, record.cksum)
            &&& unpublished(job, ledger, outside)
            &&& !occurs_in("\n"@, text)
            &&& holds(tree, job.ledger(), Content::Text(ledger + (text + "\n"@)))
        }),
        _ => reads_as(tree, job.ledger(), ledger) && unpublished(job, ledger, outside),
    }
}

/// An empty ledger holds no record of any version.
pub proof fn lemma_empty_unpublished(job: JobView, outside: Outside)
    ensures
        unpublished(job, Seq::empty(), outside),
{
    let none = decoded(records(Seq::empty()), outside);
    assert(records(Seq::empty()) =~= Seq::<Seq<char>>::empty());
    assert(none.len() == 0);
    assert(ledger_of_decoded(none) is Ok);
    assert(ledger_of_decoded(none)->Ok_0.len() == 0);
}

/// One step does to the ledger what `ledger_tracked` says.
pub proof fn lemma_ledger_tracked_step(
    flow: FlowView,
    next: NextView,
    tree: Tree,
    m: Moment,
    ledger: Seq<char>,
    outside: Outside,
)
    requires
        ledger_tracked(flow, next, tree, ledger, outside),
        ledger_apart(flow.job, outside),
        stepped(flow, tree, m, outside),
    ensures
        react(flow, m.event, m.edited).0.job == flow.job,
        ledger_tracked(
            react(flow, m.event, m.edited).0,
            react(flow, m.event, m.edited).1,
            m.tree,
            ledger,
            outside,
        ),
{
    let job = flow.job;
    let t = turn(flow, m.event, m.edited);
    let (f, n) = settled(job, t);
    assert(react(flow, m.event, m.edited) == (f, n));
    if !(flow.phase is Append) {
        assert(same_at(tree, m.tree, job.ledger()));
    }
    match flow.phase {
        PhaseView::Ledger => {
            if m.event matches EventView::Ledger(None) {
                assert(ledger =~= Seq::empty());
                lemma_empty_unpublished(job, outside);
            }
        },
        PhaseView::Append { checksum, line } => {
            if m.event is Done {
                assert(text_at(tree, job.ledger()) == ledger);
            }
        },
        _ => {},
    }
}

/// A run does to the ledger what `ledger_tracked` says.
pub proof fn lemma_ledger_tracked_run(
    flow: FlowView,
    next: NextView,
    tree: Tree,
    moments: Seq<Moment>,
    ledger: Seq<char>,
    outside: Outside,
)
    requires
        ledger_tracked(flow, next, tree, ledger, outside),
        ledger_apart(flow.job, outside),
        unfolds(flow, tree, moments, outside),
    ensures
        ({
            let (f, n, t) = ending(flow, next, tree, moments);
            f.job == flow.job && ledger_tracked(f, n, t, ledger, outside)
        }),
    decreases moments.len(),
{
    if moments.len() > 0 {
        let m = moments[0];
        lemma_ledger_tracked_step(flow, next, tree, m, ledger, outside);
        let (f, n) = react(flow, m.event, m.edited);
        lemma_ledger_tracked_run(f, n, m.tree, moments.drop_first(), ledger, outside);
    }
}

/// A text in which the line feed does not occur holds none.
pub proof fn lemma_no_line_feed(text: Seq<char>)
    requires
        !occurs_in("\n"@, text),
    ensures
        "\n"@ == seq!['\n'],
        forall|i: int| 0 <= i < text.len() ==> text[i] != '\n',
{
    reveal_strlit("\n");
    assert("\n"@ =~= seq!['\n']);
    assert forall|i: int| 0 <= i < text.len() implies text[i] != '\n' by {
        if text[i] == '\n' {
            assert(text.subrange(i, i + 1) =~= seq!['\n']);
            assert(occurs_at("\n"@, text, i));
        }
    }
}

/// The records of the ledger with the text `ledger`, where every line holds
/// one.
pub open spec fn entries_of(ledger: Seq<char>, outside: Outside) -> Seq<IndexMetaView> {
    ledger_of_decoded(decoded(records(ledger), outside))->Ok_0
}

/// Once a run has published a package, the ledger holds one record more, that
/// of the package's version: a version that the ledger did not hold before.
pub proof fn lemma_published_is_recorded(
    job: JobView,
    tree: Tree,
    moments: Seq<Moment>,
    ledger: Seq<char>,
    outside: Outside,
)
    requires
        reads_as(tree, job.ledger(), ledger),
        ledger.len() == 0 || ledger.last() == '\n',
        ledger_apart(job, outside),
        reads_back(job, outside),
        unfolds(started(job).0, tree, moments, outside),
        ending(started(job).0, started(job).1, tree, moments).1 matches NextView::Finished(
            OutcomeView::Published(_),
        ),
    ensures
        ({
            let (flow, next, last) = ending(started(job).0, started(job).1, tree, moments);
            let record = next->Finished_0->Published_0;
            let text = (outside.encode)(record);
            &&& record.vers == job.package.version
            &&& !published(entries_of(ledger, outside), job.package.version)
            &&& holds(last, job.ledger(), Content::Text(ledger + (text + "\n"@)))
            &&& entries_of(ledger + (text + "\n"@), outside) == entries_of(ledger, outside).push(
                record,
            )
            &&& ledger_holds_version(job, last, outside)
        }),
{
    let (flow, next) = started(job);
    lemma_ledger_tracked_run(flow, next, tree, moments, ledger, outside);
    let (f, n, last) = ending(flow, next, tree, moments);
    let record = n->Finished_0->Published_0;
    let text = (outside.encode)(record);
    assert(record == record_of(job.package, record.cksum));
    lemma_no_line_feed(text);
    lemma_records_of_appended(ledger, text);
    let before = decoded(records(ledger), outside);
    let now = decoded(records(ledger + (text + "\n"@)), outside);
    assert(now =~= before.push(DecodedView { line: text, record: Ok(record) }));
    lemma_ledger_of_appended(before, text, record);
    let entries = ledger_of_decoded(before)->Ok_0;
    assert(entries.push(record)[entries.len() as int].vers == job.package.version);
    assert(published(entries.push(record), job.package.version));
}

/// A ledger in which no version stands twice stays so when a package is
/// published.
pub proof fn lemma_versions_unique(
    job: JobView,
    tree: Tree,
    moments: Seq<Moment>,
    ledger: Seq<char>,
    outside: Outside,
)
    requires
        reads_as(tree, job.ledger(), ledger),
        ledger.len() == 0 || ledger.last() == '\n',
        ledger_apart(job, outside),
        reads_back(job, outside),
        unfolds(started(job).0, tree, moments, outside),
        ending(started(job).0, started(job).1, tree, moments).1 matches NextView::Finished(
            OutcomeView::Published(_),
        ),
        distinct_versions(entries_of(ledger, outside)),
    ensures
        ({
            let (flow, next, last) = ending(started(job).0, started(job).1, tree, moments);
            last[job.ledger()] matches Content::Text(now) && distinct_versions(
                entries_of(now, outside),
            )
        }),
{
    lemma_published_is_recorded(job, tree, moments, ledger, outside);
    let (flow, next, last) = ending(started(job).0, started(job).1, tree, moments);
    lemma_versions_stay_distinct(entries_of(ledger, outside), next->Finished_0->Published_0);
}

/// Publishing the same version of a package twice appends one line to the
/// ledger, not two: the second run ends with a skip, which is no error, and
/// changes no file. It fails only where the ledger cannot be read.
///
/// This is said of two runs, one after the other, in which the driver carries
/// out each action and reports it as it was; of a ledger whose lines are all
/// ended; of files of which `ledger_apart` holds, and of records that are read
/// back from their text.
pub proof fn lemma_second_publish_skipped(
    job: JobView,
    tree: Tree,
    first: Seq<Moment>,
    second: Seq<Moment>,
    ledger: Seq<char>,
    outside: Outside,
)
    requires
        reads_as(tree, job.ledger(), ledger),
        ledger.len() == 0 || ledger.last() == '\n',
        ledger_apart(job, outside),
        reads_back(job, outside),
        unfolds(started(job).0, tree, first, outside),
        ending(started(job).0, started(job).1, tree, first).1 matches NextView::Finished(
            OutcomeView::Published(_),
        ),
        unfolds(
            started(job).0,
            ending(started(job).0, started(job).1, tree, first).2,
            second,
            outside,
        ),
    ensures
        ({
            let published = ending(started(job).0, started(job).1, tree, first).2;
            let (flow, next, last) = ending(started(job).0, started(job).1, published, second);
            &&& last == published
            &&& (next matches NextView::Finished(outcome) ==> (outcome == OutcomeView::Skipped(
                Skip::AlreadyPublished,
            ) || outcome matches OutcomeView::Failed(PublishErrorView::Io(_))))
        }),
{
    lemma_published_is_recorded(job, tree, first, ledger, outside);
    let published = ending(started(job).0, started(job).1, tree, first).2;
    lemma_published_version_skipped(job, published, second, outside);
    assert(has_library(job.package.targets)) by {
        if !has_library(job.package.targets) {
            assert(awaited(started(job).0) is None);
            assert(first.len() == 0);
        }
    }
}

/// A run that begins with the step `m` and goes on with `rest`.
pub proof fn lemma_unfolds_from(
    flow: FlowView,
    next: NextView,
    tree: Tree,
    m: Moment,
    rest: Seq<Moment>,
    outside: Outside,
)
    requires
        stepped(flow, tree, m, outside),
        edit_agrees(m.event, m.edited),
        unfolds(react(flow, m.event, m.edited).0, m.tree, rest, outside),
    ensures
        unfolds(flow, tree, seq![m] + rest, outside),
        ending(flow, next, tree, seq![m] + rest) == ending(
            react(flow, m.event, m.edited).0,
            react(flow, m.event, m.edited).1,
            m.tree,
            rest,
        ),
{
    let all = seq![m] + rest;
    assert(all[0] == m);
    assert(all.drop_first() =~= rest);
}

/// The steps in which everything goes well: the ledger does not exist, the
/// working tree is under no version control, the manifest reads `manifest`
/// and is edited to `edited`, the build tool leaves `archive` behind, and the
/// record is written as text.
pub open spec fn clean_run(
    job: JobView,
    tree: Tree,
    manifest: Seq<char>,
    edited: Seq<char>,
    archive: Seq<u8>,
    outside: Outside,
) -> Seq<Moment> {
    let unused = Err::<Seq<char>, ManifestErrorView>(ManifestErrorView::Parse(Seq::empty()));
    let moved = tree.remove(job.manifest()).insert(job.snapshot(), tree[job.manifest()]);
    let rewritten = moved.insert(job.manifest(), Content::Text(edited));
    let built = rewritten.insert(job.packaged(), Content::Data(archive));
    let restored = built.remove(job.snapshot()).insert(job.manifest(), built[job.snapshot()]);
    let placed = restored.insert(job.archive(), Content::Data(archive));
    let record = record_of(job.package, hex(sha256(archive)));
    let line = (outside.encode)(record) + "\n"@;
    let appended = placed.insert(job.ledger(), Content::Text(line));
    seq![
        Moment { event: EventView::Ledger(None), edited: unused, tree },
        Moment { event: EventView::Status(None), edited: unused, tree },
        Moment { event: EventView::Manifest(manifest), edited: Ok(edited), tree },
        Moment { event: EventView::Done, edited: unused, tree: moved },
        Moment { event: EventView::Done, edited: unused, tree: rewritten },
        Moment { event: EventView::Done, edited: unused, tree: rewritten },
        Moment { event: EventView::Built(true), edited: unused, tree: built },
        Moment { event: EventView::Done, edited: unused, tree: restored },
        Moment { event: EventView::Archive(archive), edited: unused, tree: restored },
        Moment { event: EventView::Probed(false), edited: unused, tree: restored },
        Moment { event: EventView::Done, edited: unused, tree: placed },
        Moment { event: EventView::Encoded((outside.encode)(record)), edited: unused, tree: placed },
        Moment { event: EventView::Done, edited: unused, tree: appended },
    ]
}

/// Where everything goes well, a library is published: the run ends with the
/// record of the package, whose checksum is that of the archive; the archive
/// is in place; the ledger, which did not exist, holds one line, the record as
/// text; and the manifest holds what it held.
///
/// This is said of a package with a library whose version has neither ledger
/// nor archive yet, of a manifest that can be edited, and of a build tool that
/// leaves its archive in a place of its own and changes nothing else.
pub proof fn lemma_clean_run_publishes(
    job: JobView,
    tree: Tree,
    manifest: Seq<char>,
    edited: Seq<char>,
    archive: Seq<u8>,
    outside: Outside,
)
    requires
        has_library(job.package.targets),
        holds(tree, job.manifest(), Content::Text(manifest)),
        edited_manifest(manifest) == Ok::<Seq<char>, ManifestFailure>(edited),
        !tree.contains_key(job.ledger()),
        !tree.contains_key(job.archive()),
        job.packaged() != job.manifest(),
        job.packaged() != job.snapshot(),
        job.packaged() != job.archive(),
        job.archive() != job.snapshot(),
        job.ledger() != job.manifest(),
        job.ledger() != job.archive(),
        forall|p: Seq<char>| outside.kept.contains(p) <==> p != job.packaged(),
        !occurs_in("\n"@, (outside.encode)(record_of(job.package, hex(sha256(archive))))),
    ensures
        ({
            let moments = clean_run(job, tree, manifest, edited, archive, outside);
            let (flow, next, last) = ending(started(job).0, started(job).1, tree, moments);
            let record = record_of(job.package, hex(sha256(archive)));
            &&& unfolds(started(job).0, tree, moments, outside)
            &&& next == NextView::Finished(OutcomeView::Published(record))
            &&& record.cksum == hex(sha256(archive))
            &&& holds(last, job.archive(), Content::Data(archive))
            &&& holds(last, job.ledger(), Content::Text((outside.encode)(record) + "\n"@))
            &&& holds(last, job.manifest(), Content::Text(manifest))
        }),
{
    lemma_snapshot_apart(job.manifest());
    let moments = clean_run(job, tree, manifest, edited, archive, outside);
    let (f0, n0) = started(job);
    let (f1, n1) = react(f0, moments[0].event, moments[0].edited);
    let (f2, n2) = react(f1, moments[1].event, moments[1].edited);
    let (f3, n3) = react(f2, moments[2].event, moments[2].edited);
    let (f4, n4) = react(f3, moments[3].event, moments[3].edited);
    let (f5, n5) = react(f4, moments[4].event, moments[4].edited);
    let (f6, n6) = react(f5, moments[5].event, moments[5].edited);
    let (f7, n7) = react(f6, moments[6].event, moments[6].edited);
    let (f8, n8) = react(f7, moments[7].event, moments[7].edited);
    let (f9, n9) = react(f8, moments[8].event, moments[8].edited);
    let (f10, n10) = react(f9, moments[9].event, moments[9].edited);
    let (f11, n11) = react(f10, moments[10].event, moments[10].edited);
    let (f12, n12) = react(f11, moments[11].event, moments[11].edited);
    let (f13, n13) = react(f12, moments[12].event, moments[12].edited);
    assert(f1.phase is Status);
    assert(f2.phase is Manifest) by {
        assert(crate::dirty::dirt(None).len() == 0);
    }
    assert(f3.phase is Snapshot);
    assert(f4.phase is Rewrite);
    assert(f5.phase is ArchiveDir);
    assert(f6.phase is Build);
    assert(f7.phase is Restore);
    assert(f8.phase is Archive);
    assert(f9.phase is Probe);
    assert(f10.phase is Place);
    assert(f11.phase is Record);
    assert(f12.phase is Append);
    assert(f13.phase is Finished);
    let r13 = moments.subrange(13, 13);
    let r12 = moments.subrange(12, 13);
    let r11 = moments.subrange(11, 13);
    let r10 = moments.subrange(10, 13);
    let r9 = moments.subrange(9, 13);
    let r8 = moments.subrange(8, 13);
    let r7 = moments.subrange(7, 13);
    let r6 = moments.subrange(6, 13);
    let r5 = moments.subrange(5, 13);
    let r4 = moments.subrange(4, 13);
    let r3 = moments.subrange(3, 13);
    let r2 = moments.subrange(2, 13);
    let r1 = moments.subrange(1, 13);
    assert(seq![moments[12]] + r13 =~= r12);
    assert(seq![moments[11]] + r12 =~= r11);
    assert(seq![moments[10]] + r11 =~= r10);
    assert(seq![moments[9]] + r10 =~= r9);
    assert(seq![moments[8]] + r9 =~= r8);
    assert(seq![moments[7]] + r8 =~= r7);
    assert(seq![moments[6]] + r7 =~= r6);
    assert(seq![moments[5]] + r6 =~= r5);
    assert(seq![moments[4]] + r5 =~= r4);
    assert(seq![moments[3]] + r4 =~= r3);
    assert(seq![moments[2]] + r3 =~= r2);
    assert(seq![moments[1]] + r2 =~= r1);
    assert(seq![moments[0]] + r1 =~= moments);
    assert(text_at(moments[11].tree, job.ledger()) =~= Seq::<char>::empty());
    assert(Seq::<char>::empty() + ((outside.encode)(
        record_of(job.package, hex(sha256(archive))),
    ) + "\n"@) =~= (outside.encode)(record_of(job.package, hex(sha256(archive)))) + "\n"@);
    lemma_unfolds_from(f12, n12, moments[11].tree, moments[12], r13, outside);
    lemma_unfolds_from(f11, n11, moments[10].tree, moments[11], r12, outside);
    lemma_unfolds_from(f10, n10, moments[9].tree, moments[10], r11, outside);
    lemma_unfolds_from(f9, n9, moments[8].tree, moments[9], r10, outside);
    lemma_unfolds_from(f8, n8, moments[7].tree, moments[8], r9, outside);
    lemma_unfolds_from(f7, n7, moments[6].tree, moments[7], r8, outside);
    lemma_unfolds_from(f6, n6, moments[5].tree, moments[6], r7, outside);
    lemma_unfolds_from(f5, n5, moments[4].tree, moments[5], r6, outside);
    lemma_unfolds_from(f4, n4, moments[3].tree, moments[4], r5, outside);
    lemma_unfolds_from(f3, n3, moments[2].tree, moments[3], r4, outside);
    lemma_unfolds_from(f2, n2, moments[1].tree, moments[2], r3, outside);
    lemma_unfolds_from(f1, n1, moments[0].tree, moments[1], r2, outside);
    lemma_unfolds_from(f0, n0, tree, moments[0], r1, outside);
}

/// What the law on what a run leaves behind supposes of the files: the
/// manifest, its snapshot, the ledger and the archive are four files, and the
/// build tool leaves all four alone.
pub open spec fn files_apart(job: JobView, outside: Outside) -> bool {
    manifest_apart(job, outside) && archive_apart(job, outside) && ledger_apart(job, outside)
}

/// The flow ended before it touched anything: with a skip, or because of the
/// ledger, the working tree or the manifest.
pub open spec fn ended_early(outcome: OutcomeView) -> bool {
    ||| outcome is Skipped
    ||| outcome matches OutcomeView::Failed(e) && (e is Ledger || e is DirtyTree || e is Manifest)
}

/// The flow ended before it placed the archive, and for a reason that says
/// so.
pub open spec fn ended_unplaced(outcome: OutcomeView) -> bool {
    ||| ended_early(outcome)
    ||| outcome matches OutcomeView::Failed(e) && (e is Build || e is ChecksumIo || e
        is AlreadyExists || e is ManifestNotRestored)
}

/// The flow ended before it tried to append the record.
pub open spec fn ended_unrecorded(outcome: OutcomeView) -> bool {
    !(outcome is Published) && !(outcome matches OutcomeView::Failed(
        PublishErrorView::LedgerWrite(_),
    ))
}

/// What a flow that has ended has left behind, on files that held `first`.
pub open spec fn left_behind(job: JobView, outcome: OutcomeView, tree: Tree, first: Tree) -> bool {
    &&& !(outcome matches OutcomeView::Failed(PublishErrorView::ManifestNotRestored(_)))
        ==> !tree.contains_key(job.snapshot())
    &&& ended_early(outcome) ==> tree == first
    &&& ended_unplaced(outcome) ==> same_at(tree, first, job.archive())
    &&& ended_unrecorded(outcome) ==> same_at(tree, first, job.ledger())
}

/// What a flow has done to the files so far: nothing until the manifest is
/// moved aside; nothing to the ledger and the archive until the archive is
/// placed; nothing to the ledger until the record is appended. There is no
/// snapshot but while the manifest is edited.
pub open spec fn untouched_so_far(flow: FlowView, next: NextView, tree: Tree, first: Tree) -> bool {
    let job = flow.job;
    let registry_same = same_at(tree, first, job.ledger()) && same_at(tree, first, job.archive());
    &&& in_step(flow, next)
    &&& match flow.phase {
        PhaseView::Ledger | PhaseView::Records { .. } | PhaseView::Status | PhaseView::Manifest
        | PhaseView::Snapshot { .. } => tree == first,
        PhaseView::Rewrite { .. } | PhaseView::ArchiveDir | PhaseView::Build => registry_same,
        PhaseView::Restore { failure } => registry_same && (failure matches Some(e) ==> e is Io
            || e is Build),
        PhaseView::Archive | PhaseView::Probe { .. } => registry_same && !tree.contains_key(
            job.snapshot(),
        ),
        PhaseView::Place { .. } | PhaseView::Record { .. } | PhaseView::Append { .. } => same_at(
            tree,
            first,
            job.ledger(),
        ) && !tree.contains_key(job.snapshot()),
        PhaseView::Finished => next matches NextView::Finished(outcome) && left_behind(
            job,
            outcome,
            tree,
            first,
        ),
    }
}

/// One step does no more to the files than `untouched_so_far` says.
pub proof fn lemma_untouched_step(
    flow: FlowView,
    next: NextView,
    tree: Tree,
    m: Moment,
    outside: Outside,
    first: Tree,
)
    requires
        untouched_so_far(flow, next, tree, first),
        files_apart(flow.job, outside),
        !first.contains_key(flow.job.snapshot()),
        stepped(flow, tree, m, outside),
    ensures
        react(flow, m.event, m.edited).0.job == flow.job,
        untouched_so_far(
            react(flow, m.event, m.edited).0,
            react(flow, m.event, m.edited).1,
            m.tree,
            first,
        ),
{
    let job = flow.job;
    lemma_snapshot_apart(job.manifest());
    let t = turn(flow, m.event, m.edited);
    let (f, n) = settled(job, t);
    assert(react(flow, m.event, m.edited) == (f, n));
    assert(same_at(tree, m.tree, job.snapshot()) || flow.phase is Snapshot || flow.phase is Restore);
    assert(same_at(tree, m.tree, job.ledger()) || flow.phase is Append);
    assert(same_at(tree, m.tree, job.archive()) || flow.phase is Place);
}

/// A run does no more to the files than `untouched_so_far` says.
pub proof fn lemma_untouched_run(
    flow: FlowView,
    next: NextView,
    tree: Tree,
    moments: Seq<Moment>,
    outside: Outside,
    first: Tree,
)
    requires
        untouched_so_far(flow, next, tree, first),
        files_apart(flow.job, outside),
        !first.contains_key(flow.job.snapshot()),
        unfolds(flow, tree, moments, outside),
    ensures
        ({
            let (f, n, t) = ending(flow, next, tree, moments);
            f.job == flow.job && untouched_so_far(f, n, t, first)
        }),
    decreases moments.len(),
{
    if moments.len() > 0 {
        let m = moments[0];
        lemma_untouched_step(flow, next, tree, m, outside, first);
        let (f, n) = react(flow, m.event, m.edited);
        lemma_untouched_run(f, n, m.tree, moments.drop_first(), outside, first);
    }
}

/// What a run leaves behind when it has ended. No snapshot of the manifest,
/// unless the manifest could not be put back. Every file as it was, where the
/// run ended with a skip or because of the ledger, the working tree or the
/// manifest. No archive placed and none changed, where it ended because the
/// build failed, the archive could not be read, or its place was taken. No
/// line appended to the ledger, unless the run published the package or
/// failed while it wrote to the ledger.
///
/// This is said of every run in which the driver carries out each action and
/// reports it as it was, on files of which `files_apart` holds and that hold
/// no snapshot at first.
pub proof fn lemma_run_leaves_behind(
    job: JobView,
    tree: Tree,
    moments: Seq<Moment>,
    outside: Outside,
)
    requires
        files_apart(job, outside),
        !tree.contains_key(job.snapshot()),
        unfolds(started(job).0, tree, moments, outside),
    ensures
        ({
            let (flow, next, last) = ending(started(job).0, started(job).1, tree, moments);
            next matches NextView::Finished(outcome) ==> left_behind(job, outcome, last, tree)
        }),
{
    let (flow, next) = started(job);
    lemma_untouched_run(flow, next, tree, moments, outside, tree);
}

/// A flow that is told of a working tree with a change that counts ends at
/// once: it fails with `DirtyTree`, which names the changes, and asks for
/// nothing more to be done.
pub proof fn lemma_dirty_tree_fails(
    flow: FlowView,
    status: Option<Seq<char>>,
    edited: Result<Seq<char>, ManifestErrorView>,
)
    requires
        flow.phase is Status,
        dirt(status).len() > 0,
    ensures
        react(flow, EventView::Status(status), edited).1 == NextView::Finished(
            OutcomeView::Failed(
                PublishErrorView::DirtyTree(DirtyTreeErrorView { paths: dirt(status) }),
            ),
        ),
        react(flow, EventView::Status(status), edited).0.phase is Finished,
{
}

/// A flow that is told that the build tool failed puts the manifest back, and
/// ends with `Build` once that is done.
pub proof fn lemma_failed_build_fails(flow: FlowView, edited: Result<Seq<char>, ManifestErrorView>)
    requires
        flow.phase is Build,
    ensures
        ({
            let (waiting, next) = react(flow, EventView::Built(false), edited);
            &&& next == NextView::Do(
                ActionView::Rename { from: flow.job.snapshot(), to: flow.job.manifest() },
            )
            &&& react(waiting, EventView::Done, edited).1 == NextView::Finished(
                OutcomeView::Failed(PublishErrorView::Build),
            )
        }),
{
}

/// The step reports no failure, and where it reports the status of the
/// working tree, the report has a change that counts.
pub open spec fn meets_dirt(m: Moment) -> bool {
    !(m.event is Failed) && (m.event matches EventView::Status(status) ==> dirt(status).len() > 0)
}

/// The flow ended with a skip, because of the ledger, or because the working
/// tree is dirty.
pub open spec fn ended_at_status(outcome: OutcomeView) -> bool {
    ||| outcome is Skipped
    ||| outcome matches OutcomeView::Failed(e) && (e is Ledger || e is DirtyTree)
}

/// A flow that meets a dirty working tree gets no further than to ask for the
/// status: it has changed no file, and ends with a skip, because of the
/// ledger, or because the tree is dirty.
pub open spec fn stopped_by_dirt(flow: FlowView, next: NextView, tree: Tree, first: Tree) -> bool {
    &&& in_step(flow, next)
    &&& tree == first
    &&& match flow.phase {
        PhaseView::Ledger | PhaseView::Records { .. } | PhaseView::Status => true,
        PhaseView::Finished => next matches NextView::Finished(outcome) && ended_at_status(
            outcome,
        ),
        _ => false,
    }
}

/// A run in which no action fails and the working tree is dirty changes no
/// file.
pub proof fn lemma_stopped_by_dirt(
    flow: FlowView,
    next: NextView,
    tree: Tree,
    moments: Seq<Moment>,
    outside: Outside,
)
    requires
        stopped_by_dirt(flow, next, tree, tree),
        unfolds(flow, tree, moments, outside),
        forall|k: int| 0 <= k < moments.len() ==> meets_dirt(#[trigger] moments[k]),
    ensures
        ({
            let (f, n, t) = ending(flow, next, tree, moments);
            stopped_by_dirt(f, n, t, tree)
        }),
    decreases moments.len(),
{
    if moments.len() > 0 {
        let m = moments[0];
        assert(meets_dirt(m));
        let t = turn(flow, m.event, m.edited);
        let (f, n) = settled(flow.job, t);
        assert(react(flow, m.event, m.edited) == (f, n));
        assert(m.tree == tree);
        let rest = moments.drop_first();
        assert forall|k: int| 0 <= k < rest.len() implies meets_dirt(#[trigger] rest[k]) by {
            assert(rest[k] == moments[k + 1]);
        }
        lemma_stopped_by_dirt(f, n, tree, rest, outside);
    }
}

/// Publishing from a working tree with a change that counts does nothing: no
/// file is changed, so no line is appended, no archive placed, the manifest
/// never touched and the build tool never run. A run that gets as far as to
/// learn of the change fails with `DirtyTree`; before that it can only end
/// with a skip or because of a line in the ledger.
///
/// This is said of every run in which the driver carries out each action and
/// reports it as it was, no action fails, and the status that version
/// control reports has a change that counts.
pub proof fn lemma_dirty_tree_stops_run(
    job: JobView,
    tree: Tree,
    moments: Seq<Moment>,
    outside: Outside,
)
    requires
        unfolds(started(job).0, tree, moments, outside),
        forall|k: int| 0 <= k < moments.len() ==> meets_dirt(#[trigger] moments[k]),
    ensures
        ({
            let (flow, next, last) = ending(started(job).0, started(job).1, tree, moments);
            &&& last == tree
            &&& (next matches NextView::Finished(outcome) ==> ended_at_status(outcome))
            &&& (next matches NextView::Do(action) ==> (action is ReadLedger || action is Decode
                || action is QueryStatus))
        }),
{
    let (flow, next) = started(job);
    lemma_stopped_by_dirt(flow, next, tree, moments, outside);
}

} // verus!
