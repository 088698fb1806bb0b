//! A model of the files that publishing touches, to state what a flow does to
//! them: what each action changes when its driver carries it out, and what a
//! whole run leaves behind.

use vstd::prelude::*;
use crate::index::{DecodedView, IndexMetaView};
use crate::manifest::ManifestErrorView;
use crate::publish::{
    awaited, edit_agrees, react, ActionView, EventView, FlowView, NextView,
};

verus! {

/// What a file holds.
pub enum Content {
    Text(Seq<char>),
    Data(Seq<u8>),
}

/// The files, by their paths.
pub type Tree = Map<Seq<char>, Content>;

/// The text of the file at `path`; a file that does not exist has none.
pub open spec fn text_at(tree: Tree, path: Seq<char>) -> Seq<char> {
    if tree.contains_key(path) {
        match tree[path] {
            Content::Text(text) => text,
            Content::Data(data) => Seq::empty(),
        }
    } else {
        Seq::empty()
    }
}

/// The two trees agree on the file at `path`: it exists in both or in none,
/// and holds the same.
pub open spec fn same_at(a: Tree, b: Tree, path: Seq<char>) -> bool {
    &&& a.contains_key(path) <==> b.contains_key(path)
    &&& a.contains_key(path) ==> a[path] == b[path]
}

/// The two trees agree on every file but the one at `path`.
pub open spec fn same_but_at(a: Tree, b: Tree, path: Seq<char>) -> bool {
    forall|p: Seq<char>| p != path ==> same_at(a, b, p)
}

/// What is supposed of the programs that the driver runs.
pub struct Outside {
    /// The files that the build tool leaves alone.
    pub kept: Set<Seq<char>>,
    /// A record as text.
    pub encode: spec_fn(IndexMetaView) -> Seq<char>,
    /// The record that a line holds, or why it holds none.
    pub decode: spec_fn(Seq<char>) -> Result<IndexMetaView, Seq<char>>,
}

/// The lines, each with what decoding makes of it.
pub open spec fn decoded(lines: Seq<Seq<char>>, outside: Outside) -> Seq<DecodedView> {
    Seq::new(
        lines.len(),
        |i: int| DecodedView { line: lines[i], record: (outside.decode)(lines[i]) },
    )
}

/// Whether `event` is an answer to `action`: that it failed, or what an action
/// of its kind reports.
pub open spec fn answers(action: ActionView, event: EventView) -> bool {
    event is Failed || match action {
        ActionView::ReadLedger { .. } => event is Ledger,
        ActionView::Decode { .. } => event is Decoded,
        ActionView::QueryStatus { .. } => event is Status,
        ActionView::ReadManifest { .. } => event is Manifest,
        ActionView::Rename { .. } => event is Done,
        ActionView::WriteFile { .. } => event is Done,
        ActionView::CreateDir { .. } => event is Done,
        ActionView::Build { .. } => event is Built,
        ActionView::ReadArchive { .. } => event is Archive,
        ActionView::Probe { .. } => event is Probed,
        ActionView::Copy { .. } => event is Done,
        ActionView::Encode { .. } => event is Encoded,
        ActionView::Append { .. } => event is Done,
    }
}

/// Whether what `event` reports is true: of the files `tree`, where it speaks
/// of them, and of a record and its text.
pub open spec fn truthful(action: ActionView, event: EventView, tree: Tree, outside: Outside) -> bool {
    match (action, event) {
        (ActionView::Decode { lines }, EventView::Decoded(list)) => list == decoded(lines, outside),
        (ActionView::Encode { record }, EventView::Encoded(text)) => text == (outside.encode)(
            record,
        ),
        (ActionView::ReadLedger { path }, EventView::Ledger(None)) => !tree.contains_key(path),
        (ActionView::ReadLedger { path }, EventView::Ledger(Some(text))) => tree.contains_key(path)
            && tree[path] == Content::Text(text),
        (ActionView::ReadManifest { path }, EventView::Manifest(text)) => tree.contains_key(path)
            && tree[path] == Content::Text(text),
        (ActionView::ReadArchive { path }, EventView::Archive(data)) => tree.contains_key(path)
            && tree[path] == Content::Data(data),
        (ActionView::Probe { path }, EventView::Probed(there)) => there == tree.contains_key(path),
        _ => true,
    }
}

/// What carrying out `action` makes of the files, where `event` is the report
/// of it.
///
/// An action that is reported as failed has changed nothing, except that a
/// write, a copy or an append may have left anything at its target. Reading
/// and asking change nothing. Of the build tool only this is supposed: it
/// leaves the files in `outside.kept` alone.
pub open spec fn performed(
    action: ActionView,
    event: EventView,
    before: Tree,
    after: Tree,
    outside: Outside,
) -> bool {
    let done = !(event is Failed);
    match action {
        ActionView::Rename { from, to } => if done {
            after == before.remove(from).insert(to, before[from])
        } else {
            after == before
        },
        ActionView::WriteFile { path, contents } => if done {
            after == before.insert(path, Content::Text(contents))
        } else {
            same_but_at(before, after, path)
        },
        ActionView::Copy { from, to } => if done {
            after == before.insert(to, before[from])
        } else {
            same_but_at(before, after, to)
        },
        ActionView::Append { dir, path, line } => if done {
            after == before.insert(path, Content::Text(text_at(before, path) + line))
        } else {
            same_but_at(before, after, path)
        },
        ActionView::Build { .. } => forall|p: Seq<char>|
            outside.kept.contains(p) ==> same_at(before, after, p),
        _ => after == before,
    }
}

/// One step of a run: what the driver reported, what the edit of the manifest
/// gave where the report brought its text, and the files after the step.
pub struct Moment {
    pub event: EventView,
    pub edited: Result<Seq<char>, ManifestErrorView>,
    pub tree: Tree,
}

/// Whether `moments` is a run of `flow` on the files `tree`: in each step the
/// driver carries out the action that the flow waits for and reports it as it
/// was, and the flow goes on from there.
pub open spec fn unfolds(flow: FlowView, tree: Tree, moments: Seq<Moment>, outside: Outside) -> bool
    decreases moments.len(),
{
    moments.len() == 0 || match awaited(flow) {
        None => false,
        Some(action) => {
            let m = moments[0];
            &&& answers(action, m.event)
            &&& truthful(action, m.event, tree, outside)
            &&& edit_agrees(m.event, m.edited)
            &&& performed(action, m.event, tree, m.tree, outside)
            &&& unfolds(react(flow, m.event, m.edited).0, m.tree, moments.drop_first(), outside)
        },
    }
}

/// Where a run ends: the flow, what its driver does next, and the files.
pub open spec fn ending(flow: FlowView, next: NextView, tree: Tree, moments: Seq<Moment>) -> (
    FlowView,
    NextView,
    Tree,
)
    decreases moments.len(),
{
    if moments.len() == 0 {
        (flow, next, tree)
    } else {
        let m = moments[0];
        let (f, n) = react(flow, m.event, m.edited);
        ending(f, n, m.tree, moments.drop_first())
    }
}

} // verus!
