//! The working tree of a workspace must be clean before a package is built
//! from it: what version control reports as changed would end up in the
//! archive.

use vstd::prelude::*;
use crate::text::{
    append_text, blank, chars_of, contains, is_blank, join, join_with, lines, occurs_in,
    same_text, split_lines, text_of,
};

verus! {

/// The name of the lock file: a change to it does not count.
pub const LOCKFILE: &'static str = "Cargo.lock";

/// The path that a line of the status report names: what follows the two
/// marks of the status and the blank after them, without the quotes around it
/// where it stands in quotes.
pub open spec fn named_path(line: Seq<char>) -> Seq<char> {
    let path = if line.len() > 3 {
        line.subrange(3, line.len() as int)
    } else {
        Seq::empty()
    };
    if path.len() >= 2 && path[0] == '"' && path.last() == '"' {
        path.subrange(1, path.len() - 1)
    } else {
        path
    }
}

/// The name of the file at `path`: what follows the last separator.
pub open spec fn file_name(path: Seq<char>) -> Seq<char>
    decreases path.len(),
{
    if path.len() == 0 || path.last() == '/' {
        Seq::empty()
    } else {
        file_name(path.drop_last()).push(path.last())
    }
}

/// Whether a line of the status report names the lock file and nothing else:
/// the file at its path is called `Cargo.lock`, and the line does not name a
/// second path, as that of a renamed file does.
pub open spec fn names_lockfile(line: Seq<char>) -> bool {
    !occurs_in(" -> "@, named_path(line)) && file_name(named_path(line)) == LOCKFILE@
}

/// Whether a line of the status report names a change that counts: it is not
/// blank and names something other than the lock file.
pub open spec fn counts(line: Seq<char>) -> bool {
    !is_blank(line) && !names_lockfile(line)
}

/// The name of a file is what follows the last separator of its path.
pub proof fn lemma_file_name(path: Seq<char>, k: int)
    requires
        0 <= k <= path.len(),
        k == 0 || path[k - 1] == '/',
        forall|j: int| k <= j < path.len() ==> path[j] != '/',
    ensures
        file_name(path) == path.subrange(k, path.len() as int),
    decreases path.len(),
{
    if k < path.len() {
        let t = path.drop_last();
        lemma_file_name(t, k);
        assert(t.subrange(k, t.len() as int).push(path.last()) =~= path.subrange(
            k,
            path.len() as int,
        ));
    } else {
        assert(path.subrange(k, path.len() as int) =~= Seq::<char>::empty());
    }
}

/// Whether a line of the status report names the lock file and nothing else.
pub fn is_lockfile_line(line: &str) -> (r: bool)
    ensures
        r == names_lockfile(line@),
{
    let v = chars_of(line);
    let n = v.len();
    let mut from: usize = if n > 3 {
        3
    } else {
        n
    };
    let mut to: usize = n;
    let ghost outer = v@.subrange(from as int, to as int);
    if to - from >= 2 && v[from] == '"' && v[to - 1] == '"' {
        from = from + 1;
        to = to - 1;
        assert(outer.subrange(1, outer.len() - 1) =~= v@.subrange(from as int, to as int));
    }
    assert(v@.subrange(from as int, to as int) == named_path(line@));
    if to - from >= 4 {
        let path = text_of(&v, from, to);
        if contains(path.as_str(), " -> ") {
            return false;
        }
    } else {
        assert(!occurs_in(" -> "@, named_path(line@))) by {
            reveal_strlit(" -> ");
        }
    }
    let mut start: usize = to;
    while start > from && v[start - 1] != '/'
        invariant
            from <= start <= to <= v@.len(),
            forall|j: int| start <= j < to ==> v@[j] != '/',
        decreases start,
    {
        start -= 1;
    }
    proof {
        let path = v@.subrange(from as int, to as int);
        lemma_file_name(path, start - from);
        assert(path.subrange(start - from, path.len() as int) =~= v@.subrange(
            start as int,
            to as int,
        ));
    }
    let name = text_of(&v, start, to);
    same_text(name.as_str(), LOCKFILE)
}

/// The lines of a status report that name a change that counts, in their
/// order.
pub open spec fn changes(report: Seq<Seq<char>>) -> Seq<Seq<char>>
    decreases report.len(),
{
    if report.len() == 0 {
        Seq::empty()
    } else if counts(report.last()) {
        changes(report.drop_last()).push(report.last())
    } else {
        changes(report.drop_last())
    }
}

/// What makes the working tree with the status report `status` dirty; there is
/// no report for a tree that is not under version control, and nothing makes
/// such a tree dirty.
pub open spec fn dirt(status: Option<Seq<char>>) -> Seq<Seq<char>> {
    match status {
        Some(report) => changes(lines(report)),
        None => Seq::empty(),
    }
}

/// A working tree with changes that are not committed.
#[derive(Debug, Clone, PartialEq, Eq)]
pub struct DirtyTreeError {
    /// The lines of the status report that name the changes.
    pub paths: Vec<String>,
}

pub struct DirtyTreeErrorView {
    pub paths: Seq<Seq<char>>,
}

impl View for DirtyTreeError {
    type V = DirtyTreeErrorView;

    open spec fn view(&self) -> DirtyTreeErrorView {
        DirtyTreeErrorView { paths: self.paths.deep_view() }
    }
}

impl DeepView for DirtyTreeError {
    type V = DirtyTreeErrorView;

    open spec fn deep_view(&self) -> DirtyTreeErrorView {
        self@
    }
}

impl DirtyTreeError {
    /// The error in words, with the changes it is about.
    pub open spec fn message_of(paths: Seq<Seq<char>>) -> Seq<char> {
        "Repository not clean: "@ + join(paths, " "@)
            + ". These files would be embedded in the package. Stash them with `git stash -u` or add them to gitignore"@
    }

    /// The error in words, with the changes it is about.
    pub fn message(&self) -> (r: String)
        ensures
            r@ == Self::message_of(self@.paths),
    {
        let listed = join_with(&self.paths, " ");
        let head = append_text("Repository not clean: ", listed.as_str());
        append_text(
            head.as_str(),
            ". These files would be embedded in the package. Stash them with `git stash -u` or add them to gitignore",
        )
    }
}

/// Checks the status report of a working tree. `status` is what version
/// control printed, one change on each line, or nothing where the tree is not
/// under version control. The tree is clean when no line counts; otherwise the
/// error holds the lines that do.
pub fn check_dirty(status: Option<&str>) -> (r: Result<(), DirtyTreeError>)
    ensures
        match r {
            Ok(_) => dirt(status.deep_view()).len() == 0,
            Err(e) => e@.paths.len() > 0 && e@.paths == dirt(status.deep_view()),
        },
{
    let report = match status {
        Some(report) => report,
        None => {
            return Ok(());
        },
    };
    let all = split_lines(report);
    let mut found: Vec<String> = Vec::new();
    let mut i: usize = 0;
    assert(all.deep_view().take(0) =~= Seq::empty());
    while i < all.len()
        invariant
            i <= all@.len(),
            found.deep_view() == changes(all.deep_view().take(i as int)),
        decreases all@.len() - i,
    {
        let ghost before = found.deep_view();
        proof {
            let next = all.deep_view().take(i + 1);
            assert(next.drop_last() =~= all.deep_view().take(i as int));
            assert(next.last() == all@[i as int]@);
        }
        let line = all[i].as_str();
        if !blank(line) && !is_lockfile_line(line) {
            found.push(all[i].clone());
            assert(found.deep_view() =~= before.push(all@[i as int]@));
        }
        i += 1;
    }
    assert(all.deep_view().take(all@.len() as int) =~= all.deep_view());
    if found.len() == 0 {
        Ok(())
    } else {
        Err(DirtyTreeError { paths: found })
    }
}

} // verus!
