//! Where things lie below a registry's root: the index with its shards, and
//! the archives.
//!
//! Paths are texts whose components are separated by `/`.

use vstd::prelude::*;
use crate::text::{append_text, chars_of};

verus! {

/// The lower-case form of a text, as `str::to_lowercase` gives it.
pub uninterp spec fn lowercase(s: Seq<char>) -> Seq<char>;

/// `str::to_lowercase` returns the lower-case equivalent of the text, by the
/// Unicode rules. The contract only names that text.
pub assume_specification[ str::to_lowercase ](s: &str) -> (r: String)
    ensures
        r@ == lowercase(s@),
;

/// The shard of a package whose name, in lower case, is `name`: `1` and `2`
/// for names of one and two characters, `3/` and the first character for names
/// of three, the first two characters, `/` and the next two for longer ones.
/// A name without characters has no shard.
pub open spec fn shard(name: Seq<char>) -> Seq<char> {
    if name.len() == 0 {
        Seq::empty()
    } else if name.len() == 1 {
        seq!['1']
    } else if name.len() == 2 {
        seq!['2']
    } else if name.len() == 3 {
        seq!['3', '/', name[0]]
    } else {
        seq![name[0], name[1], '/', name[2], name[3]]
    }
}

/// The shard of a package by its name as given: the case of the name does not
/// count.
pub open spec fn shard_of_name(name: Seq<char>) -> Seq<char> {
    shard(lowercase(name))
}

/// `name` below the directory `dir`. One separator stands between the two; an
/// empty `dir` is the current directory and adds nothing.
pub open spec fn below(dir: Seq<char>, name: Seq<char>) -> Seq<char> {
    if dir.len() == 0 || dir.last() == '/' {
        dir + name
    } else {
        dir + seq!['/'] + name
    }
}

/// The file name of the archive of one version of a package.
pub open spec fn archive_file(name: Seq<char>, version: Seq<char>) -> Seq<char> {
    name + seq!['-'] + version + ".crate"@
}

/// Where the manifest at `manifest` is kept while an edited one takes its
/// place.
pub open spec fn snapshot_of(manifest: Seq<char>) -> Seq<char> {
    manifest + ".pre-edit"@
}

/// The shard of a name that is already in lower case.
pub fn shard_path(name: &str) -> (r: String)
    ensures
        r@ == shard(name@),
{
    let v = chars_of(name);
    let mut r = String::new();
    let n = v.len();
    if n == 1 {
        r.push('1');
    } else if n == 2 {
        r.push('2');
    } else if n == 3 {
        r.push('3');
        r.push('/');
        r.push(v[0]);
    } else if n >= 4 {
        r.push(v[0]);
        r.push(v[1]);
        r.push('/');
        r.push(v[2]);
        r.push(v[3]);
    }
    assert(r@ =~= shard(name@));
    r
}

/// The shard directory of the package `name`, relative to the index.
pub fn pkg_path(name: &str) -> (r: String)
    ensures
        r@ == shard_of_name(name@),
{
    let lower = name.to_lowercase();
    shard_path(lower.as_str())
}

/// `name` below the directory `dir`.
pub fn join_path(dir: &str, name: &str) -> (r: String)
    ensures
        r@ == below(dir@, name@),
{
    let d = chars_of(dir);
    if d.len() == 0 || d[d.len() - 1] == '/' {
        append_text(dir, name)
    } else {
        let with_sep = append_text(dir, "/");
        proof {
            reveal_strlit("/");
            assert("/"@ =~= seq!['/']);
        }
        append_text(with_sep.as_str(), name)
    }
}

/// The file name of the archive of version `version` of the package `name`.
pub fn archive_name(name: &str, version: &str) -> (r: String)
    ensures
        r@ == archive_file(name@, version@),
{
    let a = append_text(name, "-");
    let b = append_text(a.as_str(), version);
    proof {
        reveal_strlit("-");
        assert("-"@ =~= seq!['-']);
    }
    append_text(b.as_str(), ".crate")
}

/// Where the manifest at `manifest` is kept while an edited one takes its
/// place.
pub fn snapshot_path(manifest: &str) -> (r: String)
    ensures
        r@ == snapshot_of(manifest@),
{
    append_text(manifest, ".pre-edit")
}

/// Where the build tool leaves the archive of a package, below the build
/// directory `target`.
pub fn packaged_archive(target: &str, name: &str, version: &str) -> (r: String)
    ensures
        r@ == below(below(target@, "package"@), archive_file(name@, version@)),
{
    let dir = join_path(target, "package");
    let file = archive_name(name, version);
    join_path(dir.as_str(), file.as_str())
}

/// A registry, by the path of its root directory.
#[derive(Debug, Clone, PartialEq, Eq)]
pub struct Registry(pub String);

impl Registry {
    /// The directory of the index.
    pub open spec fn index_of(root: Seq<char>) -> Seq<char> {
        below(root, "index"@)
    }

    /// The file that holds the index's configuration.
    pub open spec fn config_of(root: Seq<char>) -> Seq<char> {
        below(Self::index_of(root), "config.json"@)
    }

    /// The directory that holds the ledger of the package `name`.
    pub open spec fn shard_dir_of(root: Seq<char>, name: Seq<char>) -> Seq<char> {
        below(Self::index_of(root), shard_of_name(name))
    }

    /// The ledger of the package `name`: the file of that name, in lower
    /// case, in the package's shard. Names that differ only in the case of
    /// their letters share a ledger.
    pub open spec fn ledger_of(root: Seq<char>, name: Seq<char>) -> Seq<char> {
        below(Self::shard_dir_of(root, name), lowercase(name))
    }

    /// The directory that holds the archives of the package `name`.
    pub open spec fn archives_of(root: Seq<char>, name: Seq<char>) -> Seq<char> {
        below(below(root, "crates"@), name)
    }

    /// The archive of version `version` of the package `name`.
    pub open spec fn archive_of(root: Seq<char>, name: Seq<char>, version: Seq<char>) -> Seq<
        char,
    > {
        below(Self::archives_of(root, name), archive_file(name, version))
    }

    /// The directory of the index.
    pub fn index_dir(&self) -> (r: String)
        ensures
            r@ == Self::index_of(self.0@),
    {
        join_path(self.0.as_str(), "index")
    }

    /// The file that holds the index's configuration.
    pub fn config_path(&self) -> (r: String)
        ensures
            r@ == Self::config_of(self.0@),
    {
        let index = self.index_dir();
        join_path(index.as_str(), "config.json")
    }

    /// The directory that holds the ledger of the package `name`.
    pub fn shard_dir(&self, name: &str) -> (r: String)
        ensures
            r@ == Self::shard_dir_of(self.0@, name@),
    {
        let index = self.index_dir();
        let shard = pkg_path(name);
        join_path(index.as_str(), shard.as_str())
    }

    /// The ledger of the package `name`: the file of that name, in lower
    /// case, in the package's shard of the index.
    pub fn package_index(&self, name: &str) -> (r: String)
        ensures
            r@ == Self::ledger_of(self.0@, name@),
    {
        let dir = self.shard_dir(name);
        let lower = name.to_lowercase();
        join_path(dir.as_str(), lower.as_str())
    }

    /// The directory that holds the archives of the package `name`.
    pub fn archive_dir(&self, name: &str) -> (r: String)
        ensures
            r@ == Self::archives_of(self.0@, name@),
    {
        let crates = join_path(self.0.as_str(), "crates");
        join_path(crates.as_str(), name)
    }

    /// The archive of version `version` of the package `name`.
    pub fn archive_path(&self, name: &str, version: &str) -> (r: String)
        ensures
            r@ == Self::archive_of(self.0@, name@, version@),
    {
        let dir = self.archive_dir(name);
        let file = archive_name(name, version);
        join_path(dir.as_str(), file.as_str())
    }
}

/// Two names that differ only in the case of their letters lie in the same
/// shard.
pub proof fn lemma_shard_ignores_case(a: Seq<char>, b: Seq<char>)
    requires
        lowercase(a) == lowercase(b),
    ensures
        shard_of_name(a) == shard_of_name(b),
{
}

/// Two names that differ only in the case of their letters have the same
/// ledger.
pub proof fn lemma_ledger_ignores_case(root: Seq<char>, a: Seq<char>, b: Seq<char>)
    requires
        lowercase(a) == lowercase(b),
    ensures
        Registry::ledger_of(root, a) == Registry::ledger_of(root, b),
{
}

/// The shard goes by the length of the name in lower case, and holds its
/// first characters: none of them for one or two, the first for three, the
/// first four around a separator for more.
pub proof fn lemma_shard_by_length(name: Seq<char>)
    ensures
        ({
            let l = lowercase(name);
            let s = shard_of_name(name);
            &&& l.len() == 1 ==> s == seq!['1']
            &&& l.len() == 2 ==> s == seq!['2']
            &&& l.len() == 3 ==> s == seq!['3', '/'] + l.subrange(0, 1)
            &&& l.len() >= 4 ==> s == l.subrange(0, 2) + seq!['/'] + l.subrange(2, 4)
        }),
{
    let l = lowercase(name);
    if l.len() == 3 {
        assert(seq!['3', '/', l[0]] =~= seq!['3', '/'] + l.subrange(0, 1));
    }
    if l.len() >= 4 {
        assert(seq![l[0], l[1], '/', l[2], l[3]] =~= l.subrange(0, 2) + seq!['/'] + l.subrange(
            2,
            4,
        ));
    }
}

} // verus!
