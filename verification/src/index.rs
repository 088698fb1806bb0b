//! The ledger of a package: one record for each published version, one record
//! on each line, never rewritten.

use vstd::prelude::*;
use crate::package::{
    clone_features, distinct_names, names_in_order, DependencyKind, Feature, FeatureView, Package,
    PackageDependency, PackageDependencyView, PackageView,
};
use crate::text::{
    append_text, blank, clone_optional, clone_texts, is_blank, lemma_lines_of_appended, lemma_one_line, lines,
    same_text, split_lines,
};

verus! {

/// The source of a dependency that the public registry serves.
pub const PUBLIC_INDEX: &'static str = "registry+https://github.com/rust-lang/crates.io-index";

/// The version of the record layout.
pub const SCHEMA_VERSION: u8 = 2;

/// A dependency as a ledger record holds it.
#[derive(Debug, Clone, PartialEq, Eq)]
pub struct Dependency {
    pub name: String,
    pub req: String,
    pub features: Vec<String>,
    pub optional: bool,
    pub default_features: bool,
    pub target: Option<String>,
    pub kind: DependencyKind,
    /// The index that serves the dependency; absent for this registry itself.
    pub registry: Option<String>,
    pub package: Option<String>,
}

pub struct DependencyView {
    pub name: Seq<char>,
    pub req: Seq<char>,
    pub features: Seq<Seq<char>>,
    pub optional: bool,
    pub default_features: bool,
    pub target: Option<Seq<char>>,
    pub kind: DependencyKind,
    pub registry: Option<Seq<char>>,
    pub package: Option<Seq<char>>,
}

impl View for Dependency {
    type V = DependencyView;

    open spec fn view(&self) -> DependencyView {
        DependencyView {
            name: self.name@,
            req: self.req@,
            features: self.features.deep_view(),
            optional: self.optional,
            default_features: self.default_features,
            target: self.target.deep_view(),
            kind: self.kind,
            registry: self.registry.deep_view(),
            package: self.package.deep_view(),
        }
    }
}

impl DeepView for Dependency {
    type V = DependencyView;

    open spec fn deep_view(&self) -> DependencyView {
        self@
    }
}

/// A dependency that does not come from the public registry: one given by a
/// path, taken from a repository, or served by another registry. Such a one
/// is looked up in this registry.
pub open spec fn served_here(d: PackageDependencyView) -> bool {
    (d.source is Some && d.source->0 != PUBLIC_INDEX@) || d.path is Some
}

/// The record of a dependency: what the metadata declares, with the registry
/// left out where the dependency is served here.
pub open spec fn dependency_record(d: PackageDependencyView) -> DependencyView {
    DependencyView {
        name: d.name,
        req: d.req,
        features: d.features,
        optional: d.optional,
        default_features: d.uses_default_features,
        target: d.target,
        kind: d.kind,
        registry: if served_here(d) {
            None
        } else {
            d.source
        },
        package: None,
    }
}

impl Dependency {
    /// The record either names the public registry or none.
    pub open spec fn resolves_here_or_publicly(d: DependencyView) -> bool {
        d.registry is None || d.registry == Some(PUBLIC_INDEX@)
    }

    /// The record of a dependency that the metadata declares.
    pub fn from_declared(d: &PackageDependency) -> (r: Dependency)
        ensures
            r@ == dependency_record(d@),
    {
        let elsewhere = match &d.source {
            Some(s) => !same_text(s.as_str(), PUBLIC_INDEX),
            None => false,
        };
        let registry = if elsewhere || d.path.is_some() {
            None
        } else {
            clone_optional(&d.source)
        };
        Dependency {
            name: d.name.clone(),
            req: d.req.clone(),
            features: clone_texts(&d.features),
            optional: d.optional,
            default_features: d.uses_default_features,
            target: clone_optional(&d.target),
            kind: d.kind,
            registry,
            package: None,
        }
    }
}

/// One record of a ledger: a published version of a package.
#[derive(Debug, Clone, PartialEq, Eq)]
pub struct IndexMeta {
    pub name: String,
    /// The version, in its canonical text.
    pub vers: String,
    pub deps: Vec<Dependency>,
    pub features: Vec<Feature>,
    pub license: Option<String>,
    pub license_file: Option<String>,
    /// The SHA-256 digest of the archive, in lower-case hexadecimal digits.
    pub cksum: String,
    pub v: u8,
    pub yanked: bool,
}

pub struct IndexMetaView {
    pub name: Seq<char>,
    pub vers: Seq<char>,
    pub deps: Seq<DependencyView>,
    pub features: Seq<FeatureView>,
    pub license: Option<Seq<char>>,
    pub license_file: Option<Seq<char>>,
    pub cksum: Seq<char>,
    pub v: u8,
    pub yanked: bool,
}

impl View for IndexMeta {
    type V = IndexMetaView;

    open spec fn view(&self) -> IndexMetaView {
        IndexMetaView {
            name: self.name@,
            vers: self.vers@,
            deps: self.deps.deep_view(),
            features: self.features.deep_view(),
            license: self.license.deep_view(),
            license_file: self.license_file.deep_view(),
            cksum: self.cksum@,
            v: self.v,
            yanked: self.yanked,
        }
    }
}

impl DeepView for IndexMeta {
    type V = IndexMetaView;

    open spec fn deep_view(&self) -> IndexMetaView {
        self@
    }
}

/// The record that publishing `p` with the archive digest `checksum` adds to
/// the ledger.
pub open spec fn record_of(p: PackageView, checksum: Seq<char>) -> IndexMetaView {
    IndexMetaView {
        name: p.name,
        vers: p.version,
        deps: Seq::new(p.dependencies.len(), |i: int| dependency_record(p.dependencies[i])),
        features: p.features,
        license: p.license,
        license_file: p.license_file,
        cksum: checksum,
        v: SCHEMA_VERSION,
        yanked: false,
    }
}

impl IndexMeta {
    /// The feature map names no feature twice, and the names stand in their
    /// order.
    pub open spec fn wf(&self) -> bool {
        distinct_names(self@.features) && names_in_order(self@.features)
    }

    /// The record of the package `p`, whose archive has the digest `checksum`.
    pub fn from_package(p: &Package, checksum: String) -> (r: IndexMeta)
        ensures
            r@ == record_of(p@, checksum@),
            p.wf() ==> r.wf(),
            forall|i: int|
                0 <= i < r@.deps.len() ==> Dependency::resolves_here_or_publicly(
                    #[trigger] r@.deps[i],
                ),
    {
        let mut deps: Vec<Dependency> = Vec::new();
        let mut i: usize = 0;
        while i < p.dependencies.len()
            invariant
                i <= p.dependencies@.len(),
                deps@.len() == i,
                forall|j: int| 0 <= j < i ==> deps@[j]@ == dependency_record(p.dependencies@[j]@),
            decreases p.dependencies@.len() - i,
        {
            deps.push(Dependency::from_declared(&p.dependencies[i]));
            i += 1;
        }
        let r = IndexMeta {
            name: p.name.clone(),
            vers: p.version.clone(),
            deps,
            features: clone_features(&p.features),
            license: clone_optional(&p.license),
            license_file: clone_optional(&p.license_file),
            cksum: checksum,
            v: SCHEMA_VERSION,
            yanked: false,
        };
        assert(r@.deps =~= record_of(p@, checksum@).deps);
        r
    }
}

/// The lines of `lines` that are not blank, in their order.
pub open spec fn non_blank(lines: Seq<Seq<char>>) -> Seq<Seq<char>>
    decreases lines.len(),
{
    if lines.len() == 0 {
        Seq::empty()
    } else if is_blank(lines.last()) {
        non_blank(lines.drop_last())
    } else {
        non_blank(lines.drop_last()).push(lines.last())
    }
}

/// The records of a ledger, each as the text of its line.
pub open spec fn records(ledger: Seq<char>) -> Seq<Seq<char>> {
    non_blank(lines(ledger))
}

/// The lines that are not blank are picked one by one.
pub proof fn lemma_non_blank_of_joined(x: Seq<Seq<char>>, y: Seq<Seq<char>>)
    ensures
        non_blank(x + y) == non_blank(x) + non_blank(y),
    decreases y.len(),
{
    if y.len() == 0 {
        assert(x + y =~= x);
        assert(non_blank(x) + non_blank(y) =~= non_blank(x));
    } else {
        let xy = x + y;
        assert(xy.drop_last() =~= x + y.drop_last());
        assert(xy.last() == y.last());
        lemma_non_blank_of_joined(x, y.drop_last());
        assert(non_blank(xy) =~= non_blank(x) + non_blank(y));
    }
}

/// A ledger whose lines are all ended, with one more line that holds
/// something, has one more record: that line.
pub proof fn lemma_records_of_appended(ledger: Seq<char>, line: Seq<char>)
    requires
        ledger.len() == 0 || ledger.last() == '\n',
        forall|i: int| 0 <= i < line.len() ==> line[i] != '\n',
        !is_blank(line),
        line.len() == 0 || line.last() != '\r',
    ensures
        records(ledger + (line + seq!['\n'])) == records(ledger).push(line),
{
    lemma_lines_of_appended(ledger, line + seq!['\n']);
    lemma_one_line(line);
    lemma_non_blank_of_joined(lines(ledger), seq![line]);
    assert(seq![line].drop_last() =~= Seq::<Seq<char>>::empty());
    assert(non_blank(Seq::<Seq<char>>::empty()) =~= Seq::<Seq<char>>::empty());
    assert(seq![line].last() == line);
    assert(non_blank(seq![line]) =~= seq![line]);
    assert(records(ledger) + seq![line] =~= records(ledger).push(line));
}

/// The records of the ledger `text`, each as the text of its line: the lines
/// that are not blank, in their order.
pub fn ledger_lines(text: &str) -> (out: Vec<String>)
    ensures
        out.deep_view() == records(text@),
{
    let all = split_lines(text);
    let mut out: Vec<String> = Vec::new();
    let mut i: usize = 0;
    assert(all.deep_view().take(0) =~= Seq::empty());
    while i < all.len()
        invariant
            i <= all@.len(),
            out.deep_view() == non_blank(all.deep_view().take(i as int)),
        decreases all@.len() - i,
    {
        let ghost before = out.deep_view();
        proof {
            let next = all.deep_view().take(i + 1);
            assert(next.drop_last() =~= all.deep_view().take(i as int));
            assert(next.last() == all@[i as int]@);
        }
        if !blank(all[i].as_str()) {
            out.push(all[i].clone());
            assert(out.deep_view() =~= before.push(all@[i as int]@));
        }
        i += 1;
    }
    assert(all.deep_view().take(all@.len() as int) =~= all.deep_view());
    out
}

/// A line of a ledger that does not hold a record.
#[derive(Debug, Clone, PartialEq, Eq)]
pub struct ParseError {
    /// The line as it stands in the ledger.
    pub line: String,
    /// What the decoder said of it.
    pub detail: String,
}

pub struct ParseErrorView {
    pub line: Seq<char>,
    pub detail: Seq<char>,
}

impl View for ParseError {
    type V = ParseErrorView;

    open spec fn view(&self) -> ParseErrorView {
        ParseErrorView { line: self.line@, detail: self.detail@ }
    }
}

impl DeepView for ParseError {
    type V = ParseErrorView;

    open spec fn deep_view(&self) -> ParseErrorView {
        self@
    }
}

impl ParseError {
    /// The error in words: it names the line.
    pub open spec fn message_of(e: ParseErrorView) -> Seq<char> {
        "Malformed line in the index: "@ + e.line + ": "@ + e.detail
    }

    /// The error in words: it names the line.
    pub fn message(&self) -> (r: String)
        ensures
            r@ == Self::message_of(self@),
    {
        let head = append_text("Malformed line in the index: ", self.line.as_str());
        let head = append_text(head.as_str(), ": ");
        append_text(head.as_str(), self.detail.as_str())
    }
}

/// A line of a ledger with what decoding made of it: the record, or the
/// decoder's complaint.
#[derive(Debug, PartialEq, Eq)]
pub struct Decoded {
    pub line: String,
    pub record: Result<IndexMeta, String>,
}

pub struct DecodedView {
    pub line: Seq<char>,
    pub record: Result<IndexMetaView, Seq<char>>,
}

impl View for Decoded {
    type V = DecodedView;

    open spec fn view(&self) -> DecodedView {
        DecodedView {
            line: self.line@,
            record: match self.record {
                Ok(m) => Ok(m@),
                Err(e) => Err(e@),
            },
        }
    }
}

impl DeepView for Decoded {
    type V = DecodedView;

    open spec fn deep_view(&self) -> DecodedView {
        self@
    }
}

/// The position of the first line that did not decode, or the number of lines
/// where all of them did.
pub open spec fn first_failure(decoded: Seq<DecodedView>) -> int
    decreases decoded.len(),
{
    if decoded.len() == 0 || decoded[0].record is Err {
        0
    } else {
        1 + first_failure(decoded.drop_first())
    }
}

/// The ledger that the decoded lines stand for: their records in order, or
/// the first line that holds none.
pub open spec fn ledger_of_decoded(decoded: Seq<DecodedView>) -> Result<
    Seq<IndexMetaView>,
    ParseErrorView,
> {
    let k = first_failure(decoded);
    if 0 <= k < decoded.len() {
        Err(ParseErrorView { line: decoded[k].line, detail: decoded[k].record->Err_0 })
    } else {
        Ok(Seq::new(decoded.len(), |i: int| decoded[i].record->Ok_0))
    }
}

/// `first_failure` is the first position whose line holds no record.
pub proof fn lemma_first_failure(decoded: Seq<DecodedView>, k: int)
    requires
        0 <= k <= decoded.len(),
        forall|j: int| 0 <= j < k ==> decoded[j].record is Ok,
        k == decoded.len() || decoded[k].record is Err,
    ensures
        first_failure(decoded) == k,
    decreases k,
{
    if k > 0 {
        let t = decoded.drop_first();
        assert forall|j: int| 0 <= j < k - 1 implies t[j].record is Ok by {
            assert(t[j] == decoded[j + 1]);
        }
        lemma_first_failure(t, k - 1);
    }
}

/// Where no line fails, each holds a record.
pub proof fn lemma_all_decoded(decoded: Seq<DecodedView>)
    requires
        ledger_of_decoded(decoded) is Ok,
    ensures
        forall|j: int| 0 <= j < decoded.len() ==> (#[trigger] decoded[j]).record is Ok,
        first_failure(decoded) == decoded.len(),
    decreases decoded.len(),
{
    if decoded.len() > 0 {
        let t = decoded.drop_first();
        assert(first_failure(decoded) == 1 + first_failure(t));
        lemma_all_decoded(t);
        assert forall|j: int| 0 <= j < decoded.len() implies (#[trigger] decoded[j]).record
            is Ok by {
            if j > 0 {
                assert(decoded[j] == t[j - 1]);
            }
        }
    }
}

/// A ledger with one more line that holds a record has that record too, after
/// the others.
pub proof fn lemma_ledger_of_appended(decoded: Seq<DecodedView>, line: Seq<char>, record: IndexMetaView)
    requires
        ledger_of_decoded(decoded) is Ok,
    ensures
        ledger_of_decoded(decoded.push(DecodedView { line, record: Ok(record) })) == Ok::<
            Seq<IndexMetaView>,
            ParseErrorView,
        >(ledger_of_decoded(decoded)->Ok_0.push(record)),
{
    let more = decoded.push(DecodedView { line, record: Ok(record) });
    lemma_all_decoded(decoded);
    assert forall|j: int| 0 <= j < more.len() implies more[j].record is Ok by {
        if j < decoded.len() {
            assert(more[j] == decoded[j]);
        }
    }
    lemma_first_failure(more, more.len() as int);
    assert(Seq::new(more.len(), |i: int| more[i].record->Ok_0) =~= Seq::new(
        decoded.len(),
        |i: int| decoded[i].record->Ok_0,
    ).push(record));
}

/// The records of a ledger whose lines have been decoded one by one. The
/// first line that holds no record fails the whole ledger, and the error names
/// that line.
pub fn ledger_entries(decoded: Vec<Decoded>) -> (r: Result<Vec<IndexMeta>, ParseError>)
    ensures
        match r {
            Ok(entries) => ledger_of_decoded(decoded.deep_view()) == Ok::<
                Seq<IndexMetaView>,
                ParseErrorView,
            >(entries.deep_view()),
            Err(e) => ledger_of_decoded(decoded.deep_view()) == Err::<
                Seq<IndexMetaView>,
                ParseErrorView,
            >(e@),
        },
{
    let ghost all = decoded.deep_view();
    let ghost items = decoded@;
    let mut out: Vec<IndexMeta> = Vec::new();
    for item in it: decoded
        invariant
            it.seq() == items,
            all == decoded.deep_view(),
            all == Seq::new(items.len(), |i: int| items[i]@),
            out@.len() == it.index(),
            forall|j: int|
                0 <= j < it.index() ==> (#[trigger] all[j]).record == Ok::<
                    IndexMetaView,
                    Seq<char>,
                >(out@[j]@),
    {
        let ghost k = it.index() as int;
        assert(item@ == all[k]);
        match item.record {
            Ok(m) => {
                out.push(m);
            },
            Err(e) => {
                let failed = ParseError { line: item.line, detail: e };
                proof {
                    assert(all[k].record == Err::<IndexMetaView, Seq<char>>(e@));
                    lemma_first_failure(all, k);
                    assert(failed@ == ParseErrorView {
                        line: all[k].line,
                        detail: all[k].record->Err_0,
                    });
                }
                return Err(failed);
            },
        }
    }
    proof {
        lemma_first_failure(all, all.len() as int);
        assert(out.deep_view() =~= Seq::new(all.len(), |i: int| all[i].record->Ok_0));
    }
    Ok(out)
}

/// Whether a ledger holds a record of the version `version`.
pub open spec fn published(entries: Seq<IndexMetaView>, version: Seq<char>) -> bool {
    exists|i: int| 0 <= i < entries.len() && (#[trigger] entries[i]).vers == version
}

/// Whether the ledger with the records `entries` holds one of the version
/// `version`.
pub fn is_published(entries: &Vec<IndexMeta>, version: &str) -> (r: bool)
    ensures
        r == published(entries.deep_view(), version@),
{
    let mut i: usize = 0;
    while i < entries.len()
        invariant
            i <= entries@.len(),
            forall|j: int| 0 <= j < i ==> (#[trigger] entries.deep_view()[j]).vers != version@,
        decreases entries@.len() - i,
    {
        assert(entries.deep_view()[i as int] == entries@[i as int]@);
        if same_text(entries[i].vers.as_str(), version) {
            return true;
        }
        i += 1;
    }
    false
}

/// No two records of a ledger are of the same version.
pub open spec fn distinct_versions(entries: Seq<IndexMetaView>) -> bool {
    forall|i: int, j: int|
        0 <= i < j < entries.len() ==> (#[trigger] entries[i]).vers != (#[trigger] entries[j]).vers
}

/// A ledger stays without a version that stands twice when a record is added
/// whose version it does not hold yet.
pub proof fn lemma_versions_stay_distinct(entries: Seq<IndexMetaView>, record: IndexMetaView)
    requires
        distinct_versions(entries),
        !published(entries, record.vers),
    ensures
        distinct_versions(entries.push(record)),
{
    let more = entries.push(record);
    assert forall|i: int, j: int| 0 <= i < j < more.len() implies (#[trigger] more[i]).vers != (
    #[trigger] more[j]).vers by {
        if j == entries.len() {
            assert(more[i] == entries[i]);
        } else {
            assert(more[i] == entries[i]);
            assert(more[j] == entries[j]);
        }
    }
}

} // verus!
