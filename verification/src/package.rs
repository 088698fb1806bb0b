//! What the registry needs to know of a package before it is published: its
//! name and version, what it depends on, and the targets it builds.

use vstd::prelude::*;
use crate::text::{clone_optional, clone_texts, same_text};

verus! {

/// What a dependency is needed for.
#[derive(Debug, Clone, Copy, PartialEq, Eq)]
pub enum DependencyKind {
    Normal,
    Development,
    Build,
    Unknown,
}

/// A dependency as the package's metadata declares it.
#[derive(Debug, Clone, PartialEq, Eq)]
pub struct PackageDependency {
    pub name: String,
    /// Where the dependency comes from; absent for one given by its path.
    pub source: Option<String>,
    /// The version requirement, as text.
    pub req: String,
    pub kind: DependencyKind,
    pub optional: bool,
    pub uses_default_features: bool,
    pub features: Vec<String>,
    /// The platform that the dependency is limited to, as text.
    pub target: Option<String>,
    /// The directory of a dependency given by its path.
    pub path: Option<String>,
}

pub struct PackageDependencyView {
    pub name: Seq<char>,
    pub source: Option<Seq<char>>,
    pub req: Seq<char>,
    pub kind: DependencyKind,
    pub optional: bool,
    pub uses_default_features: bool,
    pub features: Seq<Seq<char>>,
    pub target: Option<Seq<char>>,
    pub path: Option<Seq<char>>,
}

impl View for PackageDependency {
    type V = PackageDependencyView;

    open spec fn view(&self) -> PackageDependencyView {
        PackageDependencyView {
            name: self.name@,
            source: self.source.deep_view(),
            req: self.req@,
            kind: self.kind,
            optional: self.optional,
            uses_default_features: self.uses_default_features,
            features: self.features.deep_view(),
            target: self.target.deep_view(),
            path: self.path.deep_view(),
        }
    }
}

impl DeepView for PackageDependency {
    type V = PackageDependencyView;

    open spec fn deep_view(&self) -> PackageDependencyView {
        self@
    }
}

/// A feature of a package, with the features and dependencies it switches on.
#[derive(Debug, Clone, PartialEq, Eq)]
pub struct Feature {
    pub name: String,
    pub enables: Vec<String>,
}

pub struct FeatureView {
    pub name: Seq<char>,
    pub enables: Seq<Seq<char>>,
}

impl View for Feature {
    type V = FeatureView;

    open spec fn view(&self) -> FeatureView {
        FeatureView { name: self.name@, enables: self.enables.deep_view() }
    }
}

impl DeepView for Feature {
    type V = FeatureView;

    open spec fn deep_view(&self) -> FeatureView {
        self@
    }
}

/// Whether the text `a` comes before the text `b`: at the first place where
/// they differ `a` has the character of the lower code point, or `a` ends
/// there and `b` goes on.
pub open spec fn comes_before(a: Seq<char>, b: Seq<char>) -> bool
    decreases a.len(),
{
    if b.len() == 0 {
        false
    } else if a.len() == 0 {
        true
    } else if a[0] != b[0] {
        (a[0] as u32) < (b[0] as u32)
    } else {
        comes_before(a.drop_first(), b.drop_first())
    }
}

/// In a feature map the names stand in their order.
pub open spec fn names_in_order(features: Seq<FeatureView>) -> bool {
    forall|i: int, j: int|
        0 <= i < j < features.len() ==> comes_before(
            (#[trigger] features[i]).name,
            (#[trigger] features[j]).name,
        )
}

/// In a feature map no name stands twice.
pub open spec fn distinct_names(features: Seq<FeatureView>) -> bool {
    forall|i: int, j: int|
        0 <= i < j < features.len() ==> (#[trigger] features[i]).name != (
        #[trigger] features[j]).name
}

/// A copy of a feature map.
pub fn clone_features(v: &Vec<Feature>) -> (r: Vec<Feature>)
    ensures
        r.deep_view() == v.deep_view(),
{
    let mut r: Vec<Feature> = Vec::new();
    let mut i: usize = 0;
    while i < v.len()
        invariant
            i <= v@.len(),
            r@.len() == i,
            forall|j: int| 0 <= j < i ==> r@[j]@ == v@[j]@,
        decreases v@.len() - i,
    {
        let f = Feature { name: v[i].name.clone(), enables: clone_texts(&v[i].enables) };
        r.push(f);
        i += 1;
    }
    assert(r.deep_view() =~= v.deep_view());
    r
}

/// Something a package builds, by the kinds it is tagged with.
#[derive(Debug, Clone, PartialEq, Eq)]
pub struct Target {
    pub kind: Vec<String>,
}

pub struct TargetView {
    pub kind: Seq<Seq<char>>,
}

impl View for Target {
    type V = TargetView;

    open spec fn view(&self) -> TargetView {
        TargetView { kind: self.kind.deep_view() }
    }
}

impl DeepView for Target {
    type V = TargetView;

    open spec fn deep_view(&self) -> TargetView {
        self@
    }
}

/// A target that other packages can link: a library or a procedural macro.
pub open spec fn library_like(t: TargetView) -> bool {
    exists|i: int|
        0 <= i < t.kind.len() && (#[trigger] t.kind[i] == "lib"@ || t.kind[i] == "proc-macro"@)
}

/// Whether one of the targets is a library or a procedural macro.
pub open spec fn has_library(targets: Seq<TargetView>) -> bool {
    exists|i: int| 0 <= i < targets.len() && library_like(#[trigger] targets[i])
}

impl Target {
    /// Whether other packages can link this target.
    pub fn is_library_like(&self) -> (r: bool)
        ensures
            r == library_like(self@),
    {
        let mut i: usize = 0;
        while i < self.kind.len()
            invariant
                i <= self.kind@.len(),
                forall|j: int|
                    0 <= j < i ==> !(#[trigger] self@.kind[j] == "lib"@ || self@.kind[j]
                        == "proc-macro"@),
            decreases self.kind@.len() - i,
        {
            let k = self.kind[i].as_str();
            assert(self@.kind[i as int] == k@);
            if same_text(k, "lib") || same_text(k, "proc-macro") {
                return true;
            }
            i += 1;
        }
        false
    }
}

/// A package of a workspace, as its metadata describes it.
#[derive(Debug, Clone, PartialEq, Eq)]
pub struct Package {
    pub name: String,
    /// The version, in its canonical text.
    pub version: String,
    pub dependencies: Vec<PackageDependency>,
    pub features: Vec<Feature>,
    pub license: Option<String>,
    pub license_file: Option<String>,
    /// The path of the package's manifest.
    pub manifest_path: String,
    pub targets: Vec<Target>,
}

pub struct PackageView {
    pub name: Seq<char>,
    pub version: Seq<char>,
    pub dependencies: Seq<PackageDependencyView>,
    pub features: Seq<FeatureView>,
    pub license: Option<Seq<char>>,
    pub license_file: Option<Seq<char>>,
    pub manifest_path: Seq<char>,
    pub targets: Seq<TargetView>,
}

impl View for Package {
    type V = PackageView;

    open spec fn view(&self) -> PackageView {
        PackageView {
            name: self.name@,
            version: self.version@,
            dependencies: self.dependencies.deep_view(),
            features: self.features.deep_view(),
            license: self.license.deep_view(),
            license_file: self.license_file.deep_view(),
            manifest_path: self.manifest_path@,
            targets: self.targets.deep_view(),
        }
    }
}

impl DeepView for Package {
    type V = PackageView;

    open spec fn deep_view(&self) -> PackageView {
        self@
    }
}

impl Package {
    /// The feature map names no feature twice, and the names stand in their
    /// order.
    pub open spec fn wf(&self) -> bool {
        distinct_names(self@.features) && names_in_order(self@.features)
    }

    /// Whether the package has a target that other packages can link.
    pub fn is_library(&self) -> (r: bool)
        ensures
            r == has_library(self@.targets),
    {
        let mut i: usize = 0;
        while i < self.targets.len()
            invariant
                i <= self.targets@.len(),
                forall|j: int| 0 <= j < i ==> !library_like(#[trigger] self@.targets[j]),
            decreases self.targets@.len() - i,
        {
            assert(self@.targets[i as int] == self.targets@[i as int]@);
            if self.targets[i].is_library_like() {
                return true;
            }
            i += 1;
        }
        false
    }
}

} // verus!
