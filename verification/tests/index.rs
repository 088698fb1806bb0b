use cargo_depot::index::{
    is_published, ledger_entries, ledger_lines, Decoded, PUBLIC_INDEX, SCHEMA_VERSION,
};
use cargo_depot::{
    Dependency, DependencyKind, Feature, IndexMeta, Package, PackageDependency, ParseError, Target,
};

fn declared(name: &str, source: Option<&str>, path: Option<&str>) -> PackageDependency {
    PackageDependency {
        name: name.to_string(),
        source: source.map(|s| s.to_string()),
        req: "^1.2".to_string(),
        kind: DependencyKind::Normal,
        optional: false,
        uses_default_features: true,
        features: vec!["derive".to_string()],
        target: None,
        path: path.map(|s| s.to_string()),
    }
}

fn demo(dependencies: Vec<PackageDependency>) -> Package {
    Package {
        name: "Demo".to_string(),
        version: "1.0.0".to_string(),
        dependencies,
        features: vec![
            Feature { name: "default".to_string(), enables: vec!["std".to_string()] },
            Feature { name: "std".to_string(), enables: vec![] },
        ],
        license: Some("MIT".to_string()),
        license_file: None,
        manifest_path: "/w/demo/Cargo.toml".to_string(),
        targets: vec![Target { kind: vec!["lib".to_string()] }],
    }
}

fn entry(version: &str) -> IndexMeta {
    let mut package = demo(vec![]);
    package.version = version.to_string();
    IndexMeta::from_package(&package, "00".to_string())
}

#[test]
fn public_index_is_the_well_known_one() {
    assert_eq!(PUBLIC_INDEX, "registry+https://github.com/rust-lang/crates.io-index");
}

#[test]
fn record_takes_over_the_package() {
    let record = IndexMeta::from_package(&demo(vec![]), "abcd".to_string());
    assert_eq!(record.name, "Demo");
    assert_eq!(record.vers, "1.0.0");
    assert_eq!(record.deps, vec![]);
    assert_eq!(record.features, demo(vec![]).features);
    assert_eq!(record.license, Some("MIT".to_string()));
    assert_eq!(record.license_file, None);
    assert_eq!(record.cksum, "abcd");
    assert_eq!(record.v, 2);
    assert_eq!(record.v, SCHEMA_VERSION);
    assert!(!record.yanked);
}

#[test]
fn dependency_from_the_public_registry_keeps_it() {
    let d = Dependency::from_declared(&declared("serde", Some(PUBLIC_INDEX), None));
    assert_eq!(d.registry, Some(PUBLIC_INDEX.to_string()));
    assert_eq!(d.name, "serde");
    assert_eq!(d.req, "^1.2");
    assert_eq!(d.features, vec!["derive".to_string()]);
    assert!(!d.optional);
    assert!(d.default_features);
    assert_eq!(d.target, None);
    assert_eq!(d.kind, DependencyKind::Normal);
    assert_eq!(d.package, None);
}

#[test]
fn dependency_from_another_registry_is_served_here() {
    let d = Dependency::from_declared(&declared(
        "inner",
        Some("registry+https://example.org/index"),
        None,
    ));
    assert_eq!(d.registry, None);
}

#[test]
fn dependency_from_a_repository_is_served_here() {
    let d = Dependency::from_declared(&declared(
        "inner",
        Some("git+https://example.org/inner.git#0123"),
        None,
    ));
    assert_eq!(d.registry, None);
}

#[test]
fn dependency_by_path_is_served_here() {
    let d = Dependency::from_declared(&declared("inner", None, Some("/w/inner")));
    assert_eq!(d.registry, None);
    let d = Dependency::from_declared(&declared("inner", Some(PUBLIC_INDEX), Some("/w/inner")));
    assert_eq!(d.registry, None);
}

#[test]
fn dependency_without_a_source_names_no_registry() {
    let d = Dependency::from_declared(&declared("inner", None, None));
    assert_eq!(d.registry, None);
}

#[test]
fn record_rewrites_each_dependency() {
    let mut dev = declared("helper", Some("registry+https://example.org/index"), None);
    dev.kind = DependencyKind::Development;
    dev.optional = true;
    dev.uses_default_features = false;
    dev.target = Some("cfg(unix)".to_string());
    let package = demo(vec![
        declared("serde", Some(PUBLIC_INDEX), None),
        dev,
        declared("sibling", None, Some("../sibling")),
    ]);
    let record = IndexMeta::from_package(&package, "ff".to_string());
    assert_eq!(record.deps.len(), 3);
    assert_eq!(record.deps[0].registry, Some(PUBLIC_INDEX.to_string()));
    assert_eq!(record.deps[1].registry, None);
    assert_eq!(record.deps[1].name, "helper");
    assert_eq!(record.deps[1].kind, DependencyKind::Development);
    assert!(record.deps[1].optional);
    assert!(!record.deps[1].default_features);
    assert_eq!(record.deps[1].target, Some("cfg(unix)".to_string()));
    assert_eq!(record.deps[2].registry, None);
    assert_eq!(record.deps[2].name, "sibling");
}

#[test]
fn ledger_lines_are_the_lines_that_hold_something() {
    let lines = ledger_lines("{\"a\":1}\n\n  \t\n{\"b\":2}\r\n\u{a0}\n{\"c\":3}");
    assert_eq!(lines, vec!["{\"a\":1}", "{\"b\":2}", "{\"c\":3}"]);
}

#[test]
fn empty_ledger_has_no_lines() {
    assert_eq!(ledger_lines(""), Vec::<String>::new());
    assert_eq!(ledger_lines("\n\n"), Vec::<String>::new());
}

#[test]
fn ledger_entries_keep_the_order() {
    let decoded = vec![
        Decoded { line: "one".to_string(), record: Ok(entry("0.1.0")) },
        Decoded { line: "two".to_string(), record: Ok(entry("0.2.0")) },
    ];
    assert_eq!(ledger_entries(decoded), Ok(vec![entry("0.1.0"), entry("0.2.0")]));
    assert_eq!(ledger_entries(vec![]), Ok(vec![]));
}

#[test]
fn ledger_entries_fail_on_the_first_bad_line() {
    let decoded = vec![
        Decoded { line: "one".to_string(), record: Ok(entry("0.1.0")) },
        Decoded { line: "{oops".to_string(), record: Err("expected value".to_string()) },
        Decoded { line: "two".to_string(), record: Ok(entry("0.2.0")) },
        Decoded { line: "again".to_string(), record: Err("later".to_string()) },
    ];
    assert_eq!(
        ledger_entries(decoded),
        Err(ParseError { line: "{oops".to_string(), detail: "expected value".to_string() })
    );
}

#[test]
fn published_versions_are_found() {
    let entries = vec![entry("0.1.0"), entry("1.0.0")];
    assert!(is_published(&entries, "1.0.0"));
    assert!(is_published(&entries, "0.1.0"));
    assert!(!is_published(&entries, "1.0.1"));
    assert!(!is_published(&entries, "1.0"));
    assert!(!is_published(&vec![], "1.0.0"));
}

#[test]
fn library_targets() {
    assert!(Target { kind: vec!["lib".to_string()] }.is_library_like());
    assert!(Target { kind: vec!["proc-macro".to_string()] }.is_library_like());
    assert!(Target { kind: vec!["bin".to_string(), "lib".to_string()] }.is_library_like());
    assert!(!Target { kind: vec!["bin".to_string()] }.is_library_like());
    assert!(!Target { kind: vec!["rlib".to_string()] }.is_library_like());
    assert!(!Target { kind: vec![] }.is_library_like());
}

#[test]
fn library_packages() {
    let mut package = demo(vec![]);
    assert!(package.is_library());
    package.targets = vec![
        Target { kind: vec!["bin".to_string()] },
        Target { kind: vec!["proc-macro".to_string()] },
    ];
    assert!(package.is_library());
    package.targets = vec![Target { kind: vec!["bin".to_string()] }];
    assert!(!package.is_library());
    package.targets = vec![];
    assert!(!package.is_library());
}
