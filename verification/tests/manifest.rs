use cargo_depot::manifest::{are_readable_keys, is_readable_spec};
use cargo_depot::{edit_manifest, Manifest, ManifestError};

const LIBRARY_AND_BINARY: &str = "\
[package]
name = \"demo\"
version = \"1.0.0\"
edition = \"2021\"

[lib]
path = \"src/lib.rs\"

[[bin]]
name = \"demo-cli\"
path = \"src/main.rs\"

[dependencies]
serde = \"1\"
";

#[test]
fn parsing_tells_what_the_rules_look_at() {
    let manifest = Manifest::parse(LIBRARY_AND_BINARY).unwrap();
    assert!(manifest.has_package_section());
    assert_eq!(manifest.example_discovery(), None);
    assert!(manifest.has_binaries());
}

#[test]
fn packaging_switches_example_discovery_off() {
    let manifest = Manifest::parse(LIBRARY_AND_BINARY).unwrap().for_packaging();
    assert!(manifest.has_package_section());
    assert_eq!(manifest.example_discovery(), Some(false));
    assert!(!manifest.has_binaries());
}

#[test]
fn packaging_overrides_a_flag_that_is_on() {
    let text = "[package]\nname = \"demo\"\nversion = \"1.0.0\"\nautoexamples = true\n";
    let manifest = Manifest::parse(text).unwrap();
    assert_eq!(manifest.example_discovery(), Some(true));
    assert_eq!(manifest.for_packaging().example_discovery(), Some(false));
}

#[test]
fn edited_manifest_has_no_binaries() {
    let edited = edit_manifest(LIBRARY_AND_BINARY).unwrap();
    assert_ne!(edited, LIBRARY_AND_BINARY);
    assert!(edited.contains("autoexamples = false"));
    assert!(!edited.contains("[[bin]]"));
    assert!(!edited.contains("demo-cli"));
    assert!(edited.contains("name = \"demo\""));
    assert!(edited.contains("serde"));
    assert!(edited.contains("[lib]"));
    let again = Manifest::parse(&edited).unwrap();
    assert!(again.has_package_section());
    assert_eq!(again.example_discovery(), Some(false));
    assert!(!again.has_binaries());
}

#[test]
fn manifest_without_a_package_gets_no_flag() {
    let text = "[workspace]\nmembers = [\"a\", \"b\"]\n";
    let manifest = Manifest::parse(text).unwrap();
    assert!(!manifest.has_package_section());
    let packaged = manifest.for_packaging();
    assert_eq!(packaged.example_discovery(), None);
    let edited = edit_manifest(text).unwrap();
    assert!(!edited.contains("autoexamples"));
    assert!(edited.contains("members"));
}

#[test]
fn rendering_without_an_edit_keeps_the_binaries() {
    let text = Manifest::parse(LIBRARY_AND_BINARY).unwrap().render().unwrap();
    assert!(text.contains("[[bin]]"));
    assert!(text.contains("demo-cli"));
    assert!(!text.contains("autoexamples"));
}

#[test]
fn text_that_is_no_manifest() {
    assert!(matches!(Manifest::parse("[package"), Err(ManifestError::Parse(_))));
    assert!(matches!(edit_manifest("name = = 3"), Err(ManifestError::Parse(_))));
    assert!(matches!(edit_manifest("[package]\nname = 3\n"), Err(ManifestError::Parse(_))));
}

#[test]
fn parse_error_carries_what_the_parser_said() {
    match edit_manifest("[package") {
        Err(ManifestError::Parse(said)) => assert!(!said.is_empty()),
        other => panic!("{:?}", other),
    }
}

const PACKAGE: &str = "[package]\nname = \"demo\"\nversion = \"1.0.0\"\n";

fn with_profile_package(key: &str) -> String {
    format!("{}\n[profile.dev.package.\"{}\"]\nopt-level = 3\n", PACKAGE, key)
}

#[test]
fn package_named_by_an_address_with_an_empty_fragment_is_refused() {
    let text = with_profile_package("https://example.com/foo#");
    assert!(matches!(Manifest::parse(&text), Err(ManifestError::Parse(_))));
    assert!(matches!(edit_manifest(&text), Err(ManifestError::Parse(_))));
    let text = with_profile_package("https://example.com/foo# ");
    assert!(matches!(edit_manifest(&text), Err(ManifestError::Parse(_))));
}

#[test]
fn package_named_by_a_kind_and_no_address_is_refused() {
    for key in ["git+http://", "registry+https://", "git+https://"] {
        assert!(!is_readable_spec(key), "{}", key);
        let text = with_profile_package(key);
        assert!(matches!(edit_manifest(&text), Err(ManifestError::Parse(_))));
    }
}

#[test]
fn package_named_below_a_build_override_is_looked_at_too() {
    let text = format!(
        "{}\n[profile.dev.build-override.package.\"https://example.com/foo#\"]\nopt-level = 3\n",
        PACKAGE
    );
    assert!(matches!(edit_manifest(&text), Err(ManifestError::Parse(_))));
    let text = format!(
        "{}\n[profile.dev.package.foo.package.\"git+http://\"]\nopt-level = 3\n",
        PACKAGE
    );
    assert!(matches!(edit_manifest(&text), Err(ManifestError::Parse(_))));
}

#[test]
fn packages_in_profiles_are_read() {
    for key in [
        "foo",
        "foo@1.4",
        "*",
        "https://github.com/rust-lang/crates.io-index#foo",
        "https://github.com/rust-lang/crates.io-index#foo@1.4.3",
        "file:///path/to/my/project/foo#1.1.8",
        "git+https://github.com/rust-lang/cargo#foo",
        "git+https://github.com/rust-lang/cargo?branch=dev#foo@1.0.0",
        "registry+https://github.com/rust-lang/crates.io-index#foo@1.0.0",
        "sparse+https://example.com/index/#foo",
    ] {
        assert!(is_readable_spec(key));
        let text = with_profile_package(key);
        let edited = edit_manifest(&text).unwrap();
        assert!(edited.contains("opt-level = 3"));
        assert!(edited.contains("autoexamples = false"));
    }
}

#[test]
fn addresses_elsewhere_are_not_looked_at() {
    let text = format!(
        "{}\n[dependencies]\ninner = {{ git = \"git+http://\" }}\n\n[package.metadata.\"https://x/y#\"]\na = 1\n",
        PACKAGE
    );
    assert!(edit_manifest(&text).is_ok());
}

#[test]
fn readable_specs() {
    assert!(is_readable_spec("foo"));
    assert!(is_readable_spec("a+b#"));
    assert!(is_readable_spec("https://example.com/foo"));
    assert!(is_readable_spec("https://example.com/foo#bar"));
    assert!(is_readable_spec("https://example.com/foo#\t1"));
    assert!(is_readable_spec("https://example.com/a+b#c"));
    assert!(!is_readable_spec("https://example.com/foo#"));
    assert!(!is_readable_spec("https://example.com/foo#\t \n"));
    assert!(is_readable_spec("https://example.com/foo##"));
    assert!(is_readable_spec("https://example.com/foo#a#"));
    assert!(is_readable_spec("git+https://example.com/foo"));
    assert!(is_readable_spec("sparse+https://example.com/foo"));
    assert!(!is_readable_spec("git+https://example.com/foo#"));
    assert!(!is_readable_spec("git+http://"));
    assert!(is_readable_spec("path+file:///w/demo"));
}

#[test]
fn readable_keys() {
    let path = |keys: &[&str]| keys.iter().map(|k| k.to_string()).collect::<Vec<String>>();
    assert!(are_readable_keys(&vec![]));
    assert!(are_readable_keys(&vec![path(&["profile", "dev", "package", "foo"])]));
    assert!(are_readable_keys(&vec![path(&["package", "x://y#"])]));
    assert!(are_readable_keys(&vec![path(&["profile"]), path(&["x://y#"])]));
    assert!(!are_readable_keys(&vec![path(&["profile", "x://y#"])]));
    assert!(!are_readable_keys(&vec![
        path(&["profile", "dev", "package", "foo"]),
        path(&["profile", "dev", "package", "x://y#"]),
    ]));
}

#[test]
fn package_named_inside_an_array_is_looked_at_too() {
    let text = format!(
        "{}\n[profile]\ndev = [0, {{ \"https://example.com/foo#\" = {{}} }}]\n",
        PACKAGE
    );
    assert!(matches!(edit_manifest(&text), Err(ManifestError::Parse(_))));
}

#[test]
fn reader_returns_on_every_name_it_is_given() {
    let keys = [
        "registry+http:///a#b",
        "path+file://",
        "path+file:///w/demo#1.0",
        "path+http://x/y",
        "sparse+http://",
        "unknown+https://example.com/a",
        "a:b://c#",
        "x://y?q#f",
        "git+ssh://git@github.com/x/y.git#z@1",
        "https://[::1]/a#b",
        " https://example.com/a#b ",
        "https://example.com/a#1.2.3",
        "https://example.com/a#-",
        "https://example.com",
        "registry+https://example.com/index?x=1#foo",
        "git+https://exa mple.com/a",
        "git+https://example.com:99999/a",
        "://",
        "+://#",
        "a+b://#c",
        "foo://bar#\u{1}",
    ];
    for key in keys {
        let text = format!(
            "{}\n[profile.dev.package.{}]\nopt-level = 3\n",
            PACKAGE,
            serde_json::to_string(key).unwrap()
        );
        let result = edit_manifest(&text);
        if !is_readable_spec(key) {
            assert!(matches!(result, Err(ManifestError::Parse(_))), "{}", key);
        }
    }
}
