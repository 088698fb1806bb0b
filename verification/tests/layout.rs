use cargo_depot::layout::{archive_name, join_path, packaged_archive, shard_path, snapshot_path};
use cargo_depot::{pkg_path, Registry};

#[test]
fn shard_of_one_character() {
    assert_eq!(pkg_path("a"), "1");
}

#[test]
fn shard_of_two_characters() {
    assert_eq!(pkg_path("ab"), "2");
}

#[test]
fn shard_of_three_characters() {
    assert_eq!(pkg_path("abc"), "3/a");
}

#[test]
fn shard_of_four_characters() {
    assert_eq!(pkg_path("abcd"), "ab/cd");
}

#[test]
fn shard_of_a_longer_name() {
    assert_eq!(pkg_path("cargo-depot"), "ca/rg");
}

#[test]
fn shard_ignores_case() {
    assert_eq!(pkg_path("Foo"), pkg_path("foo"));
    assert_eq!(pkg_path("Foo"), "3/f");
    assert_eq!(pkg_path("SERDE"), "se/rd");
    assert_eq!(pkg_path("A"), "1");
}

#[test]
fn shard_is_the_same_each_time() {
    assert_eq!(pkg_path("Tokio"), pkg_path("Tokio"));
}

#[test]
fn shard_lowers_letters_beyond_ascii() {
    assert_eq!(pkg_path("ÄBCD"), "äb/cd");
    assert_eq!(pkg_path("ÄB"), "2");
}

#[test]
fn shard_of_no_name_is_empty() {
    assert_eq!(pkg_path(""), "");
}

#[test]
fn shard_path_takes_the_name_as_it_is() {
    assert_eq!(shard_path("abcd"), "ab/cd");
    assert_eq!(shard_path("ABCD"), "AB/CD");
}

#[test]
fn join_puts_one_separator_between() {
    assert_eq!(join_path("reg", "index"), "reg/index");
    assert_eq!(join_path("reg/", "index"), "reg/index");
    assert_eq!(join_path("", "index"), "index");
    assert_eq!(join_path("/", "index"), "/index");
}

#[test]
fn ledger_lies_in_the_shard_under_the_name_in_lower_case() {
    let registry = Registry("reg".to_string());
    assert_eq!(registry.package_index("demo"), "reg/index/de/mo/demo");
    assert_eq!(registry.package_index("Demo"), "reg/index/de/mo/demo");
    assert_eq!(registry.package_index("DEMO"), registry.package_index("demo"));
    assert_eq!(Registry("/r".to_string()).package_index("Demo"), "/r/index/de/mo/demo");
    assert_eq!(registry.package_index("ABC"), "reg/index/3/a/abc");
    assert_eq!(registry.package_index("abc"), "reg/index/3/a/abc");
    assert_eq!(registry.package_index("ab"), "reg/index/2/ab");
    assert_eq!(registry.package_index("a"), "reg/index/1/a");
}

#[test]
fn registry_paths() {
    let registry = Registry("/srv/reg/".to_string());
    assert_eq!(registry.index_dir(), "/srv/reg/index");
    assert_eq!(registry.config_path(), "/srv/reg/index/config.json");
    assert_eq!(registry.shard_dir("demo"), "/srv/reg/index/de/mo");
    assert_eq!(registry.archive_dir("demo"), "/srv/reg/crates/demo");
    assert_eq!(
        registry.archive_path("demo", "1.0.0"),
        "/srv/reg/crates/demo/demo-1.0.0.crate"
    );
}

#[test]
fn archive_is_named_by_package_and_version() {
    assert_eq!(archive_name("demo", "1.0.0"), "demo-1.0.0.crate");
    assert_eq!(archive_name("a.b", "0.1.0-rc.1"), "a.b-0.1.0-rc.1.crate");
}

#[test]
fn build_tool_leaves_the_archive_under_package() {
    assert_eq!(
        packaged_archive("/w/target", "demo", "1.0.0"),
        "/w/target/package/demo-1.0.0.crate"
    );
}

#[test]
fn snapshot_lies_beside_the_manifest() {
    assert_eq!(snapshot_path("/w/demo/Cargo.toml"), "/w/demo/Cargo.toml.pre-edit");
}

#[test]
fn archives_keep_the_name_as_given() {
    let registry = Registry("reg".to_string());
    assert_eq!(registry.archive_path("Demo", "1.0.0"), "reg/crates/Demo/Demo-1.0.0.crate");
}
