use cargo_depot::{ConfigError, IndexConfig, Registry};

#[test]
fn template_for_a_plain_url() {
    let config = IndexConfig::from_url("https://example.org/registry");
    assert_eq!(
        config.dl(),
        "https://example.org/registry/crates/{crate}/{crate}-{version}.crate"
    );
}

#[test]
fn template_drops_slashes_at_the_end() {
    assert_eq!(
        IndexConfig::from_url("https://example.org/").dl(),
        "https://example.org/crates/{crate}/{crate}-{version}.crate"
    );
    assert_eq!(
        IndexConfig::from_url("https://example.org///").dl(),
        "https://example.org/crates/{crate}/{crate}-{version}.crate"
    );
}

#[test]
fn template_keeps_slashes_inside() {
    assert_eq!(
        IndexConfig::from_url("http://h//a/b/").dl(),
        "http://h//a/b/crates/{crate}/{crate}-{version}.crate"
    );
}

#[test]
fn template_for_an_empty_url() {
    assert_eq!(IndexConfig::from_url("").dl(), "/crates/{crate}/{crate}-{version}.crate");
    assert_eq!(IndexConfig::from_url("//").dl(), "/crates/{crate}/{crate}-{version}.crate");
}

#[test]
fn opening_a_new_registry_needs_a_url() {
    assert_eq!(Registry::open("reg", None, false), Err(ConfigError));
}

#[test]
fn opening_a_new_registry_gives_its_configuration() {
    let (registry, config) = Registry::open("reg", Some("http://host/"), false).unwrap();
    assert_eq!(registry, Registry("reg".to_string()));
    assert_eq!(config, Some(IndexConfig::from_url("http://host")));
    assert_eq!(
        config.unwrap().dl(),
        "http://host/crates/{crate}/{crate}-{version}.crate"
    );
}

#[test]
fn opening_a_configured_registry_writes_nothing() {
    let (registry, config) = Registry::open("reg", None, true).unwrap();
    assert_eq!(registry.0, "reg");
    assert_eq!(config, None);
    let (_, config) = Registry::open("reg", Some("http://other"), true).unwrap();
    assert_eq!(config, None);
}

#[test]
fn config_error_in_words() {
    assert_eq!(
        ConfigError.message(),
        "Provide the URL where the registry will be hosted with the --url flag"
    );
}
