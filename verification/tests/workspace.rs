use cargo_depot::workspace::{exit_status, has_prefix, is_remote, publishable};
use cargo_depot::{Outcome, PublishError, Skip};

#[test]
fn addresses_are_remote() {
    assert!(is_remote("https://example.org/demo.tar.gz"));
    assert!(is_remote("http://example.org/demo.tar.gz"));
    assert!(is_remote("http://"));
}

#[test]
fn paths_are_not_remote() {
    assert!(!is_remote("../demo"));
    assert!(!is_remote("/srv/https://x"));
    assert!(!is_remote("ftp://example.org/x"));
    assert!(!is_remote("http:/x"));
    assert!(!is_remote("HTTP://x"));
    assert!(!is_remote(""));
}

#[test]
fn prefixes() {
    assert!(has_prefix("abc", "ab"));
    assert!(has_prefix("abc", ""));
    assert!(has_prefix("abc", "abc"));
    assert!(!has_prefix("abc", "abcd"));
    assert!(!has_prefix("abc", "b"));
}

#[test]
fn a_package_without_a_list_is_offered() {
    assert!(publishable(None));
}

#[test]
fn a_package_with_an_empty_list_is_not_offered() {
    assert!(!publishable(Some(&vec![])));
}

#[test]
fn a_package_with_a_list_is_offered() {
    assert!(publishable(Some(&vec!["internal".to_string()])));
}

#[test]
fn a_run_without_failures_ends_with_zero() {
    assert_eq!(exit_status(&vec![]), 0);
    assert_eq!(
        exit_status(&vec![
            Outcome::Skipped(Skip::NotALibrary),
            Outcome::Skipped(Skip::AlreadyPublished)
        ]),
        0
    );
}

#[test]
fn a_run_with_a_failure_does_not_end_with_zero() {
    assert_eq!(
        exit_status(&vec![Outcome::Skipped(Skip::NotALibrary), Outcome::Failed(PublishError::Build)]),
        2
    );
    assert_eq!(exit_status(&vec![Outcome::Failed(PublishError::Unexpected)]), 2);
}
