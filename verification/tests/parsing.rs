//! URL parsing and string operations, on concrete values.

use rustars::github::{repo_from_url, Error};
use rustars::text::{contains_str, split_str};

#[test]
fn test_repo_from_url() {
    // example url
    let url = "https://github.com/papey/rustars";

    let res = repo_from_url(String::from(url)).unwrap();

    assert_eq!(res.user, "papey");
    assert_eq!(res.name, "rustars")
}

#[test]
fn repo_from_url_ignores_trailing_segments() {
    let url = "https://github.com/papey/rustars/tree/main/src";

    let res = repo_from_url(String::from(url)).unwrap();

    assert_eq!(res.user, "papey");
    assert_eq!(res.name, "rustars");
}

#[test]
fn repo_from_url_rejects_short_url() {
    let url = "https://github.com/papey";

    let res = repo_from_url(String::from(url));

    match res {
        Err(Error::RepoUrlErr(e)) => assert_eq!(e.url, url),
        _ => panic!("a URL with a single path segment must not locate a repository"),
    }
}

#[test]
fn repo_from_url_rejects_empty_segment() {
    let url = "https://github.com//rustars";

    let res = repo_from_url(String::from(url));

    assert!(matches!(res, Err(Error::RepoUrlErr(_))));
}

#[test]
fn repo_from_url_error_message_names_url() {
    let url = "https://github.com/papey";

    match repo_from_url(String::from(url)) {
        Err(Error::RepoUrlErr(e)) => {
            assert_eq!(
                e.message(),
                "Can't get user and name from repository URL https://github.com/papey"
            );
        }
        _ => panic!("expected a location error"),
    }
}

#[test]
fn split_str_cuts_at_every_separator() {
    let parts = split_str("https://github.com/papey/rustars", '/');

    assert_eq!(parts, vec!["https:", "", "github.com", "papey", "rustars"]);
}

#[test]
fn split_str_without_separator_is_whole() {
    let parts = split_str("rustars", '/');

    assert_eq!(parts, vec!["rustars"]);
}

#[test]
fn contains_str_finds_the_host() {
    assert!(contains_str(
        "https://github.com/papey/rustars",
        "https://github.com"
    ));
    assert!(!contains_str("https://gitlab.com/papey/rustars", "https://github.com"));
    assert!(contains_str("anything", ""));
}
