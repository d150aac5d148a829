//! The pipeline's filter, locate and fan-in steps, on concrete values.

use rustars::app::{filter_candidate_urls, filter_repo_urls, locate_repos};
use rustars::crates::{collect_fetch_results, CrateMetadata, Error as CratesError};
use rustars::github::{
    collect_star_results, partition_urls, Error as GithubError, Repo, StarOutcome,
};

fn meta(name: &str, repository: Option<&str>) -> CrateMetadata {
    CrateMetadata {
        name: String::from(name),
        repository: repository.map(String::from),
    }
}

#[test]
fn filter_keeps_only_forge_urls() {
    let deps = vec![
        meta("log", Some("https://github.com/rust-lang/log")),
        meta("somecrate", Some("https://example.com/somecrate")),
        meta("quietcrate", None),
        meta("futures", Some("https://github.com/rust-lang/futures-rs")),
    ];

    let urls = filter_repo_urls(&deps);

    assert_eq!(
        urls,
        vec![
            "https://github.com/rust-lang/log",
            "https://github.com/rust-lang/futures-rs"
        ]
    );
}

#[test]
fn filter_is_idempotent_on_urls() {
    let urls = vec![
        String::from("https://github.com/papey/rustars"),
        String::from("https://example.com/elsewhere"),
        String::from("https://github.com/rust-lang/log"),
    ];

    let once = filter_candidate_urls(&urls);
    let twice = filter_candidate_urls(&once);

    assert_eq!(once, twice);
}

#[test]
fn collect_fetch_results_empty_batch() {
    let results: Vec<Result<CrateMetadata, CratesError>> = vec![];

    let collected = collect_fetch_results(&results).unwrap();

    assert!(collected.is_empty());
}

#[test]
fn collect_fetch_results_keeps_names() {
    let results: Vec<Result<CrateMetadata, CratesError>> = vec![
        Ok(meta("log", Some("https://github.com/rust-lang/log"))),
        Ok(meta("futures", None)),
    ];

    let collected = collect_fetch_results(&results).unwrap();

    let mut names: Vec<String> = collected.into_iter().map(|m| m.name).collect();
    names.sort();
    assert_eq!(names, vec!["futures", "log"]);
}

#[test]
fn collect_fetch_results_fails_on_first_error() {
    let results: Vec<Result<CrateMetadata, CratesError>> = vec![
        Ok(meta("log", None)),
        Err(CratesError::CratesIOErr(String::from("name not found"))),
        Err(CratesError::HttpErr(String::from("connection reset"))),
    ];

    match collect_fetch_results(&results) {
        Err(CratesError::CratesIOErr(reason)) => assert_eq!(reason, "name not found"),
        _ => panic!("one failed lookup must fail the whole batch with that failure"),
    }
}

#[test]
fn partition_urls_isolates_malformed_urls() {
    let urls = vec![
        String::from("https://github.com/papey"),
        String::from("https://github.com/papey/rustars"),
    ];

    let (located, errors) = partition_urls(&urls);

    assert_eq!(located.len(), 1);
    assert_eq!(located[0].user, "papey");
    assert_eq!(located[0].name, "rustars");
    assert_eq!(errors.len(), 1);
    assert_eq!(errors[0].url, "https://github.com/papey");
}

#[test]
fn locate_repos_runs_filter_and_locate() {
    let deps = vec![
        meta("log", Some("https://github.com/rust-lang/log")),
        meta("somecrate", Some("https://example.com/somecrate")),
        meta("short", Some("https://github.com/alone")),
        meta("quietcrate", None),
    ];

    let (located, errors) = locate_repos(&deps);

    assert_eq!(located.len(), 1);
    assert_eq!(located[0].user, "rust-lang");
    assert_eq!(located[0].name, "log");
    assert_eq!(errors.len(), 1);
    assert_eq!(errors[0].url, "https://github.com/alone");
}

fn outcome(user: &str, name: &str, result: Result<(), &str>) -> StarOutcome {
    StarOutcome {
        repo: Repo {
            user: String::from(user),
            name: String::from(name),
        },
        result: result.map_err(String::from),
    }
}

#[test]
fn collect_star_results_all_succeeded() {
    let outcomes = vec![
        outcome("papey", "rustars", Ok(())),
        outcome("rust-lang", "log", Ok(())),
    ];

    assert!(collect_star_results(outcomes).is_ok());
}

#[test]
fn collect_star_results_reports_first_failure() {
    let make = || {
        vec![
            outcome("papey", "rustars", Ok(())),
            outcome("rust-lang", "log", Err("403 Forbidden")),
            outcome("rust-lang", "futures-rs", Err("500 Internal Server Error")),
        ]
    };

    let report = |outcomes| match collect_star_results(outcomes) {
        Err(GithubError::StargazErr(e)) => (e.repo.user, e.repo.name, e.reason),
        _ => panic!("one failed star must fail the whole batch"),
    };

    let first = report(make());
    assert_eq!(first.0, "rust-lang");
    assert_eq!(first.1, "log");
    assert_eq!(first.2, "403 Forbidden");

    // the same deterministic failure set is reported identically again
    let second = report(make());
    assert_eq!(first, second);
}
