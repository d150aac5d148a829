//! Error rendering and wrapping, on concrete values.

use rustars::app::{Error as AppError, NoneError};
use rustars::crates::Error as CratesError;
use rustars::github::{Error as GithubError, Repo, StargazError};
use rustars::project::Error as ProjectError;

#[test]
fn none_error_message_names_argument() {
    let err = NoneError {
        name: String::from("token"),
    };

    assert_eq!(
        err.message(),
        "There is no value associated with token argument"
    );
}

#[test]
fn repo_message_names_both_segments() {
    let repo = Repo {
        user: String::from("papey"),
        name: String::from("rustars"),
    };

    assert_eq!(repo.message(), "user: papey, name: rustars");
}

#[test]
fn stargaz_error_message_names_repo_and_reason() {
    let err = StargazError {
        repo: Repo {
            user: String::from("papey"),
            name: String::from("rustars"),
        },
        reason: String::from("403 Forbidden"),
    };

    assert_eq!(
        err.message(),
        "Error stargazing repository : user: papey, name: rustars, 403 Forbidden"
    );
}

#[test]
fn project_error_message_names_path_and_cause() {
    let err = ProjectError {
        path: String::from("Cargo.toml"),
        cause: String::from("no such file"),
    };

    assert_eq!(
        err.message(),
        "Error with Manifest file Cargo.toml : no such file"
    );
}

#[test]
fn crates_error_message_is_the_wrapped_text() {
    let by_variant = vec![
        CratesError::CratesIOErr(String::from("name not found")),
        CratesError::StdIOErr(String::from("runtime unavailable")),
        CratesError::HttpErr(String::from("connection reset")),
        CratesError::HeaderErr(String::from("invalid header value")),
    ];

    let rendered: Vec<String> = by_variant.iter().map(|e| e.message()).collect();

    assert_eq!(
        rendered,
        vec![
            "name not found",
            "runtime unavailable",
            "connection reset",
            "invalid header value"
        ]
    );
}

#[test]
fn github_error_message_is_the_wrapped_text() {
    let hubcaps = GithubError::HubCapsErr(String::from("bad credentials"));
    let io = GithubError::StdIOErr(String::from("runtime unavailable"));

    assert_eq!(hubcaps.message(), "bad credentials");
    assert_eq!(io.message(), "runtime unavailable");
}

#[test]
fn app_error_wraps_each_kind() {
    let from_none = AppError::from(NoneError {
        name: String::from("manifest"),
    });
    assert!(matches!(from_none, AppError::NoneErr(_)));

    let from_project = AppError::from(ProjectError {
        path: String::from("Cargo.toml"),
        cause: String::from("no such file"),
    });
    assert!(matches!(from_project, AppError::CargoErr(_)));

    let from_crates = AppError::from(CratesError::CratesIOErr(String::from("name not found")));
    assert!(matches!(from_crates, AppError::CratesErr(_)));

    let from_github = AppError::from(GithubError::HubCapsErr(String::from("bad credentials")));
    assert!(matches!(from_github, AppError::GithubErr(_)));

    assert_eq!(
        from_none.message(),
        "There is no value associated with manifest argument"
    );
}

#[test]
fn github_error_wraps_stargaz_error() {
    let err = GithubError::from(StargazError {
        repo: Repo {
            user: String::from("papey"),
            name: String::from("rustars"),
        },
        reason: String::from("timeout"),
    });

    assert!(matches!(err, GithubError::StargazErr(_)));
    assert_eq!(
        err.message(),
        "Error stargazing repository : user: papey, name: rustars, timeout"
    );
}
