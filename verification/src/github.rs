//! Forge repositories and the routines that work with their URLs.
//!
//! A repository is identified by a `{user, name}` pair taken from a URL of
//! the shape `scheme://host/user/name[...]`. Parsing a URL, partitioning a
//! batch of URLs into located repositories and per-item errors, and
//! aggregating the outcomes of a batch of star requests are all verified
//! here; issuing the requests themselves is the surrounding program's job.

use vstd::prelude::*;

use crate::batch::{first_err_of, lemma_first_err_at, lemma_first_err_none};
use crate::text::{lemma_split_on_parts, no_sep, split_on, split_str};

verus! {

/// Mathematical value of a `Repo`: the two path segments that identify it.
pub ghost struct RepoView {
    pub user: Seq<char>,
    pub name: Seq<char>,
}

/// Simple repository metadata structure
///
/// Contains a user and a repository name.
#[derive(Debug)]
pub struct Repo {
    pub user: String,
    pub name: String,
}

impl View for Repo {
    type V = RepoView;

    open spec fn view(&self) -> RepoView {
        RepoView { user: self.user@, name: self.name@ }
    }
}

impl Repo {
    /// Both segments are non-empty and free of the path separator.
    pub open spec fn wf(self) -> bool {
        self@.user.len() > 0 && self@.name.len() > 0 && no_sep(self@.user, '/') && no_sep(
            self@.name,
            '/',
        )
    }

    /// The text that `message` returns.
    pub open spec fn message_of(self) -> Seq<char> {
        "user: "@ + self@.user + ", name: "@ + self@.name
    }

    /// Render the repository as `user: {user}, name: {name}`.
    pub fn message(&self) -> (m: String)
        ensures
            m@ == self.message_of(),
    {
        let mut m = String::from_str("user: ");
        m.append(self.user.as_str());
        m.append(", name: ");
        m.append(self.name.as_str());
        proof {
            assert(m@ =~= self.message_of());
        }
        m
    }
}

/// Parsing repository error
///
/// Used when a URL can not be parsed as a forge repository.
#[derive(Debug)]
pub struct RepoUrlError {
    pub url: String,
}

impl RepoUrlError {
    /// The text that `message` returns.
    pub open spec fn message_of(self) -> Seq<char> {
        "Can't get user and name from repository URL "@ + self.url@
    }

    /// Render the error with the offending URL.
    pub fn message(&self) -> (m: String)
        ensures
            m@ == self.message_of(),
    {
        let mut m = String::from_str("Can't get user and name from repository URL ");
        m.append(self.url.as_str());
        proof {
            assert(m@ =~= self.message_of());
        }
        m
    }
}

/// Stargazing repository error
///
/// Used when a request failed to star a repository; carries the repository
/// and the reason the forge gave.
#[derive(Debug)]
pub struct StargazError {
    pub repo: Repo,
    pub reason: String,
}

impl StargazError {
    /// The text that `message` returns.
    pub open spec fn message_of(self) -> Seq<char> {
        "Error stargazing repository : "@ + self.repo.message_of() + ", "@ + self.reason@
    }

    /// Render the error with the repository and the underlying reason.
    pub fn message(&self) -> (m: String)
        ensures
            m@ == self.message_of(),
    {
        let mut m = String::from_str("Error stargazing repository : ");
        let repo = self.repo.message();
        m.append(repo.as_str());
        m.append(", ");
        m.append(self.reason.as_str());
        proof {
            assert(m@ =~= self.message_of());
        }
        m
    }
}

/// Meta module error
///
/// Wraps all kinds of errors related to this module. Errors of the forge
/// client and of the platform reach this library only as rendered text,
/// carried by the `HubCapsErr` and `StdIOErr` variants.
#[derive(Debug)]
pub enum Error {
    HubCapsErr(String),
    StargazErr(StargazError),
    RepoUrlErr(RepoUrlError),
    StdIOErr(String),
}

impl Error {
    /// The text that `message` returns: each variant renders as its payload.
    pub open spec fn message_of(self) -> Seq<char> {
        match self {
            Error::HubCapsErr(s) => s@,
            Error::StargazErr(e) => e.message_of(),
            Error::RepoUrlErr(e) => e.message_of(),
            Error::StdIOErr(s) => s@,
        }
    }

    /// Render the error through the wrapped error's own rendering.
    pub fn message(&self) -> (m: String)
        ensures
            m@ == self.message_of(),
    {
        match self {
            Error::HubCapsErr(s) => s.clone(),
            Error::StargazErr(e) => e.message(),
            Error::RepoUrlErr(e) => e.message(),
            Error::StdIOErr(s) => s.clone(),
        }
    }
}

impl core::convert::From<StargazError> for Error {
    /// Wrap a stargazing error.
    fn from(err: StargazError) -> (r: Error) {
        Error::StargazErr(err)
    }
}

impl vstd::std_specs::convert::FromSpecImpl<StargazError> for Error {
    open spec fn obeys_from_spec() -> bool {
        true
    }

    open spec fn from_spec(err: StargazError) -> Error {
        Error::StargazErr(err)
    }
}

/// The repository a URL points at, if it has the canonical shape.
///
/// Splitting the URL at `/` must leave at least two non-empty path
/// segments after the scheme token, the empty segment of the `//` and the
/// host; the first two of them are the user and the repository name, and
/// anything after them is ignored.
pub open spec fn parse_repo_url(url: Seq<char>) -> Option<RepoView> {
    let parts = split_on(url, '/');
    if parts.len() >= 5 && parts[3].len() > 0 && parts[4].len() > 0 {
        Some(RepoView { user: parts[3], name: parts[4] })
    } else {
        None
    }
}

/// Parse a repository URL and return a `Repo` wrapped inside a `Result`.
///
/// Returns the repository exactly when `parse_repo_url` locates one, and
/// otherwise an error carrying the URL unchanged.
pub fn repo_from_url(url: String) -> (r: Result<Repo, Error>)
    ensures
        match parse_repo_url(url@) {
            Some(rv) => r matches Ok(repo) && repo@ == rv && repo.wf(),
            None => r matches Err(e) && e matches Error::RepoUrlErr(pe) && pe.url@ == url@,
        },
{
    let parts = split_str(url.as_str(), '/');
    if parts.len() >= 5 {
        let user = parts[3].clone();
        let name = parts[4].clone();
        proof {
            assert(user@ == split_on(url@, '/')[3]);
            assert(name@ == split_on(url@, '/')[4]);
        }
        if user.as_str().is_empty() || name.as_str().is_empty() {
            return Err(Error::RepoUrlErr(RepoUrlError { url }));
        }
        proof {
            lemma_split_on_parts(url@, '/');
        }
        Ok(Repo { user, name })
    } else {
        Err(Error::RepoUrlErr(RepoUrlError { url }))
    }
}

/// The repositories located in `urls`, in the order of their URLs.
pub open spec fn located_of(urls: Seq<Seq<char>>) -> Seq<RepoView>
    decreases urls.len(),
{
    if urls.len() == 0 {
        Seq::empty()
    } else {
        let init = located_of(urls.drop_last());
        match parse_repo_url(urls.last()) {
            Some(rv) => init.push(rv),
            None => init,
        }
    }
}

/// The URLs of `urls` in which no repository can be located, in order.
pub open spec fn location_errors_of(urls: Seq<Seq<char>>) -> Seq<Seq<char>>
    decreases urls.len(),
{
    if urls.len() == 0 {
        Seq::empty()
    } else {
        let init = location_errors_of(urls.drop_last());
        match parse_repo_url(urls.last()) {
            Some(rv) => init,
            None => init.push(urls.last()),
        }
    }
}

/// Locate a repository in each URL, keeping per-item failures apart.
///
/// Every URL either contributes a well-formed repository to the first
/// component or its own location error to the second; neither aborts the
/// batch, and both keep the order of the URLs.
pub fn partition_urls(urls: &Vec<String>) -> (r: (Vec<Repo>, Vec<RepoUrlError>))
    ensures
        r.0@.map_values(|x: Repo| x@) == located_of(urls@.map_values(|u: String| u@)),
        forall|k: int| 0 <= k < r.0@.len() ==> (#[trigger] r.0@[k]).wf(),
        r.1@.map_values(|e: RepoUrlError| e.url@) == location_errors_of(
            urls@.map_values(|u: String| u@),
        ),
{
    let ghost uv = urls@.map_values(|u: String| u@);
    let mut located: Vec<Repo> = Vec::new();
    let mut errs: Vec<RepoUrlError> = Vec::new();
    let mut i: usize = 0;
    while i < urls.len()
        invariant
            i <= urls@.len(),
            uv == urls@.map_values(|u: String| u@),
            located@.map_values(|x: Repo| x@) == located_of(uv.take(i as int)),
            forall|k: int| 0 <= k < located@.len() ==> (#[trigger] located@[k]).wf(),
            errs@.map_values(|e: RepoUrlError| e.url@) == location_errors_of(uv.take(i as int)),
        decreases urls@.len() - i,
    {
        let u = urls[i].clone();
        proof {
            assert(u@ == uv[i as int]);
            assert(uv.take(i as int + 1).drop_last() =~= uv.take(i as int));
            assert(uv.take(i as int + 1).last() == uv[i as int]);
        }
        match repo_from_url(u) {
            Ok(repo) => {
                located.push(repo);
                proof {
                    assert(located@.map_values(|x: Repo| x@) =~= located_of(uv.take(i as int + 1)));
                }
            },
            Err(e) => {
                match e {
                    Error::RepoUrlErr(pe) => {
                        errs.push(pe);
                        proof {
                            assert(errs@.map_values(|e2: RepoUrlError| e2.url@)
                                =~= location_errors_of(uv.take(i as int + 1)));
                        }
                    },
                    _ => {
                        proof {
                            assert(false);
                        }
                    },
                }
            },
        }
        i += 1;
    }
    proof {
        assert(uv.take(urls@.len() as int) =~= uv);
    }
    (located, errs)
}

/// No URL of a batch is dropped: it either locates a repository or
/// yields exactly one location error.
pub proof fn lemma_partition_counts(urls: Seq<Seq<char>>)
    ensures
        located_of(urls).len() + location_errors_of(urls).len() == urls.len(),
    decreases urls.len(),
{
    if urls.len() > 0 {
        lemma_partition_counts(urls.drop_last());
    }
}

/// The outcome of one star request: the repository it was issued for, and
/// success or the forge's reason for failure.
#[derive(Debug)]
pub struct StarOutcome {
    pub repo: Repo,
    pub result: Result<(), String>,
}

/// The index of the first failed outcome of a star batch, if any.
pub open spec fn star_failure_index(outcomes: Seq<StarOutcome>) -> Option<int> {
    first_err_of(outcomes.map_values(|o: StarOutcome| o.result))
}

/// Aggregate a batch of star outcomes.
///
/// The batch succeeds only if every request succeeded; otherwise the first
/// failure is returned as a `StargazError` naming the repository and the
/// forge's reason, and nothing else is surfaced.
pub fn collect_star_results(outcomes: Vec<StarOutcome>) -> (r: Result<(), Error>)
    ensures
        match star_failure_index(outcomes@) {
            None => r is Ok,
            Some(i) => r matches Err(e) && e matches Error::StargazErr(se) && se.repo
                == outcomes@[i].repo && se.reason == outcomes@[i].result->Err_0,
        },
{
    let n = outcomes.len();
    let mut idx: usize = 0;
    while idx < n
        invariant
            idx <= n,
            n == outcomes@.len(),
            forall|j: int| 0 <= j < idx ==> (#[trigger] outcomes@[j]).result is Ok,
        decreases n - idx,
    {
        let o = &outcomes[idx];
        match &o.result {
            Ok(_) => {},
            Err(reason) => {
                let repo = Repo { user: o.repo.user.clone(), name: o.repo.name.clone() };
                proof {
                    let m = outcomes@.map_values(|oo: StarOutcome| oo.result);
                    assert(forall|j: int| 0 <= j < idx ==> (#[trigger] m[j]) is Ok);
                    assert(m[idx as int] == outcomes@[idx as int].result);
                    lemma_first_err_at(m, idx as int);
                    assert(repo == outcomes@[idx as int].repo);
                }
                return Err(Error::StargazErr(StargazError { repo, reason: reason.clone() }));
            },
        }
        idx += 1;
    }
    proof {
        let m = outcomes@.map_values(|oo: StarOutcome| oo.result);
        assert(forall|j: int| 0 <= j < m.len() ==> (#[trigger] m[j]) is Ok);
        lemma_first_err_none(m);
    }
    Ok(())
}

} // verus!
