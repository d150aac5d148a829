//! The pipeline's own steps and errors.
//!
//! Between reading the manifest and starring the repositories, the
//! pipeline filters the registry metadata down to candidate forge URLs
//! and locates a repository in each. Those steps are pure and verified
//! here; the surrounding program only moves data between them and the
//! network.

use vstd::prelude::*;

use crate::crates;
use crate::crates::{CrateMetadata, CrateMetadataView};
use crate::github;
use crate::github::{located_of, location_errors_of, partition_urls, Repo, RepoUrlError};
use crate::project;
use crate::text::{contains_str, has_substring};

verus! {

/// Missing argument error
///
/// Used when an argument the program expected was given no value.
#[derive(Debug)]
pub struct NoneError {
    pub name: String,
}

impl NoneError {
    /// The text that `message` returns.
    pub open spec fn message_of(self) -> Seq<char> {
        "There is no value associated with "@ + self.name@ + " argument"@
    }

    /// Render the error with the argument's name.
    pub fn message(&self) -> (m: String)
        ensures
            m@ == self.message_of(),
    {
        let mut m = String::from_str("There is no value associated with ");
        m.append(self.name.as_str());
        m.append(" argument");
        proof {
            assert(m@ =~= self.message_of());
        }
        m
    }
}

/// Meta module error
///
/// Wraps all kinds of errors related to the pipeline.
#[derive(Debug)]
pub enum Error {
    CargoErr(project::Error),
    CratesErr(crates::Error),
    GithubErr(github::Error),
    NoneErr(NoneError),
}

impl Error {
    /// The text that `message` returns: the wrapped error's own rendering.
    pub open spec fn message_of(self) -> Seq<char> {
        match self {
            Error::CargoErr(e) => e.message_of(),
            Error::CratesErr(e) => e.message_of(),
            Error::GithubErr(e) => e.message_of(),
            Error::NoneErr(e) => e.message_of(),
        }
    }

    /// Render the error through the wrapped error's own rendering.
    pub fn message(&self) -> (m: String)
        ensures
            m@ == self.message_of(),
    {
        match self {
            Error::CargoErr(e) => e.message(),
            Error::CratesErr(e) => e.message(),
            Error::GithubErr(e) => e.message(),
            Error::NoneErr(e) => e.message(),
        }
    }
}

impl core::convert::From<NoneError> for Error {
    /// Wrap a missing argument error.
    fn from(err: NoneError) -> (r: Error) {
        Error::NoneErr(err)
    }
}

impl vstd::std_specs::convert::FromSpecImpl<NoneError> for Error {
    open spec fn obeys_from_spec() -> bool {
        true
    }

    open spec fn from_spec(err: NoneError) -> Error {
        Error::NoneErr(err)
    }
}

impl core::convert::From<project::Error> for Error {
    /// Wrap a manifest error.
    fn from(err: project::Error) -> (r: Error) {
        Error::CargoErr(err)
    }
}

impl vstd::std_specs::convert::FromSpecImpl<project::Error> for Error {
    open spec fn obeys_from_spec() -> bool {
        true
    }

    open spec fn from_spec(err: project::Error) -> Error {
        Error::CargoErr(err)
    }
}

impl core::convert::From<crates::Error> for Error {
    /// Wrap a registry error.
    fn from(err: crates::Error) -> (r: Error) {
        Error::CratesErr(err)
    }
}

impl vstd::std_specs::convert::FromSpecImpl<crates::Error> for Error {
    open spec fn obeys_from_spec() -> bool {
        true
    }

    open spec fn from_spec(err: crates::Error) -> Error {
        Error::CratesErr(err)
    }
}

impl core::convert::From<github::Error> for Error {
    /// Wrap a forge error.
    fn from(err: github::Error) -> (r: Error) {
        Error::GithubErr(err)
    }
}

impl vstd::std_specs::convert::FromSpecImpl<github::Error> for Error {
    open spec fn obeys_from_spec() -> bool {
        true
    }

    open spec fn from_spec(err: github::Error) -> Error {
        Error::GithubErr(err)
    }
}

/// The canonical forge host, as a substring a candidate URL must carry.
pub open spec fn github_host() -> Seq<char> {
    "https://github.com"@
}

/// A URL that the coarse filter keeps.
pub open spec fn url_is_candidate(u: Seq<char>) -> bool {
    has_substring(u, github_host())
}

/// The repository URLs published in `deps`, in order; absent ones are
/// silently dropped.
pub open spec fn repo_urls_of(deps: Seq<CrateMetadataView>) -> Seq<Seq<char>>
    decreases deps.len(),
{
    if deps.len() == 0 {
        Seq::empty()
    } else {
        let init = repo_urls_of(deps.drop_last());
        match deps.last().repository {
            Some(u) => init.push(u),
            None => init,
        }
    }
}

/// The URLs of `urls` that the coarse filter keeps, in order.
pub open spec fn filter_urls(urls: Seq<Seq<char>>) -> Seq<Seq<char>>
    decreases urls.len(),
{
    if urls.len() == 0 {
        Seq::empty()
    } else {
        let init = filter_urls(urls.drop_last());
        if url_is_candidate(urls.last()) {
            init.push(urls.last())
        } else {
            init
        }
    }
}

/// The candidate URLs of a batch of metadata: the published repository
/// URLs that carry the forge host.
pub open spec fn candidate_urls_of(deps: Seq<CrateMetadataView>) -> Seq<Seq<char>> {
    filter_urls(repo_urls_of(deps))
}

/// Every URL the filter keeps is a candidate.
pub proof fn lemma_filter_urls_candidates(urls: Seq<Seq<char>>)
    ensures
        forall|k: int|
            0 <= k < filter_urls(urls).len() ==> url_is_candidate(#[trigger] filter_urls(urls)[k]),
    decreases urls.len(),
{
    if urls.len() > 0 {
        lemma_filter_urls_candidates(urls.drop_last());
        let init = filter_urls(urls.drop_last());
        assert forall|k: int|
            0 <= k < filter_urls(urls).len() implies url_is_candidate(
            filter_urls(urls)[k],
        ) by {
            if k < init.len() {
                assert(filter_urls(urls)[k] == init[k]);
            }
        }
    }
}

/// The filter keeps a sequence of candidates whole.
pub proof fn lemma_filter_urls_all_candidates(urls: Seq<Seq<char>>)
    requires
        forall|k: int| 0 <= k < urls.len() ==> url_is_candidate(#[trigger] urls[k]),
    ensures
        filter_urls(urls) == urls,
    decreases urls.len(),
{
    if urls.len() > 0 {
        assert(forall|k: int|
            0 <= k < urls.drop_last().len() ==> url_is_candidate(#[trigger] urls.drop_last()[k]));
        lemma_filter_urls_all_candidates(urls.drop_last());
        assert(url_is_candidate(urls.last()));
        assert(filter_urls(urls) =~= urls);
    }
}

/// The URL filter is idempotent: filtering an already-filtered sequence
/// of URLs yields the same sequence.
pub proof fn lemma_filter_urls_idempotent(urls: Seq<Seq<char>>)
    ensures
        filter_urls(filter_urls(urls)) == filter_urls(urls),
{
    lemma_filter_urls_candidates(urls);
    lemma_filter_urls_all_candidates(filter_urls(urls));
}

/// The candidate URLs of a batch of metadata are already filtered:
/// running the URL filter over them changes nothing.
pub proof fn lemma_candidate_urls_filtered(deps: Seq<CrateMetadataView>)
    ensures
        filter_urls(candidate_urls_of(deps)) == candidate_urls_of(deps),
{
    lemma_filter_urls_idempotent(repo_urls_of(deps));
}

/// Keep the URLs that carry the forge host, as `filter_urls` describes.
pub fn filter_candidate_urls(urls: &Vec<String>) -> (r: Vec<String>)
    ensures
        r@.map_values(|u: String| u@) == filter_urls(urls@.map_values(|u: String| u@)),
{
    let ghost uv = urls@.map_values(|u: String| u@);
    let mut out: Vec<String> = Vec::new();
    let mut i: usize = 0;
    while i < urls.len()
        invariant
            i <= urls@.len(),
            uv == urls@.map_values(|u: String| u@),
            out@.map_values(|u: String| u@) == filter_urls(uv.take(i as int)),
        decreases urls@.len() - i,
    {
        proof {
            assert(uv.take(i as int + 1).drop_last() =~= uv.take(i as int));
            assert(uv.take(i as int + 1).last() == uv[i as int]);
        }
        let u = &urls[i];
        if contains_str(u.as_str(), "https://github.com") {
            out.push(u.clone());
        }
        proof {
            assert(out@.map_values(|x: String| x@) =~= filter_urls(uv.take(i as int + 1)));
        }
        i += 1;
    }
    proof {
        assert(uv.take(urls@.len() as int) =~= uv);
    }
    out
}

/// The repository URLs published in `deps`, as `repo_urls_of` describes.
pub fn repo_urls(deps: &Vec<CrateMetadata>) -> (r: Vec<String>)
    ensures
        r@.map_values(|u: String| u@) == repo_urls_of(deps@.map_values(|d: CrateMetadata| d@)),
{
    let ghost dv = deps@.map_values(|d: CrateMetadata| d@);
    let mut out: Vec<String> = Vec::new();
    let mut i: usize = 0;
    while i < deps.len()
        invariant
            i <= deps@.len(),
            dv == deps@.map_values(|d: CrateMetadata| d@),
            out@.map_values(|u: String| u@) == repo_urls_of(dv.take(i as int)),
        decreases deps@.len() - i,
    {
        proof {
            assert(dv.take(i as int + 1).drop_last() =~= dv.take(i as int));
            assert(dv.take(i as int + 1).last() == dv[i as int]);
        }
        match &deps[i].repository {
            Some(u) => {
                out.push(u.clone());
            },
            None => {},
        }
        proof {
            assert(out@.map_values(|x: String| x@) =~= repo_urls_of(dv.take(i as int + 1)));
        }
        i += 1;
    }
    proof {
        assert(dv.take(deps@.len() as int) =~= dv);
    }
    out
}

/// The filter step of the pipeline: from registry metadata to the
/// candidate URLs, as `candidate_urls_of` describes.
pub fn filter_repo_urls(deps: &Vec<CrateMetadata>) -> (r: Vec<String>)
    ensures
        r@.map_values(|u: String| u@) == candidate_urls_of(
            deps@.map_values(|d: CrateMetadata| d@),
        ),
{
    let urls = repo_urls(deps);
    filter_candidate_urls(&urls)
}

/// The locate step of the pipeline: from registry metadata to located
/// repositories and per-item location errors.
pub fn locate_repos(deps: &Vec<CrateMetadata>) -> (r: (Vec<Repo>, Vec<RepoUrlError>))
    ensures
        r.0@.map_values(|x: Repo| x@) == located_of(
            candidate_urls_of(deps@.map_values(|d: CrateMetadata| d@)),
        ),
        forall|k: int| 0 <= k < r.0@.len() ==> (#[trigger] r.0@[k]).wf(),
        r.1@.map_values(|e: RepoUrlError| e.url@) == location_errors_of(
            candidate_urls_of(deps@.map_values(|d: CrateMetadata| d@)),
        ),
{
    let urls = filter_repo_urls(deps);
    partition_urls(&urls)
}

} // verus!
