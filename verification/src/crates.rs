//! Registry metadata and the fan-in of a metadata fetch batch.
//!
//! The registry answers one lookup per dependency name. Each answer
//! reaches this library as a plain record or as a rendered error; the
//! collector below turns a whole batch of answers into the all-or-nothing
//! result that the pipeline works with.

use vstd::prelude::*;

use crate::batch::{first_err_of, lemma_first_err_at, lemma_first_err_none, oks_of};

verus! {

/// Mathematical value of a `CrateMetadata` record.
pub ghost struct CrateMetadataView {
    pub name: Seq<char>,
    pub repository: Option<Seq<char>>,
}

/// The registry's description of one dependency.
///
/// Many dependencies publish no repository URL; an absent one is
/// expected, not an error.
#[derive(Debug)]
pub struct CrateMetadata {
    pub name: String,
    pub repository: Option<String>,
}

impl View for CrateMetadata {
    type V = CrateMetadataView;

    open spec fn view(&self) -> CrateMetadataView {
        CrateMetadataView {
            name: self.name@,
            repository: match self.repository {
                Some(u) => Some(u@),
                None => None,
            },
        }
    }
}

impl CrateMetadata {
    /// Copy the record field by field.
    pub fn duplicate(&self) -> (r: CrateMetadata)
        ensures
            r == *self,
    {
        CrateMetadata {
            name: self.name.clone(),
            repository: match &self.repository {
                Some(u) => Some(u.clone()),
                None => None,
            },
        }
    }
}

/// Meta module error
///
/// Wraps all kinds of errors related to this module. The registry client,
/// the HTTP stack and the platform produce them; they reach this library
/// only as rendered text.
#[derive(Debug)]
pub enum Error {
    CratesIOErr(String),
    StdIOErr(String),
    HttpErr(String),
    HeaderErr(String),
}

impl Error {
    /// The text that `message` returns: each variant renders as its payload.
    pub open spec fn message_of(self) -> Seq<char> {
        match self {
            Error::CratesIOErr(s) => s@,
            Error::StdIOErr(s) => s@,
            Error::HttpErr(s) => s@,
            Error::HeaderErr(s) => s@,
        }
    }

    /// Render the error through the wrapped error's own rendering.
    pub fn message(&self) -> (m: String)
        ensures
            m@ == self.message_of(),
    {
        match self {
            Error::CratesIOErr(s) => s.clone(),
            Error::StdIOErr(s) => s.clone(),
            Error::HttpErr(s) => s.clone(),
            Error::HeaderErr(s) => s.clone(),
        }
    }

    /// Copy the error, variant and text alike.
    pub fn duplicate(&self) -> (r: Error)
        ensures
            r == *self,
    {
        match self {
            Error::CratesIOErr(s) => Error::CratesIOErr(s.clone()),
            Error::StdIOErr(s) => Error::StdIOErr(s.clone()),
            Error::HttpErr(s) => Error::HttpErr(s.clone()),
            Error::HeaderErr(s) => Error::HeaderErr(s.clone()),
        }
    }
}

/// Collect a batch of registry answers, all-or-nothing.
///
/// If every lookup answered, the records are returned in the order of the
/// answers; if any lookup failed, the whole batch fails with the first
/// failure and no partial success is surfaced. An empty batch succeeds
/// with an empty sequence of records.
pub fn collect_fetch_results(results: &Vec<Result<CrateMetadata, Error>>) -> (r: Result<
    Vec<CrateMetadata>,
    Error,
>)
    ensures
        match first_err_of(results@) {
            None => r matches Ok(metas) && metas@ == oks_of(results@),
            Some(i) => r matches Err(e) && e == results@[i]->Err_0,
        },
{
    let n = results.len();
    let mut metas: Vec<CrateMetadata> = Vec::new();
    let mut idx: usize = 0;
    while idx < n
        invariant
            idx <= n,
            n == results@.len(),
            forall|j: int| 0 <= j < idx ==> (#[trigger] results@[j]) is Ok,
            metas@ == oks_of(results@.take(idx as int)),
        decreases n - idx,
    {
        proof {
            assert(results@.take(idx as int + 1).drop_last() =~= results@.take(idx as int));
            assert(results@.take(idx as int + 1).last() == results@[idx as int]);
        }
        match &results[idx] {
            Ok(m) => {
                metas.push(m.duplicate());
            },
            Err(e) => {
                proof {
                    lemma_first_err_at(results@, idx as int);
                }
                return Err(e.duplicate());
            },
        }
        idx += 1;
    }
    proof {
        assert(results@.take(n as int) =~= results@);
        lemma_first_err_none(results@);
    }
    Ok(metas)
}

} // verus!
