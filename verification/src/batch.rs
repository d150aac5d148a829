//! Fan-in over a batch of per-item results.
//!
//! A batch of concurrent requests comes back as one result per item, in
//! the order the items were given. These specifications say which item
//! failed first and what the successful items were, and back the
//! all-or-nothing collectors of the registry and star stages.

use vstd::prelude::*;

verus! {

/// The index of the first `Err` in `s`, if any.
pub open spec fn first_err_of<T, E>(s: Seq<Result<T, E>>) -> Option<int>
    decreases s.len(),
{
    if s.len() == 0 {
        None
    } else if s[0] is Err {
        Some(0)
    } else {
        match first_err_of(s.drop_first()) {
            Some(i) => Some(i + 1),
            None => None,
        }
    }
}

/// The payloads of the `Ok` results of `s`, in order.
pub open spec fn oks_of<T, E>(s: Seq<Result<T, E>>) -> Seq<T>
    decreases s.len(),
{
    if s.len() == 0 {
        Seq::empty()
    } else {
        let init = oks_of(s.drop_last());
        match s.last() {
            Ok(t) => init.push(t),
            Err(_) => init,
        }
    }
}

/// A batch without failures has no first failure.
pub proof fn lemma_first_err_none<T, E>(s: Seq<Result<T, E>>)
    requires
        forall|j: int| 0 <= j < s.len() ==> s[j] is Ok,
    ensures
        first_err_of(s) is None,
    decreases s.len(),
{
    if s.len() > 0 {
        assert(forall|j: int| 0 <= j < s.drop_first().len() ==> s.drop_first()[j] is Ok);
        lemma_first_err_none(s.drop_first());
    }
}

/// An `Err` behind `Ok`s alone is the first failure.
pub proof fn lemma_first_err_at<T, E>(s: Seq<Result<T, E>>, i: int)
    requires
        0 <= i < s.len(),
        forall|j: int| 0 <= j < i ==> s[j] is Ok,
        s[i] is Err,
    ensures
        first_err_of(s) == Some(i),
    decreases i,
{
    if i == 0 {
    } else {
        assert(forall|j: int| 0 <= j < i - 1 ==> s.drop_first()[j] is Ok);
        assert(s.drop_first()[i - 1] is Err);
        lemma_first_err_at(s.drop_first(), i - 1);
    }
}

} // verus!
