//! Character-level string operations.
//!
//! Splitting a string at a separator character and searching for a
//! substring, together with their mathematical specifications.

use vstd::prelude::*;

verus! {

/// A sequence of characters free of the separator `sep`.
pub open spec fn no_sep(part: Seq<char>, sep: char) -> bool {
    forall|j: int| 0 <= j < part.len() ==> part[j] != sep
}

/// The parts of `s` cut at every occurrence of `sep`.
///
/// Splitting always yields at least one part, and no part carries an
/// occurrence of `sep`.
pub open spec fn split_on(s: Seq<char>, sep: char) -> Seq<Seq<char>>
    decreases s.len(),
{
    if s.len() == 0 {
        seq![s]
    } else if s[0] == sep {
        seq![Seq::<char>::empty()] + split_on(s.skip(1), sep)
    } else {
        let rest = split_on(s.skip(1), sep);
        seq![seq![s[0]] + rest[0]] + rest.skip(1)
    }
}

/// Splitting never yields an empty sequence of parts.
pub proof fn lemma_split_on_len(s: Seq<char>, sep: char)
    ensures
        split_on(s, sep).len() >= 1,
    decreases s.len(),
{
    if s.len() == 0 {
    } else if s[0] == sep {
        lemma_split_on_len(s.skip(1), sep);
    } else {
        lemma_split_on_len(s.skip(1), sep);
    }
}

/// A string without the separator is a single part.
pub proof fn lemma_split_on_no_sep(s: Seq<char>, sep: char)
    requires
        no_sep(s, sep),
    ensures
        split_on(s, sep) == seq![s],
    decreases s.len(),
{
    if s.len() == 0 {
    } else {
        assert(no_sep(s.skip(1), sep));
        lemma_split_on_no_sep(s.skip(1), sep);
        let rest = split_on(s.skip(1), sep);
        assert(rest[0] == s.skip(1));
        assert(seq![s[0]] + s.skip(1) =~= s);
        assert(rest.skip(1) =~= Seq::<Seq<char>>::empty());
        assert(split_on(s, sep) =~= seq![s]);
    }
}

/// Cutting at the first occurrence of the separator decomposes the split.
pub proof fn lemma_split_on_first_sep(s: Seq<char>, sep: char, i: int)
    requires
        0 <= i < s.len(),
        s[i] == sep,
        forall|j: int| 0 <= j < i ==> s[j] != sep,
    ensures
        split_on(s, sep) == seq![s.take(i)] + split_on(s.skip(i + 1), sep),
    decreases i,
{
    if i == 0 {
        assert(s.take(0) =~= Seq::<char>::empty());
        assert(split_on(s, sep) == seq![Seq::<char>::empty()] + split_on(s.skip(1), sep));
    } else {
        let t = s.skip(1);
        assert(t[i - 1] == sep);
        assert(forall|j: int| 0 <= j < i - 1 ==> t[j] != sep);
        lemma_split_on_first_sep(t, sep, i - 1);
        let rest = split_on(t, sep);
        assert(rest == seq![t.take(i - 1)] + split_on(t.skip(i), sep));
        assert(rest[0] == t.take(i - 1));
        assert(rest.skip(1) =~= split_on(t.skip(i), sep));
        assert(seq![s[0]] + t.take(i - 1) =~= s.take(i));
        assert(t.skip(i) =~= s.skip(i + 1));
        assert(split_on(s, sep) == seq![seq![s[0]] + rest[0]] + rest.skip(1));
        assert(split_on(s, sep) =~= seq![s.take(i)] + split_on(s.skip(i + 1), sep));
    }
}

/// No part of a split carries the separator.
pub proof fn lemma_split_on_parts(s: Seq<char>, sep: char)
    ensures
        forall|k: int|
            0 <= k < split_on(s, sep).len() ==> no_sep(#[trigger] split_on(s, sep)[k], sep),
    decreases s.len(),
{
    if s.len() == 0 {
        assert(no_sep(split_on(s, sep)[0], sep));
    } else if s[0] == sep {
        lemma_split_on_parts(s.skip(1), sep);
        let parts = split_on(s, sep);
        let rest = split_on(s.skip(1), sep);
        assert forall|k: int| 0 <= k < parts.len() implies no_sep(parts[k], sep) by {
            if k == 0 {
                assert(parts[0] =~= Seq::<char>::empty());
            } else {
                assert(parts[k] == rest[k - 1]);
            }
        }
    } else {
        lemma_split_on_parts(s.skip(1), sep);
        lemma_split_on_len(s.skip(1), sep);
        let parts = split_on(s, sep);
        let rest = split_on(s.skip(1), sep);
        assert forall|k: int| 0 <= k < parts.len() implies no_sep(parts[k], sep) by {
            if k == 0 {
                assert(parts[0] == seq![s[0]] + rest[0]);
                assert(no_sep(rest[0], sep));
                assert forall|j: int| 0 <= j < parts[0].len() implies parts[0][j] != sep by {
                    if j > 0 {
                        assert(parts[0][j] == rest[0][j - 1]);
                    }
                }
            } else {
                assert(parts[k] == rest[k]);
            }
        }
    }
}

/// Split `s` at every occurrence of `sep`, as `split_on` describes.
pub fn split_str(s: &str, sep: char) -> (parts: Vec<String>)
    ensures
        parts@.map_values(|p: String| p@) == split_on(s@, sep),
    decreases s@.len(),
{
    let n = s.unicode_len();
    let mut i: usize = 0;
    loop
        invariant
            i <= n,
            n == s@.len(),
            forall|j: int| 0 <= j < i ==> s@[j] != sep,
        decreases n - i,
    {
        if i == n {
            proof {
                lemma_split_on_no_sep(s@, sep);
            }
            let mut parts: Vec<String> = Vec::new();
            parts.push(s.to_owned());
            proof {
                assert(parts@.map_values(|p: String| p@) =~= seq![s@]);
            }
            return parts;
        }
        if s.get_char(i) == sep {
            let head = s.substring_char(0, i);
            let tail = s.substring_char(i + 1, n);
            let mut rest = split_str(tail, sep);
            let mut parts: Vec<String> = Vec::new();
            parts.push(head.to_owned());
            parts.append(&mut rest);
            proof {
                lemma_split_on_first_sep(s@, sep, i as int);
                assert(head@ == s@.take(i as int));
                assert(parts@.map_values(|p: String| p@) =~= split_on(s@, sep));
            }
            return parts;
        }
        i += 1;
    }
}

/// `needle` occurs as a contiguous run of characters inside `hay`.
pub open spec fn has_substring(hay: Seq<char>, needle: Seq<char>) -> bool {
    exists|i: int|
        0 <= i && i + needle.len() <= hay.len() && #[trigger] hay.subrange(
            i,
            i + needle.len() as int,
        ) == needle
}

/// Whether `needle` stands at position `i` of `hay`.
fn match_at(hay: &str, needle: &str, i: usize, hn: usize, nn: usize) -> (b: bool)
    requires
        hn == hay@.len(),
        nn == needle@.len(),
        i + nn <= hn,
    ensures
        b == (hay@.subrange(i as int, i as int + nn as int) == needle@),
{
    let mut j: usize = 0;
    while j < nn
        invariant
            j <= nn,
            i + nn <= hn,
            hn == hay@.len(),
            nn == needle@.len(),
            forall|t: int| 0 <= t < j ==> hay@[i + t] == needle@[t],
        decreases nn - j,
    {
        if hay.get_char(i + j) != needle.get_char(j) {
            proof {
                assert(hay@.subrange(i as int, i as int + nn as int)[j as int] == hay@[i as int
                    + j as int]);
            }
            return false;
        }
        j += 1;
    }
    proof {
        assert(hay@.subrange(i as int, i as int + nn as int) =~= needle@);
    }
    true
}

/// Substring search, as `has_substring` describes.
pub fn contains_str(hay: &str, needle: &str) -> (b: bool)
    ensures
        b == has_substring(hay@, needle@),
{
    let hn = hay.unicode_len();
    let nn = needle.unicode_len();
    if nn > hn {
        return false;
    }
    let mut i: usize = 0;
    loop
        invariant
            nn <= hn,
            hn == hay@.len(),
            nn == needle@.len(),
            i <= hn - nn,
            forall|k: int| 0 <= k < i ==> #[trigger] hay@.subrange(k, k + nn as int) != needle@,
        decreases hn - nn - i,
    {
        if match_at(hay, needle, i, hn, nn) {
            return true;
        }
        if i == hn - nn {
            proof {
                assert forall|k: int|
                    !(0 <= k && k + needle@.len() <= hay@.len() && #[trigger] hay@.subrange(
                        k,
                        k + needle@.len() as int,
                    ) == needle@) by {
                    if 0 <= k && k + needle@.len() <= hay@.len() {
                        assert(hay@.subrange(k, k + nn as int) != needle@);
                    }
                }
            }
            return false;
        }
        i += 1;
    }
}

} // verus!
