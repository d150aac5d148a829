//! Manifest reading errors.
//!
//! The manifest file itself is read and parsed by the surrounding
//! program; what reaches this library is the path it tried and the
//! rendered cause of the failure.

use vstd::prelude::*;

verus! {

/// Custom error for the project module
///
/// Carries the manifest path and the rendered cause of the failure.
#[derive(Debug)]
pub struct Error {
    pub path: String,
    pub cause: String,
}

impl Error {
    /// The text that `message` returns.
    pub open spec fn message_of(self) -> Seq<char> {
        "Error with Manifest file "@ + self.path@ + " : "@ + self.cause@
    }

    /// Render the error with the path and the underlying cause.
    pub fn message(&self) -> (m: String)
        ensures
            m@ == self.message_of(),
    {
        let mut m = String::from_str("Error with Manifest file ");
        m.append(self.path.as_str());
        m.append(" : ");
        m.append(self.cause.as_str());
        proof {
            assert(m@ =~= self.message_of());
        }
        m
    }
}

} // verus!
