//! The error type shared by the tree engine and the proof map.

use vstd::prelude::*;

verus! {

/// Errors surfaced by the tree engine and the proof map.
///
/// These are data/proof validity errors: the caller is expected to treat them
/// as "this result cannot be trusted" rather than retry. Violations of the
/// API's own preconditions are excluded statically by `requires` clauses and
/// never surface as a value of this type.
#[derive(Debug, Clone, Copy, PartialEq, Eq)]
pub enum Error {
    /// A proof node arrived out of ascending key order, or repeated a key.
    KeyOrder,
    /// The proof omitted data needed to answer a query.
    MissingData,
    /// A fetched node's key did not match the key recorded in its link.
    FetchedKeyMismatch,
    /// A backing store (sink or source) failed.
    Store,
}

impl Error {
    /// A short description of the error, for callers that report it.
    pub fn message(&self) -> (r: &'static str)
        ensures
            r@ =~= self.spec_message(),
    {
        match self {
            Error::KeyOrder => "expected nodes to be in increasing key order",
            Error::MissingData => "proof is missing data for query",
            Error::FetchedKeyMismatch => "fetched node's key does not match link",
            Error::Store => "backing store failure",
        }
    }

    /// What `message` returns for each variant.
    pub open spec fn spec_message(self) -> Seq<char> {
        match self {
            Error::KeyOrder => "expected nodes to be in increasing key order"@,
            Error::MissingData => "proof is missing data for query"@,
            Error::FetchedKeyMismatch => "fetched node's key does not match link"@,
            Error::Store => "backing store failure"@,
        }
    }
}

} // verus!
