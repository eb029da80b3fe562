//! Error values of the protocol layer.

use vstd::prelude::*;

verus! {

/// The retrieval engine refused an operation. The engine is an outside
/// collaborator; nothing further is known of the cause at this layer.
#[derive(Debug)]
pub struct EngineFailure;

/// Why constructing the server state failed.
#[derive(Debug, PartialEq, Eq)]
pub enum ServerSetupError {
    /// The key-value database was empty; the engine requires at least one
    /// entry.
    EmptyDatabase,
    /// The key-value database exceeds the conservative size box within which
    /// the engine's 32-bit matrix arithmetic is known to hold.
    DatasetTooLarge,
    /// The engine's own setup computation failed.
    EngineFailed,
}

/// Why constructing a client session failed.
#[derive(Debug, PartialEq, Eq)]
pub enum SessionSetupError {
    /// The setup parameter bundle received from the server did not decode,
    /// or its hint or filter blob is not of the shape the engine accepts.
    MalformedBundle,
}

/// Why one query on a client session failed; the session survives it.
#[derive(Debug, PartialEq, Eq)]
pub enum QueryError {
    /// A query is already awaiting its response; its keyword must be resolved
    /// first so that the request/response pairing is kept.
    QueryInFlight,
    /// No query is awaiting a response, so there is nothing to resolve.
    NoQueryInFlight,
    /// The engine could not encode the keyword as a query.
    EncodeFailed,
    /// The engine could not decode the response for the pending keyword.
    DecodeFailed,
}

} // verus!
