//! The retrieval engine, an outside collaborator. Its five operations are
//! opaque, fallible calls; each is reached through one trusted wrapper whose
//! contract states only what the engine's own source shows for every outcome.

use vstd::prelude::*;
use std::collections::HashMap;
use crate::bundle::SEED_BYTE_LEN;
use crate::engine_format::{
    valid_filter_blob, valid_hint_bytes, valid_matrix_bytes, valid_query_bytes,
    within_engine_capacity,
};
use crate::errors::EngineFailure;

verus! {

/// Relies on chalamet_pir::server::Server being an opaque, read-only handle;
/// nothing inside it is visible at this layer.
#[verifier::external_type_specification]
#[verifier::external_body]
pub struct ExPirServer(chalamet_pir::server::Server);

/// Relies on chalamet_pir::client::Client being an opaque handle that keeps
/// its own per-query scratch state; nothing inside it is visible here.
#[verifier::external_type_specification]
#[verifier::external_body]
pub struct ExPirClient(chalamet_pir::client::Client);

/// Relies on chalamet_pir::server::Server::setup: encodes the key-value
/// database and returns the server handle with the hint and filter blobs, or
/// an error; an empty database is always refused. The hint and filter depend
/// on the engine's internals, so nothing is stated of their contents. The
/// engine sizes its encoded database and its public matrix with 32-bit
/// products of quantities that grow with the entry count and the longest
/// value, so only a database within `within_engine_capacity`'s box may reach
/// it. Success is not promised even then: the filter construction draws OS
/// randomness and may exhaust its attempts.
#[verifier::external_body]
pub(crate) fn engine_server_setup(seed: &[u8], entries: &Vec<(Vec<u8>, Vec<u8>)>) -> (r: Result<
    (chalamet_pir::server::Server, Vec<u8>, Vec<u8>),
    EngineFailure,
>)
    requires
        seed@.len() == SEED_BYTE_LEN,
        forall|i: int, j: int|
            0 <= i < j < entries@.len() ==> entries@[i].0@ != entries@[j].0@,
        within_engine_capacity(entries@),
    ensures
        entries@.len() == 0 ==> r is Err,
{
    let seed_arr: &[u8; SEED_BYTE_LEN] = match seed.try_into() {
        Ok(a) => a,
        Err(_) => return Err(EngineFailure),
    };
    let db: HashMap<&[u8], &[u8]> = entries.iter().map(|(k, v)| (k.as_slice(), v.as_slice())).collect();
    match chalamet_pir::server::Server::setup::<3>(seed_arr, db) {
        Ok(t) => Ok(t),
        Err(_) => Err(EngineFailure),
    }
}

/// Relies on chalamet_pir::server::Server::respond: computes the response
/// vector for one opaque query against the read-only server handle. The
/// engine promises nothing about the bytes, so neither does this contract.
/// The engine deserializes the query with 32-bit size arithmetic that its
/// own validation runs after, so only a well-shaped row vector
/// (`valid_query_bytes`) may reach it; the engine then checks the column
/// count against its database itself and fails politely on a mismatch.
#[verifier::external_body]
pub(crate) fn engine_respond(server: &chalamet_pir::server::Server, query: &[u8]) -> (r: Result<
    Vec<u8>,
    EngineFailure,
>)
    requires
        valid_query_bytes(query@),
{
    match server.respond(query) {
        Ok(v) => Ok(v),
        Err(_) => Err(EngineFailure),
    }
}

/// Relies on chalamet_pir::client::Client::setup: builds the client-side
/// engine handle from the seed, hint and filter blobs, or rejects them.
/// The engine reads both blobs without validating their size fields, so only
/// blobs of the shape its own serializers produce may reach it: a hint
/// matrix with the engine's LWE dimension as its row count and a filter
/// record within the bounds of `valid_filter_blob`. Those bounds are also
/// what keeps the handle safe to query and decode with later: every handle
/// in this crate enters through this function. The call is promised to
/// succeed: per the engine's source its only failure paths are a filter blob
/// of the wrong length, a hint that fails matrix parsing or has a zero
/// dimension, and a hint row count other than the LWE dimension, every one
/// of which the stated bounds exclude.
#[verifier::external_body]
pub(crate) fn engine_client_setup(seed: &[u8], hint: &[u8], filter: &[u8]) -> (r: Result<
    chalamet_pir::client::Client,
    EngineFailure,
>)
    requires
        seed@.len() == SEED_BYTE_LEN,
        valid_hint_bytes(hint@),
        valid_filter_blob(filter@),
    ensures
        r is Ok,
{
    let seed_arr: &[u8; SEED_BYTE_LEN] = match seed.try_into() {
        Ok(a) => a,
        Err(_) => return Err(EngineFailure),
    };
    match chalamet_pir::client::Client::setup(seed_arr, hint, filter) {
        Ok(c) => Ok(c),
        Err(_) => Err(EngineFailure),
    }
}

/// Relies on chalamet_pir::client::Client::query: encodes one keyword as an
/// opaque query and records it as pending inside the engine handle. The query
/// bytes are drawn with fresh randomness, so nothing is stated of them.
/// The fingerprint indices the engine derives stay inside its query vector
/// because every handle was built by `engine_client_setup` from a filter
/// blob within `valid_filter_blob`'s bounds.
#[verifier::external_body]
pub(crate) fn engine_client_query(client: &mut chalamet_pir::client::Client, key: &[u8]) -> (r:
    Result<Vec<u8>, EngineFailure>) {
    match client.query(key) {
        Ok(v) => Ok(v),
        Err(_) => Err(EngineFailure),
    }
}

/// Relies on chalamet_pir::client::Client::process_response: decodes the
/// server's response for the keyword whose query is pending inside the engine
/// handle, or fails; the engine promises nothing about the decoded bytes.
/// The response is deserialized with the same 32-bit size arithmetic as a
/// query, so only a well-shaped matrix (`valid_matrix_bytes`) may reach it;
/// the engine checks the dimensions against the pending query itself. The
/// rounding divisor the decode uses is non-zero because every handle was
/// built by `engine_client_setup` from a filter blob within
/// `valid_filter_blob`'s bounds.
#[verifier::external_body]
pub(crate) fn engine_client_decode(
    client: &mut chalamet_pir::client::Client,
    key: &[u8],
    response: &[u8],
) -> (r: Result<Vec<u8>, EngineFailure>)
    requires
        valid_matrix_bytes(response@),
{
    match client.process_response(key, response) {
        Ok(v) => Ok(v),
        Err(_) => Err(EngineFailure),
    }
}

} // verus!
