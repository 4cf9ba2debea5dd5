//! The corrections applied to whole bodies: bytes in, bytes out.

use crate::codec::{parsed_bytes, written_bytes, JsonError};
use crate::json::Json;
use crate::patch::{
    lemma_patched_request_idempotent, lemma_patched_response, patch_request, patch_response,
    patched_request, patched_response,
};
use vstd::prelude::*;

verus! {

/// What correcting a request body gives: the compact JSON text of the
/// corrected document, or the reason why there is none.
pub open spec fn fixed_request_body(body: Seq<u8>) -> Result<Seq<u8>, JsonError> {
    match parsed_bytes(body) {
        None => Err(JsonError::InvalidJson),
        Some(doc) => match written_bytes(patched_request(doc)) {
            Some(bytes) => Ok(bytes),
            None => Err(JsonError::NotSerializable),
        },
    }
}

/// What correcting a buffered response body gives: the compact JSON text
/// of the corrected document, or the reason why there is none.
pub open spec fn fixed_response_body(body: Seq<u8>) -> Result<Seq<u8>, JsonError> {
    match parsed_bytes(body) {
        None => Err(JsonError::InvalidJson),
        Some(doc) => match written_bytes(patched_response(doc)) {
            Some(bytes) => Ok(bytes),
            None => Err(JsonError::NotSerializable),
        },
    }
}

/// The view of a result that holds bytes.
pub open spec fn bytes_result(r: Result<Vec<u8>, JsonError>) -> Result<Seq<u8>, JsonError> {
    match r {
        Ok(bytes) => Ok(bytes@),
        Err(e) => Err(e),
    }
}

/// Corrects a request body: every tool whose parameters declare no `type`
/// gets the default schema. A body that is no JSON document is an error,
/// which the caller answers by forwarding the body as it came.
pub fn fix_request_body(body: &[u8]) -> (r: Result<Vec<u8>, JsonError>)
    ensures
        bytes_result(r) == fixed_request_body(body@),
{
    match Json::from_slice(body) {
        Err(e) => Err(e),
        Ok(doc) => patch_request(doc).to_bytes(),
    }
}

/// Corrects a buffered response body: the usage details are completed. A
/// body that is no JSON document is an error, which the caller answers by
/// forwarding the body as it came.
pub fn fix_response_body(body: &[u8]) -> (r: Result<Vec<u8>, JsonError>)
    ensures
        bytes_result(r) == fixed_response_body(body@),
{
    match Json::from_slice(body) {
        Err(e) => Err(e),
        Ok(doc) => patch_response(doc).to_bytes(),
    }
}

/// Correcting a corrected request body gives the same bytes again, for
/// every body whose corrected text reads back as the document that was
/// written.
pub proof fn lemma_fix_request_body_idempotent(body: Seq<u8>, once: Seq<u8>)
    requires
        fixed_request_body(body) == Ok::<Seq<u8>, JsonError>(once),
        parsed_bytes(once) == Some(patched_request(parsed_bytes(body)->0)),
    ensures
        fixed_request_body(once) == Ok::<Seq<u8>, JsonError>(once),
{
    lemma_patched_request_idempotent(parsed_bytes(body)->0);
}

/// Correcting a corrected response body gives the same bytes again, for
/// every body whose corrected text reads back as the document that was
/// written.
pub proof fn lemma_fix_response_body_idempotent(body: Seq<u8>, once: Seq<u8>)
    requires
        fixed_response_body(body) == Ok::<Seq<u8>, JsonError>(once),
        parsed_bytes(once) == Some(patched_response(parsed_bytes(body)->0)),
    ensures
        fixed_response_body(once) == Ok::<Seq<u8>, JsonError>(once),
{
    lemma_patched_response(parsed_bytes(body)->0);
}

} // verus!
