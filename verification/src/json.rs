//! JSON payloads.

use vstd::prelude::*;

verus! {

/// `serde_json::Value`: a JSON document.
#[verifier::external_type_specification]
#[verifier::external_body]
pub struct ExJsonValue(serde_json::Value);

/// `serde_json::Error`: why a document could not be written.
#[verifier::external_type_specification]
#[verifier::external_body]
pub struct ExJsonError(serde_json::Error);

/// Compact JSON text of a document, in bytes; none where it cannot be written.
pub uninterp spec fn json_bytes(document: serde_json::Value) -> Option<Seq<u8>>;

/// Length of the compact text of a document; none where it cannot be written.
pub open spec fn json_length(document: serde_json::Value) -> Option<usize> {
    match json_bytes(document) {
        Some(bytes) => Some(bytes.len() as usize),
        None => None,
    }
}

/// `serde_json::to_vec` on a document.
///
/// It writes the compact text of the document, which the document alone decides.
#[verifier::external_body]
pub(crate) fn write_json(document: &serde_json::Value) -> (r: Result<Vec<u8>, serde_json::Error>)
    ensures
        match r {
            Ok(bytes) => json_bytes(*document) == Some(bytes@),
            Err(_) => json_bytes(*document) is None,
        },
{
    serde_json::to_vec(document)
}

/// `Clone::clone` of a `serde_json::Value`: the same document again.
#[verifier::external_body]
pub(crate) fn clone_json(document: &serde_json::Value) -> (r: serde_json::Value)
    ensures
        r == *document,
{
    document.clone()
}

} // verus!
