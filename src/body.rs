use vstd::prelude::*;

verus! {

/// Whether `b` is one well-formed JSON document, as serde_json reads it.
pub uninterp spec fn is_json(b: Seq<u8>) -> bool;

/// Relies on serde_json::from_slice into serde_json::Value: whether it succeeds says
/// whether the bytes are one JSON document as serde_json reads it, and depends on
/// the bytes alone.
#[verifier::external_body]
pub(crate) fn json_well_formed(b: &[u8]) -> (r: bool)
    ensures
        r == is_json(b@),
{
    serde_json::from_slice::<serde_json::Value>(b).is_ok()
}

} // verus!
