//! JSON bodies: parsing through serde_json and mapping its errors.

use vstd::prelude::*;
use crate::error::{RustletteError, kind_tag, ErrorKind};

verus! {

#[verifier::external_type_specification]
#[verifier::external_body]
pub struct ExJsonValue(serde_json::Value);

#[verifier::external_type_specification]
#[verifier::external_body]
pub struct ExJsonError(serde_json::Error);

/// Whether serde_json reads the bytes as one JSON value.
pub uninterp spec fn json_accepts(b: Seq<u8>) -> bool;

/// Relies on `serde_json::from_slice`: a value where the bytes are one JSON
/// document, else its error.
#[verifier::external_body]
pub(crate) fn parse_json(b: &Vec<u8>) -> (r: Result<serde_json::Value, serde_json::Error>)
    ensures
        r is Ok <==> json_accepts(b@),
{
    serde_json::from_slice(b)
}

/// Relies on the `Display` of `serde_json::Error`: its message.
#[verifier::external_body]
fn json_error_text(e: &serde_json::Error) -> String {
    format!("{}", e)
}

impl RustletteError {
    /// The request error for a body that is not JSON.
    pub fn from_json_error(e: &serde_json::Error) -> (r: Self)
        ensures
            r.error_type@ == kind_tag(ErrorKind::Request),
            r.status_code == Some(400u16),
    {
        let mut msg = String::from_str("JSON parsing error: ");
        let t = json_error_text(e);
        msg.append(t.as_str());
        RustletteError::request_error(msg.as_str())
    }
}

} // verus!
