//! The error that a handler raises to choose the response itself.

use crate::response::{spec_text, Response, ResponseBody};
use crate::utils::{bytes_eq, slice_of, to_vec};
use vstd::prelude::*;
use vstd::string::StringSliceAdditionalSpecFns;

verus! {

/// What a handler raises to answer with a status, headers and a body of
/// its own choice. `body` is the text of a JSON value.
#[derive(Debug)]
pub struct AouError {
    pub status: Option<u16>,
    pub status_message: Option<String>,
    pub headers: Option<Vec<(String, String)>>,
    pub body: String,
}

impl AouError {
    /// The response that the error asks for; its status is 400 where the
    /// error names none.
    pub fn into_response(self) -> (r: Response)
        ensures
            r.status == Some(
                match self.status {
                    Some(code) => code,
                    None => 400u16,
                },
            ),
            r.status_message == self.status_message,
            r.headers == self.headers,
            r.body == ResponseBody::Text(self.body),
    {
        Response {
            status: Some(
                match self.status {
                    Some(code) => code,
                    None => 400,
                },
            ),
            body: ResponseBody::Text(self.body),
            headers: self.headers,
            status_message: self.status_message,
        }
    }
}

/// What the reason of a handler's failure starts with when the handler
/// raised an `AouError`; the JSON text of the error follows.
pub open spec fn spec_error_tag() -> Seq<u8> {
    "AouError: ".spec_bytes()
}

/// The JSON text that the reason of a failure carries, if it is tagged as
/// an `AouError`.
pub open spec fn spec_error_payload(reason: Seq<u8>) -> Option<Seq<u8>> {
    let tag = spec_error_tag();
    if reason.len() >= tag.len() && reason.subrange(0, tag.len() as int) == tag {
        Some(reason.subrange(tag.len() as int, reason.len() as int))
    } else {
        None
    }
}

/// The JSON text that the reason of a failure carries, if it is tagged as
/// an `AouError`.
pub fn error_payload(reason: &str) -> (r: Option<Vec<u8>>)
    ensures
        match r {
            Some(payload) => spec_error_payload(spec_text(reason@)) == Some(payload@),
            None => spec_error_payload(spec_text(reason@)) is None,
        },
{
    let bytes = reason.as_bytes();
    let tag = "AouError: ".as_bytes();
    let n: usize = tag.len();
    if bytes.len() >= n && bytes_eq(slice_of(bytes, (0, n)), tag) {
        Some(to_vec(slice_of(bytes, (n, bytes.len()))))
    } else {
        None
    }
}

} // verus!
