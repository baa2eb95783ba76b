//! What the parser hands out when a request is complete.

use crate::request::head::RequestHead;
use crate::request::headers::{RequestHeaderVec, RequestHeaders};
use crate::request::options::HeaderOptions;
use crate::request::VecOffset;
use vstd::prelude::*;

verus! {

/// A complete request: the buffer and the ranges of its parts.
#[derive(Debug)]
pub struct ParserResult {
    pub buf: Vec<u8>,
    pub head: RequestHead,
    pub headers: RequestHeaders,
    pub body: VecOffset,
    pub header_options: HeaderOptions,
}

/// A `ParserResult` as a mathematical value.
pub struct ParserResultView {
    pub buf: Seq<u8>,
    pub head: RequestHead,
    pub headers: Seq<RequestHeaderVec>,
    pub body: VecOffset,
    pub header_options: HeaderOptions,
}

impl View for ParserResult {
    type V = ParserResultView;

    open spec fn view(&self) -> ParserResultView {
        ParserResultView {
            buf: self.buf@,
            head: self.head,
            headers: self.headers@,
            body: self.body,
            header_options: self.header_options,
        }
    }
}

/// Every header's name and value lie, in this order, inside a buffer of
/// `len` bytes.
pub open spec fn spec_headers_within(headers: Seq<RequestHeaderVec>, len: nat) -> bool {
    forall|i: int|
        0 <= i < headers.len() ==> {
            let h = #[trigger] headers[i];
            h.0.0 <= h.0.1 <= h.1.0 <= h.1.1 <= len
        }
}

impl ParserResultView {
    /// Every range of the result lies inside its buffer.
    pub open spec fn spec_within(self) -> bool {
        &&& self.head.spec_within(self.buf.len())
        &&& spec_headers_within(self.headers, self.buf.len())
        &&& self.body.0 <= self.body.1 <= self.buf.len()
    }
}

} // verus!
