//! Parsing a request out of a growing buffer, and the request it yields.

pub mod handle;
pub mod head;
pub mod headers;
pub mod lines;
pub mod options;
pub mod parser;
pub mod request;
pub mod token;

pub use handle::{
    check_progress, finalize, handle_request, handle_request_with, on_read_event,
    HandleRequestError, ReadEvent, ReadOutcome, ReadStep, ReadTurn, StreamEvent, Timeouts,
};
pub use head::{RequestHead, RequestHeadParseError};
pub use headers::{
    HeaderParseError, HeaderParser, HeaderParserResult, RequestHeaderVec, RequestHeaders,
};
pub use lines::{Cursor, Lines};
pub use options::{Connection, HeaderOptions, RequestOptions};
pub use parser::{
    FullParserState, ParserResult, ParserState, ParserStateError, ParserStatus, RequestParseResult,
    RequestParser,
};
pub use request::Request;
pub use token::RequestToken;

use vstd::prelude::*;

verus! {

/// A half-open range `(start, end)` of the request's buffer.
pub type VecOffset = (usize, usize);

} // verus!
