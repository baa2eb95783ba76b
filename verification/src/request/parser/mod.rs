//! The resumable parser of a request.

pub mod laws;
pub mod model;
pub mod parser;
pub mod result;
pub mod resume;
pub mod state;
pub mod status;

pub use parser::RequestParser;
pub use result::{ParserResult, ParserResultView};
pub use state::{
    FullParserState, FullParserStateView, ParserState, ParserStateError, ParserStateView,
};
pub use status::{ParserStatus, ParserStatusView, RequestParseResult};
