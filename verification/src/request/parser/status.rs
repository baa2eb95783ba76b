//! The three ways a call of the parser ends.

use crate::request::parser::result::{ParserResult, ParserResultView};
use crate::request::parser::state::{ParserState, ParserStateView};
use vstd::prelude::*;

verus! {

/// How a call of the parser ended.
#[derive(Debug)]
pub enum ParserStatus {
    /// The request is complete.
    Success(ParserResult),
    /// More bytes are needed; the buffer comes back with the state to
    /// resume from.
    Incomplete((Vec<u8>, ParserState)),
    /// The bytes can never become a request; the text says why.
    Invalid(String),
}

/// Another name of `ParserStatus`.
pub type RequestParseResult = ParserStatus;

/// A `ParserStatus` as a mathematical value.
pub enum ParserStatusView {
    Success(ParserResultView),
    Incomplete(Seq<u8>, ParserStateView),
    Invalid(Seq<char>),
}

impl View for ParserStatus {
    type V = ParserStatusView;

    open spec fn view(&self) -> ParserStatusView {
        match self {
            ParserStatus::Success(result) => ParserStatusView::Success(result@),
            ParserStatus::Incomplete(pair) => ParserStatusView::Incomplete(pair.0@, pair.1@),
            ParserStatus::Invalid(reason) => ParserStatusView::Invalid(reason@),
        }
    }
}

impl ParserStatus {
    pub fn is_incomplete(&self) -> (r: bool)
        ensures
            r == (self@ is Incomplete),
    {
        match self {
            ParserStatus::Incomplete(_) => true,
            _ => false,
        }
    }

    pub fn is_success(&self) -> (r: bool)
        ensures
            r == (self@ is Success),
    {
        match self {
            ParserStatus::Success(_) => true,
            _ => false,
        }
    }

    pub fn is_invalid(&self) -> (r: bool)
        ensures
            r == (self@ is Invalid),
    {
        match self {
            ParserStatus::Invalid(_) => true,
            _ => false,
        }
    }
}

} // verus!
