//! What the parser keeps between two reads.

use crate::request::head::RequestHead;
use crate::request::headers::{RequestHeaderVec, RequestHeaders};
use crate::request::options::HeaderOptions;
use crate::request::parser::result::{ParserResult, ParserResultView};
use crate::request::VecOffset;
use vstd::prelude::*;

verus! {

/// Why a state could not be turned into a result.
#[derive(Debug, Clone, Copy, PartialEq, Eq, Structural)]
pub enum ParserStateError {
    /// Only a state that holds a body range can become a result.
    NotBody,
}

impl ParserStateError {
    /// The error in words.
    pub fn message(&self) -> (r: &'static str)
        ensures
            r == "Parser state can only be converted into a parserResult if it's a body",
    {
        "Parser state can only be converted into a parserResult if it's a body"
    }
}

/// How far the parsing of a request has come.
///
/// `cursor` is the offset at which the next stage resumes; `read_until` is
/// the length the buffer had when the state was returned.
#[derive(Debug)]
#[allow(inconsistent_fields)]
pub enum ParserState {
    /// Nothing has been read yet.
    Start { read_until: Option<usize> },
    /// The request line has been read; `cursor` is the offset after it.
    Head { cursor: usize, read_until: usize, head: RequestHead },
    /// Header lines have been read up to `cursor`.
    Headers {
        cursor: usize,
        read_until: usize,
        head: RequestHead,
        headers: RequestHeaders,
        header_options: HeaderOptions,
    },
    /// The headers are done and the body's range is known.
    Body {
        cursor: usize,
        read_until: usize,
        head: RequestHead,
        headers: RequestHeaders,
        header_options: HeaderOptions,
        body: VecOffset,
    },
}

/// A `ParserState` as a mathematical value.
#[allow(inconsistent_fields)]
pub enum ParserStateView {
    Start { read_until: Option<usize> },
    Head { cursor: usize, read_until: usize, head: RequestHead },
    Headers {
        cursor: usize,
        read_until: usize,
        head: RequestHead,
        headers: Seq<RequestHeaderVec>,
        header_options: HeaderOptions,
    },
    Body {
        cursor: usize,
        read_until: usize,
        head: RequestHead,
        headers: Seq<RequestHeaderVec>,
        header_options: HeaderOptions,
        body: VecOffset,
    },
}

impl View for ParserState {
    type V = ParserStateView;

    open spec fn view(&self) -> ParserStateView {
        match *self {
            ParserState::Start { read_until } => ParserStateView::Start { read_until },
            ParserState::Head { cursor, read_until, head } => ParserStateView::Head {
                cursor,
                read_until,
                head,
            },
            ParserState::Headers {
                cursor,
                read_until,
                head,
                headers,
                header_options,
            } => ParserStateView::Headers {
                cursor,
                read_until,
                head,
                headers: headers@,
                header_options,
            },
            ParserState::Body {
                cursor,
                read_until,
                head,
                headers,
                header_options,
                body,
            } => ParserStateView::Body {
                cursor,
                read_until,
                head,
                headers: headers@,
                header_options,
                body,
            },
        }
    }
}

/// A state with every part it may hold made optional.
pub struct FullParserState {
    pub read_until: Option<usize>,
    pub cursor: Option<usize>,
    pub head: Option<RequestHead>,
    pub headers: Option<RequestHeaders>,
    pub header_options: Option<HeaderOptions>,
    pub body: Option<VecOffset>,
}

/// A `FullParserState` as a mathematical value.
pub struct FullParserStateView {
    pub read_until: Option<usize>,
    pub cursor: Option<usize>,
    pub head: Option<RequestHead>,
    pub headers: Option<Seq<RequestHeaderVec>>,
    pub header_options: Option<HeaderOptions>,
    pub body: Option<VecOffset>,
}

impl View for FullParserState {
    type V = FullParserStateView;

    open spec fn view(&self) -> FullParserStateView {
        FullParserStateView {
            read_until: self.read_until,
            cursor: self.cursor,
            head: self.head,
            headers: match self.headers {
                Some(headers) => Some(headers@),
                None => None,
            },
            header_options: self.header_options,
            body: self.body,
        }
    }
}

impl ParserStateView {
    /// The buffer length recorded in the state; zero where none is.
    pub open spec fn read_until(self) -> usize {
        match self {
            ParserStateView::Start { read_until } => match read_until {
                Some(n) => n,
                None => 0,
            },
            ParserStateView::Head { read_until, .. } => read_until,
            ParserStateView::Headers { read_until, .. } => read_until,
            ParserStateView::Body { read_until, .. } => read_until,
        }
    }

    /// The offset at which parsing resumes, where the state has one.
    pub open spec fn cursor(self) -> Option<usize> {
        match self {
            ParserStateView::Start { .. } => None,
            ParserStateView::Head { cursor, .. } => Some(cursor),
            ParserStateView::Headers { cursor, .. } => Some(cursor),
            ParserStateView::Body { cursor, .. } => Some(cursor),
        }
    }

    /// The request line, once it has been read.
    pub open spec fn head(self) -> Option<RequestHead> {
        match self {
            ParserStateView::Start { .. } => None,
            ParserStateView::Head { head, .. } => Some(head),
            ParserStateView::Headers { head, .. } => Some(head),
            ParserStateView::Body { head, .. } => Some(head),
        }
    }

    /// The headers read so far, once there are any.
    pub open spec fn headers(self) -> Option<Seq<RequestHeaderVec>> {
        match self {
            ParserStateView::Headers { headers, .. } => Some(headers),
            ParserStateView::Body { headers, .. } => Some(headers),
            _ => None,
        }
    }

    /// The options read so far, once there are headers.
    pub open spec fn header_options(self) -> Option<HeaderOptions> {
        match self {
            ParserStateView::Headers { header_options, .. } => Some(header_options),
            ParserStateView::Body { header_options, .. } => Some(header_options),
            _ => None,
        }
    }

    /// The body's range, once it is known.
    pub open spec fn body(self) -> Option<VecOffset> {
        match self {
            ParserStateView::Body { body, .. } => Some(body),
            _ => None,
        }
    }

    /// The state part by part.
    pub open spec fn full(self) -> FullParserStateView {
        FullParserStateView {
            read_until: match self {
                ParserStateView::Start { read_until } => read_until,
                _ => Some(self.read_until()),
            },
            cursor: self.cursor(),
            head: self.head(),
            headers: self.headers(),
            header_options: self.header_options(),
            body: self.body(),
        }
    }
}

impl Default for FullParserState {
    fn default() -> (r: Self)
        ensures
            r@ == (FullParserStateView {
                read_until: None,
                cursor: None,
                head: None,
                headers: None,
                header_options: None,
                body: None,
            }),
    {
        FullParserState {
            read_until: None,
            cursor: None,
            head: None,
            headers: None,
            header_options: None,
            body: None,
        }
    }
}

impl FullParserState {
    /// Takes a state apart.
    pub fn from_state(state: ParserState) -> (r: FullParserState)
        ensures
            r@ == state@.full(),
    {
        match state {
            ParserState::Start { read_until } => FullParserState {
                read_until,
                cursor: None,
                head: None,
                headers: None,
                header_options: None,
                body: None,
            },
            ParserState::Head { cursor, read_until, head } => FullParserState {
                cursor: Some(cursor),
                read_until: Some(read_until),
                head: Some(head),
                headers: None,
                header_options: None,
                body: None,
            },
            ParserState::Headers {
                cursor,
                read_until,
                head,
                headers,
                header_options,
            } => FullParserState {
                cursor: Some(cursor),
                read_until: Some(read_until),
                head: Some(head),
                headers: Some(headers),
                header_options: Some(header_options),
                body: None,
            },
            ParserState::Body {
                cursor,
                read_until,
                head,
                headers,
                header_options,
                body,
            } => FullParserState {
                cursor: Some(cursor),
                read_until: Some(read_until),
                head: Some(head),
                headers: Some(headers),
                header_options: Some(header_options),
                body: Some(body),
            },
        }
    }
}

impl ParserState {
    /// The buffer length recorded in the state; zero where none is.
    pub fn read_until(&self) -> (r: usize)
        ensures
            r == self@.read_until(),
    {
        match self {
            ParserState::Start { read_until } => match read_until {
                Some(n) => *n,
                None => 0,
            },
            ParserState::Head { read_until, .. } => *read_until,
            ParserState::Headers { read_until, .. } => *read_until,
            ParserState::Body { read_until, .. } => *read_until,
        }
    }

    /// Whether the body's range is known.
    pub fn is_body(&self) -> (r: bool)
        ensures
            r == (self@ is Body),
    {
        match self {
            ParserState::Body { .. } => true,
            _ => false,
        }
    }

    /// The request line, once it has been read.
    pub fn head(&self) -> (r: Option<&RequestHead>)
        ensures
            match r {
                Some(head) => self@.head() == Some(*head),
                None => self@.head() is None,
            },
    {
        match self {
            ParserState::Head { head, .. } => Some(head),
            ParserState::Headers { head, .. } => Some(head),
            ParserState::Body { head, .. } => Some(head),
            _ => None,
        }
    }

    /// The headers read so far, once there are any.
    pub fn headers(&self) -> (r: Option<&RequestHeaders>)
        ensures
            match r {
                Some(headers) => self@.headers() == Some(headers@),
                None => self@.headers() is None,
            },
    {
        match self {
            ParserState::Headers { headers, .. } => Some(headers),
            ParserState::Body { headers, .. } => Some(headers),
            _ => None,
        }
    }

    /// The options read so far, once there are headers.
    pub fn header_options(&self) -> (r: Option<&HeaderOptions>)
        ensures
            match r {
                Some(options) => self@.header_options() == Some(*options),
                None => self@.header_options() is None,
            },
    {
        match self {
            ParserState::Headers { header_options, .. } => Some(header_options),
            ParserState::Body { header_options, .. } => Some(header_options),
            _ => None,
        }
    }

    /// Makes the result out of a state that knows the body's range and the
    /// buffer the state belongs to. Any other state is refused.
    pub fn into_parser_result(self, buf: Vec<u8>) -> (r: Result<ParserResult, ParserStateError>)
        ensures
            match r {
                Ok(result) => self@ matches ParserStateView::Body {
                    head,
                    headers,
                    header_options,
                    body,
                    ..
                } && result@ == (ParserResultView {
                    buf: buf@,
                    head,
                    headers,
                    body,
                    header_options,
                }),
                Err(e) => !(self@ is Body) && e == ParserStateError::NotBody,
            },
    {
        match self {
            ParserState::Body { head, headers, header_options, body, .. } => Ok(
                ParserResult { buf, head, headers, header_options, body },
            ),
            _ => Err(ParserStateError::NotBody),
        }
    }
}

} // verus!
