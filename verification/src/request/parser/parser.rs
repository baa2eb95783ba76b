//! The parser itself.

use crate::constants::{CR, CRLF_SIZE};
use crate::request::head::{RequestHead, RequestHeadParseError};
use crate::request::headers::{
    spec_scan_empty, HeaderParser, HeaderParserResult, RequestHeaders,
};
use crate::request::lines::{spec_cursor_at, Lines};
use crate::request::options::HeaderOptions;
use crate::request::parser::laws::lemma_scan_shape;
use crate::request::parser::model::{
    spec_head_stage, spec_headers_stage, spec_parse_request, HeaderStage,
};
use crate::request::parser::result::ParserResult;
use crate::request::parser::resume::{lemma_ranges_within, lemma_returns};
use crate::request::parser::state::{FullParserState, ParserState};
use crate::request::parser::status::{ParserStatus, ParserStatusView};
use vstd::prelude::*;

verus! {

/// Parses requests out of a buffer that grows between calls.
pub struct RequestParser;

impl RequestParser {
    /// A walk over the lines of `buf`.
    pub fn split_buf_lines<'a>(buf: &'a [u8]) -> (r: Lines<'a>)
        ensures
            r.source() == buf@,
            r.cursor() == spec_cursor_at(buf@.len(), 0),
    {
        Lines::new(buf)
    }

    /// Parses the request in `buf`, resuming from `state`, which an earlier
    /// call on a shorter form of the same buffer returned.
    ///
    /// The call returns what `spec_parse_request` says. Where the ranges of
    /// `state` lie inside `buf`, so do all ranges that come back.
    pub fn parse_request(buf: Vec<u8>, _state: ParserState) -> (r: ParserStatus)
        ensures
            r@ == spec_parse_request(buf@, _state@),
            _state@.spec_within(buf@.len()) ==> r@.spec_within(),
            r@.spec_buf() matches Some(back) ==> back == buf@,
            r@ matches ParserStatusView::Incomplete(_, next) ==> next.read_until() == buf@.len(),
    {
        let _: usize = buf.len();
        proof {
            lemma_returns(buf@, _state@);
            if _state@.spec_within(buf@.len()) {
                lemma_ranges_within(buf@, _state@);
            }
        }
        RequestParser::parse_stages(buf, _state)
    }

    fn parse_stages(buf: Vec<u8>, _state: ParserState) -> (r: ParserStatus)
        ensures
            r@ == spec_parse_request(buf@, _state@),
    {
        let buf_len: usize = buf.len();
        let bytes: &[u8] = buf.as_slice();
        let ghost state = _state@;
        let FullParserState { read_until: _, cursor, head, headers, header_options, body: _ } =
            FullParserState::from_state(_state);

        let (head, at): (RequestHead, usize) = match head {
            Some(head) => (
                head,
                match cursor {
                    Some(cursor) => cursor,
                    None => 0,
                },
            ),
            None => {
                let mut lines = RequestParser::split_buf_lines(bytes);
                match RequestHead::from_split_iter(&mut lines, bytes) {
                    Ok((size, head)) => (head, size),
                    Err(RequestHeadParseError::InvalidHTTPVersion) => {
                        return ParserStatus::Invalid("HTTP Version Not supported".to_owned());
                    },
                    Err(_) => {
                        return ParserStatus::Incomplete(
                            (buf, ParserState::Start { read_until: Some(buf_len) }),
                        );
                    },
                }
            },
        };
        assert(spec_head_stage(buf@, state) == Ok::<(RequestHead, usize), ParserStatusView>((head, at)));

        let mut lines = Lines::resume(bytes, at);
        let ghost c = lines.cursor();
        proof {
            if !c.done {
                lemma_scan_shape(buf@, c, spec_scan_empty());
            }
        }
        let (headers, header_options, offset): (RequestHeaders, HeaderOptions, usize) = match (
            headers,
            header_options,
        ) {
            (Some(mut headers), Some(mut header_options)) => {
                let stop = match lines.peek() {
                    Some((start, end)) => end == start || (end == start + 1 && bytes[start] == CR),
                    None => false,
                };
                if stop {
                    let _ = lines.next();
                    (headers, header_options, at)
                } else {
                    match HeaderParser::parse_headers(bytes, &mut lines) {
                        Ok(HeaderParserResult { size, headers: mut more, options }) => {
                            header_options.merge(options);
                            headers.append(&mut more);
                            (headers, header_options, at + size)
                        },
                        Err(_) => {
                            let cursor: usize = head.line_after();
                            return ParserStatus::Incomplete(
                                (buf, ParserState::Head { cursor, read_until: buf_len, head }),
                            );
                        },
                    }
                }
            },
            _ => match HeaderParser::parse_headers(bytes, &mut lines) {
                Ok(HeaderParserResult { size, headers, options }) => (headers, options, at + size),
                Err(_) => {
                    return ParserStatus::Incomplete(
                        (buf, ParserState::Head { cursor: at, read_until: buf_len, head }),
                    );
                },
            },
        };
        let ghost stage = HeaderStage {
            headers: headers@,
            options: header_options,
            cursor: offset as int,
            after: lines.cursor(),
        };
        assert(spec_headers_stage(buf@, state, head, at) == Ok::<HeaderStage, ParserStatusView>(stage));

        if lines.is_done() {
            return ParserStatus::Incomplete(
                (
                    buf,
                    ParserState::Headers {
                        cursor: offset,
                        read_until: buf_len,
                        head,
                        headers,
                        header_options,
                    },
                ),
            );
        }
        if !header_options.has_host {
            return ParserStatus::Invalid("missing Host".to_owned());
        }
        let body: (usize, usize) = match header_options.content_length {
            None => (offset, offset),
            Some(n) => {
                if n > buf_len || offset > buf_len - n || buf_len - n - offset < CRLF_SIZE {
                    return ParserStatus::Incomplete(
                        (
                            buf,
                            ParserState::Headers {
                                cursor: offset,
                                read_until: buf_len,
                                head,
                                headers,
                                header_options,
                            },
                        ),
                    );
                }
                (offset + CRLF_SIZE, offset + CRLF_SIZE + n)
            },
        };
        ParserStatus::Success(ParserResult { buf, head, headers, body, header_options })
    }
}

impl ParserResult {
    /// Parses the request in `buf`; the same as
    /// `RequestParser::parse_request`.
    pub fn parse_request(buf: Vec<u8>, _state: ParserState) -> (r: ParserStatus)
        ensures
            r@ == spec_parse_request(buf@, _state@),
            _state@.spec_within(buf@.len()) ==> r@.spec_within(),
            r@.spec_buf() matches Some(back) ==> back == buf@,
            r@ matches ParserStatusView::Incomplete(_, next) ==> next.read_until() == buf@.len(),
    {
        RequestParser::parse_request(buf, _state)
    }
}

} // verus!
