//! What the parser returns, stated on sequences of bytes.

use crate::constants::CRLF_SIZE;
use crate::request::head::{spec_parse_head, RequestHead, RequestHeadParseError};
use crate::request::headers::{spec_is_stop, spec_parse_headers, RequestHeaderVec};
use crate::request::lines::{spec_advance, spec_cursor_at, spec_line_end, Cursor};
use crate::request::options::HeaderOptions;
use crate::request::parser::result::ParserResultView;
use crate::request::parser::state::ParserStateView;
use crate::request::parser::status::ParserStatusView;
use vstd::prelude::*;

verus! {

/// The reason given for a request line of another protocol version.
pub open spec fn spec_version_reason() -> Seq<char> {
    "HTTP Version Not supported"@
}

/// The reason given for a request whose headers name no host.
pub open spec fn spec_host_reason() -> Seq<char> {
    "missing Host"@
}

/// The header lines of a request as far as they have been read.
pub struct HeaderStage {
    pub headers: Seq<RequestHeaderVec>,
    pub options: HeaderOptions,
    /// Offset of the segment that stopped the run of header lines.
    pub cursor: int,
    /// The cursor after that segment; it is done where the segment has no
    /// line feed yet.
    pub after: Cursor,
}

/// The state returned while no request line has been read.
pub open spec fn spec_start_again(s: Seq<u8>) -> ParserStatusView {
    ParserStatusView::Incomplete(s, ParserStateView::Start { read_until: Some(s.len() as usize) })
}

/// The state returned when the header lines after `head` could not be
/// read; they are read anew from `cursor` on the next call.
pub open spec fn spec_head_again(s: Seq<u8>, head: RequestHead, cursor: usize) -> ParserStatusView {
    ParserStatusView::Incomplete(
        s,
        ParserStateView::Head { cursor, read_until: s.len() as usize, head },
    )
}

/// The state returned when the headers read so far are kept and more bytes
/// are needed.
pub open spec fn spec_headers_again(
    s: Seq<u8>,
    head: RequestHead,
    stage: HeaderStage,
) -> ParserStatusView {
    ParserStatusView::Incomplete(
        s,
        ParserStateView::Headers {
            cursor: stage.cursor as usize,
            read_until: s.len() as usize,
            head,
            headers: stage.headers,
            header_options: stage.options,
        },
    )
}

/// First stage: the request line, taken from the state if it holds one and
/// read at the start of the buffer otherwise, with the offset at which the
/// header lines are read. Where there is none, the status to return.
pub open spec fn spec_head_stage(s: Seq<u8>, state: ParserStateView) -> Result<
    (RequestHead, usize),
    ParserStatusView,
> {
    match state {
        ParserStateView::Start { .. } => match spec_parse_head(s, Cursor { pos: 0, done: false }) {
            Ok((size, head)) => Ok((head, size)),
            Err(RequestHeadParseError::InvalidHTTPVersion) => Err(
                ParserStatusView::Invalid(spec_version_reason()),
            ),
            Err(_) => Err(spec_start_again(s)),
        },
        ParserStateView::Head { cursor, head, .. } => Ok((head, cursor)),
        ParserStateView::Headers { cursor, head, .. } => Ok((head, cursor)),
        ParserStateView::Body { cursor, head, .. } => Ok((head, cursor)),
    }
}

/// The segment at the cursor stops a run of header lines.
pub open spec fn spec_peek_is_stop(s: Seq<u8>, c: Cursor) -> bool {
    !c.done && spec_is_stop(s, c.pos, spec_line_end(s, c.pos))
}

/// Second stage: the header lines from offset `at` on. A state that holds
/// headers keeps them: if the next segment stops the run nothing is added,
/// otherwise the lines that follow are appended and their options merged.
/// Where the lines cannot be read, the status to return.
pub open spec fn spec_headers_stage(
    s: Seq<u8>,
    state: ParserStateView,
    head: RequestHead,
    at: usize,
) -> Result<HeaderStage, ParserStatusView> {
    let c = spec_cursor_at(s.len(), at as int);
    let (found, after) = spec_parse_headers(s, c);
    match (state.headers(), state.header_options()) {
        (Some(headers), Some(options)) => if spec_peek_is_stop(s, c) {
            Ok(HeaderStage { headers, options, cursor: at as int, after: spec_advance(s, c) })
        } else {
            match found {
                Ok(scan) => Ok(
                    HeaderStage {
                        headers: headers + scan.headers,
                        options: options.spec_merge(scan.options),
                        cursor: at + scan.size,
                        after,
                    },
                ),
                Err(_) => Err(spec_head_again(s, head, head.spec_line_after())),
            }
        },
        _ => match found {
            Ok(scan) => Ok(
                HeaderStage {
                    headers: scan.headers,
                    options: scan.options,
                    cursor: at + scan.size,
                    after,
                },
            ),
            Err(_) => Err(spec_head_again(s, head, at)),
        },
    }
}

/// Last stages, once header lines have been read: the request is
/// incomplete while the line that ends the headers has no line feed;
/// then it is refused if no header named a host; then the body is cut.
/// Without a length the body is empty, at the line that ends the headers;
/// with a length of `n` it is the `n` bytes after that line's two bytes,
/// and the request is incomplete while the buffer is shorter.
pub open spec fn spec_body_stage(s: Seq<u8>, head: RequestHead, stage: HeaderStage) -> ParserStatusView {
    if stage.after.done {
        spec_headers_again(s, head, stage)
    } else if !stage.options.has_host {
        ParserStatusView::Invalid(spec_host_reason())
    } else {
        match stage.options.content_length {
            None => ParserStatusView::Success(
                ParserResultView {
                    buf: s,
                    head,
                    headers: stage.headers,
                    body: (stage.cursor as usize, stage.cursor as usize),
                    header_options: stage.options,
                },
            ),
            Some(n) => if s.len() < stage.cursor + CRLF_SIZE + n {
                spec_headers_again(s, head, stage)
            } else {
                ParserStatusView::Success(
                    ParserResultView {
                        buf: s,
                        head,
                        headers: stage.headers,
                        body: (
                            (stage.cursor + CRLF_SIZE) as usize,
                            (stage.cursor + CRLF_SIZE + n) as usize,
                        ),
                        header_options: stage.options,
                    },
                )
            },
        }
    }
}

/// What a call of the parser returns on the buffer `s` and a state.
pub open spec fn spec_parse_request(s: Seq<u8>, state: ParserStateView) -> ParserStatusView {
    match spec_head_stage(s, state) {
        Err(status) => status,
        Ok((head, at)) => match spec_headers_stage(s, state, head, at) {
            Err(status) => status,
            Ok(stage) => spec_body_stage(s, head, stage),
        },
    }
}

} // verus!
