//! What the parser guarantees across calls: ranges stay inside the buffer,
//! a request without a host is refused, and a request read in pieces is
//! the request read at once.

use crate::constants::LF;
use crate::request::head::{spec_parse_head, RequestHead, RequestHeadParseError};
use crate::request::headers::{
    spec_header_line, spec_header_options, spec_is_stop, spec_parse_headers, spec_range,
    spec_scan, spec_scan_empty, spec_scan_push, HeaderParseError, HeaderScan, RequestHeaderVec,
};
use crate::request::lines::{spec_advance, spec_cursor_at, spec_line_end, Cursor};
use crate::request::options::HeaderOptions;
use crate::request::parser::laws::{
    lemma_head_cut, lemma_head_prefix, lemma_prefix_parts, lemma_scan_cut, lemma_scan_extend,
    lemma_scan_join, lemma_scan_shape, spec_is_prefix, spec_scan_join,
};
use crate::request::parser::model::{
    spec_head_stage, spec_headers_stage, spec_host_reason, spec_parse_request, spec_peek_is_stop,
    spec_version_reason,
};
use crate::request::parser::result::spec_headers_within;
use crate::request::parser::state::ParserStateView;
use crate::request::parser::status::ParserStatusView;
use crate::roundtrip::{lemma_names, lemma_same_case_same_len};
use crate::utils::{lemma_find, spec_eq_ignore_ascii_case};
use vstd::prelude::*;
use vstd::string::StringSliceAdditionalSpecFns;

verus! {

impl ParserStateView {
    /// Every range that the state holds lies inside a buffer of `len`
    /// bytes.
    pub open spec fn spec_within(self, len: nat) -> bool {
        match self {
            ParserStateView::Start { .. } => true,
            ParserStateView::Head { head, .. } => head.spec_within(len),
            ParserStateView::Headers { head, headers, .. } => head.spec_within(len)
                && spec_headers_within(headers, len),
            ParserStateView::Body { head, headers, body, .. } => head.spec_within(len)
                && spec_headers_within(headers, len) && body.0 <= body.1 <= len,
        }
    }
}

impl ParserStatusView {
    /// Every range that the status holds lies inside the buffer that it
    /// holds.
    pub open spec fn spec_within(self) -> bool {
        match self {
            ParserStatusView::Success(result) => result.spec_within(),
            ParserStatusView::Incomplete(buf, state) => state.spec_within(buf.len()),
            ParserStatusView::Invalid(_) => true,
        }
    }

    /// The buffer that the status hands back, if it holds one.
    pub open spec fn spec_buf(self) -> Option<Seq<u8>> {
        match self {
            ParserStatusView::Success(result) => Some(result.buf),
            ParserStatusView::Incomplete(buf, _) => Some(buf),
            ParserStatusView::Invalid(_) => None,
        }
    }
}

/// A state that has not read anything.
pub open spec fn spec_start() -> ParserStateView {
    ParserStateView::Start { read_until: None }
}

/// The cursor at the first byte of a buffer.
pub open spec fn spec_origin() -> Cursor {
    Cursor { pos: 0, done: false }
}

/// The buffer comes back as it went in, and a state to resume from
/// records its length.
pub proof fn lemma_returns(s: Seq<u8>, state: ParserStateView)
    requires
        s.len() <= usize::MAX,
    ensures
        spec_parse_request(s, state).spec_buf() matches Some(buf) ==> buf == s,
        spec_parse_request(s, state) matches ParserStatusView::Incomplete(_, next)
            ==> next.read_until() == s.len(),
{
}

/// Ranges stay inside the buffer. Called with a state whose ranges lie
/// inside the buffer, the parser returns only ranges that do: those of a
/// complete request, and those of the state to resume from. The buffer
/// comes back as it went in, and a state to resume from records its
/// length.
pub proof fn lemma_ranges_within(s: Seq<u8>, state: ParserStateView)
    requires
        s.len() <= usize::MAX,
        state.spec_within(s.len()),
    ensures
        spec_parse_request(s, state).spec_within(),
        spec_parse_request(s, state).spec_buf() matches Some(buf) ==> buf == s,
        spec_parse_request(s, state) matches ParserStatusView::Incomplete(_, next)
            ==> next.read_until() == s.len(),
{
    match spec_head_stage(s, state) {
        Err(status) => {},
        Ok((head, at)) => {
            if state is Start {
                lemma_head_cut(s, at, head);
            }
            let c = spec_cursor_at(s.len(), at as int);
            if !c.done {
                lemma_scan_shape(s, c, spec_scan_empty());
            }
            match spec_headers_stage(s, state, head, at) {
                Err(status) => {},
                Ok(stage) => {
                    assert(spec_headers_within(stage.headers, s.len()));
                    assert(0 <= stage.cursor <= s.len());
                },
            }
        },
    }
}

/// A host is mandatory. Whatever the state, a call that reads the headers
/// to their end and has seen no host refuses the request; so every
/// complete request has seen one.
pub proof fn lemma_host_mandatory(s: Seq<u8>, state: ParserStateView)
    ensures
        spec_parse_request(s, state) matches ParserStatusView::Success(result)
            ==> result.header_options.has_host,
        match spec_head_stage(s, state) {
            Ok((head, at)) => match spec_headers_stage(s, state, head, at) {
                Ok(stage) => !stage.after.done && !stage.options.has_host ==> spec_parse_request(
                    s,
                    state,
                ) == ParserStatusView::Invalid(spec_host_reason()),
                Err(_) => true,
            },
            Err(_) => true,
        },
{
}

/// Some header of `headers` is named `host`, in any case.
pub open spec fn spec_names_host(s: Seq<u8>, headers: Seq<RequestHeaderVec>) -> bool {
    exists|i: int|
        0 <= i < headers.len() && spec_eq_ignore_ascii_case(
            spec_range(s, (#[trigger] headers[i]).0),
            "host".spec_bytes(),
        )
}

/// A scan has seen a host exactly if one was seen before it or one of the
/// headers it added is named `host`.
pub proof fn lemma_scan_host(s: Seq<u8>, c: Cursor, acc: HeaderScan)
    requires
        0 <= c.pos <= s.len() <= usize::MAX,
    ensures
        spec_scan(s, c, acc).0 matches Ok(scan) ==> scan.headers.len() >= acc.headers.len() && (
        scan.options.has_host <==> acc.options.has_host || spec_names_host(
            s,
            scan.headers.subrange(acc.headers.len() as int, scan.headers.len() as int),
        )),
    decreases s.len() - c.pos,
{
    let end = spec_line_end(s, c.pos);
    let next = spec_advance(s, c);
    lemma_find(s, c.pos, LF);
    if c.done || spec_is_stop(s, c.pos, end) || end >= s.len() {
    } else {
        match spec_header_line(s, c.pos, end) {
            Err(e) => {},
            Ok(header) => match spec_header_options(
                spec_range(s, header.0),
                spec_range(s, header.1),
            ) {
                None => {},
                Some(options) => {
                    let name = spec_range(s, header.0);
                    let pushed = spec_scan_push(acc, end - c.pos + 1, header, options);
                    lemma_scan_host(s, next, pushed);
                    lemma_scan_shape(s, next, pushed);
                    if spec_scan(s, c, acc).0 is Ok {
                        let scan = spec_scan(s, c, acc).0->Ok_0;
                        let from = acc.headers.len() as int;
                        let added = scan.headers.subrange(from, scan.headers.len() as int);
                        let later = scan.headers.subrange(from + 1, scan.headers.len() as int);
                        assert(scan.headers.subrange(0, from + 1)[from] == pushed.headers[from]);
                        assert(added[0] == header);
                        lemma_names();
                        if spec_eq_ignore_ascii_case(name, "host".spec_bytes())
                            && spec_eq_ignore_ascii_case(name, "content-length".spec_bytes()) {
                            lemma_same_case_same_len(name, "host".spec_bytes());
                            lemma_same_case_same_len(name, "content-length".spec_bytes());
                        }
                        assert(options.has_host == spec_eq_ignore_ascii_case(
                            name,
                            "host".spec_bytes(),
                        ));
                        if spec_names_host(s, added) {
                            let i = choose|i: int|
                                0 <= i < added.len() && spec_eq_ignore_ascii_case(
                                    spec_range(s, (#[trigger] added[i]).0),
                                    "host".spec_bytes(),
                                );
                            if i > 0 {
                                assert(later[i - 1] == added[i]);
                            }
                        }
                        if spec_names_host(s, later) {
                            let i = choose|i: int|
                                0 <= i < later.len() && spec_eq_ignore_ascii_case(
                                    spec_range(s, (#[trigger] later[i]).0),
                                    "host".spec_bytes(),
                                );
                            assert(added[i + 1] == later[i]);
                        }
                    }
                },
            },
        }
    }
}

/// The two reasons of a refusal are two texts.
pub proof fn lemma_reasons_differ()
    ensures
        spec_host_reason() != spec_version_reason(),
{
    reveal_strlit("missing Host");
    reveal_strlit("HTTP Version Not supported");
    assert(spec_host_reason().len() == 12);
    assert(spec_version_reason().len() == 26);
}

/// Every request has a host header. A request that the parser returns as
/// complete on a buffer alone holds a header named `host`, in any case;
/// and where the parser refuses such a buffer for want of a host, the
/// headers it has read up to their end hold none.
pub proof fn lemma_host_named(s: Seq<u8>)
    requires
        s.len() <= usize::MAX,
    ensures
        spec_parse_request(s, spec_start()) matches ParserStatusView::Success(result)
            ==> spec_names_host(s, result.headers),
        spec_parse_request(s, spec_start()) == ParserStatusView::Invalid(spec_host_reason()) ==> ({
            &&& spec_head_stage(s, spec_start()) matches Ok((head, at))
            &&& spec_headers_stage(s, spec_start(), head, at) matches Ok(stage)
            &&& !stage.after.done
            &&& !spec_names_host(s, stage.headers)
        }),
{
    lemma_reasons_differ();
    match spec_head_stage(s, spec_start()) {
        Err(status) => {},
        Ok((head, at)) => {
            lemma_head_cut(s, at, head);
            let c = Cursor { pos: at as int, done: false };
            assert(c == spec_cursor_at(s.len(), at as int));
            lemma_scan_host(s, c, spec_scan_empty());
            match spec_headers_stage(s, spec_start(), head, at) {
                Err(status) => {},
                Ok(stage) => {
                    assert(stage.headers.subrange(0, stage.headers.len() as int)
                        =~= stage.headers);
                },
            }
        },
    }
}

/// The state belongs to the buffer `s`: it is what reading the start of
/// `s` gives. A state with a head holds the request line that `s` starts
/// with and the offset after that line; a state with headers also holds
/// exactly the headers of the lines between that offset and its cursor,
/// with their options.
pub open spec fn spec_consistent(state: ParserStateView, s: Seq<u8>) -> bool {
    match state {
        ParserStateView::Start { .. } => true,
        ParserStateView::Head { cursor, head, .. } => spec_consistent_head(s, cursor, head),
        ParserStateView::Headers {
            cursor,
            head,
            headers,
            header_options,
            ..
        } => spec_consistent_headers(s, cursor, head, headers, header_options),
        ParserStateView::Body {
            cursor,
            head,
            headers,
            header_options,
            ..
        } => spec_consistent_headers(s, cursor, head, headers, header_options),
    }
}

/// `head` is the request line at the start of `s`, which ends right
/// before `after`.
pub open spec fn spec_consistent_head(s: Seq<u8>, after: usize, head: RequestHead) -> bool {
    &&& after <= s.len()
    &&& spec_parse_head(s.subrange(0, after as int), spec_origin()) == Ok::<
        (usize, RequestHead),
        RequestHeadParseError,
    >((after, head))
}

/// `head` is the request line at the start of `s`, and the lines between
/// it and `cursor` are header lines that give `headers` and `options`.
pub open spec fn spec_consistent_headers(
    s: Seq<u8>,
    cursor: usize,
    head: RequestHead,
    headers: Seq<RequestHeaderVec>,
    options: HeaderOptions,
) -> bool {
    let after = head.spec_line_after();
    &&& after <= cursor <= s.len()
    &&& spec_consistent_head(s, after, head)
    &&& spec_parse_headers(s.subrange(0, cursor as int), Cursor { pos: after as int, done: false }).0
        == Ok::<HeaderScan, HeaderParseError>(
        HeaderScan { size: cursor - after, headers, options },
    )
}

/// A state that belongs to a buffer belongs to every longer buffer that
/// starts with it.
pub proof fn lemma_consistent_grows(state: ParserStateView, p: Seq<u8>, s: Seq<u8>)
    requires
        spec_is_prefix(p, s),
        spec_consistent(state, p),
    ensures
        spec_consistent(state, s),
{
    lemma_prefix_parts(p, s);
}

/// A state to resume from belongs to the buffer it was returned for: what
/// the parser returns on a buffer alone as incomplete, belongs to that
/// buffer.
pub proof fn lemma_fresh_consistent(s: Seq<u8>)
    requires
        s.len() <= usize::MAX,
    ensures
        spec_parse_request(s, spec_start()) matches ParserStatusView::Incomplete(buf, next) ==> buf
            == s && spec_consistent(next, s),
{
    match spec_head_stage(s, spec_start()) {
        Err(status) => {},
        Ok((head, at)) => {
            lemma_head_cut(s, at, head);
            let c = Cursor { pos: at as int, done: false };
            assert(c == spec_cursor_at(s.len(), at as int));
            lemma_scan_shape(s, c, spec_scan_empty());
            match spec_headers_stage(s, spec_start(), head, at) {
                Err(status) => {},
                Ok(stage) => {
                    lemma_scan_cut(s, c, spec_scan_empty());
                    let scan = spec_scan(s, c, spec_scan_empty()).0->Ok_0;
                    assert(stage.cursor == at + scan.size);
                    assert(spec_consistent_headers(
                        s,
                        stage.cursor as usize,
                        head,
                        stage.headers,
                        stage.options,
                    ));
                },
            }
        },
    }
}

/// Resuming is reading anew. With a state that belongs to the buffer, the
/// parser returns what it returns on the buffer alone.
pub proof fn lemma_resume(s: Seq<u8>, state: ParserStateView)
    requires
        s.len() <= usize::MAX,
        spec_consistent(state, s),
    ensures
        spec_parse_request(s, state) == spec_parse_request(s, spec_start()),
{
    match state {
        ParserStateView::Start { .. } => {},
        ParserStateView::Head { cursor, head, .. } => {
            lemma_resume_head(s, cursor, head);
        },
        ParserStateView::Headers { cursor, head, headers, header_options, .. } => {
            lemma_resume_headers(s, state, cursor, head, headers, header_options);
        },
        ParserStateView::Body { cursor, head, headers, header_options, .. } => {
            lemma_resume_headers(s, state, cursor, head, headers, header_options);
        },
    }
}

/// The request line that a state holds is the one that the buffer starts
/// with.
proof fn lemma_resume_head(s: Seq<u8>, after: usize, head: RequestHead)
    requires
        s.len() <= usize::MAX,
        spec_consistent_head(s, after, head),
    ensures
        spec_parse_head(s, spec_origin()) == Ok::<(usize, RequestHead), RequestHeadParseError>(
            (after, head),
        ),
        after == head.spec_line_after(),
{
    let t = s.subrange(0, after as int);
    assert(spec_is_prefix(t, s)) by {
        assert(s.subrange(0, t.len() as int) =~= t);
    }
    lemma_head_cut(t, after, head);
    lemma_find(t, 0, LF);
    lemma_head_prefix(t, s, spec_origin());
}

proof fn lemma_resume_headers(
    s: Seq<u8>,
    state: ParserStateView,
    cursor: usize,
    head: RequestHead,
    headers: Seq<RequestHeaderVec>,
    options: HeaderOptions,
)
    requires
        s.len() <= usize::MAX,
        spec_consistent_headers(s, cursor, head, headers, options),
        spec_head_stage(s, state) == Ok::<(RequestHead, usize), ParserStatusView>((head, cursor)),
        state.headers() == Some(headers),
        state.header_options() == Some(options),
    ensures
        spec_parse_request(s, state) == spec_parse_request(s, spec_start()),
{
    let after = head.spec_line_after();
    lemma_resume_head(s, after, head);
    let empty = spec_scan_empty();
    let t = s.subrange(0, cursor as int);
    assert(spec_is_prefix(t, s)) by {
        assert(s.subrange(0, t.len() as int) =~= t);
    }
    let first = Cursor { pos: after as int, done: false };
    let here = Cursor { pos: cursor as int, done: false };
    let acc = HeaderScan { size: cursor - after, headers, options };
    assert(first == spec_cursor_at(s.len(), after as int));
    assert(here == spec_cursor_at(s.len(), cursor as int));
    // the scan of the cut buffer ends at its end, so the scan of the
    // whole buffer comes to the cursor with what the state holds
    assert(spec_scan(t, first, empty).0 == Ok::<HeaderScan, HeaderParseError>(acc));
    lemma_scan_shape(t, first, empty);
    lemma_find(t, cursor as int, LF);
    assert(spec_scan(t, first, empty).1.done);
    lemma_scan_extend(t, s, first, empty);
    assert(spec_scan(s, first, empty) == spec_scan(s, here, acc));
    lemma_scan_join(s, here, acc);
    lemma_scan_shape(s, here, empty);
    lemma_find(s, cursor as int, LF);
    if spec_peek_is_stop(s, here) {
        assert(spec_scan_join(acc, empty).headers =~= acc.headers);
        crate::request::options::lemma_merge_default(options);
    } else {
        match spec_scan(s, here, empty).0 {
            Err(e) => {},
            Ok(more) => {
                assert(more.headers.len() > 0);
                assert(spec_scan_join(acc, more).headers.len() > 0);
            },
        }
    }
}

/// One read in the life of a request. Let the state belong to the buffer,
/// and let the buffer grow by `chunk`. Then the parser returns on the
/// grown buffer and that state what it returns on the grown buffer alone,
/// and a state it returns to resume from belongs to the grown buffer.
pub proof fn lemma_feed_step(buf: Seq<u8>, state: ParserStateView, chunk: Seq<u8>)
    requires
        buf.len() + chunk.len() <= usize::MAX,
        spec_consistent(state, buf),
    ensures
        spec_parse_request(buf + chunk, state) == spec_parse_request(buf + chunk, spec_start()),
        spec_parse_request(buf + chunk, state) matches ParserStatusView::Incomplete(back, next)
            ==> back == buf + chunk && spec_consistent(next, buf + chunk),
{
    let grown = buf + chunk;
    assert(spec_is_prefix(buf, grown)) by {
        assert(grown.subrange(0, buf.len() as int) =~= buf);
    }
    lemma_consistent_grows(state, buf, grown);
    lemma_resume(grown, state);
    lemma_fresh_consistent(grown);
}

/// What is refused stays refused. If the parser refuses a buffer, it
/// refuses, for the same reason, every buffer that starts with it; so no
/// start of a request that is complete is ever refused.
pub proof fn lemma_refusal_is_final(p: Seq<u8>, s: Seq<u8>)
    requires
        spec_is_prefix(p, s),
        s.len() <= usize::MAX,
        spec_parse_request(p, spec_start()) is Invalid,
    ensures
        spec_parse_request(s, spec_start()) == spec_parse_request(p, spec_start()),
{
    lemma_find(p, 0, LF);
    lemma_head_prefix(p, s, spec_origin());
    match spec_head_stage(p, spec_start()) {
        Err(status) => {},
        Ok((head, at)) => {
            lemma_head_cut(p, at, head);
            let c = Cursor { pos: at as int, done: false };
            assert(c == spec_cursor_at(p.len(), at as int));
            assert(c == spec_cursor_at(s.len(), at as int));
            lemma_scan_extend(p, s, c, spec_scan_empty());
        },
    }
}

/// What is complete stays complete. If the parser returns a complete
/// request on a buffer, it returns, on every buffer that starts with it,
/// a complete request with the same ranges and the same options; only the
/// buffer that it hands back is the longer one.
pub proof fn lemma_success_is_final(p: Seq<u8>, s: Seq<u8>)
    requires
        spec_is_prefix(p, s),
        s.len() <= usize::MAX,
        spec_parse_request(p, spec_start()) is Success,
    ensures
        spec_parse_request(s, spec_start()) matches ParserStatusView::Success(whole) && ({
            let part = spec_parse_request(p, spec_start())->Success_0;
            &&& whole.buf == s
            &&& part.buf == p
            &&& whole.head == part.head
            &&& whole.headers == part.headers
            &&& whole.body == part.body
            &&& whole.header_options == part.header_options
        }),
{
    lemma_find(p, 0, LF);
    lemma_head_prefix(p, s, spec_origin());
    match spec_head_stage(p, spec_start()) {
        Err(status) => {},
        Ok((head, at)) => {
            lemma_head_cut(p, at, head);
            let c = Cursor { pos: at as int, done: false };
            assert(c == spec_cursor_at(p.len(), at as int));
            assert(c == spec_cursor_at(s.len(), at as int));
            lemma_scan_extend(p, s, c, spec_scan_empty());
        },
    }
}

/// Chunks and one more are the bytes of the chunks and the bytes of that
/// one.
pub proof fn lemma_concat_push(chunks: Seq<Seq<u8>>, last: Seq<u8>)
    ensures
        spec_concat(chunks.push(last)) == spec_concat(chunks) + last,
    decreases chunks.len(),
{
    if chunks.len() == 0 {
        assert(chunks.push(last).drop_first() =~= Seq::<Seq<u8>>::empty());
        assert(chunks.push(last)[0] == last);
        assert(spec_concat(chunks.push(last).drop_first()) =~= Seq::<u8>::empty());
        assert(spec_concat(chunks.push(last)) =~= last);
        assert(spec_concat(chunks) + last =~= last);
    } else {
        lemma_concat_push(chunks.drop_first(), last);
        assert(chunks.push(last).drop_first() =~= chunks.drop_first().push(last));
        assert(chunks.push(last)[0] == chunks[0]);
        assert(spec_concat(chunks.push(last)) =~= spec_concat(chunks) + last);
    }
}

/// The bytes of all chunks, one after the other.
pub open spec fn spec_concat(chunks: Seq<Seq<u8>>) -> Seq<u8>
    decreases chunks.len(),
{
    if chunks.len() == 0 {
        Seq::empty()
    } else {
        chunks[0] + spec_concat(chunks.drop_first())
    }
}

/// What a connection that receives `chunks` one by one ends with: after
/// each chunk the parser is called on all bytes so far and the state of
/// the call before; the first status that is not incomplete ends the
/// reading, and so does the last chunk.
pub open spec fn spec_feed(
    buf: Seq<u8>,
    state: ParserStateView,
    chunks: Seq<Seq<u8>>,
) -> ParserStatusView
    decreases chunks.len(),
{
    if chunks.len() == 0 {
        ParserStatusView::Incomplete(buf, state)
    } else {
        match spec_parse_request(buf + chunks[0], state) {
            ParserStatusView::Incomplete(back, next) => if chunks.len() == 1 {
                ParserStatusView::Incomplete(back, next)
            } else {
                spec_feed(back, next, chunks.drop_first())
            },
            status => status,
        }
    }
}

/// What reading ends with if every call starts anew on all bytes so far.
pub open spec fn spec_feed_anew(buf: Seq<u8>, chunks: Seq<Seq<u8>>) -> ParserStatusView
    decreases chunks.len(),
{
    if chunks.len() == 0 {
        ParserStatusView::Incomplete(buf, spec_start())
    } else {
        match spec_parse_request(buf + chunks[0], spec_start()) {
            ParserStatusView::Incomplete(back, next) => if chunks.len() == 1 {
                ParserStatusView::Incomplete(back, next)
            } else {
                spec_feed_anew(buf + chunks[0], chunks.drop_first())
            },
            status => status,
        }
    }
}

/// Reading in pieces is reading anew. Whatever the chunks, a connection
/// that resumes from the state of the call before ends with what it would
/// end with if each call parsed all bytes so far from the start.
pub proof fn lemma_feed_is_anew(buf: Seq<u8>, state: ParserStateView, chunks: Seq<Seq<u8>>)
    requires
        buf.len() + spec_concat(chunks).len() <= usize::MAX,
        spec_consistent(state, buf),
        chunks.len() > 0,
    ensures
        spec_feed(buf, state, chunks) == spec_feed_anew(buf, chunks),
    decreases chunks.len(),
{
    lemma_feed_step(buf, state, chunks[0]);
    match spec_parse_request(buf + chunks[0], state) {
        ParserStatusView::Incomplete(back, next) => {
            if chunks.len() > 1 {
                lemma_feed_is_anew(back, next, chunks.drop_first());
            }
        },
        _ => {},
    }
}

/// A request that is complete is read in any chunking. Let the parser
/// return a complete request on `whole` alone. Then it refuses nothing
/// that `whole` starts with, and a connection that receives `whole` in
/// chunks, however it is cut, ends with a complete request.
pub proof fn lemma_resumable(whole: Seq<u8>, chunks: Seq<Seq<u8>>)
    requires
        whole.len() <= usize::MAX,
        spec_parse_request(whole, spec_start()) is Success,
        spec_concat(chunks) == whole,
        chunks.len() > 0,
    ensures
        forall|p: Seq<u8>| #[trigger]
            spec_is_prefix(p, whole) ==> !(spec_parse_request(p, spec_start()) is Invalid),
        spec_feed(Seq::empty(), spec_start(), chunks) is Success,
{
    assert forall|p: Seq<u8>| #[trigger] spec_is_prefix(p, whole) implies !(spec_parse_request(
        p,
        spec_start(),
    ) is Invalid) by {
        if spec_parse_request(p, spec_start()) is Invalid {
            lemma_refusal_is_final(p, whole);
        }
    }
    assert(Seq::<u8>::empty() + whole =~= whole);
    lemma_feed_complete(Seq::empty(), spec_start(), chunks, whole);
}

proof fn lemma_feed_complete(
    buf: Seq<u8>,
    state: ParserStateView,
    chunks: Seq<Seq<u8>>,
    whole: Seq<u8>,
)
    requires
        whole.len() <= usize::MAX,
        spec_parse_request(whole, spec_start()) is Success,
        buf + spec_concat(chunks) == whole,
        chunks.len() > 0,
        spec_consistent(state, buf),
    ensures
        spec_feed(buf, state, chunks) is Success,
    decreases chunks.len(),
{
    let rest = chunks.drop_first();
    let grown = buf + chunks[0];
    assert(grown + spec_concat(rest) =~= whole);
    assert(spec_is_prefix(grown, whole)) by {
        assert(whole.subrange(0, grown.len() as int) =~= grown);
    }
    lemma_feed_step(buf, state, chunks[0]);
    if spec_parse_request(grown, spec_start()) is Invalid {
        lemma_refusal_is_final(grown, whole);
    }
    match spec_parse_request(grown, state) {
        ParserStatusView::Incomplete(back, next) => {
            if chunks.len() == 1 {
                assert(spec_concat(rest) =~= Seq::<u8>::empty());
                assert(grown =~= whole);
            } else {
                lemma_feed_complete(back, next, rest, whole);
            }
        },
        _ => {},
    }
}

} // verus!
