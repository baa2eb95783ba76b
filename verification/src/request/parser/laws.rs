//! Lemmas on reading the request line and header lines: how a scan is
//! shaped, and how it behaves when the buffer is cut or grows.

use crate::constants::{COLON, LF, SP};
use crate::request::head::{
    lemma_parse_head_valid, spec_parse_head, RequestHead, RequestHeadParseError,
};
use crate::request::headers::{
    spec_header_line, spec_header_options, spec_is_stop, spec_range, spec_scan, spec_scan_empty,
    spec_scan_push, HeaderParseError, HeaderScan,
};
use crate::request::lines::{spec_advance, spec_line_end, Cursor};
use crate::request::options::{lemma_merge_assoc, lemma_merge_default};
use crate::utils::{lemma_find, lemma_find_prefix, lemma_find_unique, spec_find};
use vstd::prelude::*;

verus! {

/// `p` is what `s` starts with.
pub open spec fn spec_is_prefix(p: Seq<u8>, s: Seq<u8>) -> bool {
    p.len() <= s.len() && s.subrange(0, p.len() as int) == p
}

/// A buffer and what it starts with agree on every part of the latter.
pub proof fn lemma_prefix_parts(p: Seq<u8>, s: Seq<u8>)
    requires
        spec_is_prefix(p, s),
    ensures
        forall|i: int| 0 <= i < p.len() ==> p[i] == s[i],
        forall|a: int, b: int|
            0 <= a <= b <= p.len() ==> #[trigger] s.subrange(a, b) == p.subrange(a, b),
{
    assert forall|i: int| 0 <= i < p.len() implies p[i] == s[i] by {
        assert(s.subrange(0, p.len() as int)[i] == s[i]);
    }
    assert forall|a: int, b: int| 0 <= a <= b <= p.len() implies #[trigger] s.subrange(a, b)
        == p.subrange(a, b) by {
        assert(s.subrange(a, b) =~= p.subrange(a, b));
    }
}

/// The search for a byte inside `s[..end)` does not depend on what lies
/// at or beyond `end`.
pub proof fn lemma_find_in_prefix(p: Seq<u8>, s: Seq<u8>, end: int, from: int, needle: u8)
    requires
        spec_is_prefix(p, s),
        0 <= from <= end <= p.len(),
    ensures
        spec_find(s.subrange(0, end), from, needle) == spec_find(p.subrange(0, end), from, needle),
{
    lemma_prefix_parts(p, s);
}

/// The shape of a scan that succeeds from a cursor with segments left: it
/// keeps what was gathered before, adds headers that lie between the
/// cursor and the segment that stopped it, counts exactly the bytes up to
/// that segment, and leaves the cursor after that segment.
pub proof fn lemma_scan_shape(s: Seq<u8>, c: Cursor, acc: HeaderScan)
    requires
        0 <= c.pos <= s.len() <= usize::MAX,
        !c.done,
    ensures
        spec_scan(s, c, acc).0 matches Ok(scan) ==> {
            let stop = c.pos + (scan.size - acc.size);
            &&& c.pos <= stop <= s.len()
            &&& scan.headers.len() >= acc.headers.len()
            &&& scan.headers.subrange(0, acc.headers.len() as int) == acc.headers
            &&& forall|i: int|
                acc.headers.len() <= i < scan.headers.len() ==> {
                    let h = #[trigger] scan.headers[i];
                    c.pos <= h.0.0 <= h.0.1 < h.1.0 <= h.1.1 < stop
                }
            &&& spec_is_stop(s, stop, spec_line_end(s, stop))
            &&& spec_scan(s, c, acc).1 == spec_advance(s, Cursor { pos: stop, done: false })
            &&& if spec_is_stop(s, c.pos, spec_line_end(s, c.pos)) {
                scan == acc
            } else {
                scan.headers.len() > acc.headers.len() && c.pos < stop
            }
        },
    decreases s.len() - c.pos,
{
    let end = spec_line_end(s, c.pos);
    let next = spec_advance(s, c);
    lemma_find(s, c.pos, LF);
    if spec_is_stop(s, c.pos, end) {
        assert(acc.headers.subrange(0, acc.headers.len() as int) =~= acc.headers);
    } else if end >= s.len() {
    } else {
        match spec_header_line(s, c.pos, end) {
            Err(e) => {},
            Ok(header) => {
                lemma_find(s.subrange(0, end), c.pos, COLON);
                match spec_header_options(spec_range(s, header.0), spec_range(s, header.1)) {
                    None => {},
                    Some(options) => {
                        let pushed = spec_scan_push(acc, end - c.pos + 1, header, options);
                        lemma_scan_shape(s, next, pushed);
                        if spec_scan(s, c, acc).0 is Ok {
                            let scan = spec_scan(s, c, acc).0->Ok_0;
                            assert(scan.headers.subrange(0, acc.headers.len() as int)
                                =~= scan.headers.subrange(
                                0,
                                pushed.headers.len() as int,
                            ).subrange(0, acc.headers.len() as int));
                            assert(pushed.headers.subrange(0, acc.headers.len() as int)
                                =~= acc.headers);
                            assert(scan.headers[acc.headers.len() as int]
                                == pushed.headers[acc.headers.len() as int]);
                        }
                    },
                }
            },
        }
    }
}

/// What was gathered before a scan, with what the scan adds to nothing.
pub open spec fn spec_scan_join(acc: HeaderScan, more: HeaderScan) -> HeaderScan {
    HeaderScan {
        size: acc.size + more.size,
        headers: acc.headers + more.headers,
        options: acc.options.spec_merge(more.options),
    }
}

/// A scan does not look at what was gathered before it: it ends at the
/// same place in the same way, and what it returns is the earlier part
/// joined with what it would add to nothing.
pub proof fn lemma_scan_join(s: Seq<u8>, c: Cursor, acc: HeaderScan)
    requires
        0 <= c.pos <= s.len(),
    ensures
        spec_scan(s, c, acc).1 == spec_scan(s, c, spec_scan_empty()).1,
        match spec_scan(s, c, spec_scan_empty()).0 {
            Ok(more) => spec_scan(s, c, acc).0 == Ok::<HeaderScan, HeaderParseError>(spec_scan_join(acc, more)),
            Err(e) => spec_scan(s, c, acc).0 == Err::<HeaderScan, HeaderParseError>(e),
        },
    decreases s.len() - c.pos,
{
    let empty = spec_scan_empty();
    let end = spec_line_end(s, c.pos);
    let next = spec_advance(s, c);
    lemma_find(s, c.pos, LF);
    lemma_merge_default(acc.options);
    if c.done || spec_is_stop(s, c.pos, end) {
        assert(spec_scan_join(acc, empty).headers =~= acc.headers);
    } else if end >= s.len() {
    } else {
        match spec_header_line(s, c.pos, end) {
            Err(e) => {},
            Ok(header) => match spec_header_options(
                spec_range(s, header.0),
                spec_range(s, header.1),
            ) {
                None => {},
                Some(options) => {
                    let size = end - c.pos + 1;
                    let one = spec_scan_push(empty, size, header, options);
                    let pushed = spec_scan_push(acc, size, header, options);
                    lemma_scan_join(s, next, one);
                    lemma_scan_join(s, next, pushed);
                    lemma_merge_default(options);
                    match spec_scan(s, next, empty).0 {
                        Err(e) => {},
                        Ok(rest) => {
                            let more = spec_scan_join(one, rest);
                            lemma_merge_assoc(acc.options, options, rest.options);
                            assert(spec_scan_join(acc, more).headers =~= spec_scan_join(
                                pushed,
                                rest,
                            ).headers);
                            assert(spec_scan_join(acc, more) == spec_scan_join(pushed, rest));
                        },
                    }
                },
            }
        }
    }
}

/// A line that ends in a line feed reads the same in every buffer that
/// starts with the one it was read in.
pub proof fn lemma_header_line_prefix(p: Seq<u8>, s: Seq<u8>, start: int, end: int)
    requires
        spec_is_prefix(p, s),
        0 <= start <= end < p.len(),
        s.len() <= usize::MAX,
    ensures
        spec_header_line(s, start, end) == spec_header_line(p, start, end),
        spec_is_stop(s, start, end) == spec_is_stop(p, start, end),
        spec_header_line(p, start, end) matches Ok(header) ==> spec_range(s, header.0)
            == spec_range(p, header.0) && spec_range(s, header.1) == spec_range(p, header.1),
{
    lemma_prefix_parts(p, s);
    lemma_find_in_prefix(p, s, end, start, COLON);
    lemma_find(p.subrange(0, end), start, COLON);
    let colon = spec_find(p.subrange(0, end), start, COLON);
    if spec_header_line(p, start, end) is Ok {
        assert(s.subrange(start, colon) == p.subrange(start, colon));
        assert(s.subrange(colon + 2, end - 1) == p.subrange(colon + 2, end - 1));
    }
}

/// How a scan of a buffer goes on in a longer buffer that starts with it.
/// Where the scan ended at a segment with its line feed, it is the same
/// scan. Where it succeeded at the last segment, the scan of the longer
/// buffer has gathered the same when it comes to that segment's offset.
pub proof fn lemma_scan_extend(p: Seq<u8>, s: Seq<u8>, c: Cursor, acc: HeaderScan)
    requires
        spec_is_prefix(p, s),
        0 <= c.pos <= p.len(),
        s.len() <= usize::MAX,
        !c.done,
    ensures
        !spec_scan(p, c, acc).1.done ==> spec_scan(s, c, acc) == spec_scan(p, c, acc),
        spec_scan(p, c, acc).1.done ==> (spec_scan(p, c, acc).0 matches Ok(scan) ==> spec_scan(
            s,
            c,
            acc,
        ) == spec_scan(s, Cursor { pos: c.pos + (scan.size - acc.size), done: false }, scan)),
    decreases p.len() - c.pos,
{
    let end = spec_line_end(p, c.pos);
    lemma_find(p, c.pos, LF);
    lemma_prefix_parts(p, s);
    if end >= p.len() {
        // the last segment of `p`: a stop, or an unfinished line
        if spec_is_stop(p, c.pos, end) {
            assert(spec_scan(p, c, acc).0 == Ok::<HeaderScan, HeaderParseError>(acc));
        }
    } else {
        lemma_find_prefix(p, s, c.pos, LF);
        lemma_header_line_prefix(p, s, c.pos, end);
        let next = spec_advance(p, c);
        assert(next == spec_advance(s, c));
        if spec_is_stop(p, c.pos, end) {
        } else {
            match spec_header_line(p, c.pos, end) {
                Err(e) => {},
                Ok(header) => match spec_header_options(
                    spec_range(p, header.0),
                    spec_range(p, header.1),
                ) {
                    None => {},
                    Some(options) => {
                        let pushed = spec_scan_push(acc, end - c.pos + 1, header, options);
                        lemma_scan_extend(p, s, next, pushed);
                    },
                },
            }
        }
    }
}

/// A scan that succeeds reads nothing beyond the segment that stopped it:
/// cut there, the buffer gives the same headers.
pub proof fn lemma_scan_cut(s: Seq<u8>, c: Cursor, acc: HeaderScan)
    requires
        0 <= c.pos <= s.len() <= usize::MAX,
        !c.done,
        spec_scan(s, c, acc).0 is Ok,
    ensures
        ({
            let scan = spec_scan(s, c, acc).0->Ok_0;
            let stop = c.pos + (scan.size - acc.size);
            &&& c.pos <= stop <= s.len()
            &&& spec_scan(s.subrange(0, stop), c, acc).0 == Ok::<HeaderScan, HeaderParseError>(scan)
        }),
    decreases s.len() - c.pos,
{
    let scan = spec_scan(s, c, acc).0->Ok_0;
    let stop = c.pos + (scan.size - acc.size);
    lemma_scan_shape(s, c, acc);
    let t = s.subrange(0, stop);
    assert(spec_is_prefix(t, s)) by {
        assert(s.subrange(0, t.len() as int) =~= t);
    }
    let end = spec_line_end(s, c.pos);
    lemma_find(s, c.pos, LF);
    if spec_is_stop(s, c.pos, end) {
        assert(stop == c.pos);
        lemma_find(t, c.pos, LF);
    } else {
        // the first line is a header that ends before the stop
        let header = spec_header_line(s, c.pos, end)->Ok_0;
        let options = spec_header_options(spec_range(s, header.0), spec_range(s, header.1))->Some_0;
        let pushed = spec_scan_push(acc, end - c.pos + 1, header, options);
        let next = spec_advance(s, c);
        lemma_scan_shape(s, next, pushed);
        lemma_scan_cut(s, next, pushed);
        assert(end < stop);
        lemma_prefix_parts(t, s);
        lemma_find_unique(t, c.pos, LF, end);
        lemma_header_line_prefix(t, s, c.pos, end);
        assert(spec_advance(t, c) == next);
    }
}

/// The request line reads the same in every buffer that starts with one
/// in which it ends in a line feed.
pub proof fn lemma_head_prefix(p: Seq<u8>, s: Seq<u8>, c: Cursor)
    requires
        spec_is_prefix(p, s),
        0 <= c.pos <= p.len(),
        !c.done,
        spec_line_end(p, c.pos) < p.len(),
    ensures
        spec_parse_head(s, c) == spec_parse_head(p, c),
{
    let end = spec_line_end(p, c.pos);
    lemma_find(p, c.pos, LF);
    lemma_find_prefix(p, s, c.pos, LF);
    lemma_prefix_parts(p, s);
    lemma_find_in_prefix(p, s, end, c.pos, SP);
    let line = p.subrange(0, end);
    lemma_find(line, c.pos, SP);
    let s1 = spec_find(line, c.pos, SP);
    if s1 < end {
        lemma_find(line, s1 + 1, SP);
    }
}

/// A request line that was read is still read when the buffer is cut
/// right after its line feed.
pub proof fn lemma_head_cut(s: Seq<u8>, size: usize, head: RequestHead)
    requires
        s.len() <= usize::MAX,
        spec_parse_head(s, Cursor { pos: 0, done: false }) == Ok::<(usize, RequestHead), RequestHeadParseError>(
            (size, head),
        ),
    ensures
        size <= s.len(),
        size == head.spec_line_after(),
        head.spec_valid(s),
        spec_parse_head(s.subrange(0, size as int), Cursor { pos: 0, done: false }) == Ok::<
            (usize, RequestHead),
            RequestHeadParseError,
        >((size, head)),
{
    let start = Cursor { pos: 0, done: false };
    lemma_parse_head_valid(s, start);
    let t = s.subrange(0, size as int);
    assert(spec_is_prefix(t, s)) by {
        assert(s.subrange(0, t.len() as int) =~= t);
    }
    lemma_find(s, 0, LF);
    lemma_prefix_parts(t, s);
    lemma_find_unique(t, 0, LF, size - 1);
    lemma_head_prefix(t, s, start);
}

} // verus!
