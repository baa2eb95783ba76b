//! What the writer writes, the parser reads back: the header lines and the
//! body of a response, put behind a request line, are a complete request
//! with exactly those headers and that body.

use crate::constants::{COLON, CR, LF, SP, ZERO};
use crate::request::head::{spec_parse_head, RequestHead, RequestHeadParseError};
use crate::request::headers::{
    spec_all_digits, spec_decimal, spec_digits_value, spec_has_whitespace, spec_header_line,
    spec_header_options, spec_is_stop, spec_is_whitespace, spec_range, spec_scan,
    spec_scan_empty, spec_scan_push, HeaderParseError, HeaderScan, RequestHeaderVec,
};
use crate::request::lines::{spec_advance, spec_cursor_at, spec_line_end, Cursor};
use crate::request::options::{Connection, HeaderOptions};
use crate::request::parser::laws::{lemma_head_prefix, spec_is_prefix};
use crate::request::parser::model::spec_parse_request;
use crate::request::parser::resume::{spec_origin, spec_start};
use crate::request::parser::status::ParserStatusView;
use crate::response::{
    spec_decimal_digits, spec_header_bytes, spec_header_lines, spec_is_content_length,
    spec_length_header, spec_lookup, spec_merged_headers, spec_own_part, spec_static_part,
    spec_written_headers, HeaderBytes,
};
use crate::utils::{lemma_find, lemma_find_unique, spec_ascii_lower, spec_eq_ignore_ascii_case};
use vstd::prelude::*;
use vstd::string::StringSliceAdditionalSpecFns;

verus! {

/// A header can be written and read back: its name holds neither a colon
/// nor whitespace, and its value holds no line feed.
pub open spec fn spec_wire_safe(header: HeaderBytes) -> bool {
    &&& forall|i: int|
        0 <= i < header.0.len() ==> (#[trigger] header.0[i]) != COLON && !spec_is_whitespace(
            header.0[i],
        )
    &&& forall|i: int| 0 <= i < header.1.len() ==> (#[trigger] header.1[i]) != LF
}

/// Every header of the list can be written and read back.
pub open spec fn spec_safe_list(list: Seq<HeaderBytes>) -> bool {
    forall|i: int| 0 <= i < list.len() ==> spec_wire_safe(#[trigger] list[i])
}

/// Some header of the list is named `host`, in any case.
pub open spec fn spec_any_host(list: Seq<HeaderBytes>) -> bool {
    exists|i: int|
        0 <= i < list.len() && spec_eq_ignore_ascii_case(
            (#[trigger] list[i]).0,
            "host".spec_bytes(),
        )
}

/// No header of the list gives the length of the body.
pub open spec fn spec_no_length(list: Seq<HeaderBytes>) -> bool {
    forall|i: int| 0 <= i < list.len() ==> !spec_is_content_length((#[trigger] list[i]).0)
}

/// Number of bytes of a header's line, with its end.
pub open spec fn spec_line_len(header: HeaderBytes) -> int {
    (header.0.len() + 2 + header.1.len() + 2) as int
}

/// The ranges of a header whose line starts at `at`.
pub open spec fn spec_written_range(at: int, header: HeaderBytes) -> RequestHeaderVec {
    (
        (at as usize, (at + header.0.len()) as usize),
        ((at + header.0.len() + 2) as usize, (at + header.0.len() + 2 + header.1.len()) as usize),
    )
}

/// What a scan has gathered after the lines of `list`, which start at
/// `at`, when it had gathered `acc` before them.
pub open spec fn spec_written_scan(at: int, list: Seq<HeaderBytes>, acc: HeaderScan) -> HeaderScan
    decreases list.len(),
{
    if list.len() == 0 {
        acc
    } else {
        spec_written_scan(
            at + spec_line_len(list[0]),
            list.drop_first(),
            spec_scan_push(
                acc,
                spec_line_len(list[0]),
                spec_written_range(at, list[0]),
                spec_header_options(list[0].0, list[0].1)->Some_0,
            ),
        )
    }
}

/// The digits of a number write that number.
pub proof fn lemma_digits_are_read(n: nat)
    requires
        n <= usize::MAX,
    ensures
        spec_decimal(spec_decimal_digits(n)) == Some(n as usize),
        spec_decimal_digits(n).len() > 0,
        forall|i: int|
            0 <= i < spec_decimal_digits(n).len() ==> ZERO <= #[trigger] spec_decimal_digits(n)[i]
                <= 57,
{
    lemma_digits(n);
}

proof fn lemma_digits(n: nat)
    ensures
        spec_decimal_digits(n).len() > 0,
        spec_all_digits(spec_decimal_digits(n)),
        spec_digits_value(spec_decimal_digits(n)) == n,
    decreases n,
{
    let d = spec_decimal_digits(n);
    if n < 10 {
        assert(d.drop_last() =~= Seq::<u8>::empty());
        assert(spec_digits_value(d.drop_last()) == 0);
    } else {
        lemma_digits(n / 10);
        assert(d.drop_last() =~= spec_decimal_digits(n / 10));
    }
}

/// What the three names that the parser knows are made of.
pub proof fn lemma_names()
    ensures
        "Content-Length".spec_bytes().len() == 14,
        "content-length".spec_bytes().len() == 14,
        "host".spec_bytes().len() == 4,
        spec_is_content_length("Content-Length".spec_bytes()),
        forall|i: int|
            0 <= i < 14 ==> (#[trigger] "Content-Length".spec_bytes()[i]) != COLON
                && !spec_is_whitespace("Content-Length".spec_bytes()[i]),
{
    reveal_strlit("Content-Length");
    reveal_strlit("content-length");
    reveal_strlit("host");
    broadcast use vstd::string::is_ascii_spec_bytes;

    assert(vstd::string::is_ascii("Content-Length"));
    assert(vstd::string::is_ascii("content-length"));
    assert(vstd::string::is_ascii("host"));
    let a = "Content-Length".spec_bytes().map_values(|x: u8| spec_ascii_lower(x));
    let b = "content-length".spec_bytes().map_values(|x: u8| spec_ascii_lower(x));
    assert(a =~= b);
}

/// Names that are equal up to case have the same length.
pub proof fn lemma_same_case_same_len(a: Seq<u8>, b: Seq<u8>)
    requires
        spec_eq_ignore_ascii_case(a, b),
    ensures
        a.len() == b.len(),
{
    assert(a.map_values(|x: u8| spec_ascii_lower(x)).len() == a.len());
    assert(b.map_values(|x: u8| spec_ascii_lower(x)).len() == b.len());
}

/// What the parser learns from the header that gives the length of the
/// body.
pub proof fn lemma_length_header(n: nat)
    requires
        n <= usize::MAX,
    ensures
        spec_wire_safe(spec_length_header(n)),
        spec_header_options(spec_length_header(n).0, spec_length_header(n).1) == Some(
            HeaderOptions {
                connection: Connection::KeepAlive,
                content_length: Some(n as usize),
                has_host: false,
            },
        ),
{
    lemma_names();
    lemma_digits_are_read(n);
}

/// What the parser learns from a header that does not give the length of
/// the body: nothing about that length, and a host if the header names
/// one.
pub proof fn lemma_other_header(header: HeaderBytes)
    requires
        !spec_is_content_length(header.0),
    ensures
        spec_header_options(header.0, header.1) matches Some(options) && options.content_length
            is None && options.has_host == spec_eq_ignore_ascii_case(
            header.0,
            "host".spec_bytes(),
        ),
{
}

/// The lines of a list start with the line of its first header.
pub proof fn lemma_header_lines_front(list: Seq<HeaderBytes>)
    requires
        list.len() > 0,
    ensures
        spec_header_lines(list) == spec_header_bytes(list[0]) + spec_header_lines(
            list.drop_first(),
        ),
    decreases list.len(),
{
    if list.len() == 1 {
        assert(list.drop_last() =~= Seq::<HeaderBytes>::empty());
        assert(list.drop_first() =~= Seq::<HeaderBytes>::empty());
        assert(spec_header_lines(list.drop_last()) =~= Seq::<u8>::empty());
        assert(list.last() == list[0]);
        assert(spec_header_lines(list) =~= spec_header_bytes(list[0]));
        assert(spec_header_bytes(list[0]) + Seq::<u8>::empty() =~= spec_header_bytes(list[0]));
    } else {
        lemma_header_lines_front(list.drop_last());
        assert(list.drop_last().drop_first() =~= list.drop_first().drop_last());
        assert(list.drop_last()[0] == list[0]);
        assert(list.drop_first().last() == list.last());
        assert(spec_header_lines(list) =~= spec_header_bytes(list[0]) + (spec_header_lines(
            list.drop_first().drop_last(),
        ) + spec_header_bytes(list.last())));
    }
}

/// One line that was written is one header that is read. Let the line of
/// `header` stand at `at` in `s`. Then a scan at `at` takes that line as a
/// header with the ranges of its name and value, and goes on after it.
pub proof fn lemma_scan_line(s: Seq<u8>, at: int, header: HeaderBytes, acc: HeaderScan)
    requires
        0 <= at,
        at + spec_line_len(header) <= s.len() <= usize::MAX,
        s.subrange(at, at + spec_line_len(header)) == spec_header_bytes(header),
        spec_wire_safe(header),
        spec_header_options(header.0, header.1) is Some,
    ensures
        spec_range(s, spec_written_range(at, header).0) == header.0,
        spec_range(s, spec_written_range(at, header).1) == header.1,
        spec_scan(s, Cursor { pos: at, done: false }, acc) == spec_scan(
            s,
            Cursor { pos: at + spec_line_len(header), done: false },
            spec_scan_push(
                acc,
                spec_line_len(header),
                spec_written_range(at, header),
                spec_header_options(header.0, header.1)->Some_0,
            ),
        ),
{
    let n = header.0.len() as int;
    let v = header.1.len() as int;
    let line = spec_header_bytes(header);
    let end = at + n + 2 + v + 1;
    assert(line.len() == n + 2 + v + 2);
    assert forall|j: int| 0 <= j < line.len() implies s[at + j] == line[j] by {
        assert(s.subrange(at, at + spec_line_len(header))[j] == s[at + j]);
    }
    assert forall|j: int| 0 <= j < n implies line[j] == header.0[j] by {}
    assert(line[n] == COLON);
    assert(line[n + 1] == SP);
    assert forall|j: int| 0 <= j < v implies line[n + 2 + j] == header.1[j] by {}
    assert(line[n + 2 + v] == CR);
    assert(line[n + 2 + v + 1] == LF);
    // the line ends at its line feed
    assert forall|k: int| at <= k < end implies s[k] != LF by {
        let j = k - at;
        assert(s[k] == line[j]);
        if j < n {
            assert(line[j] == header.0[j]);
        } else if n + 2 <= j < n + 2 + v {
            assert(line[j] == header.1[j - n - 2]);
        }
    }
    lemma_find_unique(s, at, LF, end);
    // its name ends at its first colon
    let upto = s.subrange(0, end);
    assert forall|k: int| at <= k < at + n implies upto[k] != COLON by {
        assert(upto[k] == line[k - at]);
        assert(line[k - at] == header.0[k - at]);
    }
    assert(upto[at + n] == COLON);
    lemma_find_unique(upto, at, COLON, at + n);
    assert(s.subrange(at, at + n) =~= header.0);
    assert(s.subrange(at + n + 2, at + n + 2 + v) =~= header.1);
    assert(!spec_has_whitespace(s.subrange(at, at + n)));
    assert(s[at + n + 1] == SP);
    assert(s[end - 1] == CR);
    assert(!spec_is_stop(s, at, end));
    assert(spec_header_line(s, at, end) == Ok::<RequestHeaderVec, HeaderParseError>(
        spec_written_range(at, header),
    ));
    assert(spec_advance(s, Cursor { pos: at, done: false }) == Cursor {
        pos: at + spec_line_len(header),
        done: false,
    });
}

/// Lines that were written are headers that are read. Let the lines of
/// `list` stand at `at` in `s`. Then a scan at `at` comes to the end of
/// those lines with one header for each, whose ranges name the bytes of
/// that header.
pub proof fn lemma_scan_written(s: Seq<u8>, at: int, list: Seq<HeaderBytes>, acc: HeaderScan)
    requires
        0 <= at,
        at + spec_header_lines(list).len() <= s.len() <= usize::MAX,
        s.subrange(at, at + spec_header_lines(list).len()) == spec_header_lines(list),
        spec_safe_list(list),
        forall|i: int|
            0 <= i < list.len() ==> spec_header_options(
                (#[trigger] list[i]).0,
                list[i].1,
            ) is Some,
    ensures
        spec_scan(s, Cursor { pos: at, done: false }, acc) == spec_scan(
            s,
            Cursor { pos: at + spec_header_lines(list).len(), done: false },
            spec_written_scan(at, list, acc),
        ),
        ({
            let read = spec_written_scan(at, list, acc);
            &&& read.size == acc.size + spec_header_lines(list).len()
            &&& read.headers.len() == acc.headers.len() + list.len()
            &&& read.headers.subrange(0, acc.headers.len() as int) == acc.headers
            &&& forall|i: int|
                0 <= i < list.len() ==> spec_range(
                    s,
                    (#[trigger] read.headers[acc.headers.len() + i]).0,
                ) == list[i].0 && spec_range(s, read.headers[acc.headers.len() + i].1)
                    == list[i].1
        }),
    decreases list.len(),
{
    let read = spec_written_scan(at, list, acc);
    if list.len() == 0 {
        assert(read.headers.subrange(0, acc.headers.len() as int) =~= acc.headers);
    } else {
        let first = list[0];
        let rest = list.drop_first();
        let lines = spec_header_lines(list);
        lemma_header_lines_front(list);
        let len = spec_line_len(first);
        assert(spec_header_bytes(first).len() == len);
        assert(s.subrange(at, at + len) =~= spec_header_bytes(first)) by {
            assert forall|j: int| 0 <= j < len implies s.subrange(at, at + len)[j]
                == spec_header_bytes(first)[j] by {
                assert(s.subrange(at, at + lines.len())[j] == lines[j]);
            }
        }
        lemma_scan_line(s, at, first, acc);
        let pushed = spec_scan_push(
            acc,
            len,
            spec_written_range(at, first),
            spec_header_options(first.0, first.1)->Some_0,
        );
        assert(s.subrange(at + len, at + len + spec_header_lines(rest).len())
            =~= spec_header_lines(rest)) by {
            assert forall|j: int| 0 <= j < spec_header_lines(rest).len() implies s.subrange(
                at + len,
                at + len + spec_header_lines(rest).len(),
            )[j] == spec_header_lines(rest)[j] by {
                assert(s.subrange(at, at + lines.len())[len + j] == lines[len + j]);
            }
        }
        assert forall|i: int| 0 <= i < rest.len() implies spec_wire_safe(#[trigger] rest[i])
            && spec_header_options(rest[i].0, rest[i].1) is Some by {
            assert(rest[i] == list[i + 1]);
        }
        lemma_scan_written(s, at + len, rest, pushed);
        assert(read.headers.subrange(0, acc.headers.len() as int) =~= read.headers.subrange(
            0,
            pushed.headers.len() as int,
        ).subrange(0, acc.headers.len() as int));
        assert(pushed.headers.subrange(0, acc.headers.len() as int) =~= acc.headers);
        assert(read.headers[acc.headers.len() as int] == pushed.headers[acc.headers.len() as int]);
        assert forall|i: int| 0 <= i < list.len() implies spec_range(
            s,
            (#[trigger] read.headers[acc.headers.len() + i]).0,
        ) == list[i].0 && spec_range(s, read.headers[acc.headers.len() + i].1) == list[i].1 by {
            if i > 0 {
                assert(read.headers[pushed.headers.len() + (i - 1)] == read.headers[acc.headers.len()
                    + i]);
                assert(rest[i - 1] == list[i]);
            }
        }
    }
}

/// What a scan of written lines learns: it has seen a host if it had
/// before or a header names one, and a length if it had before or a
/// header gives one.
pub proof fn lemma_written_options(at: int, list: Seq<HeaderBytes>, acc: HeaderScan)
    requires
        forall|i: int|
            0 <= i < list.len() ==> spec_header_options(
                (#[trigger] list[i]).0,
                list[i].1,
            ) is Some,
    ensures
        spec_written_scan(at, list, acc).options.has_host == (acc.options.has_host
            || spec_any_host(list)),
        spec_no_length(list) ==> spec_written_scan(at, list, acc).options.content_length
            == acc.options.content_length,
    decreases list.len(),
{
    lemma_names();
    if list.len() > 0 {
        let first = list[0];
        let rest = list.drop_first();
        let found = spec_header_options(first.0, first.1)->Some_0;
        let pushed = spec_scan_push(acc, spec_line_len(first), spec_written_range(at, first), found);
        assert forall|i: int| 0 <= i < rest.len() implies spec_header_options(
            (#[trigger] rest[i]).0,
            rest[i].1,
        ) is Some by {
            assert(rest[i] == list[i + 1]);
        }
        lemma_written_options(at + spec_line_len(first), rest, pushed);
        if spec_is_content_length(first.0) {
            if spec_eq_ignore_ascii_case(first.0, "host".spec_bytes()) {
                lemma_same_case_same_len(first.0, "host".spec_bytes());
                lemma_same_case_same_len(first.0, "content-length".spec_bytes());
            }
        }
        assert(found.has_host == spec_eq_ignore_ascii_case(first.0, "host".spec_bytes()));
        if spec_any_host(list) {
            let i = choose|i: int|
                0 <= i < list.len() && spec_eq_ignore_ascii_case(
                    (#[trigger] list[i]).0,
                    "host".spec_bytes(),
                );
            if i > 0 {
                assert(rest[i - 1] == list[i]);
            }
        }
        if spec_any_host(rest) {
            let i = choose|i: int|
                0 <= i < rest.len() && spec_eq_ignore_ascii_case(
                    (#[trigger] rest[i]).0,
                    "host".spec_bytes(),
                );
            assert(list[i + 1] == rest[i]);
        }
        if spec_no_length(list) {
            assert(!spec_is_content_length(list[0].0));
            assert forall|i: int| 0 <= i < rest.len() implies !spec_is_content_length(
                (#[trigger] rest[i]).0,
            ) by {
                assert(rest[i] == list[i + 1]);
            }
        }
    }
}

/// A scan of written lines, seen from the last line.
pub proof fn lemma_written_scan_last(at: int, list: Seq<HeaderBytes>, acc: HeaderScan)
    requires
        list.len() > 0,
    ensures
        spec_written_scan(at, list, acc) == spec_scan_push(
            spec_written_scan(at, list.drop_last(), acc),
            spec_line_len(list.last()),
            spec_written_range(at + spec_header_lines(list.drop_last()).len(), list.last()),
            spec_header_options(list.last().0, list.last().1)->Some_0,
        ),
    decreases list.len(),
{
    let first = list[0];
    let pushed = spec_scan_push(
        acc,
        spec_line_len(first),
        spec_written_range(at, first),
        spec_header_options(first.0, first.1)->Some_0,
    );
    assert(spec_written_scan(at, list, acc) == spec_written_scan(
        at + spec_line_len(first),
        list.drop_first(),
        pushed,
    ));
    if list.len() == 1 {
        assert(list.drop_last() =~= Seq::<HeaderBytes>::empty());
        assert(list.drop_first() =~= Seq::<HeaderBytes>::empty());
        assert(list.last() == first);
        assert(spec_header_lines(list.drop_last()) =~= Seq::<u8>::empty());
        assert(spec_written_scan(at, list.drop_last(), acc) == acc);
        assert(spec_written_scan(at + spec_line_len(first), list.drop_first(), pushed) == pushed);
    } else {
        let shorter = list.drop_last();
        lemma_written_scan_last(at + spec_line_len(first), list.drop_first(), pushed);
        assert(list.drop_first().drop_last() =~= shorter.drop_first());
        assert(list.drop_first().last() == list.last());
        assert(shorter[0] == first);
        lemma_header_lines_front(shorter);
        assert(spec_header_bytes(first).len() == spec_line_len(first));
        assert(spec_written_scan(at, shorter, acc) == spec_written_scan(
            at + spec_line_len(first),
            shorter.drop_first(),
            pushed,
        ));
        assert(spec_header_lines(shorter).len() == spec_line_len(first) + spec_header_lines(
            shorter.drop_first(),
        ).len());
    }
}

/// What is written is read back. Let `request_line` be a complete request
/// line, `headers` headers that can be written, none of which gives the
/// length of the body and one of which names a host, and `body` any
/// bytes. Write the request line, the lines of the headers, the line of
/// the body's length, an empty line and the body. Then the parser reads a
/// complete request: its headers are, by their bytes, the headers that
/// were written and the length of the body after them, in that order; its
/// body is, byte by byte, the body that was written; and the length it
/// has learned is that of the body.
pub proof fn lemma_written_is_read(
    request_line: Seq<u8>,
    head: RequestHead,
    headers: Seq<HeaderBytes>,
    body: Seq<u8>,
)
    requires
        spec_parse_head(request_line, spec_origin()) == Ok::<
            (usize, RequestHead),
            RequestHeadParseError,
        >((request_line.len() as usize, head)),
        spec_safe_list(headers),
        spec_no_length(headers),
        spec_any_host(headers),
        request_line.len() + spec_header_lines(
            headers.push(spec_length_header(body.len())),
        ).len() + 2 + body.len() <= usize::MAX,
    ensures
        ({
            let written = headers.push(spec_length_header(body.len()));
            let wire = request_line + spec_header_lines(written) + seq![CR, LF] + body;
            &&& spec_parse_request(wire, spec_start()) matches ParserStatusView::Success(read)
            &&& read.buf == wire
            &&& read.head == head
            &&& read.headers.len() == written.len()
            &&& forall|i: int|
                0 <= i < written.len() ==> spec_range(wire, (#[trigger] read.headers[i]).0)
                    == written[i].0 && spec_range(wire, read.headers[i].1) == written[i].1
            &&& spec_range(wire, read.body) == body
            &&& read.header_options.content_length == Some(body.len() as usize)
            &&& read.header_options.has_host
        }),
{
    let n = body.len();
    let last = spec_length_header(n);
    let written = headers.push(last);
    let lines = spec_header_lines(written);
    let wire = request_line + lines + seq![CR, LF] + body;
    let at = request_line.len() as int;
    let stop = at + lines.len();
    lemma_length_header(n);
    // the request line
    assert(spec_is_prefix(request_line, wire)) by {
        assert(wire.subrange(0, request_line.len() as int) =~= request_line);
    }
    lemma_find(request_line, 0, LF);
    lemma_head_prefix(request_line, wire, spec_origin());
    // the header lines
    assert(wire.subrange(at, at + lines.len()) =~= lines);
    assert forall|i: int| 0 <= i < written.len() implies spec_wire_safe(#[trigger] written[i])
        && spec_header_options(written[i].0, written[i].1) is Some by {
        if i < headers.len() {
            assert(written[i] == headers[i]);
            lemma_other_header(headers[i]);
        }
    }
    let empty = spec_scan_empty();
    lemma_scan_written(wire, at, written, empty);
    let read = spec_written_scan(at, written, empty);
    // the empty line stops the scan
    assert(wire[stop] == CR);
    assert(wire[stop + 1] == LF);
    lemma_find_unique(wire, stop, LF, stop + 1);
    assert(spec_is_stop(wire, stop, spec_line_end(wire, stop)));
    assert(spec_scan(wire, Cursor { pos: stop, done: false }, read).0 == Ok::<
        HeaderScan,
        HeaderParseError,
    >(read));
    assert(Cursor { pos: at, done: false } == spec_cursor_at(wire.len(), at));
    // what the scan has learned
    lemma_written_scan_last(at, written, empty);
    assert(written.drop_last() =~= headers);
    assert forall|i: int| 0 <= i < headers.len() implies spec_header_options(
        (#[trigger] headers[i]).0,
        headers[i].1,
    ) is Some by {
        lemma_other_header(headers[i]);
    }
    lemma_written_options(at, headers, empty);
    // the body
    assert(wire.subrange(stop + 2, stop + 2 + n) =~= body);
    assert forall|i: int| 0 <= i < written.len() implies spec_range(
        wire,
        (#[trigger] read.headers[i]).0,
    ) == written[i].0 && spec_range(wire, read.headers[i].1) == written[i].1 by {
        let k = empty.headers.len() + i;
        assert(spec_range(wire, read.headers[k].0) == written[i].0);
    }
}

/// The length that the headers give to the body: the number that the
/// first header writes that is named `content-length`, in any case.
pub open spec fn spec_first_length(list: Seq<HeaderBytes>) -> Option<usize>
    decreases list.len(),
{
    if list.len() == 0 {
        None
    } else if spec_is_content_length(list[0].0) {
        spec_decimal(list[0].1)
    } else {
        spec_first_length(list.drop_first())
    }
}

/// Every header of the list that claims to give the length of the body
/// writes a number.
pub open spec fn spec_lengths_are_numbers(list: Seq<HeaderBytes>) -> bool {
    forall|i: int|
        0 <= i < list.len() ==> spec_header_options((#[trigger] list[i]).0, list[i].1) is Some
}

/// A scan of written lines learns the length that the first of them
/// gives, unless it knew a length before.
pub proof fn lemma_written_length(at: int, list: Seq<HeaderBytes>, acc: HeaderScan)
    requires
        spec_lengths_are_numbers(list),
    ensures
        spec_written_scan(at, list, acc).options.content_length == match acc.options.content_length {
            Some(n) => Some(n),
            None => spec_first_length(list),
        },
    decreases list.len(),
{
    if list.len() > 0 {
        let first = list[0];
        let rest = list.drop_first();
        let found = spec_header_options(first.0, first.1)->Some_0;
        let pushed = spec_scan_push(acc, spec_line_len(first), spec_written_range(at, first), found);
        assert forall|i: int| 0 <= i < rest.len() implies spec_header_options(
            (#[trigger] rest[i]).0,
            rest[i].1,
        ) is Some by {
            assert(rest[i] == list[i + 1]);
        }
        lemma_written_length(at + spec_line_len(first), rest, pushed);
    }
}

/// The bytes of a request that is valid on the wire: a request line, the
/// lines of the headers, an empty line and the body.
pub open spec fn spec_request_bytes(
    request_line: Seq<u8>,
    headers: Seq<HeaderBytes>,
    body: Seq<u8>,
) -> Seq<u8> {
    request_line + spec_header_lines(headers) + seq![CR, LF] + body
}

/// Every request that is valid on the wire is read. Let `request_line` be
/// a complete request line and `headers` headers that can be written, one
/// of which names a host and each of which writes a number if it claims
/// to give the length of the body; and let `body` have the length that
/// the first such header gives, or be empty where none does. Then on the
/// bytes of that request the parser returns a complete request with that
/// buffer: its headers are, by their bytes and in their order, the
/// headers that were sent, and its body is, byte by byte, the body.
pub proof fn lemma_valid_is_read(
    request_line: Seq<u8>,
    head: RequestHead,
    headers: Seq<HeaderBytes>,
    body: Seq<u8>,
)
    requires
        spec_parse_head(request_line, spec_origin()) == Ok::<
            (usize, RequestHead),
            RequestHeadParseError,
        >((request_line.len() as usize, head)),
        spec_safe_list(headers),
        spec_lengths_are_numbers(headers),
        spec_any_host(headers),
        match spec_first_length(headers) {
            Some(n) => body.len() == n,
            None => body.len() == 0,
        },
        spec_request_bytes(request_line, headers, body).len() <= usize::MAX,
    ensures
        ({
            let wire = spec_request_bytes(request_line, headers, body);
            &&& spec_parse_request(wire, spec_start()) matches ParserStatusView::Success(read)
            &&& read.buf == wire
            &&& read.head == head
            &&& read.headers.len() == headers.len()
            &&& forall|i: int|
                0 <= i < headers.len() ==> spec_range(wire, (#[trigger] read.headers[i]).0)
                    == headers[i].0 && spec_range(wire, read.headers[i].1) == headers[i].1
            &&& spec_range(wire, read.body) == body
            &&& read.header_options.content_length == spec_first_length(headers)
            &&& read.header_options.has_host
        }),
{
    let lines = spec_header_lines(headers);
    let wire = spec_request_bytes(request_line, headers, body);
    let at = request_line.len() as int;
    let stop = at + lines.len();
    // the request line
    assert(spec_is_prefix(request_line, wire)) by {
        assert(wire.subrange(0, request_line.len() as int) =~= request_line);
    }
    lemma_find(request_line, 0, LF);
    lemma_head_prefix(request_line, wire, spec_origin());
    // the header lines
    assert(wire.subrange(at, at + lines.len()) =~= lines);
    let empty = spec_scan_empty();
    lemma_scan_written(wire, at, headers, empty);
    let read = spec_written_scan(at, headers, empty);
    // the empty line stops the scan
    assert(wire[stop] == CR);
    assert(wire[stop + 1] == LF);
    lemma_find_unique(wire, stop, LF, stop + 1);
    assert(spec_is_stop(wire, stop, spec_line_end(wire, stop)));
    assert(spec_scan(wire, Cursor { pos: stop, done: false }, read).0 == Ok::<
        HeaderScan,
        HeaderParseError,
    >(read));
    assert(Cursor { pos: at, done: false } == spec_cursor_at(wire.len(), at));
    // what the scan has learned
    lemma_written_options(at, headers, empty);
    lemma_written_length(at, headers, empty);
    // the body
    assert(wire.subrange(stop + 2, stop + 2 + body.len()) =~= body);
    if spec_first_length(headers) is None {
        assert(wire.subrange(stop, stop) =~= body);
    }
    assert forall|i: int| 0 <= i < headers.len() implies spec_range(
        wire,
        (#[trigger] read.headers[i]).0,
    ) == headers[i].0 && spec_range(wire, read.headers[i].1) == headers[i].1 by {
        let k = empty.headers.len() + i;
        assert(spec_range(wire, read.headers[k].0) == headers[i].0);
    }
}

/// The value that a lookup finds is the value of a header of the list.
pub proof fn lemma_lookup_is_member(list: Seq<HeaderBytes>, key: Seq<u8>)
    ensures
        spec_lookup(list, key) matches Some(value) ==> exists|i: int|
            0 <= i < list.len() && (#[trigger] list[i]).1 == value,
    decreases list.len(),
{
    if list.len() > 0 && !spec_eq_ignore_ascii_case(list[0].0, key) {
        lemma_lookup_is_member(list.drop_first(), key);
        if spec_lookup(list, key) is Some {
            let i = choose|i: int|
                0 <= i < list.drop_first().len() && (#[trigger] list.drop_first()[i]).1
                    == spec_lookup(list, key)->Some_0;
            assert(list[i + 1] == list.drop_first()[i]);
        }
    }
}

/// Headers that can be written are merged into headers that can be
/// written, none of which gives the length of the body.
pub proof fn lemma_merged_is_safe(statics: Seq<HeaderBytes>, own: Seq<HeaderBytes>)
    requires
        spec_safe_list(statics),
        spec_safe_list(own),
    ensures
        spec_safe_list(spec_merged_headers(statics, own)),
        spec_no_length(spec_merged_headers(statics, own)),
{
    lemma_static_part_is_safe(statics, own);
    lemma_own_part_is_safe(statics, own);
}

proof fn lemma_static_part_is_safe(statics: Seq<HeaderBytes>, own: Seq<HeaderBytes>)
    requires
        spec_safe_list(statics),
        spec_safe_list(own),
    ensures
        spec_safe_list(spec_static_part(statics, own)),
        spec_no_length(spec_static_part(statics, own)),
    decreases statics.len(),
{
    if statics.len() > 0 {
        let before = statics.drop_last();
        assert forall|i: int| 0 <= i < before.len() implies spec_wire_safe(#[trigger] before[i]) by {
            assert(before[i] == statics[i]);
        }
        lemma_static_part_is_safe(before, own);
        let (key, value) = statics.last();
        assert(spec_wire_safe(statics[statics.len() - 1]));
        lemma_lookup_is_member(own, key);
        if spec_lookup(own, key) is Some {
            let i = choose|i: int|
                0 <= i < own.len() && (#[trigger] own[i]).1 == spec_lookup(own, key)->Some_0;
            assert(spec_wire_safe(own[i]));
        }
    }
}

proof fn lemma_own_part_is_safe(statics: Seq<HeaderBytes>, own: Seq<HeaderBytes>)
    requires
        spec_safe_list(own),
    ensures
        spec_safe_list(spec_own_part(statics, own)),
        spec_no_length(spec_own_part(statics, own)),
    decreases own.len(),
{
    if own.len() > 0 {
        let before = own.drop_last();
        assert forall|i: int| 0 <= i < before.len() implies spec_wire_safe(#[trigger] before[i]) by {
            assert(before[i] == own[i]);
        }
        lemma_own_part_is_safe(statics, before);
        assert(spec_wire_safe(own[own.len() - 1]));
    }
}

/// The round trip of a response. Let a response be written with the
/// server's headers, all of them headers that can be written, so that
/// some header that is written names a host; and let a complete request
/// line stand where the status line stood. Then the parser reads a
/// complete request whose headers are, by their bytes and in their order,
/// the headers that were written, and whose body is the body of the
/// response.
pub proof fn lemma_response_is_read(
    request_line: Seq<u8>,
    head: RequestHead,
    statics: Seq<HeaderBytes>,
    own: Seq<HeaderBytes>,
    body: Seq<u8>,
)
    requires
        spec_parse_head(request_line, spec_origin()) == Ok::<
            (usize, RequestHead),
            RequestHeadParseError,
        >((request_line.len() as usize, head)),
        spec_safe_list(statics),
        spec_safe_list(own),
        spec_any_host(spec_merged_headers(statics, own)),
        request_line.len() + crate::response::spec_headers_buf(body.len(), statics, own).len() + 2
            + body.len() <= usize::MAX,
    ensures
        ({
            let written = spec_written_headers(body.len(), statics, own);
            let wire = request_line + crate::response::spec_headers_buf(body.len(), statics, own)
                + seq![CR, LF] + body;
            &&& spec_parse_request(wire, spec_start()) matches ParserStatusView::Success(read)
            &&& read.headers.len() == written.len()
            &&& forall|i: int|
                0 <= i < written.len() ==> spec_range(wire, (#[trigger] read.headers[i]).0)
                    == written[i].0 && spec_range(wire, read.headers[i].1) == written[i].1
            &&& spec_range(wire, read.body) == body
        }),
{
    lemma_merged_is_safe(statics, own);
    lemma_written_is_read(request_line, head, spec_merged_headers(statics, own), body);
}

} // verus!
