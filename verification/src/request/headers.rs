//! Header lines: `name ":" SP value CR LF`, one after the other, up to an
//! empty line.

use crate::constants::{COLON, CR, FF, HT, LF, NINE, PLUS, SEMICOLON, SP, ZERO};
use crate::request::lines::{spec_advance, spec_line_end, Cursor, Lines};
use crate::request::options::{Connection, HeaderOptions};
use crate::request::VecOffset;
use crate::utils::{
    eq_ignore_ascii_case, find_byte, lemma_find, slice_of, spec_eq_ignore_ascii_case, spec_find,
};
use vstd::prelude::*;
use vstd::string::StringSliceAdditionalSpecFns;

verus! {

/// The headers of a request in the order of their lines.
pub type RequestHeaders = Vec<RequestHeaderVec>;

/// One header: the range of its name and the range of its value.
pub type RequestHeaderVec = (VecOffset, VecOffset);

/// Why a run of header lines could not be read.
#[derive(Debug, Clone, Copy, PartialEq, Eq, Structural)]
pub enum HeaderParseError {
    /// A line is not finished yet, or no header line is there at all.
    Incomplete,
    /// A line can never become a header, whatever follows.
    Invalid,
}

/// What a run of header lines gave.
#[derive(Debug)]
pub struct HeaderParserResult {
    /// Bytes that the header lines take, line feeds included. The line
    /// that stopped the run is not counted.
    pub size: usize,
    pub headers: RequestHeaders,
    pub options: HeaderOptions,
}

/// A `HeaderParserResult` as a mathematical value.
pub struct HeaderScan {
    pub size: int,
    pub headers: Seq<RequestHeaderVec>,
    pub options: HeaderOptions,
}

impl View for HeaderParserResult {
    type V = HeaderScan;

    open spec fn view(&self) -> HeaderScan {
        HeaderScan { size: self.size as int, headers: self.headers@, options: self.options }
    }
}

/// Space, tab, line feed, form feed or carriage return.
pub open spec fn spec_is_whitespace(b: u8) -> bool {
    b == SP || b == HT || b == LF || b == FF || b == CR
}

/// Some byte of `bytes` is whitespace.
pub open spec fn spec_has_whitespace(bytes: Seq<u8>) -> bool {
    exists|i: int| 0 <= i < bytes.len() && spec_is_whitespace(#[trigger] bytes[i])
}

/// Every byte of `d` is a decimal digit.
pub open spec fn spec_all_digits(d: Seq<u8>) -> bool {
    forall|i: int| 0 <= i < d.len() ==> ZERO <= #[trigger] d[i] <= NINE
}

/// The number that the decimal digits `d` write.
pub open spec fn spec_digits_value(d: Seq<u8>) -> nat
    decreases d.len(),
{
    if d.len() == 0 {
        0
    } else {
        spec_digits_value(d.drop_last()) * 10 + (d.last() - ZERO) as nat
    }
}

/// The length that `bytes` write: one or more decimal digits, after an
/// optional plus sign, of a number that fits the machine word.
pub open spec fn spec_decimal(bytes: Seq<u8>) -> Option<usize> {
    let d = if bytes.len() > 0 && bytes[0] == PLUS {
        bytes.subrange(1, bytes.len() as int)
    } else {
        bytes
    };
    if d.len() == 0 || !spec_all_digits(d) || spec_digits_value(d) > usize::MAX {
        None
    } else {
        Some(spec_digits_value(d) as usize)
    }
}

/// A `Connection` value that asks to close: `close` in any case, alone or
/// followed by `;` and parameters.
pub open spec fn spec_is_close(value: Seq<u8>) -> bool {
    let token = "close".spec_bytes();
    &&& value.len() >= token.len()
    &&& spec_eq_ignore_ascii_case(value.subrange(0, token.len() as int), token)
    &&& (value.len() == token.len() || value[token.len() as int] == SEMICOLON)
}

/// The header that the line `s[start..end)` holds, which ends in a line
/// feed at `end`: the name up to the first colon, then a space, the value
/// and a carriage return.
pub open spec fn spec_header_line(s: Seq<u8>, start: int, end: int) -> Result<
    RequestHeaderVec,
    HeaderParseError,
> {
    let colon = spec_find(s.subrange(0, end), start, COLON);
    if colon >= end {
        Err(HeaderParseError::Incomplete)
    } else if spec_has_whitespace(s.subrange(start, colon)) {
        Err(HeaderParseError::Invalid)
    } else if colon + 1 >= end || s[colon + 1] != SP {
        Err(HeaderParseError::Invalid)
    } else if s[end - 1] != CR {
        Err(HeaderParseError::Incomplete)
    } else {
        Ok(((start as usize, colon as usize), ((colon + 2) as usize, (end - 1) as usize)))
    }
}

/// What one header says about the request, or `None` where it claims to
/// give the length of the body and does not write a number. Names are
/// matched in any case.
pub open spec fn spec_header_options(name: Seq<u8>, value: Seq<u8>) -> Option<HeaderOptions> {
    if spec_eq_ignore_ascii_case(name, "content-length".spec_bytes()) {
        match spec_decimal(value) {
            None => None,
            Some(n) => Some(
                HeaderOptions {
                    connection: Connection::KeepAlive,
                    content_length: Some(n),
                    has_host: false,
                },
            ),
        }
    } else {
        Some(
            HeaderOptions {
                connection: if spec_eq_ignore_ascii_case(name, "connection".spec_bytes())
                    && spec_is_close(value) {
                    Connection::Close
                } else {
                    Connection::KeepAlive
                },
                content_length: None,
                has_host: spec_eq_ignore_ascii_case(name, "host".spec_bytes()),
            },
        )
    }
}

/// The segment `s[start..end)` stops a run of header lines: it is empty or
/// a lone carriage return.
pub open spec fn spec_is_stop(s: Seq<u8>, start: int, end: int) -> bool {
    end == start || (end == start + 1 && s[start] == CR)
}

/// `acc` with one more header.
pub open spec fn spec_scan_push(
    acc: HeaderScan,
    line_size: int,
    header: RequestHeaderVec,
    options: HeaderOptions,
) -> HeaderScan {
    HeaderScan {
        size: acc.size + line_size,
        headers: acc.headers.push(header),
        options: acc.options.spec_merge(options),
    }
}

/// The bytes of `s` that a range names.
pub open spec fn spec_range(s: Seq<u8>, range: VecOffset) -> Seq<u8> {
    s.subrange(range.0 as int, range.1 as int)
}

/// Reads header lines from the cursor on, adding them to `acc`, until a
/// segment stops the run or a line fails. Gives what was gathered, or the
/// failure, and the cursor after the last segment that was looked at.
///
/// Only lines that end in a line feed become headers: a last segment
/// without one stops the run if it is empty or a lone carriage return, and
/// is an unfinished line otherwise.
pub open spec fn spec_scan(s: Seq<u8>, c: Cursor, acc: HeaderScan) -> (Result<
    HeaderScan,
    HeaderParseError,
>, Cursor)
    decreases s.len() - c.pos,
{
    let end = spec_line_end(s, c.pos);
    let next = spec_advance(s, c);
    if c.done || c.pos < 0 {
        (Ok(acc), c)
    } else if spec_is_stop(s, c.pos, end) {
        (Ok(acc), next)
    } else if end >= s.len() {
        (Err(HeaderParseError::Incomplete), next)
    } else {
        match spec_header_line(s, c.pos, end) {
            Err(e) => (Err(e), next),
            Ok(header) => match spec_header_options(
                spec_range(s, header.0),
                spec_range(s, header.1),
            ) {
                None => (Err(HeaderParseError::Invalid), next),
                Some(options) => {
                    proof {
                        lemma_find(s, c.pos, LF);
                    }
                    spec_scan(s, next, spec_scan_push(acc, end - c.pos + 1, header, options))
                },
            },
        }
    }
}

/// A scan that has gathered nothing.
pub open spec fn spec_scan_empty() -> HeaderScan {
    HeaderScan { size: 0, headers: Seq::empty(), options: HeaderOptions::spec_default() }
}

/// What `parse_headers` gives at the cursor: the headers of the run of
/// lines that starts there, or why there are none, and the cursor after
/// the run. A run without any header is incomplete.
pub open spec fn spec_parse_headers(s: Seq<u8>, c: Cursor) -> (Result<
    HeaderScan,
    HeaderParseError,
>, Cursor) {
    let (result, after) = spec_scan(s, c, spec_scan_empty());
    match result {
        Ok(scan) => if scan.headers.len() == 0 {
            (Err(HeaderParseError::Incomplete), after)
        } else {
            (Ok(scan), after)
        },
        Err(e) => (Err(e), after),
    }
}

/// A number never gets smaller when digits are appended.
pub proof fn lemma_digits_value_monotonic(d: Seq<u8>, k: int)
    requires
        0 <= k <= d.len(),
    ensures
        spec_digits_value(d.subrange(0, k)) <= spec_digits_value(d),
    decreases d.len() - k,
{
    if k < d.len() {
        lemma_digits_value_monotonic(d, k + 1);
        assert(d.subrange(0, k + 1).drop_last() =~= d.subrange(0, k));
    } else {
        assert(d.subrange(0, k) =~= d);
    }
}

/// Reads a length as `spec_decimal` defines it.
pub fn parse_decimal(bytes: &[u8]) -> (r: Option<usize>)
    ensures
        r == spec_decimal(bytes@),
{
    let n: usize = bytes.len();
    let start: usize = if n > 0 && bytes[0] == PLUS {
        1
    } else {
        0
    };
    let ghost d = bytes@.subrange(start as int, n as int);
    assert(start == 0 ==> d =~= bytes@);
    if start >= n {
        return None;
    }
    let mut value: usize = 0;
    let mut i: usize = start;
    assert(d.subrange(0, 0) =~= Seq::<u8>::empty());
    while i < n
        invariant
            start <= i <= n,
            n == bytes@.len(),
            d == bytes@.subrange(start as int, n as int),
            d == if bytes@.len() > 0 && bytes@[0] == PLUS {
                bytes@.subrange(1, bytes@.len() as int)
            } else {
                bytes@
            },
            forall|k: int| 0 <= k < i - start ==> ZERO <= #[trigger] d[k] <= NINE,
            value == spec_digits_value(d.subrange(0, i - start)),
        decreases n - i,
    {
        let x: u8 = bytes[i];
        assert(x == d[i - start]);
        if x < ZERO || x > NINE {
            assert(!spec_all_digits(d));
            return None;
        }
        let digit: usize = (x - ZERO) as usize;
        assert(d.subrange(0, i - start + 1).drop_last() =~= d.subrange(0, i - start));
        if value > (usize::MAX - digit) / 10 {
            proof {
                let longer = d.subrange(0, i - start + 1);
                assert(longer.last() == x);
                assert(spec_digits_value(longer) == value * 10 + digit);
                lemma_digits_value_monotonic(d, i - start + 1);
            }
            return None;
        }
        proof {
            let longer = d.subrange(0, i - start + 1);
            assert(longer.last() == x);
            assert(spec_digits_value(longer) == value * 10 + digit);
        }
        value = value * 10 + digit;
        i += 1;
    }
    assert(d.subrange(0, n - start) =~= d);
    Some(value)
}

/// Whether a `Connection` value asks to close.
pub fn is_close(value: &[u8]) -> (r: bool)
    ensures
        r == spec_is_close(value@),
{
    let token = "close".as_bytes();
    let n: usize = token.len();
    if value.len() < n {
        return false;
    }
    if !eq_ignore_ascii_case(slice_of(value, (0, n)), token) {
        return false;
    }
    value.len() == n || value[n] == SEMICOLON
}

/// Whether `buf[start..end)` holds whitespace.
pub fn has_whitespace(buf: &[u8], start: usize, end: usize) -> (r: bool)
    requires
        start <= end <= buf@.len(),
    ensures
        r == spec_has_whitespace(buf@.subrange(start as int, end as int)),
{
    let ghost part = buf@.subrange(start as int, end as int);
    let mut i: usize = start;
    while i < end
        invariant
            start <= i <= end <= buf@.len(),
            part == buf@.subrange(start as int, end as int),
            forall|k: int| 0 <= k < i - start ==> !spec_is_whitespace(#[trigger] part[k]),
        decreases end - i,
    {
        let b: u8 = buf[i];
        if b == SP || b == HT || b == LF || b == FF || b == CR {
            assert(spec_is_whitespace(part[i - start]));
            return true;
        }
        i += 1;
    }
    false
}

/// What one header says about the request.
pub fn header_options(name: &[u8], value: &[u8]) -> (r: Option<HeaderOptions>)
    ensures
        r == spec_header_options(name@, value@),
{
    if eq_ignore_ascii_case(name, "content-length".as_bytes()) {
        match parse_decimal(value) {
            None => None,
            Some(n) => Some(
                HeaderOptions {
                    connection: Connection::KeepAlive,
                    content_length: Some(n),
                    has_host: false,
                },
            ),
        }
    } else {
        let close = eq_ignore_ascii_case(name, "connection".as_bytes()) && is_close(value);
        let has_host = eq_ignore_ascii_case(name, "host".as_bytes());
        Some(
            HeaderOptions {
                connection: if close {
                    Connection::Close
                } else {
                    Connection::KeepAlive
                },
                content_length: None,
                has_host,
            },
        )
    }
}

/// Reads the header that the line `buf[start..end)` holds.
pub fn header_line(buf: &[u8], start: usize, end: usize) -> (r: Result<
    RequestHeaderVec,
    HeaderParseError,
>)
    requires
        start <= end < buf@.len(),
    ensures
        r == spec_header_line(buf@, start as int, end as int),
        r matches Ok(header) ==> start == header.0.0 <= header.0.1 < header.1.0 <= header.1.1 < end,
{
    let colon: usize = find_byte(buf, start, end, COLON);
    if colon >= end {
        return Err(HeaderParseError::Incomplete);
    }
    if has_whitespace(buf, start, colon) {
        return Err(HeaderParseError::Invalid);
    }
    if colon + 1 >= end || buf[colon + 1] != SP {
        return Err(HeaderParseError::Invalid);
    }
    if buf[end - 1] != CR {
        return Err(HeaderParseError::Incomplete);
    }
    Ok(((start, colon), (colon + 2, end - 1)))
}

/// Reads runs of header lines.
pub struct HeaderParser;

impl HeaderParser {
    /// Reads header lines from `lines`, which walks `buf`, up to and with
    /// the segment that stops the run.
    pub fn parse_headers<'a>(buf: &'a [u8], lines: &mut Lines<'a>) -> (r: Result<
        HeaderParserResult,
        HeaderParseError,
    >)
        requires
            old(lines).source() == buf@,
        ensures
            final(lines).source() == buf@,
            final(lines).cursor() == spec_parse_headers(buf@, old(lines).cursor()).1,
            match r {
                Ok(found) => spec_parse_headers(buf@, old(lines).cursor()).0 == Ok::<
                    HeaderScan,
                    HeaderParseError,
                >(found@),
                Err(e) => spec_parse_headers(buf@, old(lines).cursor()).0 == Err::<
                    HeaderScan,
                    HeaderParseError,
                >(e),
            },
    {
        let ghost first = lines.cursor();
        let _: usize = lines.position();
        let mut size: usize = 0;
        let mut headers: RequestHeaders = Vec::new();
        let mut options = HeaderOptions::default();
        loop
            invariant
                lines.source() == buf@,
                first == old(lines).cursor(),
                size <= lines.cursor().pos <= buf@.len() || lines.cursor().done,
                spec_scan(buf@, first, spec_scan_empty()) == spec_scan(
                    buf@,
                    lines.cursor(),
                    HeaderScan { size: size as int, headers: headers@, options: options },
                ),
            decreases buf@.len() - lines.cursor().pos + (if lines.cursor().done { 0int } else { 1int }),
        {
            let (start, end) = match lines.next() {
                None => {
                    return HeaderParser::finish(size, headers, options);
                },
                Some(line) => line,
            };
            if end == start || (end == start + 1 && buf[start] == CR) {
                return HeaderParser::finish(size, headers, options);
            }
            if end >= buf.len() {
                return Err(HeaderParseError::Incomplete);
            }
            let header = match header_line(buf, start, end) {
                Err(e) => {
                    return Err(e);
                },
                Ok(header) => header,
            };
            let found = match header_options(slice_of(buf, header.0), slice_of(buf, header.1)) {
                None => {
                    return Err(HeaderParseError::Invalid);
                },
                Some(found) => found,
            };
            size = size + (end - start + 1);
            headers.push(header);
            options.merge(found);
        }
    }

    fn finish(size: usize, headers: RequestHeaders, options: HeaderOptions) -> (r: Result<
        HeaderParserResult,
        HeaderParseError,
    >)
        ensures
            match r {
                Ok(found) => headers@.len() > 0 && found@ == (HeaderScan {
                    size: size as int,
                    headers: headers@,
                    options,
                }),
                Err(e) => headers@.len() == 0 && e == HeaderParseError::Incomplete,
            },
    {
        if headers.len() == 0 {
            Err(HeaderParseError::Incomplete)
        } else {
            Ok(HeaderParserResult { size, headers, options })
        }
    }
}

} // verus!
