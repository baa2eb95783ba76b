//! The request line: method, path and protocol version.

use crate::constants::{CR, LF, SP};
use crate::methods::{spec_method_of, HttpMethod};
use crate::request::lines::{spec_advance, spec_line_end, Cursor, Lines};
use crate::request::VecOffset;
use crate::utils::{bytes_eq, find_byte, lemma_find, slice_of, spec_find};
use vstd::prelude::*;
use vstd::string::StringSliceAdditionalSpecFns;

verus! {

/// Why a request line could not be read. All but `InvalidHTTPVersion` may
/// be mended by more bytes.
#[derive(Debug, Clone, Copy, PartialEq, Eq, Structural)]
pub enum RequestHeadParseError {
    /// No line that ends in a line feed is there yet.
    NoHead,
    /// The line does not start with one of the nine method names.
    NoMethod,
    /// No path follows the method, or an empty one.
    NoPath,
    /// Nothing follows the path.
    NoHTTPVersion,
    /// What follows the path is not `HTTP/1.1` and a carriage return.
    InvalidHTTPVersion,
}

impl RequestHeadParseError {
    /// The error in words.
    pub open spec fn spec_message(self) -> &'static str {
        match self {
            RequestHeadParseError::NoHead => "Request Head Not found",
            RequestHeadParseError::NoMethod => "Method not found",
            RequestHeadParseError::NoPath => "Path not found",
            RequestHeadParseError::NoHTTPVersion => "Http Version not found",
            RequestHeadParseError::InvalidHTTPVersion => "Invalid HTTP Version",
        }
    }

    /// The error in words.
    pub fn message(&self) -> (r: &'static str)
        ensures
            r == self.spec_message(),
    {
        match self {
            RequestHeadParseError::NoHead => "Request Head Not found",
            RequestHeadParseError::NoMethod => "Method not found",
            RequestHeadParseError::NoPath => "Path not found",
            RequestHeadParseError::NoHTTPVersion => "Http Version not found",
            RequestHeadParseError::InvalidHTTPVersion => "Invalid HTTP Version",
        }
    }
}

/// The three parts of a request line, as ranges of the buffer.
#[derive(Debug, Clone, Copy, PartialEq, Eq, Default)]
pub struct RequestHead {
    pub method: VecOffset,
    pub path: VecOffset,
    pub http_version: VecOffset,
}

/// The bytes that must follow the path: the version and a carriage return.
pub open spec fn spec_version_token() -> Seq<u8> {
    "HTTP/1.1".spec_bytes().push(CR)
}

/// What reading a request line at the cursor gives: the number of bytes
/// the line takes with its line feed and the head, or the reason why not.
///
/// The line is the segment at the cursor and must end in a line feed. It
/// is cut at its first two spaces; what follows the second is the version
/// token, so that a line of more than three parts has no valid version.
pub open spec fn spec_parse_head(s: Seq<u8>, c: Cursor) -> Result<
    (usize, RequestHead),
    RequestHeadParseError,
> {
    let end = spec_line_end(s, c.pos);
    let line = s.subrange(0, end);
    let s1 = spec_find(line, c.pos, SP);
    let s2 = spec_find(line, s1 + 1, SP);
    if c.done || end >= s.len() {
        Err(RequestHeadParseError::NoHead)
    } else if spec_method_of(s.subrange(c.pos, s1)) is Err {
        Err(RequestHeadParseError::NoMethod)
    } else if s1 >= end || s2 == s1 + 1 {
        Err(RequestHeadParseError::NoPath)
    } else if s2 >= end {
        Err(RequestHeadParseError::NoHTTPVersion)
    } else if s.subrange(s2 + 1, end) != spec_version_token() {
        Err(RequestHeadParseError::InvalidHTTPVersion)
    } else {
        Ok(
            (
                (end - c.pos + 1) as usize,
                RequestHead {
                    method: (c.pos as usize, s1 as usize),
                    path: ((s1 + 1) as usize, s2 as usize),
                    http_version: ((s2 + 1) as usize, (end - 1) as usize),
                },
            ),
        )
    }
}

impl RequestHead {
    /// The three ranges lie in this order inside a buffer of `len` bytes.
    pub open spec fn spec_within(self, len: nat) -> bool {
        &&& self.method.0 <= self.method.1
        &&& self.method.1 <= self.path.0
        &&& self.path.0 <= self.path.1
        &&& self.path.1 <= self.http_version.0
        &&& self.http_version.0 <= self.http_version.1
        &&& self.http_version.1 <= len
    }

    /// What holds of every head that was read from `buf`: the ranges lie
    /// inside it, the method is one of the nine, the path is not empty and
    /// the version reads `HTTP/1.1`.
    pub open spec fn spec_valid(self, buf: Seq<u8>) -> bool {
        &&& self.spec_within(buf.len())
        &&& spec_method_of(buf.subrange(self.method.0 as int, self.method.1 as int)) is Ok
        &&& self.path.0 < self.path.1
        &&& buf.subrange(self.http_version.0 as int, self.http_version.1 as int)
            == "HTTP/1.1".spec_bytes()
    }

    /// Offset of the first byte after a head's line: behind the version
    /// stand a carriage return and a line feed.
    pub open spec fn spec_line_after(self) -> usize {
        if self.http_version.1 + 2 <= usize::MAX {
            (self.http_version.1 + 2) as usize
        } else {
            usize::MAX
        }
    }

    /// Offset of the first byte after the head's line.
    pub fn line_after(&self) -> (r: usize)
        ensures
            r == self.spec_line_after(),
    {
        if self.http_version.1 <= usize::MAX - 2 {
            self.http_version.1 + 2
        } else {
            usize::MAX
        }
    }

    /// Reads the request line from the next segment of `iter`, which walks
    /// `vec`. The segment is taken from `iter` whatever the outcome.
    pub fn from_split_iter<'a>(iter: &mut Lines<'a>, vec: &'a [u8]) -> (r: Result<
        (usize, RequestHead),
        RequestHeadParseError,
    >)
        requires
            old(iter).source() == vec@,
        ensures
            final(iter).source() == vec@,
            final(iter).cursor() == spec_advance(vec@, old(iter).cursor()),
            r == spec_parse_head(vec@, old(iter).cursor()),
            r matches Ok((size, head)) ==> head.spec_valid(vec@) && old(iter).cursor().pos + size
                <= vec@.len(),
    {
        let ghost c = iter.cursor();
        let (start, end) = match iter.next() {
            None => {
                return Err(RequestHeadParseError::NoHead);
            },
            Some(line) => line,
        };
        if end >= vec.len() {
            return Err(RequestHeadParseError::NoHead);
        }
        let s1: usize = find_byte(vec, start, end, SP);
        if HttpMethod::from_byte_slice(slice_of(vec, (start, s1))).is_err() {
            return Err(RequestHeadParseError::NoMethod);
        }
        if s1 >= end {
            return Err(RequestHeadParseError::NoPath);
        }
        let s2: usize = find_byte(vec, s1 + 1, end, SP);
        if s2 == s1 + 1 {
            return Err(RequestHeadParseError::NoPath);
        }
        if s2 >= end {
            return Err(RequestHeadParseError::NoHTTPVersion);
        }
        let token = slice_of(vec, (s2 + 1, end));
        let n: usize = token.len();
        let well_formed = n > 0 && token[n - 1] == CR && bytes_eq(
            slice_of(token, (0, n - 1)),
            "HTTP/1.1".as_bytes(),
        );
        proof {
            let version = "HTTP/1.1".spec_bytes();
            if well_formed {
                assert(token@ =~= token@.subrange(0, n - 1).push(CR));
            } else if token@ == spec_version_token() {
                assert(token@.subrange(0, n - 1) =~= version);
            }
        }
        if !well_formed {
            return Err(RequestHeadParseError::InvalidHTTPVersion);
        }
        proof {
            lemma_parse_head_valid(vec@, c);
        }
        Ok(
            (
                end - start + 1,
                RequestHead { method: (start, s1), path: (s1 + 1, s2), http_version: (s2 + 1, end - 1) },
            ),
        )
    }
}

/// A head that was read is valid, its line ends in a carriage return and a
/// line feed, and the bytes it took end right after that line.
pub proof fn lemma_parse_head_valid(s: Seq<u8>, c: Cursor)
    requires
        0 <= c.pos <= s.len() <= usize::MAX,
        spec_parse_head(s, c) is Ok,
    ensures
        ({
            let (size, head) = spec_parse_head(s, c)->Ok_0;
            &&& head.spec_valid(s)
            &&& head.method.0 == c.pos
            &&& c.pos + size <= s.len()
            &&& c.pos + size == head.http_version.1 + 2
            &&& c.pos + size == spec_line_end(s, c.pos) + 1
            &&& s[head.http_version.1 as int] == CR
            &&& s[head.http_version.1 + 1] == LF
        }),
{
    let end = spec_line_end(s, c.pos);
    let line = s.subrange(0, end);
    lemma_find(s, c.pos, LF);
    lemma_find(line, c.pos, SP);
    let s1 = spec_find(line, c.pos, SP);
    lemma_find(line, s1 + 1, SP);
    let s2 = spec_find(line, s1 + 1, SP);
    let token = s.subrange(s2 + 1, end);
    assert(token == spec_version_token());
    assert(token.len() > 0);
    assert(token.last() == CR);
    assert(token.drop_last() =~= "HTTP/1.1".spec_bytes());
    assert(s.subrange(s2 + 1, end - 1) =~= token.drop_last());
    assert(token.last() == s[end - 1]);
}

} // verus!
