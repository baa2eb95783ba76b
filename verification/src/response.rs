//! The response and its image on the wire: a status line, the headers, the
//! length of the body, an empty line and the body.

use crate::constants::{COLON, CR, LF, SP, ZERO};
use crate::utils::{eq_ignore_ascii_case, spec_eq_ignore_ascii_case};
use vstd::prelude::*;
use vstd::string::StringSliceAdditionalSpecFns;
use vstd::utf8::encode_utf8;

verus! {

/// What a response carries after its headers.
#[derive(Debug, PartialEq, Eq)]
pub enum ResponseBody {
    Text(String),
    Bytes(Vec<u8>),
}

/// A response as a handler returns it. Headers are pairs of a name and a
/// value, in the order in which they are written.
#[derive(Debug, PartialEq, Eq)]
pub struct Response {
    /// The status code; 200 where none is given.
    pub status: Option<u16>,
    /// The reason phrase; the standard phrase of the code where none is
    /// given.
    pub status_message: Option<String>,
    pub headers: Option<Vec<(String, String)>>,
    pub body: ResponseBody,
}

/// A header as the bytes of its name and of its value.
pub type HeaderBytes = (Seq<u8>, Seq<u8>);

/// The bytes that a text takes on the wire.
pub open spec fn spec_text(text: Seq<char>) -> Seq<u8> {
    encode_utf8(text)
}

/// A list of headers as bytes.
pub open spec fn spec_header_list(list: Seq<(String, String)>) -> Seq<HeaderBytes> {
    list.map_values(|pair: (String, String)| (spec_text(pair.0@), spec_text(pair.1@)))
}

/// A `Response` as a mathematical value, every default filled in.
pub struct ResponseView {
    pub status: u16,
    pub reason: Seq<u8>,
    pub headers: Seq<HeaderBytes>,
    pub body: Seq<u8>,
}

impl View for ResponseBody {
    type V = Seq<u8>;

    open spec fn view(&self) -> Seq<u8> {
        match self {
            ResponseBody::Text(text) => spec_text(text@),
            ResponseBody::Bytes(bytes) => bytes@,
        }
    }
}

impl View for Response {
    type V = ResponseView;

    open spec fn view(&self) -> ResponseView {
        let status = match self.status {
            Some(code) => code,
            None => 200,
        };
        ResponseView {
            status,
            reason: match self.status_message {
                Some(text) => spec_text(text@),
                None => match Response::spec_status_message(status) {
                    Some(phrase) => phrase.spec_bytes(),
                    None => Seq::empty(),
                },
            },
            headers: match self.headers {
                Some(list) => spec_header_list(list@),
                None => Seq::empty(),
            },
            body: self.body@,
        }
    }
}

/// The decimal digits that write `n`, without a leading zero.
pub open spec fn spec_decimal_digits(n: nat) -> Seq<u8>
    decreases n,
{
    if n < 10 {
        seq![(ZERO + n) as u8]
    } else {
        spec_decimal_digits(n / 10).push((ZERO + n % 10) as u8)
    }
}

/// The key names the header that gives the length of the body.
pub open spec fn spec_is_content_length(key: Seq<u8>) -> bool {
    spec_eq_ignore_ascii_case(key, "content-length".spec_bytes())
}

/// The value of the first header of `list` that is named `key`, in any
/// case.
pub open spec fn spec_lookup(list: Seq<HeaderBytes>, key: Seq<u8>) -> Option<Seq<u8>>
    decreases list.len(),
{
    if list.len() == 0 {
        None
    } else if spec_eq_ignore_ascii_case(list[0].0, key) {
        Some(list[0].1)
    } else {
        spec_lookup(list.drop_first(), key)
    }
}

/// The server's headers as a response sends them: each in its place,
/// with the response's value where the response has a header of that
/// name, and none that gives the length of the body.
pub open spec fn spec_static_part(statics: Seq<HeaderBytes>, own: Seq<HeaderBytes>) -> Seq<
    HeaderBytes,
>
    decreases statics.len(),
{
    if statics.len() == 0 {
        Seq::empty()
    } else {
        let before = spec_static_part(statics.drop_last(), own);
        let (key, value) = statics.last();
        if spec_is_content_length(key) {
            before
        } else {
            before.push(
                (
                    key,
                    match spec_lookup(own, key) {
                        Some(replaced) => replaced,
                        None => value,
                    },
                ),
            )
        }
    }
}

/// The response's headers that are written after the server's: those
/// whose name no header of the server has, and none that gives the length
/// of the body.
pub open spec fn spec_own_part(statics: Seq<HeaderBytes>, own: Seq<HeaderBytes>) -> Seq<
    HeaderBytes,
>
    decreases own.len(),
{
    if own.len() == 0 {
        Seq::empty()
    } else {
        let before = spec_own_part(statics, own.drop_last());
        let (key, value) = own.last();
        if spec_is_content_length(key) || spec_lookup(statics, key) is Some {
            before
        } else {
            before.push((key, value))
        }
    }
}

/// The headers that are written for a response, but for the length of
/// the body.
pub open spec fn spec_merged_headers(statics: Seq<HeaderBytes>, own: Seq<HeaderBytes>) -> Seq<
    HeaderBytes,
> {
    spec_static_part(statics, own) + spec_own_part(statics, own)
}

/// One header line: the name, a colon, a space, the value and the end of
/// the line.
pub open spec fn spec_header_bytes(header: HeaderBytes) -> Seq<u8> {
    header.0 + seq![COLON, SP] + header.1 + seq![CR, LF]
}

/// The header lines of `list`, one after the other.
pub open spec fn spec_header_lines(list: Seq<HeaderBytes>) -> Seq<u8>
    decreases list.len(),
{
    if list.len() == 0 {
        Seq::empty()
    } else {
        spec_header_lines(list.drop_last()) + spec_header_bytes(list.last())
    }
}

/// The header that gives the length of the body.
pub open spec fn spec_length_header(content_length: nat) -> HeaderBytes {
    ("Content-Length".spec_bytes(), spec_decimal_digits(content_length))
}

/// All headers that are written for a response: the merged headers, then
/// the length of the body.
pub open spec fn spec_written_headers(
    content_length: nat,
    statics: Seq<HeaderBytes>,
    own: Seq<HeaderBytes>,
) -> Seq<HeaderBytes> {
    spec_merged_headers(statics, own).push(spec_length_header(content_length))
}

/// All header lines of a response.
pub open spec fn spec_headers_buf(
    content_length: nat,
    statics: Seq<HeaderBytes>,
    own: Seq<HeaderBytes>,
) -> Seq<u8> {
    spec_header_lines(spec_written_headers(content_length, statics, own))
}

/// The status line: the version, the code, the reason phrase.
pub open spec fn spec_status_line(status: u16, reason: Seq<u8>) -> Seq<u8> {
    "HTTP/1.1 ".spec_bytes() + spec_decimal_digits(status as nat) + seq![SP] + reason + seq![
        CR,
        LF,
    ]
}

/// What is written before the body: the status line, the header lines and
/// an empty line.
pub open spec fn spec_wire_head(response: ResponseView, statics: Seq<HeaderBytes>) -> Seq<u8> {
    spec_status_line(response.status, response.reason) + spec_headers_buf(
        response.body.len(),
        statics,
        response.headers,
    ) + seq![CR, LF]
}

/// The whole image of a response on the wire.
pub open spec fn spec_wire(response: ResponseView, statics: Seq<HeaderBytes>) -> Seq<u8> {
    spec_wire_head(response, statics) + response.body
}

/// The status code that a number stands for: the number itself, and 500
/// for a number that is too large to be a status code.
pub open spec fn spec_status_of(status: u32) -> u16 {
    if status <= u16::MAX {
        status as u16
    } else {
        500
    }
}

/// The status code that a number stands for.
pub fn status_of(status: u32) -> (r: u16)
    ensures
        r == spec_status_of(status),
{
    if status <= 65535 {
        status as u16
    } else {
        500
    }
}

/// Appends the decimal digits of `n` to `out`.
pub fn push_decimal(out: &mut Vec<u8>, n: usize)
    ensures
        final(out)@ == old(out)@ + spec_decimal_digits(n as nat),
    decreases n,
{
    if n >= 10 {
        push_decimal(out, n / 10);
    }
    let digit: u8 = ZERO + (n % 10) as u8;
    out.push(digit);
    assert(out@ =~= old(out)@ + spec_decimal_digits(n as nat));
}

/// The value of the first header of `list` that is named `key`, in any
/// case.
pub fn lookup<'a>(list: &'a Vec<(String, String)>, key: &str) -> (r: Option<&'a String>)
    ensures
        match r {
            Some(value) => spec_lookup(spec_header_list(list@), spec_text(key@)) == Some(
                spec_text(value@),
            ),
            None => spec_lookup(spec_header_list(list@), spec_text(key@)) is None,
        },
{
    let ghost all = spec_header_list(list@);
    let mut i: usize = 0;
    assert(all.subrange(0, all.len() as int) =~= all);
    while i < list.len()
        invariant
            i <= list@.len(),
            all == spec_header_list(list@),
            spec_lookup(all, spec_text(key@)) == spec_lookup(
                all.subrange(i as int, all.len() as int),
                spec_text(key@),
            ),
        decreases list@.len() - i,
    {
        let ghost rest = all.subrange(i as int, all.len() as int);
        assert(rest[0] == all[i as int]);
        assert(rest.drop_first() =~= all.subrange(i + 1, all.len() as int));
        if eq_ignore_ascii_case(list[i].0.as_str().as_bytes(), key.as_bytes()) {
            return Some(&list[i].1);
        }
        i += 1;
    }
    None
}

/// Appends one header line to `out`.
pub fn push_header(out: &mut Vec<u8>, key: &str, value: &str)
    ensures
        final(out)@ == old(out)@ + spec_header_bytes((spec_text(key@), spec_text(value@))),
{
    out.extend_from_slice(key.as_bytes());
    out.push(COLON);
    out.push(SP);
    out.extend_from_slice(value.as_bytes());
    out.push(CR);
    out.push(LF);
    assert(out@ =~= old(out)@ + spec_header_bytes((spec_text(key@), spec_text(value@))));
}

impl ResponseBody {
    /// The bytes of the body.
    pub fn as_bytes(&self) -> (r: &[u8])
        ensures
            r@ == self@,
    {
        match self {
            ResponseBody::Text(text) => text.as_str().as_bytes(),
            ResponseBody::Bytes(bytes) => bytes.as_slice(),
        }
    }
}

impl Default for Response {
    fn default() -> (r: Self)
        ensures
            r.status is None,
            r.status_message is None,
            r.headers is None,
            r.body matches ResponseBody::Text(text) && text@ == Seq::<char>::empty(),
            r.body@ == Seq::<u8>::empty(),
    {
        let text = String::new();
        assert(spec_text(text@) =~= Seq::<u8>::empty()) by {
            reveal_with_fuel(encode_utf8, 1);
        }
        Response { status: None, status_message: None, headers: None, body: ResponseBody::Text(text) }
    }
}

impl Response {
    /// The standard reason phrase of a status code, where it has one.
    pub open spec fn spec_status_message(status_code: u16) -> Option<&'static str> {
        match status_code {
            100 => Some("Continue"),
            101 => Some("Switching Protocols"),
            102 => Some("Processing"),
            103 => Some("Early Hints"),
            200 => Some("OK"),
            201 => Some("Created"),
            202 => Some("Accepted"),
            203 => Some("Non-Authoritative Information"),
            204 => Some("No Content"),
            205 => Some("Reset Content"),
            206 => Some("Partial Content"),
            207 => Some("Multi-Status"),
            208 => Some("Already Reported"),
            226 => Some("IM Used"),
            300 => Some("Multiple Choices"),
            301 => Some("Moved Permanently"),
            302 => Some("Found"),
            303 => Some("See Other"),
            304 => Some("Not Modified"),
            307 => Some("Temporary Redirect"),
            308 => Some("Permanent Redirect"),
            400 => Some("Bad Request"),
            401 => Some("Unauthorized"),
            402 => Some("Payment Required"),
            403 => Some("Forbidden"),
            404 => Some("Not Found"),
            405 => Some("Method Not Allowed"),
            406 => Some("Not Acceptable"),
            407 => Some("Proxy Authentication Required"),
            408 => Some("Request Timeout"),
            409 => Some("Conflict"),
            410 => Some("Gone"),
            411 => Some("Length Required"),
            412 => Some("Precondition Failed"),
            413 => Some("Content Too Large"),
            414 => Some("URI Too Long"),
            415 => Some("Unsupported Media Type"),
            416 => Some("Range Not Satisfiable"),
            417 => Some("Expectation Failed"),
            418 => Some("I'm a teapot"),
            421 => Some("Misdirected Request"),
            422 => Some("Unprocessable Content"),
            423 => Some("Locked"),
            424 => Some("Failed Dependency"),
            425 => Some("Too Early"),
            426 => Some("Upgrade Required"),
            428 => Some("Precondition Required"),
            429 => Some("Too Many Requests"),
            431 => Some("Request Header Fields Too Large"),
            451 => Some("Unavailable For Legal Reasons"),
            500 => Some("Internal Server Error"),
            501 => Some("Not Implemented"),
            502 => Some("Bad Gateway"),
            503 => Some("Service Unavailable"),
            504 => Some("Gateway Timeout"),
            505 => Some("HTTP Version Not Supported"),
            506 => Some("Variant Also Negotiates"),
            507 => Some("Insufficient Storage"),
            508 => Some("Loop Detected"),
            510 => Some("Not Extended"),
            511 => Some("Network Authentication Required"),
            _ => None,
        }
    }

    /// The standard reason phrase of a status code, where it has one.
    pub fn status_message(status_code: u16) -> (r: Option<&'static str>)
        ensures
            r == Response::spec_status_message(status_code),
    {
        match status_code {
            100 => Some("Continue"),
            101 => Some("Switching Protocols"),
            102 => Some("Processing"),
            103 => Some("Early Hints"),
            200 => Some("OK"),
            201 => Some("Created"),
            202 => Some("Accepted"),
            203 => Some("Non-Authoritative Information"),
            204 => Some("No Content"),
            205 => Some("Reset Content"),
            206 => Some("Partial Content"),
            207 => Some("Multi-Status"),
            208 => Some("Already Reported"),
            226 => Some("IM Used"),
            300 => Some("Multiple Choices"),
            301 => Some("Moved Permanently"),
            302 => Some("Found"),
            303 => Some("See Other"),
            304 => Some("Not Modified"),
            307 => Some("Temporary Redirect"),
            308 => Some("Permanent Redirect"),
            400 => Some("Bad Request"),
            401 => Some("Unauthorized"),
            402 => Some("Payment Required"),
            403 => Some("Forbidden"),
            404 => Some("Not Found"),
            405 => Some("Method Not Allowed"),
            406 => Some("Not Acceptable"),
            407 => Some("Proxy Authentication Required"),
            408 => Some("Request Timeout"),
            409 => Some("Conflict"),
            410 => Some("Gone"),
            411 => Some("Length Required"),
            412 => Some("Precondition Failed"),
            413 => Some("Content Too Large"),
            414 => Some("URI Too Long"),
            415 => Some("Unsupported Media Type"),
            416 => Some("Range Not Satisfiable"),
            417 => Some("Expectation Failed"),
            418 => Some("I'm a teapot"),
            421 => Some("Misdirected Request"),
            422 => Some("Unprocessable Content"),
            423 => Some("Locked"),
            424 => Some("Failed Dependency"),
            425 => Some("Too Early"),
            426 => Some("Upgrade Required"),
            428 => Some("Precondition Required"),
            429 => Some("Too Many Requests"),
            431 => Some("Request Header Fields Too Large"),
            451 => Some("Unavailable For Legal Reasons"),
            500 => Some("Internal Server Error"),
            501 => Some("Not Implemented"),
            502 => Some("Bad Gateway"),
            503 => Some("Service Unavailable"),
            504 => Some("Gateway Timeout"),
            505 => Some("HTTP Version Not Supported"),
            506 => Some("Variant Also Negotiates"),
            507 => Some("Insufficient Storage"),
            508 => Some("Loop Detected"),
            510 => Some("Not Extended"),
            511 => Some("Network Authentication Required"),
            _ => None,
        }
    }

    /// The header lines of a response whose body has `content_length`
    /// bytes: the server's headers, replaced where the response has one of
    /// the same name, then the response's other headers, then the length
    /// of the body. A length that either list gives is left out.
    pub fn headers_buf(
        content_length: usize,
        static_headers: &Vec<(String, String)>,
        headers: &Vec<(String, String)>,
    ) -> (r: Vec<u8>)
        ensures
            r@ == spec_headers_buf(
                content_length as nat,
                spec_header_list(static_headers@),
                spec_header_list(headers@),
            ),
    {
        let ghost statics = spec_header_list(static_headers@);
        let ghost own = spec_header_list(headers@);
        let mut r: Vec<u8> = Vec::new();
        let mut i: usize = 0;
        assert(statics.subrange(0, 0) =~= Seq::<HeaderBytes>::empty());
        while i < static_headers.len()
            invariant
                i <= static_headers@.len(),
                statics == spec_header_list(static_headers@),
                own == spec_header_list(headers@),
                r@ == spec_header_lines(spec_static_part(statics.subrange(0, i as int), own)),
            decreases static_headers@.len() - i,
        {
            let key = static_headers[i].0.as_str();
            let ghost upto = statics.subrange(0, i + 1);
            assert(upto.drop_last() =~= statics.subrange(0, i as int));
            assert(upto.last() == statics[i as int]);
            if !eq_ignore_ascii_case(key.as_bytes(), "content-length".as_bytes()) {
                let ghost before = spec_static_part(upto.drop_last(), own);
                let value = match lookup(headers, key) {
                    Some(replaced) => replaced.as_str(),
                    None => static_headers[i].1.as_str(),
                };
                push_header(&mut r, key, value);
                assert(spec_static_part(upto, own).drop_last() =~= before);
            }
            i += 1;
        }
        assert(statics.subrange(0, i as int) =~= statics);
        let ghost first = spec_static_part(statics, own);
        let mut j: usize = 0;
        assert(own.subrange(0, 0) =~= Seq::<HeaderBytes>::empty());
        assert(first + Seq::<HeaderBytes>::empty() =~= first);
        while j < headers.len()
            invariant
                j <= headers@.len(),
                statics == spec_header_list(static_headers@),
                own == spec_header_list(headers@),
                first == spec_static_part(statics, own),
                r@ == spec_header_lines(first + spec_own_part(statics, own.subrange(0, j as int))),
            decreases headers@.len() - j,
        {
            let key = headers[j].0.as_str();
            let ghost upto = own.subrange(0, j + 1);
            assert(upto.drop_last() =~= own.subrange(0, j as int));
            assert(upto.last() == own[j as int]);
            let ghost before = spec_own_part(statics, upto.drop_last());
            if !eq_ignore_ascii_case(key.as_bytes(), "content-length".as_bytes()) && lookup(
                static_headers,
                key,
            ).is_none() {
                push_header(&mut r, key, headers[j].1.as_str());
                assert((first + spec_own_part(statics, upto)).drop_last() =~= first + before);
            }
            j += 1;
        }
        assert(own.subrange(0, j as int) =~= own);
        let ghost merged = spec_merged_headers(statics, own);
        assert(r@ == spec_header_lines(merged));
        r.extend_from_slice("Content-Length".as_bytes());
        r.push(COLON);
        r.push(SP);
        push_decimal(&mut r, content_length);
        r.push(CR);
        r.push(LF);
        proof {
            let written = spec_written_headers(content_length as nat, statics, own);
            assert(written.drop_last() =~= merged);
            assert(r@ =~= spec_header_lines(merged) + spec_header_bytes(written.last()));
        }
        r
    }

    /// The status code that is written: 200 where none is given.
    pub fn status_code(&self) -> (r: u16)
        ensures
            r == self@.status,
    {
        match self.status {
            Some(code) => code,
            None => 200,
        }
    }

    /// What is written before the body: the status line, the header lines
    /// and an empty line.
    pub fn wire_head(&self, static_headers: &Vec<(String, String)>) -> (r: Vec<u8>)
        ensures
            r@ == spec_wire_head(self@, spec_header_list(static_headers@)),
    {
        let status: u16 = self.status_code();
        let mut r: Vec<u8> = Vec::new();
        r.extend_from_slice("HTTP/1.1 ".as_bytes());
        push_decimal(&mut r, status as usize);
        r.push(SP);
        match &self.status_message {
            Some(text) => {
                r.extend_from_slice(text.as_str().as_bytes());
            },
            None => match Response::status_message(status) {
                Some(phrase) => {
                    r.extend_from_slice(phrase.as_bytes());
                },
                None => {},
            },
        }
        r.push(CR);
        r.push(LF);
        assert(r@ =~= spec_status_line(self@.status, self@.reason));
        let content_length: usize = self.body.as_bytes().len();
        let empty: Vec<(String, String)> = Vec::new();
        let mut lines = match &self.headers {
            Some(list) => Response::headers_buf(content_length, static_headers, list),
            None => {
                assert(spec_header_list(empty@) =~= Seq::<HeaderBytes>::empty());
                Response::headers_buf(content_length, static_headers, &empty)
            },
        };
        r.append(&mut lines);
        r.push(CR);
        r.push(LF);
        assert(r@ =~= spec_wire_head(self@, spec_header_list(static_headers@)));
        r
    }

    /// The whole image of the response on the wire: what is written before
    /// the body, and the body.
    pub fn to_bytes(&self, static_headers: &Vec<(String, String)>) -> (r: Vec<u8>)
        ensures
            r@ == spec_wire(self@, spec_header_list(static_headers@)),
    {
        let mut r = self.wire_head(static_headers);
        r.extend_from_slice(self.body.as_bytes());
        r
    }
}

} // verus!
