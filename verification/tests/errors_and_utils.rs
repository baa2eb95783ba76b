use aou::error::{error_payload, AouError};
use aou::request::{
    Connection, HandleRequestError, HeaderOptions, Lines, ParserStateError, RequestHeadParseError,
    RequestParser, RequestToken,
};
use aou::response::ResponseBody;
use aou::utils::{
    ascii_lower, bytes_eq, eq_ignore_ascii_case, find_byte, range_from_subslice, slice_of, to_vec,
};

#[test]
fn an_error_becomes_its_response() {
    let response = AouError {
        status: None,
        status_message: None,
        headers: None,
        body: "{\"why\":\"no\"}".to_string(),
    }
    .into_response();
    assert_eq!(response.status, Some(400));
    assert_eq!(response.body, ResponseBody::Text("{\"why\":\"no\"}".to_string()));
    assert_eq!(
        String::from_utf8(response.to_bytes(&Vec::new())).unwrap(),
        "HTTP/1.1 400 Bad Request\r\nContent-Length: 12\r\n\r\n{\"why\":\"no\"}"
    );

    let response = AouError {
        status: Some(422),
        status_message: Some("Nope".to_string()),
        headers: Some(vec![("X-Why".to_string(), "because".to_string())]),
        body: "null".to_string(),
    }
    .into_response();
    assert_eq!(response.status, Some(422));
    assert_eq!(response.status_message, Some("Nope".to_string()));
    assert_eq!(
        String::from_utf8(response.to_bytes(&Vec::new())).unwrap(),
        "HTTP/1.1 422 Nope\r\nX-Why: because\r\nContent-Length: 4\r\n\r\nnull"
    );
}

#[test]
fn the_tag_of_a_raised_error() {
    assert_eq!(error_payload("AouError: {}"), Some(b"{}".to_vec()));
    assert_eq!(error_payload("AouError: "), Some(Vec::new()));
    assert_eq!(error_payload("AouError:{}"), None);
    assert_eq!(error_payload(" AouError: {}"), None);
    assert_eq!(error_payload(""), None);
    assert_eq!(error_payload("Error: AouError: {}"), None);
}

#[test]
fn range_of_a_subslice() {
    let source = b"Hello World";
    let mut iter = source.split(|c| c == &b' ');
    let hello = iter.next().unwrap();
    let world = iter.next().unwrap();

    assert_eq!(range_from_subslice(source, 0, hello), (0, 5));
    let world_range = range_from_subslice(source, 6, world);
    assert_eq!(world_range, (6, 11));
    assert_eq!(&source[world_range.0..world_range.1], b"World");
    assert_eq!(range_from_subslice(source, 11, &source[11..]), (11, 11));

    assert_eq!(RequestToken::from_subslice(source, 6, world), RequestToken(6, 11));
    assert_eq!(RequestToken::from_subslice(&[1u32, 2, 3], 1, &[2u32]), RequestToken(1, 2));
}

#[test]
fn bytes_helpers() {
    assert!(bytes_eq(b"", b""));
    assert!(bytes_eq(b"abc", b"abc"));
    assert!(!bytes_eq(b"abc", b"abd"));
    assert!(!bytes_eq(b"abc", b"ab"));
    assert!(!bytes_eq(b"abc", b"ABC"));

    assert!(eq_ignore_ascii_case(b"Content-Length", b"content-length"));
    assert!(eq_ignore_ascii_case(b"HOST", b"host"));
    assert!(!eq_ignore_ascii_case(b"host", b"hosts"));
    assert!(!eq_ignore_ascii_case(b"@", b"`"));
    assert!(!eq_ignore_ascii_case(b"[", b"{"));
    assert_eq!(ascii_lower(b'A'), b'a');
    assert_eq!(ascii_lower(b'Z'), b'z');
    assert_eq!(ascii_lower(b'a'), b'a');
    assert_eq!(ascii_lower(b'@'), b'@');
    assert_eq!(ascii_lower(b'['), b'[');
    assert_eq!(ascii_lower(0xC9), 0xC9);

    assert_eq!(find_byte(b"a b c", 0, 5, b' '), 1);
    assert_eq!(find_byte(b"a b c", 2, 5, b' '), 3);
    assert_eq!(find_byte(b"a b c", 4, 5, b' '), 5);
    assert_eq!(find_byte(b"a b c", 0, 1, b' '), 1);
    assert_eq!(find_byte(b"", 0, 0, b' '), 0);
    assert_eq!(slice_of(b"abcdef", (2, 4)), b"cd");
    assert_eq!(to_vec(b"xyz"), b"xyz".to_vec());
}

#[test]
fn lines_of_a_buffer() {
    let mut lines = RequestParser::split_buf_lines(b"a\r\nbc\n\nd");
    assert_eq!(lines.position(), 0);
    assert_eq!(lines.peek(), Some((0, 2)));
    assert_eq!(lines.next(), Some((0, 2)));
    assert_eq!(lines.next(), Some((3, 5)));
    assert_eq!(lines.next(), Some((6, 6)));
    assert!(!lines.is_done());
    assert_eq!(lines.next(), Some((7, 8)));
    assert!(lines.is_done());
    assert_eq!(lines.next(), None);
    assert_eq!(lines.peek(), None);

    let mut lines = Lines::new(b"");
    assert_eq!(lines.next(), Some((0, 0)));
    assert_eq!(lines.next(), None);

    let mut lines = Lines::new(b"x\n");
    assert_eq!(lines.next(), Some((0, 1)));
    assert_eq!(lines.next(), Some((2, 2)));
    assert_eq!(lines.next(), None);

    let mut lines = Lines::resume(b"ab\ncd", 3);
    assert_eq!(lines.next(), Some((3, 5)));
    assert_eq!(lines.next(), None);
    let mut lines = Lines::resume(b"ab\ncd", 5);
    assert_eq!(lines.next(), Some((5, 5)));
    let mut lines = Lines::resume(b"ab\ncd", 6);
    assert!(lines.is_done());
    assert_eq!(lines.next(), None);
}

#[test]
fn options_merge() {
    let base = HeaderOptions::default();
    assert_eq!(base.connection, Connection::KeepAlive);
    assert_eq!(base.content_length, None);
    assert!(!base.has_host);

    let mut a = HeaderOptions { connection: Connection::Close, content_length: Some(3), has_host: true };
    a.merge(HeaderOptions { connection: Connection::KeepAlive, content_length: Some(9), has_host: false });
    assert_eq!(
        a,
        HeaderOptions { connection: Connection::Close, content_length: Some(3), has_host: true }
    );

    let mut b = HeaderOptions::default();
    b.merge(HeaderOptions { connection: Connection::Close, content_length: Some(9), has_host: true });
    assert_eq!(
        b,
        HeaderOptions { connection: Connection::Close, content_length: Some(9), has_host: true }
    );

    let mut c = HeaderOptions { connection: Connection::KeepAlive, content_length: None, has_host: true };
    c.merge(HeaderOptions::default());
    assert_eq!(
        c,
        HeaderOptions { connection: Connection::KeepAlive, content_length: None, has_host: true }
    );
}

#[test]
fn errors_in_words() {
    assert_eq!(RequestHeadParseError::NoHead.message(), "Request Head Not found");
    assert_eq!(RequestHeadParseError::NoMethod.message(), "Method not found");
    assert_eq!(RequestHeadParseError::NoPath.message(), "Path not found");
    assert_eq!(RequestHeadParseError::NoHTTPVersion.message(), "Http Version not found");
    assert_eq!(RequestHeadParseError::InvalidHTTPVersion.message(), "Invalid HTTP Version");
    assert_eq!(
        ParserStateError::NotBody.message(),
        "Parser state can only be converted into a parserResult if it's a body"
    );
    assert_eq!(HandleRequestError::Timeout.message(), "Connection Timeout");
    assert_eq!(HandleRequestError::EOF.message(), "End of File");
    assert_eq!(HandleRequestError::Invalid("missing Host".to_string()).message(), "missing Host");
    assert_eq!(HandleRequestError::IOError("reset".to_string()).message(), "reset");
}

#[test]
fn head_errors_one_by_one() {
    let parse = |text: &[u8]| {
        let mut lines = RequestParser::split_buf_lines(text);
        aou::request::RequestHead::from_split_iter(&mut lines, text)
    };
    assert_eq!(parse(b"GET / HTTP/1.1").unwrap_err(), RequestHeadParseError::NoHead);
    assert_eq!(parse(b"").unwrap_err(), RequestHeadParseError::NoHead);
    assert_eq!(parse(b"\n").unwrap_err(), RequestHeadParseError::NoMethod);
    assert_eq!(parse(b"BREW / HTTP/1.1\r\n").unwrap_err(), RequestHeadParseError::NoMethod);
    assert_eq!(parse(b"GET\r\n").unwrap_err(), RequestHeadParseError::NoMethod);
    assert_eq!(parse(b"GET\n").unwrap_err(), RequestHeadParseError::NoPath);
    assert_eq!(parse(b"GET \n").unwrap_err(), RequestHeadParseError::NoPath);
    assert_eq!(parse(b"GET  HTTP/1.1\r\n").unwrap_err(), RequestHeadParseError::NoPath);
    assert_eq!(parse(b"GET /\n").unwrap_err(), RequestHeadParseError::NoHTTPVersion);
    assert_eq!(parse(b"GET / \n").unwrap_err(), RequestHeadParseError::InvalidHTTPVersion);
    assert_eq!(parse(b"GET / HTTP/1.1\n").unwrap_err(), RequestHeadParseError::InvalidHTTPVersion);
    assert_eq!(parse(b"GET / HTTP/1.0\r\n").unwrap_err(), RequestHeadParseError::InvalidHTTPVersion);
    let (size, head) = parse(b"DELETE /a/b HTTP/1.1\r\nrest").unwrap();
    assert_eq!(size, 22);
    assert_eq!(head.method, (0, 6));
    assert_eq!(head.path, (7, 11));
    assert_eq!(head.http_version, (12, 20));
    assert_eq!(head.line_after(), 22);

    let text = b"x\nPUT /p HTTP/1.1\r\n";
    let mut lines = RequestParser::split_buf_lines(text);
    assert_eq!(lines.next(), Some((0, 1)));
    let (size, head) = aou::request::RequestHead::from_split_iter(&mut lines, text).unwrap();
    assert_eq!(size, 17);
    assert_eq!(head.method, (2, 5));
    assert_eq!(head.path, (6, 8));
    assert_eq!(head.http_version, (9, 17));
    assert_eq!(lines.next(), Some((19, 19)));
}
