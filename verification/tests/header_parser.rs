use aou::request::{
    Connection, HeaderParseError, HeaderParser, HeaderParserResult, ParserState, RequestParser,
};

const THREE_HEADERS: &[u8] = b"Host: localhost:3000\r\nx-random-header: new_header\r\nUser-Agent: chrome-something:::::idk\r\n\r\n";

#[test]
fn regular_request_headers() {
    let buf = THREE_HEADERS;
    let mut lines = RequestParser::split_buf_lines(buf);

    let parser = HeaderParser::parse_headers(buf, &mut lines);
    let HeaderParserResult { size, headers, .. } = parser.unwrap();

    assert_eq!(size, 89, "Invalid Offset");
    assert_eq!(headers.len(), 3, "Invalid amount of headers parsed");
}

#[test]
fn ignore_leading_and_trailing_characters() {
    let buf = THREE_HEADERS;
    let mut lines = RequestParser::split_buf_lines(buf);

    let HeaderParserResult { headers, .. } = HeaderParser::parse_headers(buf, &mut lines).unwrap();

    let (_, value) = headers.iter().nth(1).unwrap();
    let header_value = &buf[value.0..value.1];

    assert_eq!(
        header_value, b"new_header",
        "Header should be clean of escape values"
    )
}

#[test]
fn incomplete_request_headers() {
    let buf = b"Host: localhost:3000\r\nx-random-header: new_header\r\nUser-Agent: chrome-s";
    let mut lines = RequestParser::split_buf_lines(buf);

    let parser = HeaderParser::parse_headers(buf, &mut lines);
    let err = parser.unwrap_err();

    assert_eq!(
        err,
        HeaderParseError::Incomplete,
        "Parser didn't return a incomplete result"
    );
}

#[test]
fn invalid_not_incomplete_request_headers() {
    let buf = b"x-random-header: new_header\r\nUser-Agent: chrome-someth";
    let mut lines = RequestParser::split_buf_lines(buf);

    let parser = HeaderParser::parse_headers(buf, &mut lines);
    let err = parser.unwrap_err();

    assert_ne!(
        err,
        HeaderParseError::Invalid,
        "Parser should return incomplete and not Invalid"
    );
    assert_eq!(
        err,
        HeaderParseError::Incomplete,
        "Parser should return a Incomplete Result"
    );
}

// The header scan itself does not ask for a host: it only records whether
// one was seen, and the parser refuses the request once the headers are
// complete.
#[test]
fn request_without_host_is_invalid() {
    let buf = b"Not-Host: localhost:3000\r\nx-random-header: new_header\r\nUser-Agent: chrome-something:::::idk\r\n\r\n";
    let mut lines = RequestParser::split_buf_lines(buf);

    let parser = HeaderParser::parse_headers(buf, &mut lines);
    let found = parser.unwrap();
    assert!(!found.options.has_host, "no host was sent");

    let mut request = b"GET / HTTP/1.1\r\n".to_vec();
    request.extend_from_slice(buf);
    let status = RequestParser::parse_request(request, ParserState::Start { read_until: None });
    assert!(status.is_invalid(), "should be Invalid");

    let buf = THREE_HEADERS;
    let mut lines = RequestParser::split_buf_lines(buf);

    let parser = HeaderParser::parse_headers(buf, &mut lines);

    assert!(parser.is_ok(), "should be Valid {parser:?}");
    assert!(parser.unwrap().options.has_host);
}

#[test]
fn request_with_server_123() {
    let buf = b"Not-Host: localhost:3000\r\nx-random-header: new_header\r\nUser-Agent: chrome-something:::::idk\r\n\r\n";
    let mut request = b"GET /server_error123 HTTP/1.1\r\n".to_vec();
    request.extend_from_slice(buf);
    let status = RequestParser::parse_request(request, ParserState::Start { read_until: None });
    assert!(status.is_invalid(), "should be Invalid");

    let buf = THREE_HEADERS;
    let mut request = b"GET /server_error123 HTTP/1.1\r\n".to_vec();
    request.extend_from_slice(buf);
    let status = RequestParser::parse_request(request, ParserState::Start { read_until: None });
    assert!(status.is_success(), "should be Valid {status:?}");
}

#[test]
fn request_close_content_length() {
    let buf = b"Host: localhost:3000\r\nx-random-header: new_header\r\nConnection: close; timeout=123\r\nContent-Length: 72\r\n\r\n";
    let mut lines = RequestParser::split_buf_lines(buf);
    let parser = HeaderParser::parse_headers(buf, &mut lines);

    assert!(parser.is_ok(), "Headers should be valid {parser:?}");

    let parser = parser.unwrap();

    assert!(
        parser.options.content_length.is_some(),
        "Headers should have a valid content-length {parser:?}"
    );

    let content_length = parser.options.content_length.unwrap();

    assert_eq!(
        content_length, 72,
        "Content-Length should be 72 {content_length:?}"
    )
}

#[test]
fn connection_header() {
    let buf = b"Host: localhost:3000\r\nx-random-header: new_header\r\nconnection: close; timeout=123\r\nContent-Length: 72\r\n\r\n";
    let mut lines = RequestParser::split_buf_lines(buf);
    let parser = HeaderParser::parse_headers(buf, &mut lines);

    assert!(parser.is_ok(), "Headers should be valid {parser:?}");

    let parser = parser.unwrap();

    assert!(
        parser.options.content_length.is_some(),
        "Headers should have a valid content-length {parser:?}"
    );

    let content_length = parser.options.content_length.unwrap();

    assert_eq!(
        content_length, 72,
        "Content-Length should be 72 {content_length:?}"
    );

    let connection = parser.options.connection;
    assert_eq!(connection, Connection::Close, "Connection should be CLOSE");
}

#[test]
fn header_value_without_space_is_invalid() {
    let buf = b"Host: x\r\nx-custom-header:invalid\r\n\r\n";
    let mut lines = RequestParser::split_buf_lines(buf);
    let err = HeaderParser::parse_headers(buf, &mut lines).unwrap_err();
    assert_eq!(err, HeaderParseError::Invalid);
}

#[test]
fn header_name_with_whitespace_is_invalid() {
    let buf = b"Host: x\r\nUser Agent: curl\r\n\r\n";
    let mut lines = RequestParser::split_buf_lines(buf);
    let err = HeaderParser::parse_headers(buf, &mut lines).unwrap_err();
    assert_eq!(err, HeaderParseError::Invalid);
}

#[test]
fn header_line_without_carriage_return_is_incomplete() {
    let buf = b"Host: x\nAccept: y\r\n\r\n";
    let mut lines = RequestParser::split_buf_lines(buf);
    let err = HeaderParser::parse_headers(buf, &mut lines).unwrap_err();
    assert_eq!(err, HeaderParseError::Incomplete);
}

#[test]
fn header_line_without_colon_is_incomplete() {
    let buf = b"Host: x\r\nno colon here\r\n\r\n";
    let mut lines = RequestParser::split_buf_lines(buf);
    let err = HeaderParser::parse_headers(buf, &mut lines).unwrap_err();
    assert_eq!(err, HeaderParseError::Incomplete);
}

#[test]
fn no_header_at_all_is_incomplete() {
    for buf in [&b""[..], &b"\r\n"[..], &b"\n"[..]] {
        let mut lines = RequestParser::split_buf_lines(buf);
        let err = HeaderParser::parse_headers(buf, &mut lines).unwrap_err();
        assert_eq!(err, HeaderParseError::Incomplete);
    }
}

#[test]
fn content_length_that_is_no_number_is_invalid() {
    for buf in [
        &b"Host: x\r\nContent-Length: twelve\r\n\r\n"[..],
        &b"Host: x\r\nContent-Length: \r\n\r\n"[..],
        &b"Host: x\r\nContent-Length: 12 \r\n\r\n"[..],
        &b"Host: x\r\nContent-Length: -1\r\n\r\n"[..],
        &b"Host: x\r\nContent-Length: +\r\n\r\n"[..],
        &b"Host: x\r\nContent-Length: 99999999999999999999999999\r\n\r\n"[..],
    ] {
        let mut lines = RequestParser::split_buf_lines(buf);
        let err = HeaderParser::parse_headers(buf, &mut lines).unwrap_err();
        assert_eq!(err, HeaderParseError::Invalid);
    }
}

#[test]
fn content_length_forms() {
    for (buf, expected) in [
        (&b"Content-Length: 0\r\n\r\n"[..], 0usize),
        (&b"content-length: 007\r\n\r\n"[..], 7),
        (&b"CONTENT-LENGTH: +14\r\n\r\n"[..], 14),
        (&b"Content-Length: 18446744073709551615\r\n\r\n"[..], usize::MAX),
    ] {
        let mut lines = RequestParser::split_buf_lines(buf);
        let found = HeaderParser::parse_headers(buf, &mut lines).unwrap();
        assert_eq!(found.options.content_length, Some(expected));
    }
}

#[test]
fn first_content_length_wins() {
    let buf = b"Content-Length: 5\r\nContent-Length: 9\r\n\r\n";
    let mut lines = RequestParser::split_buf_lines(buf);
    let found = HeaderParser::parse_headers(buf, &mut lines).unwrap();
    assert_eq!(found.options.content_length, Some(5));
    assert_eq!(found.headers.len(), 2);
}

#[test]
fn connection_values() {
    for (buf, expected) in [
        (&b"Connection: close\r\n\r\n"[..], Connection::Close),
        (&b"Connection: CLOSE\r\n\r\n"[..], Connection::Close),
        (&b"connection: Close;q=1\r\n\r\n"[..], Connection::Close),
        (&b"Connection: closed\r\n\r\n"[..], Connection::KeepAlive),
        (&b"Connection: keep-alive\r\n\r\n"[..], Connection::KeepAlive),
        (&b"Connection: clos\r\n\r\n"[..], Connection::KeepAlive),
        (&b"X-Connection: close\r\n\r\n"[..], Connection::KeepAlive),
    ] {
        let mut lines = RequestParser::split_buf_lines(buf);
        let found = HeaderParser::parse_headers(buf, &mut lines).unwrap();
        assert_eq!(found.options.connection, expected);
    }
}

#[test]
fn header_ranges_name_the_bytes() {
    let buf = b"Host: x\r\nEmpty: \r\n\r\nbody";
    let mut lines = RequestParser::split_buf_lines(buf);
    let found = HeaderParser::parse_headers(buf, &mut lines).unwrap();
    assert_eq!(found.size, 18);
    assert_eq!(found.headers, vec![((0, 4), (6, 7)), ((9, 14), (16, 16))]);
    assert!(found.options.has_host);
    assert_eq!(lines.next(), Some((20, 24)));
    assert_eq!(lines.next(), None);
}

#[test]
fn unfinished_last_line_is_never_a_header() {
    let buf = b"Host: x\r\nAccept: y\r";
    let mut lines = RequestParser::split_buf_lines(buf);
    let err = HeaderParser::parse_headers(buf, &mut lines).unwrap_err();
    assert_eq!(err, HeaderParseError::Incomplete);
}

#[test]
fn buffer_that_ends_after_a_line_stops_the_run() {
    let buf = b"Host: x\r\nAccept: y\r\n";
    let mut lines = RequestParser::split_buf_lines(buf);
    let found = HeaderParser::parse_headers(buf, &mut lines).unwrap();
    assert_eq!(found.size, 20);
    assert_eq!(found.headers.len(), 2);
    assert_eq!(lines.next(), None);
}
