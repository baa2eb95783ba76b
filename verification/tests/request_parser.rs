use aou::request::{ParserResult, ParserState, ParserStatus, RequestParseResult, RequestParser};

fn start() -> ParserState {
    ParserState::Start { read_until: None }
}

#[test]
fn parser_parser_invalid_header_error() {
    let buf = b"GET /server_error123 HTTP/1.1\r\nHost: localhost:7070\r\nUser-Agent:";

    let parse = ParserResult::parse_request(buf.into(), ParserState::Start { read_until: None });

    assert!(
        !parse.is_success(),
        "Parser should return a Invalid Header Error"
    );
}

#[test]
fn parser_invalid_http_version() {
    let buf =
        b"GET / HTTP/1.0\r\nHost: localhost:3000\r\nThe empty line before the body is missing";

    let parse = ParserResult::parse_request(buf.into(), ParserState::Start { read_until: None });

    assert!(
        !parse.is_success(),
        "Parse should return a Invalid HTTP Version Error Result"
    );
}

#[test]
fn parser_invalid_header_whitespace() {
    let buf =
        b"GET / HTTP/1.1\r\nHost: localhost:3000\r\nx-custom-header:invalid\r\nThe empty line before the body is missing";

    let parse = ParserResult::parse_request(buf.into(), ParserState::Start { read_until: None });

    assert!(!parse.is_success(), "Parse should return a Invalid HEADER");
}

#[test]
fn parser_invalid_header_termination() {
    let buf =
        b"GET / HTTP/1.1\r\nHost: localhost:3000\r\nThe empty line before the body is missing";

    let parse = ParserResult::parse_request(buf.into(), ParserState::Start { read_until: None });

    assert!(
        parse.is_incomplete(),
        "Parse should return incomplete since it's not sure it's the end of the headers"
    );
}

#[test]
fn parser_respect_content_length() {
    let buf =
        b"POST / HTTP/1.1\r\nHost: localhost:3000\r\nContent-Length: 14\r\n\r\n{\"valid\":true}";

    let parse = ParserResult::parse_request(buf.into(), ParserState::Start { read_until: None });

    assert!(
        parse.is_success(),
        "This request should be considered complete"
    );
}

#[test]
fn parser_respect_content_length_incomplete() {
    let buf = b"POST / HTTP/1.1\r\nHost: localhost:3000\r\nContent-Length: 14\r\n\r\n{\"vali";

    let parse = ParserResult::parse_request(buf.into(), ParserState::Start { read_until: None });

    assert!(
        parse.is_incomplete(),
        "Request body is smaller than the content-length"
    );
}

#[test]
fn invalid_head_version() {
    let buf = b"POST / HTTP/1.0\r\nHost: localhost:3000\r\nContent-Length: 14\r\n\r\n{\"vali";

    let parse = RequestParser::parse_request(buf.into(), ParserState::Start { read_until: None });

    assert!(parse.is_invalid(), "Header should be invalid");
}

#[test]
fn mod_parser_invalid_header_error() {
    let buf = b"GET /server_error123 HTTP/1.1\r\nHost: localhost:7070\r\nUser-Agent:";

    let parse = RequestParser::parse_request(buf.into(), ParserState::Start { read_until: None });

    assert!(
        !parse.is_success(),
        "Parser should return a Invalid Header Error"
    );
}

#[test]
fn mod_invalid_http_version() {
    let buf =
        b"GET / HTTP/1.0\r\nHost: localhost:3000\r\nThe empty line before the body is missing";

    let parse = RequestParser::parse_request(buf.into(), ParserState::Start { read_until: None });

    assert!(
        !parse.is_success(),
        "Parse should return a Invalid HTTP Version Error Result"
    );
}

#[test]
fn mod_invalid_header_whitespace() {
    let buf =
        b"GET / HTTP/1.1\r\nHost: localhost:3000\r\nx-custom-header:invalid\r\nThe empty line before the body is missing";

    let parse = RequestParser::parse_request(buf.into(), ParserState::Start { read_until: None });

    assert!(!parse.is_success(), "Parse should return a Invalid HEADER");
}

#[test]
fn mod_invalid_header_termination() {
    let buf =
        b"GET / HTTP/1.1\r\nHost: localhost:3000\r\nThe empty line before the body is missing";

    let parse = RequestParser::parse_request(buf.into(), ParserState::Start { read_until: None });

    assert!(
        parse.is_incomplete(),
        "Parse should return incomplete since it's not sure it's the end of the headers"
    );
}

#[test]
fn mod_respect_content_length() {
    let buf =
        b"POST / HTTP/1.1\r\nHost: localhost:3000\r\nContent-Length: 14\r\n\r\n{\"valid\":true}";

    let parse = RequestParser::parse_request(buf.into(), ParserState::Start { read_until: None });

    assert!(
        parse.is_success(),
        "This request should be considered complete"
    );
}

#[test]
fn mod_respect_content_length_incomplete() {
    let buf = b"POST / HTTP/1.1\r\nHost: localhost:3000\r\nContent-Length: 14\r\n\r\n{\"vali";

    let parse = RequestParser::parse_request(buf.into(), ParserState::Start { read_until: None });

    assert!(
        parse.is_incomplete(),
        "Request body is smaller than the content-length"
    );
}

fn success(status: ParserStatus) -> aou::request::ParserResult {
    match status {
        ParserStatus::Success(result) => result,
        other => panic!("expected a complete request, got {other:?}"),
    }
}

fn incomplete(status: ParserStatus) -> (Vec<u8>, ParserState) {
    match status {
        ParserStatus::Incomplete(pair) => pair,
        other => panic!("expected an incomplete request, got {other:?}"),
    }
}

fn invalid(status: ParserStatus) -> String {
    match status {
        ParserStatus::Invalid(reason) => reason,
        other => panic!("expected a refused request, got {other:?}"),
    }
}

#[test]
fn both_names_are_the_same_parser() {
    let status: RequestParseResult = ParserResult::parse_request(
        b"GET / HTTP/1.1\r\nHost: x\r\n\r\n".to_vec(),
        ParserState::Start { read_until: None },
    );
    assert!(status.is_success() && !status.is_incomplete() && !status.is_invalid());
}

#[test]
fn minimal_get() {
    let buf = b"GET / HTTP/1.1\r\nHost: x\r\n\r\n".to_vec();
    let r = success(RequestParser::parse_request(buf.clone(), start()));
    assert_eq!(r.buf, buf);
    assert_eq!(&buf[r.head.method.0..r.head.method.1], b"GET");
    assert_eq!(&buf[r.head.path.0..r.head.path.1], b"/");
    assert_eq!(&buf[r.head.http_version.0..r.head.http_version.1], b"HTTP/1.1");
    assert_eq!(r.head.method, (0, 3));
    assert_eq!(r.head.path, (4, 5));
    assert_eq!(r.head.http_version, (6, 14));
    assert_eq!(r.headers, vec![((16, 20), (22, 23))]);
    assert_eq!(&buf[16..20], b"Host");
    assert_eq!(&buf[22..23], b"x");
    assert_eq!(r.body, (25, 25));
    assert!(r.header_options.has_host);
    assert_eq!(r.header_options.content_length, None);
    assert_eq!(r.header_options.connection, aou::request::Connection::KeepAlive);
}

#[test]
fn split_head() {
    let first = b"GET /a HTTP/1.1\r\nHost: x\r\nUser-Agent:".to_vec();
    let (mut buf, state) = incomplete(RequestParser::parse_request(first, start()));
    match &state {
        ParserState::Head { cursor, read_until, head } => {
            assert_eq!(*cursor, 17);
            assert_eq!(*read_until, 37);
            assert_eq!(head.path, (4, 6));
        }
        other => panic!("expected the head state, got {other:?}"),
    }
    buf.extend_from_slice(b" curl\r\n\r\n");
    let r = success(RequestParser::parse_request(buf.clone(), state));
    assert_eq!(r.headers.len(), 2);
    let (name, value) = r.headers[1];
    assert_eq!(&buf[name.0..name.1], b"User-Agent");
    assert_eq!(&buf[value.0..value.1], b"curl");
    assert_eq!(r.body, (44, 44));
}

#[test]
fn post_with_content_length() {
    let buf = b"POST /c HTTP/1.1\r\nHost: x\r\nContent-Length: 14\r\n\r\n{\"valid\":true}".to_vec();
    let r = success(RequestParser::parse_request(buf.clone(), start()));
    assert_eq!(&buf[r.body.0..r.body.1], b"{\"valid\":true}");
    assert_eq!(r.body, (49, 63));
    assert_eq!(r.header_options.content_length, Some(14));
}

#[test]
fn incomplete_body() {
    let buf = b"POST / HTTP/1.1\r\nHost: x\r\nContent-Length: 14\r\n\r\n{\"vali".to_vec();
    let (back, state) = incomplete(RequestParser::parse_request(buf.clone(), start()));
    assert_eq!(back, buf);
    match state {
        ParserState::Headers { cursor, read_until, headers, header_options, .. } => {
            assert_eq!(cursor, 46);
            assert_eq!(read_until, buf.len());
            assert_eq!(headers.len(), 2);
            assert_eq!(header_options.content_length, Some(14));
        }
        other => panic!("expected the headers state, got {other:?}"),
    }
}

#[test]
fn body_arrives_later() {
    let buf = b"POST / HTTP/1.1\r\nHost: x\r\nContent-Length: 14\r\n\r\n{\"vali".to_vec();
    let (mut buf, state) = incomplete(RequestParser::parse_request(buf, start()));
    buf.extend_from_slice(b"d\":true}");
    let r = success(RequestParser::parse_request(buf.clone(), state));
    assert_eq!(&buf[r.body.0..r.body.1], b"{\"valid\":true}");
    assert_eq!(r.headers.len(), 2);
}

#[test]
fn body_longer_than_its_length_is_cut() {
    let buf = b"POST / HTTP/1.1\r\nHost: x\r\nContent-Length: 2\r\n\r\nabcdef".to_vec();
    let r = success(RequestParser::parse_request(buf.clone(), start()));
    assert_eq!(&buf[r.body.0..r.body.1], b"ab");
}

#[test]
fn bad_version() {
    let buf = b"GET / HTTP/1.0\r\nHost: x\r\n\r\n".to_vec();
    let reason = invalid(RequestParser::parse_request(buf, start()));
    assert_eq!(reason, "HTTP Version Not supported");
}

#[test]
fn missing_host() {
    let buf = b"GET / HTTP/1.1\r\nX: y\r\n\r\n".to_vec();
    let reason = invalid(RequestParser::parse_request(buf, start()));
    assert_eq!(reason, "missing Host");
}

#[test]
fn missing_host_is_not_judged_before_the_headers_end() {
    let buf = b"GET / HTTP/1.1\r\nX: y\r\n".to_vec();
    let (mut buf, state) = incomplete(RequestParser::parse_request(buf, start()));
    assert!(matches!(state, ParserState::Headers { cursor: 22, .. }));
    buf.extend_from_slice(b"Host: x\r\n\r\n");
    let r = success(RequestParser::parse_request(buf, state));
    assert_eq!(r.headers.len(), 2);
    assert!(r.header_options.has_host);
}

#[test]
fn empty_buffer_is_incomplete() {
    let (buf, state) = incomplete(RequestParser::parse_request(Vec::new(), start()));
    assert!(buf.is_empty());
    assert!(matches!(state, ParserState::Start { read_until: Some(0) }));
}

#[test]
fn head_without_line_feed_is_incomplete() {
    for text in [&b"GET"[..], b"GET / HT", b"GET / HTTP/1.0", b"GET / HTTP/1.1\r"] {
        let (_, state) = incomplete(RequestParser::parse_request(text.to_vec(), start()));
        assert!(matches!(state, ParserState::Start { read_until: Some(n) } if n == text.len()));
    }
}

#[test]
fn head_defects_that_ask_for_more() {
    for text in [
        &b"FETCH / HTTP/1.1\r\nHost: x\r\n\r\n"[..],
        b"get / HTTP/1.1\r\nHost: x\r\n\r\n",
        b" / HTTP/1.1\r\nHost: x\r\n\r\n",
        b"GET\r\nHost: x\r\n\r\n",
        b"GET  HTTP/1.1\r\nHost: x\r\n\r\n",
        b"GET /\r\nHost: x\r\n\r\n",
    ] {
        let (_, state) = incomplete(RequestParser::parse_request(text.to_vec(), start()));
        assert!(matches!(state, ParserState::Start { .. }));
    }
}

#[test]
fn head_with_a_fourth_part_is_refused() {
    for text in [
        &b"GET / HTTP/1.1 x\r\nHost: x\r\n\r\n"[..],
        b"GET / HTTP/1.1\r x\nHost: x\r\n\r\n",
        b"GET / HTTP/1.1\nHost: x\r\n\r\n",
        b"GET / \r\nHost: x\r\n\r\n",
        b"GET / http/1.1\r\nHost: x\r\n\r\n",
    ] {
        let reason = invalid(RequestParser::parse_request(text.to_vec(), start()));
        assert_eq!(reason, "HTTP Version Not supported");
    }
}

#[test]
fn every_method_is_accepted() {
    for method in ["GET", "HEAD", "POST", "PUT", "DELETE", "CONNECT", "OPTIONS", "TRACE", "PATCH"] {
        let text = format!("{method} /x HTTP/1.1\r\nHost: x\r\n\r\n");
        let r = success(RequestParser::parse_request(text.clone().into_bytes(), start()));
        assert_eq!(&text.as_bytes()[r.head.method.0..r.head.method.1], method.as_bytes());
    }
}

#[test]
fn headers_end_needs_its_line_feed() {
    let buf = b"GET / HTTP/1.1\r\nHost: x\r\n\r".to_vec();
    let (mut buf, state) = incomplete(RequestParser::parse_request(buf, start()));
    assert!(matches!(state, ParserState::Headers { cursor: 25, read_until: 26, .. }));
    buf.extend_from_slice(b"\n");
    let r = success(RequestParser::parse_request(buf, state));
    assert_eq!(r.body, (25, 25));
}

#[test]
fn resumed_headers_are_merged() {
    let buf = b"GET / HTTP/1.1\r\nHost: x\r\nContent-Length: 3\r\n".to_vec();
    let (mut buf, state) = incomplete(RequestParser::parse_request(buf, start()));
    buf.extend_from_slice(b"Connection: close\r\nContent-Length: 9\r\n\r\nabc");
    let r = success(RequestParser::parse_request(buf.clone(), state));
    assert_eq!(r.headers.len(), 4);
    assert_eq!(r.header_options.content_length, Some(3));
    assert_eq!(r.header_options.connection, aou::request::Connection::Close);
    assert!(r.header_options.has_host);
    assert_eq!(&buf[r.body.0..r.body.1], b"abc");
}

#[test]
fn a_failed_continuation_goes_back_to_the_head() {
    let buf = b"GET / HTTP/1.1\r\nHost: x\r\n".to_vec();
    let (mut buf, state) = incomplete(RequestParser::parse_request(buf, start()));
    assert!(matches!(state, ParserState::Headers { cursor: 25, .. }));
    buf.extend_from_slice(b"Accept");
    let (mut buf, state) = incomplete(RequestParser::parse_request(buf, state));
    match &state {
        ParserState::Head { cursor, read_until, .. } => {
            assert_eq!(*cursor, 16);
            assert_eq!(*read_until, 31);
        }
        other => panic!("expected the head state, got {other:?}"),
    }
    buf.extend_from_slice(b": */*\r\n\r\n");
    let r = success(RequestParser::parse_request(buf, state));
    assert_eq!(r.headers.len(), 2);
}

#[test]
fn any_chunking_gives_the_same_request() {
    let whole = b"POST /c?x=1 HTTP/1.1\r\nHost: x\r\nContent-Length: 5\r\nConnection: close\r\n\r\nhello".to_vec();
    let expected = success(RequestParser::parse_request(whole.clone(), start()));
    for step in 1..whole.len() {
        let mut buf = Vec::new();
        let mut state = start();
        let mut fed = 0;
        let result = loop {
            let upto = usize::min(fed + step, whole.len());
            buf.extend_from_slice(&whole[fed..upto]);
            fed = upto;
            match RequestParser::parse_request(buf, state) {
                ParserStatus::Success(r) => break r,
                ParserStatus::Incomplete((b, s)) => {
                    assert!(fed < whole.len(), "incomplete on the whole request, step {step}");
                    assert_eq!(s.read_until(), b.len());
                    buf = b;
                    state = s;
                }
                ParserStatus::Invalid(reason) => panic!("refused at step {step}: {reason}"),
            }
        };
        assert_eq!(fed, whole.len());
        assert_eq!(result.head, expected.head);
        assert_eq!(result.headers, expected.headers);
        assert_eq!(result.body, expected.body);
        assert_eq!(result.header_options, expected.header_options);
    }
}

#[test]
fn ranges_lie_inside_the_buffer() {
    let buf = b"PUT /p HTTP/1.1\r\nHost: h\r\nA: b\r\nContent-Length: 1\r\n\r\nZ".to_vec();
    let r = success(RequestParser::parse_request(buf.clone(), start()));
    let n = buf.len();
    for (s, e) in [r.head.method, r.head.path, r.head.http_version, r.body] {
        assert!(s <= e && e <= n);
    }
    for (name, value) in &r.headers {
        assert!(name.0 <= name.1 && name.1 <= value.0 && value.0 <= value.1 && value.1 <= n);
    }
}
