use aou::response::{lookup, push_decimal, push_header, status_of, Response, ResponseBody};

fn pairs(list: &[(&str, &str)]) -> Vec<(String, String)> {
    list.iter().map(|(k, v)| (k.to_string(), v.to_string())).collect()
}

fn text(bytes: Vec<u8>) -> String {
    String::from_utf8(bytes).unwrap()
}

#[test]
fn default_response_on_the_wire() {
    let r = Response::default();
    assert_eq!(r.status, None);
    assert_eq!(r.status_code(), 200);
    assert_eq!(r.body, ResponseBody::Text(String::new()));
    assert_eq!(text(r.to_bytes(&Vec::new())), "HTTP/1.1 200 OK\r\nContent-Length: 0\r\n\r\n");
}

#[test]
fn response_with_headers_and_body() {
    let r = Response {
        status: Some(201),
        status_message: None,
        headers: Some(pairs(&[("Content-Type", "application/json"), ("X-Id", "7")])),
        body: ResponseBody::Text("{\"valid\":true}".to_string()),
    };
    assert_eq!(
        text(r.to_bytes(&Vec::new())),
        "HTTP/1.1 201 Created\r\nContent-Type: application/json\r\nX-Id: 7\r\nContent-Length: 14\r\n\r\n{\"valid\":true}"
    );
    assert_eq!(
        text(r.wire_head(&Vec::new())),
        "HTTP/1.1 201 Created\r\nContent-Type: application/json\r\nX-Id: 7\r\nContent-Length: 14\r\n\r\n"
    );
}

#[test]
fn bytes_body_and_own_reason() {
    let r = Response {
        status: Some(299),
        status_message: Some("Fine".to_string()),
        headers: None,
        body: ResponseBody::Bytes(vec![0, 159, 146, 150]),
    };
    let mut expected = b"HTTP/1.1 299 Fine\r\nContent-Length: 4\r\n\r\n".to_vec();
    expected.extend_from_slice(&[0, 159, 146, 150]);
    assert_eq!(r.to_bytes(&Vec::new()), expected);
    assert_eq!(r.body.as_bytes(), &[0, 159, 146, 150]);
}

#[test]
fn unknown_status_has_no_reason() {
    let r = Response { status: Some(299), ..Response::default() };
    assert_eq!(text(r.to_bytes(&Vec::new())), "HTTP/1.1 299 \r\nContent-Length: 0\r\n\r\n");
    let r = Response { status: Some(0), ..Response::default() };
    assert_eq!(text(r.to_bytes(&Vec::new())), "HTTP/1.1 0 \r\nContent-Length: 0\r\n\r\n");
    let r = Response { status: Some(65535), ..Response::default() };
    assert_eq!(text(r.to_bytes(&Vec::new())), "HTTP/1.1 65535 \r\nContent-Length: 0\r\n\r\n");
}

#[test]
fn static_headers_are_merged() {
    let statics = pairs(&[("Server", "aou"), ("X-Frame", "deny"), ("Content-Length", "99")]);
    let own = pairs(&[("x-frame", "allow"), ("Content-length", "1"), ("X-Own", "1")]);
    assert_eq!(
        text(Response::headers_buf(3, &statics, &own)),
        "Server: aou\r\nX-Frame: allow\r\nX-Own: 1\r\nContent-Length: 3\r\n"
    );
    assert_eq!(
        text(Response::headers_buf(0, &statics, &Vec::new())),
        "Server: aou\r\nX-Frame: deny\r\nContent-Length: 0\r\n"
    );
    assert_eq!(
        text(Response::headers_buf(12345, &Vec::new(), &own)),
        "x-frame: allow\r\nX-Own: 1\r\nContent-Length: 12345\r\n"
    );
    assert_eq!(text(Response::headers_buf(7, &Vec::new(), &Vec::new())), "Content-Length: 7\r\n");
}

#[test]
fn static_headers_in_the_wire_image() {
    let statics = pairs(&[("Server", "aou")]);
    let r = Response {
        status: Some(404),
        status_message: None,
        headers: Some(pairs(&[("server", "mine")])),
        body: ResponseBody::Text("no".to_string()),
    };
    assert_eq!(
        text(r.to_bytes(&statics)),
        "HTTP/1.1 404 Not Found\r\nServer: mine\r\nContent-Length: 2\r\n\r\nno"
    );
}

#[test]
fn status_messages() {
    for (code, phrase) in [
        (100, "Continue"),
        (101, "Switching Protocols"),
        (103, "Early Hints"),
        (200, "OK"),
        (204, "No Content"),
        (226, "IM Used"),
        (301, "Moved Permanently"),
        (308, "Permanent Redirect"),
        (400, "Bad Request"),
        (404, "Not Found"),
        (413, "Content Too Large"),
        (418, "I'm a teapot"),
        (451, "Unavailable For Legal Reasons"),
        (500, "Internal Server Error"),
        (505, "HTTP Version Not Supported"),
        (511, "Network Authentication Required"),
    ] {
        assert_eq!(Response::status_message(code), Some(phrase));
    }
    for code in [0, 99, 104, 199, 209, 305, 306, 309, 419, 420, 427, 430, 452, 509, 512, 600, 65535] {
        assert_eq!(Response::status_message(code), None);
    }
}

#[test]
fn decimal_digits() {
    for (n, digits) in [
        (0usize, "0"),
        (7, "7"),
        (10, "10"),
        (99, "99"),
        (100, "100"),
        (1234567890, "1234567890"),
        (usize::MAX, "18446744073709551615"),
    ] {
        let mut out = b"n=".to_vec();
        push_decimal(&mut out, n);
        assert_eq!(text(out), format!("n={digits}"));
    }
}

#[test]
fn header_line_and_lookup() {
    let mut out = Vec::new();
    push_header(&mut out, "Name", "the value");
    push_header(&mut out, "", "");
    assert_eq!(text(out), "Name: the value\r\n: \r\n");

    let list = pairs(&[("A", "1"), ("b", "2"), ("a", "3")]);
    assert_eq!(lookup(&list, "a"), Some(&"1".to_string()));
    assert_eq!(lookup(&list, "B"), Some(&"2".to_string()));
    assert_eq!(lookup(&list, "c"), None);
    assert_eq!(lookup(&Vec::new(), "a"), None);
}

#[test]
fn what_is_written_is_read_back() {
    let headers = pairs(&[("Host", "x"), ("Accept", "*/*"), ("X-Empty", "")]);
    let body = b"some body\r\nwith lines".to_vec();
    let written = Response::headers_buf(body.len(), &Vec::new(), &headers);
    let mut wire = b"GET / HTTP/1.1\r\n".to_vec();
    wire.extend_from_slice(&written);
    wire.extend_from_slice(b"\r\n");
    wire.extend_from_slice(&body);

    let status = aou::request::RequestParser::parse_request(
        wire.clone(),
        aou::request::ParserState::Start { read_until: None },
    );
    let result = match status {
        aou::request::ParserStatus::Success(result) => result,
        other => panic!("expected a complete request, got {other:?}"),
    };
    let read: Vec<(String, String)> = result
        .headers
        .iter()
        .map(|(k, v)| (text(wire[k.0..k.1].to_vec()), text(wire[v.0..v.1].to_vec())))
        .collect();
    let mut expected = headers.clone();
    expected.push(("Content-Length".to_string(), body.len().to_string()));
    assert_eq!(read, expected);
    assert_eq!(&wire[result.body.0..result.body.1], &body[..]);
}

#[test]
fn status_of_a_number() {
    assert_eq!(status_of(0), 0);
    assert_eq!(status_of(200), 200);
    assert_eq!(status_of(65535), 65535);
    assert_eq!(status_of(65536), 500);
    assert_eq!(status_of(u32::MAX), 500);
}
