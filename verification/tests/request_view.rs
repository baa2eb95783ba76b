use aou::request::request::{insert, parse_query};
use aou::request::{
    Connection, HandleRequestError, ParserState, ParserStatus, Request, RequestHead,
    RequestOptions, RequestParser,
};

fn request(text: &[u8]) -> Request {
    match RequestParser::parse_request(text.to_vec(), ParserState::Start { read_until: None }) {
        ParserStatus::Success(result) => {
            assert!(result.is_within());
            result.into_request()
        }
        other => panic!("expected a complete request, got {other:?}"),
    }
}

fn pairs(list: &[(&str, &str)]) -> Vec<(String, String)> {
    list.iter().map(|(k, v)| (k.to_string(), v.to_string())).collect()
}

#[test]
fn texts_of_a_request() {
    let mut r = request(
        b"POST /users/7?full=1&sort HTTP/1.1\r\nHost: example.org\r\nContent-Length: 5\r\n\r\nhello",
    );
    assert_eq!(r.method(), "POST");
    assert_eq!(r.path(), "/users/7?full=1&sort");
    assert_eq!(r.http_version(), "HTTP/1.1");
    assert_eq!(r.body(), "hello");
    assert_eq!(r.body_bytes(), b"hello");
    assert_eq!(r.method_bytes(), b"POST");
    assert_eq!(r.route_path(), "/users/7");
    assert_eq!(r.get_connection(), &Connection::KeepAlive);
    assert_eq!(r.query, pairs(&[("full", "1"), ("sort", "")]));
    assert!(r.params.is_empty());
    // asked again, the texts are the same
    assert_eq!(r.method(), "POST");
    assert_eq!(r.path(), "/users/7?full=1&sort");
    assert_eq!(r.body(), "hello");
    assert_eq!(r.context, serde_json::Value::Object(serde_json::Map::new()));
}

#[test]
fn headers_as_a_map() {
    let mut r = request(b"GET / HTTP/1.1\r\nHost: a\r\nX-One: 1\r\nHost: b\r\nx-one: 2\r\n\r\n");
    let expected = pairs(&[("Host", "b"), ("X-One", "1"), ("x-one", "2")]);
    assert_eq!(r.headers(), &expected);
    assert_eq!(r.headers(), &expected);
}

#[test]
fn minimal_get_as_a_request() {
    let mut r = request(b"GET / HTTP/1.1\r\nHost: x\r\n\r\n");
    assert_eq!(r.method(), "GET");
    assert_eq!(r.path(), "/");
    assert_eq!(r.headers(), &pairs(&[("Host", "x")]));
    assert_eq!(r.body(), "");
    assert!(r.query.is_empty());
}

#[test]
fn bytes_that_are_no_text_are_replaced() {
    let mut r = request(b"GET /\xff HTTP/1.1\r\nHost: x\r\n\r\n");
    assert_eq!(r.path(), "/\u{fffd}");
    let mut r = request("GET /caf\u{e9} HTTP/1.1\r\nHost: x\r\n\r\n".as_bytes());
    assert_eq!(r.path(), "/caf\u{e9}");
}

#[test]
fn query_forms() {
    assert_eq!(parse_query(b"/p"), pairs(&[]));
    assert_eq!(parse_query(b""), pairs(&[]));
    assert_eq!(parse_query(b"/p?"), pairs(&[("", "")]));
    assert_eq!(parse_query(b"/p?a"), pairs(&[("a", "")]));
    assert_eq!(parse_query(b"/p?a="), pairs(&[("a", "")]));
    assert_eq!(parse_query(b"/p?=b"), pairs(&[("", "b")]));
    assert_eq!(parse_query(b"/p?a=b=c"), pairs(&[("a", "b=c")]));
    assert_eq!(parse_query(b"/p?a=1&b=2"), pairs(&[("a", "1"), ("b", "2")]));
    assert_eq!(parse_query(b"/p?a=1&&b=2&"), pairs(&[("a", "1"), ("", ""), ("b", "2")]));
    assert_eq!(parse_query(b"/p?a=1&b=2&a=3"), pairs(&[("a", "3"), ("b", "2")]));
    assert_eq!(parse_query(b"/p?a=%20b?c"), pairs(&[("a", "%20b?c")]));
    assert_eq!(parse_query(b"?x=y"), pairs(&[("x", "y")]));
}

#[test]
fn insert_sets_or_adds() {
    let mut list = pairs(&[("a", "1"), ("b", "2")]);
    insert(&mut list, "b".to_string(), "3".to_string());
    assert_eq!(list, pairs(&[("a", "1"), ("b", "3")]));
    insert(&mut list, "c".to_string(), "4".to_string());
    assert_eq!(list, pairs(&[("a", "1"), ("b", "3"), ("c", "4")]));
    insert(&mut list, "a".to_string(), "5".to_string());
    assert_eq!(list, pairs(&[("a", "5"), ("b", "3"), ("c", "4")]));
}

#[test]
fn from_string_parses_or_says_why_not() {
    let mut r = Request::from_string("GET /x?y=z HTTP/1.1\r\nHost: h\r\n\r\n".to_string()).unwrap();
    assert_eq!(r.path(), "/x?y=z");
    assert_eq!(r.query, pairs(&[("y", "z")]));

    let r = Request::from_string("GET /x HTTP/1.1\r\nHost: h\r\n".to_string());
    assert!(matches!(r, Err(HandleRequestError::EOF)));

    let r = Request::from_string("GET /x HTTP/2\r\nHost: h\r\n\r\n".to_string());
    assert!(
        matches!(r, Err(HandleRequestError::Invalid(reason)) if reason == "HTTP Version Not supported")
    );

    let r = Request::from_string("GET /x HTTP/1.1\r\nAccept: h\r\n\r\n".to_string());
    assert!(matches!(r, Err(HandleRequestError::Invalid(reason)) if reason == "missing Host"));
}

#[test]
fn new_and_default() {
    let mut r = Request::new(
        b"PUT /a".to_vec(),
        RequestHead { method: (0, 3), path: (4, 6), http_version: (6, 6) },
        Vec::new(),
        (6, 6),
        pairs(&[("q", "1")]),
        pairs(&[("id", "2")]),
        RequestOptions { connection: Connection::Close },
    );
    assert_eq!(r.method(), "PUT");
    assert_eq!(r.path(), "/a");
    assert_eq!(r.http_version(), "");
    assert_eq!(r.body(), "");
    assert!(r.headers().is_empty());
    assert_eq!(r.query, pairs(&[("q", "1")]));
    assert_eq!(r.params, pairs(&[("id", "2")]));
    assert_eq!(r.get_connection(), &Connection::Close);
    assert_eq!(r.head().path, (4, 6));
    r.set_params(pairs(&[("id", "3")]));
    assert_eq!(r.params, pairs(&[("id", "3")]));

    let mut d = Request::default();
    assert_eq!(d.method(), "");
    assert_eq!(d.path(), "");
    assert_eq!(d.body(), "");
    assert_eq!(d.get_connection(), &Connection::KeepAlive);
    assert!(d.query.is_empty() && d.params.is_empty());
}
