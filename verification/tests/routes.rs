use aou::methods::HttpMethod;
use aou::request::{HandleRequestError, ParserState, ParserStatus, Request, RequestParser};
use aou::route::Route;
use aou::server::{
    handler_failure, refusal_response, register, registered, serve, status_response, AouOptions,
    AouServer, Dispatch, HandlerFailure, RouteConflict, Target,
};

const METHODS: [HttpMethod; 9] = [
    HttpMethod::GET,
    HttpMethod::HEAD,
    HttpMethod::POST,
    HttpMethod::PUT,
    HttpMethod::DELETE,
    HttpMethod::CONNECT,
    HttpMethod::OPTIONS,
    HttpMethod::TRACE,
    HttpMethod::PATCH,
];

fn request(text: &[u8]) -> Request {
    match RequestParser::parse_request(text.to_vec(), ParserState::Start { read_until: None }) {
        ParserStatus::Success(result) => result.into_request(),
        other => panic!("expected a complete request, got {other:?}"),
    }
}

#[test]
fn a_route_keeps_one_value_for_each_method() {
    let mut route: Route<u32> = Route::default();
    assert!(!route.has_all());
    assert_eq!(route.get_all(), &None);
    for method in METHODS {
        assert!(!route.has_method(method));
        assert_eq!(route.get_method(method), &None);
        assert_eq!(route.serving(method), &None);
    }
    for (i, method) in METHODS.iter().enumerate() {
        route.set_method(*method, i as u32);
        for (j, other) in METHODS.iter().enumerate() {
            assert_eq!(route.has_method(*other), j <= i);
            assert_eq!(route.get_method(*other), &if j <= i { Some(j as u32) } else { None });
        }
        assert!(!route.has_all());
    }
    route.set_all(99);
    assert!(route.has_all());
    assert_eq!(route.get_all(), &Some(99));
    for (j, other) in METHODS.iter().enumerate() {
        assert_eq!(route.get_method(*other), &Some(j as u32));
    }
    route.set_method(HttpMethod::PUT, 50);
    assert_eq!(route.get_method(HttpMethod::PUT), &Some(50));
}

#[test]
fn all_serves_where_the_method_has_no_value() {
    let mut route: Route<&str> = Route::empty();
    route.set_all("any");
    route.set_method(HttpMethod::POST, "post");
    assert_eq!(route.serving(HttpMethod::POST), &Some("post"));
    assert_eq!(route.serving(HttpMethod::GET), &Some("any"));
    assert_eq!(route.get_method(HttpMethod::GET), &None);
}

#[test]
fn registered_never_replaces() {
    let empty: Route<usize> = Route::empty();
    let one = registered(empty, Target::Method(HttpMethod::GET), 1).unwrap();
    assert_eq!(one.get_method(HttpMethod::GET), &Some(1));
    assert_eq!(registered(one, Target::Method(HttpMethod::GET), 2).unwrap_err(), RouteConflict::Taken);
    let two = registered(one, Target::All, 2).unwrap();
    assert_eq!(two.get_all(), &Some(2));
    assert_eq!(two.get_method(HttpMethod::GET), &Some(1));
    assert_eq!(registered(two, Target::All, 3).unwrap_err(), RouteConflict::Taken);
    let three = registered(two, Target::Method(HttpMethod::PUT), 3).unwrap();
    assert_eq!(three.get_method(HttpMethod::PUT), &Some(3));
}

#[test]
fn register_by_what_the_router_answered() {
    let mut table: Vec<Route<usize>> = Vec::new();
    assert_eq!(register(&mut table, true, None, Target::Method(HttpMethod::GET), 10), Ok(()));
    assert_eq!(table.len(), 1);
    assert_eq!(table[0].get_method(HttpMethod::GET), &Some(10));

    assert_eq!(register(&mut table, false, Some(0), Target::Method(HttpMethod::POST), 11), Ok(()));
    assert_eq!(table.len(), 1);
    assert_eq!(table[0].get_method(HttpMethod::POST), &Some(11));

    assert_eq!(
        register(&mut table, false, Some(0), Target::Method(HttpMethod::POST), 12),
        Err(RouteConflict::Taken)
    );
    assert_eq!(table[0].get_method(HttpMethod::POST), &Some(11));
    assert_eq!(
        register(&mut table, false, Some(1), Target::All, 12),
        Err(RouteConflict::Refused)
    );
    assert_eq!(register(&mut table, false, None, Target::All, 12), Err(RouteConflict::Refused));
    assert_eq!(table.len(), 1);

    assert_eq!(register(&mut table, true, Some(0), Target::All, 13), Ok(()));
    assert_eq!(table.len(), 2);
    assert_eq!(table[1].get_all(), &Some(13));
}

#[test]
fn serve_by_what_the_router_found() {
    let mut route: Route<usize> = Route::empty();
    route.set_method(HttpMethod::GET, 1);
    let mut other: Route<usize> = Route::empty();
    other.set_all(2);
    let table = vec![route, other];
    let params = vec![("id".to_string(), "7".to_string())];

    assert_eq!(serve(&table, Some((0, params.clone())), HttpMethod::GET), Some((1, params.clone())));
    assert_eq!(serve(&table, Some((0, params.clone())), HttpMethod::POST), None);
    assert_eq!(serve(&table, Some((1, Vec::new())), HttpMethod::POST), Some((2, Vec::new())));
    assert_eq!(serve(&table, Some((2, Vec::new())), HttpMethod::GET), None);
    assert_eq!(serve(&table, None, HttpMethod::GET), None);
}

#[test]
fn routes_of_a_server() {
    let mut server = AouServer::new(None);
    assert_eq!(server.get_options(), AouOptions { tracing: None });
    assert_eq!(server.get("/home".to_string(), 1), Ok(()));
    assert_eq!(server.post("/home".to_string(), 2), Ok(()));
    assert_eq!(server.get("/users/{id}".to_string(), 3), Ok(()));
    assert_eq!(server.all("/users/{id}".to_string(), 4), Ok(()));

    assert_eq!(server.get("/home".to_string(), 9), Err(RouteConflict::Taken));
    assert_eq!(server.all("/users/{id}".to_string(), 9), Err(RouteConflict::Taken));
    // a pattern that the router takes for one it holds shares that route
    assert_eq!(server.get("/users/{name}".to_string(), 9), Err(RouteConflict::Taken));
    assert_eq!(server.put("/users/{name}".to_string(), 6), Ok(()));
    // a pattern that is no pattern, and that the router does not find
    assert_eq!(server.get("/a/{b".to_string(), 9), Err(RouteConflict::Refused));
    assert_eq!(server.all("/{*rest}".to_string(), 5), Ok(()));

    assert_eq!(server.match_route("/home", HttpMethod::GET), Some((1, Vec::new())));
    assert_eq!(server.match_route("/home", HttpMethod::POST), Some((2, Vec::new())));
    assert_eq!(server.match_route("/home", HttpMethod::PUT), None);
    let id = vec![("id".to_string(), "42".to_string())];
    assert_eq!(server.match_route("/users/42", HttpMethod::GET), Some((3, id.clone())));
    assert_eq!(server.match_route("/users/42", HttpMethod::PUT), Some((6, id.clone())));
    assert_eq!(server.match_route("/users/42", HttpMethod::DELETE), Some((4, id)));
    let rest = vec![("rest".to_string(), "a/b/c".to_string())];
    assert_eq!(server.match_route("/a/b/c", HttpMethod::TRACE), Some((5, rest)));
    assert_eq!(server.match_route("nothing", HttpMethod::GET), None);
}

#[test]
fn every_method_registers() {
    let mut server = AouServer::new(Some(AouOptions { tracing: Some(true) }));
    assert_eq!(server.get_options().tracing, Some(true));
    assert_eq!(server.get("/r".to_string(), 0), Ok(()));
    assert_eq!(server.head("/r".to_string(), 1), Ok(()));
    assert_eq!(server.post("/r".to_string(), 2), Ok(()));
    assert_eq!(server.put("/r".to_string(), 3), Ok(()));
    assert_eq!(server.delete("/r".to_string(), 4), Ok(()));
    assert_eq!(server.connect("/r".to_string(), 5), Ok(()));
    assert_eq!(server.options("/r".to_string(), 6), Ok(()));
    assert_eq!(server.trace("/r".to_string(), 7), Ok(()));
    assert_eq!(server.patch("/r".to_string(), 8), Ok(()));
    for (i, method) in METHODS.iter().enumerate() {
        assert_eq!(server.match_route("/r", *method), Some((i, Vec::new())));
    }
    assert_eq!(server.patch("/r".to_string(), 9), Err(RouteConflict::Taken));
    assert_eq!(
        server.insert("/r".to_string(), Target::Method(HttpMethod::GET), 9),
        Err(RouteConflict::Taken)
    );
    assert_eq!(server.insert("/r".to_string(), Target::All, 9), Ok(()));
}

#[test]
fn dispatch_of_a_request() {
    let mut server = AouServer::new(None);
    server.get("/users/{id}".to_string(), 3).unwrap();
    server.all("/any".to_string(), 4).unwrap();

    let mut r = request(b"GET /users/9?x=1 HTTP/1.1\r\nHost: h\r\n\r\n");
    assert!(matches!(server.dispatch(&mut r), Dispatch::Handler(3)));
    assert_eq!(r.params, vec![("id".to_string(), "9".to_string())]);

    let mut r = request(b"PATCH /any HTTP/1.1\r\nHost: h\r\n\r\n");
    assert!(matches!(server.dispatch(&mut r), Dispatch::Handler(4)));
    assert!(r.params.is_empty());

    let mut r = request(b"POST /users/9 HTTP/1.1\r\nHost: h\r\n\r\n");
    match server.dispatch(&mut r) {
        Dispatch::Respond(response) => {
            assert_eq!(response.status, Some(404));
            assert_eq!(
                String::from_utf8(response.to_bytes(&Vec::new())).unwrap(),
                "HTTP/1.1 404 Not Found\r\nContent-Length: 0\r\n\r\n"
            );
        }
        other => panic!("expected a response, got {other:?}"),
    }
    assert!(r.params.is_empty());

    let mut r = Request::new(
        b"FETCH /any".to_vec(),
        aou::request::RequestHead { method: (0, 5), path: (6, 10), http_version: (10, 10) },
        Vec::new(),
        (10, 10),
        Vec::new(),
        Vec::new(),
        aou::request::RequestOptions { connection: aou::request::Connection::KeepAlive },
    );
    match server.dispatch(&mut r) {
        Dispatch::Respond(response) => assert_eq!(response.status, Some(405)),
        other => panic!("expected a response, got {other:?}"),
    }
}

#[test]
fn responses_without_a_handler() {
    let r = refusal_response(&HandleRequestError::Invalid("HTTP Version Not supported".to_string()))
        .unwrap();
    assert_eq!(r.status, Some(505));
    assert_eq!(
        String::from_utf8(r.to_bytes(&Vec::new())).unwrap(),
        "HTTP/1.1 505 HTTP Version Not Supported\r\nContent-Length: 0\r\n\r\n"
    );
    for reason in ["missing Host", "incomplete twice", ""] {
        let r = refusal_response(&HandleRequestError::Invalid(reason.to_string())).unwrap();
        assert_eq!(r.status, Some(400));
    }
    assert_eq!(refusal_response(&HandleRequestError::Timeout), None);
    assert_eq!(refusal_response(&HandleRequestError::EOF), None);
    assert_eq!(refusal_response(&HandleRequestError::IOError("x".to_string())), None);
    assert_eq!(status_response(204).status, Some(204));
}

#[test]
fn failures_of_a_handler() {
    match handler_failure("boom".to_string()) {
        HandlerFailure::Respond(response) => {
            assert_eq!(response.status, Some(500));
            assert_eq!(
                String::from_utf8(response.to_bytes(&Vec::new())).unwrap(),
                "HTTP/1.1 500 Internal Server Error\r\nContent-Length: 4\r\n\r\nboom"
            );
        }
        other => panic!("expected a response, got {other:?}"),
    }
    match handler_failure("AouError: {\"status\":418}".to_string()) {
        HandlerFailure::Raised(payload) => assert_eq!(payload, b"{\"status\":418}"),
        other => panic!("expected the raised error, got {other:?}"),
    }
    assert!(matches!(handler_failure("AouError:".to_string()), HandlerFailure::Respond(_)));
    assert!(matches!(handler_failure("aouerror: {}".to_string()), HandlerFailure::Respond(_)));
    assert!(
        matches!(handler_failure("AouError: ".to_string()), HandlerFailure::Raised(p) if p.is_empty())
    );
}

fn pattern_of(params: usize) -> String {
    let mut pattern = String::new();
    for i in 0..params {
        pattern.push_str(&format!("/{{p{i}}}"));
    }
    pattern
}

#[test]
fn a_pattern_of_too_many_braces_is_refused() {
    let mut server = AouServer::new(None);
    assert_eq!(server.get(pattern_of(26), 1), Err(RouteConflict::Refused));
    assert_eq!(server.all(pattern_of(40), 1), Err(RouteConflict::Refused));
    assert_eq!(server.match_route("/x", HttpMethod::GET), None);
    assert_eq!(server.get(pattern_of(25), 2), Ok(()));
    let path: String = (0..25).map(|i| format!("/v{i}")).collect();
    let found = server.match_route(&path, HttpMethod::GET).unwrap();
    assert_eq!(found.0, 2);
    assert_eq!(found.1.len(), 25);
    assert_eq!(found.1[0], ("p0".to_string(), "v0".to_string()));
    assert_eq!(found.1[24], ("p24".to_string(), "v24".to_string()));
    // braces that open no parameter count as well
    let escaped = "/{{".repeat(13);
    assert_eq!(server.get(escaped, 3), Err(RouteConflict::Refused));
    assert_eq!(server.get("/{{".repeat(12), 3), Ok(()));
}

#[test]
fn the_empty_pattern_is_refused() {
    let mut server = AouServer::new(None);
    assert_eq!(server.get(String::new(), 1), Err(RouteConflict::Refused));
    assert_eq!(server.all(String::new(), 1), Err(RouteConflict::Refused));
    assert_eq!(server.match_route("", HttpMethod::GET), None);
    assert_eq!(server.get("/a/{id}".to_string(), 2), Ok(()));
    assert_eq!(server.match_route("/a/", HttpMethod::GET), None);
    assert_eq!(
        server.match_route("/a/7", HttpMethod::GET),
        Some((2, vec![("id".to_string(), "7".to_string())]))
    );
    assert_eq!(server.get(String::new(), 3), Err(RouteConflict::Refused));
}

#[test]
fn a_refused_pattern_leaves_the_routes_as_they_were() {
    let mut server = AouServer::new(None);
    assert_eq!(server.get("/x/{a}{b}".to_string(), 1), Err(RouteConflict::Refused));
    assert_eq!(server.match_route("/x/", HttpMethod::GET), None);
    assert_eq!(server.get("/x/".to_string(), 2), Ok(()));
    assert_eq!(server.get("/y".to_string(), 3), Ok(()));
    assert_eq!(server.post("/x/{a}{b}".to_string(), 4), Err(RouteConflict::Refused));
    assert_eq!(server.match_route("/x/", HttpMethod::GET), Some((2, Vec::new())));
    assert_eq!(server.match_route("/x/", HttpMethod::POST), None);
    assert_eq!(server.match_route("/y", HttpMethod::GET), Some((3, Vec::new())));
    assert_eq!(server.match_route("/x/q", HttpMethod::GET), None);
}

#[test]
fn counting_bytes() {
    assert_eq!(aou::utils::count_byte(b"", b'{'), 0);
    assert_eq!(aou::utils::count_byte(b"/{a}/{b}", b'{'), 2);
    assert_eq!(aou::utils::count_byte(b"{{{{", b'{'), 4);
    assert_eq!(aou::utils::count_byte(b"/a/b", b'{'), 0);
}
