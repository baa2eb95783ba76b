use aou::methods::{HttpMethod, HttpMethodError};

const NAMES: [(&str, HttpMethod); 9] = [
    ("GET", HttpMethod::GET),
    ("HEAD", HttpMethod::HEAD),
    ("POST", HttpMethod::POST),
    ("PUT", HttpMethod::PUT),
    ("DELETE", HttpMethod::DELETE),
    ("CONNECT", HttpMethod::CONNECT),
    ("OPTIONS", HttpMethod::OPTIONS),
    ("TRACE", HttpMethod::TRACE),
    ("PATCH", HttpMethod::PATCH),
];

#[test]
fn every_name_gives_its_method() {
    for (name, method) in NAMES {
        assert_eq!(HttpMethod::from_str(name), Ok(method));
        assert_eq!(HttpMethod::from_byte_slice(name.as_bytes()), Ok(method));
    }
}

#[test]
fn every_method_gives_its_name() {
    for (name, method) in NAMES {
        assert_eq!(method.to_str(), name);
        assert_eq!(HttpMethod::from_str(method.to_str()), Ok(method));
    }
}

#[test]
fn method_names_are_case_sensitive() {
    for name in ["get", "Get", "gET", "patch", "Trace"] {
        assert_eq!(HttpMethod::from_str(name), Err(HttpMethodError::InvalidMethod));
        assert_eq!(
            HttpMethod::from_byte_slice(name.as_bytes()),
            Err(HttpMethodError::InvalidMethod)
        );
    }
}

#[test]
fn other_bytes_are_no_method() {
    for name in ["", " ", "GET ", " GET", "GETS", "GE", "FETCH", "G\u{e9}T"] {
        assert_eq!(HttpMethod::from_str(name), Err(HttpMethodError::InvalidMethod));
    }
    assert_eq!(
        HttpMethod::from_byte_slice(&[0xff, 0x00]),
        Err(HttpMethodError::InvalidMethod)
    );
}
