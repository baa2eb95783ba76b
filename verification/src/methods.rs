//! The nine HTTP/1.1 request methods.

use crate::utils::bytes_eq;
use vstd::prelude::*;
use vstd::string::StringSliceAdditionalSpecFns;

verus! {

#[derive(Debug, Clone, Copy, PartialEq, Eq, Structural)]
pub enum HttpMethod {
    GET,
    HEAD,
    POST,
    PUT,
    DELETE,
    CONNECT,
    OPTIONS,
    TRACE,
    PATCH,
}

#[derive(Debug, Clone, Copy, PartialEq, Eq, Structural)]
pub enum HttpMethodError {
    InvalidMethod,
}

/// The method whose canonical name is exactly `bytes`; the match is
/// case-sensitive.
pub open spec fn spec_method_of(bytes: Seq<u8>) -> Result<HttpMethod, HttpMethodError> {
    if bytes == "GET".spec_bytes() {
        Ok(HttpMethod::GET)
    } else if bytes == "HEAD".spec_bytes() {
        Ok(HttpMethod::HEAD)
    } else if bytes == "POST".spec_bytes() {
        Ok(HttpMethod::POST)
    } else if bytes == "PUT".spec_bytes() {
        Ok(HttpMethod::PUT)
    } else if bytes == "DELETE".spec_bytes() {
        Ok(HttpMethod::DELETE)
    } else if bytes == "CONNECT".spec_bytes() {
        Ok(HttpMethod::CONNECT)
    } else if bytes == "OPTIONS".spec_bytes() {
        Ok(HttpMethod::OPTIONS)
    } else if bytes == "TRACE".spec_bytes() {
        Ok(HttpMethod::TRACE)
    } else if bytes == "PATCH".spec_bytes() {
        Ok(HttpMethod::PATCH)
    } else {
        Err(HttpMethodError::InvalidMethod)
    }
}

impl HttpMethod {
    /// The canonical name of the method.
    pub open spec fn spec_name(self) -> &'static str {
        match self {
            HttpMethod::GET => "GET",
            HttpMethod::HEAD => "HEAD",
            HttpMethod::POST => "POST",
            HttpMethod::PUT => "PUT",
            HttpMethod::DELETE => "DELETE",
            HttpMethod::CONNECT => "CONNECT",
            HttpMethod::OPTIONS => "OPTIONS",
            HttpMethod::TRACE => "TRACE",
            HttpMethod::PATCH => "PATCH",
        }
    }

    /// Classifies a method name given as text.
    pub fn from_str(slice: &str) -> (r: Result<HttpMethod, HttpMethodError>)
        ensures
            r == spec_method_of(slice.spec_bytes()),
    {
        HttpMethod::from_byte_slice(slice.as_bytes())
    }

    /// Classifies a method name given as bytes.
    pub fn from_byte_slice(slice: &[u8]) -> (r: Result<HttpMethod, HttpMethodError>)
        ensures
            r == spec_method_of(slice@),
    {
        if bytes_eq(slice, "GET".as_bytes()) {
            Ok(HttpMethod::GET)
        } else if bytes_eq(slice, "HEAD".as_bytes()) {
            Ok(HttpMethod::HEAD)
        } else if bytes_eq(slice, "POST".as_bytes()) {
            Ok(HttpMethod::POST)
        } else if bytes_eq(slice, "PUT".as_bytes()) {
            Ok(HttpMethod::PUT)
        } else if bytes_eq(slice, "DELETE".as_bytes()) {
            Ok(HttpMethod::DELETE)
        } else if bytes_eq(slice, "CONNECT".as_bytes()) {
            Ok(HttpMethod::CONNECT)
        } else if bytes_eq(slice, "OPTIONS".as_bytes()) {
            Ok(HttpMethod::OPTIONS)
        } else if bytes_eq(slice, "TRACE".as_bytes()) {
            Ok(HttpMethod::TRACE)
        } else if bytes_eq(slice, "PATCH".as_bytes()) {
            Ok(HttpMethod::PATCH)
        } else {
            Err(HttpMethodError::InvalidMethod)
        }
    }

    /// The canonical name of the method.
    pub fn to_str(&self) -> (r: &'static str)
        ensures
            r@ == self.spec_name()@,
    {
        match self {
            HttpMethod::GET => "GET",
            HttpMethod::HEAD => "HEAD",
            HttpMethod::POST => "POST",
            HttpMethod::PUT => "PUT",
            HttpMethod::DELETE => "DELETE",
            HttpMethod::CONNECT => "CONNECT",
            HttpMethod::OPTIONS => "OPTIONS",
            HttpMethod::TRACE => "TRACE",
            HttpMethod::PATCH => "PATCH",
        }
    }
}

/// Names and methods correspond: the name of a method is classified as
/// that method, so that no two methods share a name.
pub proof fn lemma_name_gives_method(method: HttpMethod)
    ensures
        spec_method_of(method.spec_name().spec_bytes()) == Ok::<HttpMethod, HttpMethodError>(
            method,
        ),
{
    reveal_strlit("GET");
    reveal_strlit("HEAD");
    reveal_strlit("POST");
    reveal_strlit("PUT");
    reveal_strlit("DELETE");
    reveal_strlit("CONNECT");
    reveal_strlit("OPTIONS");
    reveal_strlit("TRACE");
    reveal_strlit("PATCH");
    broadcast use vstd::string::is_ascii_spec_bytes;

    assert(vstd::string::is_ascii("GET"));
    assert(vstd::string::is_ascii("HEAD"));
    assert(vstd::string::is_ascii("POST"));
    assert(vstd::string::is_ascii("PUT"));
    assert(vstd::string::is_ascii("DELETE"));
    assert(vstd::string::is_ascii("CONNECT"));
    assert(vstd::string::is_ascii("OPTIONS"));
    assert(vstd::string::is_ascii("TRACE"));
    assert(vstd::string::is_ascii("PATCH"));
    assert("GET".spec_bytes()[0] == 71 && "PUT".spec_bytes()[0] == 80);
    assert("HEAD".spec_bytes()[0] == 72 && "POST".spec_bytes()[0] == 80);
    assert("CONNECT".spec_bytes()[0] == 67 && "OPTIONS".spec_bytes()[0] == 79);
    assert("TRACE".spec_bytes()[0] == 84 && "PATCH".spec_bytes()[0] == 80);
}

} // verus!
