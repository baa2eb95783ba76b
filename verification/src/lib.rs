//! Core of an embeddable HTTP/1.1 server: an incremental request parser over
//! a single growing byte buffer, the decisions of the connection read loop,
//! and the construction of the response wire image.

pub mod constants;
pub mod methods;
pub mod utils;
pub mod request;
pub mod response;
pub mod route;
pub mod error;
pub mod server;
pub mod roundtrip;
