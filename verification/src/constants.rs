//! Byte values with a meaning on the wire.

use vstd::prelude::*;

verus! {

/// Line feed, the byte that ends every line of a request.
pub const LF: u8 = 10;

/// Carriage return, the byte before the line feed.
pub const CR: u8 = 13;

/// The space that separates the tokens of the request line and follows a
/// header's colon.
pub const SP: u8 = 32;

/// Separates a header's name from its value.
pub const COLON: u8 = 58;

/// Separates the parameters that may follow a `Connection` token.
pub const SEMICOLON: u8 = 59;

/// Starts the query part of a path.
pub const QUESTION: u8 = 63;

/// Separates two pairs of a query.
pub const AMPERSAND: u8 = 38;

/// Separates key and value of a query pair.
pub const EQUALS: u8 = 61;

/// Horizontal tab.
pub const HT: u8 = 9;

/// Form feed.
pub const FF: u8 = 12;

/// The plus sign that may stand before the digits of a length.
pub const PLUS: u8 = 43;

/// The digit zero.
pub const ZERO: u8 = 48;

/// The digit nine.
pub const NINE: u8 = 57;

/// Opens a parameter in a route pattern.
pub const OPEN_BRACE: u8 = 123;

/// Length of the `CR LF` pair between the headers and the body.
pub const CRLF_SIZE: usize = 2;

} // verus!
