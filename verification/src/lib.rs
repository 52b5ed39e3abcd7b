//! Request-execution core of a synchronous HTTP/1.1 client.
//!
//! Given a parsed request (method, URL parts, headers, timeouts, cookie jar)
//! the pipeline plans a transport connection, builds the request prelude,
//! interprets response heads to store cookies and follow redirects, and
//! frames the payload with fixed-length or chunked transfer coding.
//! All decisions are verified; socket, TLS and DNS work live outside.

pub mod conn;
pub mod cookies;
pub mod error;
pub mod header;
pub mod laws;
pub mod payload;
pub mod text;
pub mod urlinfo;
