//! A minimal HTTP/1.1 server engine, verified with Verus.
//!
//! The engine works on raw bytes: it parses a request out of the bytes read
//! from a connection, matches it against registered method + path-template
//! patterns (with `{name}` parameter segments), negotiates response
//! compression from the `Accept-Encoding` header, and serializes a complete
//! HTTP/1.1 response.  All socket and file I/O stays outside this crate; the
//! library computes from plain values to plain values.

pub mod bytes;
pub mod tokens;
pub mod headers;
pub mod encoding;
pub mod request;
pub mod handler;
pub mod response;
pub mod server;
pub mod file_manager;
pub mod handlers;
