//! Parsing, header handling, negotiation and response serialization.

use http_server::encoding::{CompressionSchema, CompressionSchemaError};
use http_server::file_manager::FileManager;
use http_server::request::{Request, RequestError};
use http_server::response::{ResponseBuilder, StatusCode};

fn contains(haystack: &[u8], needle: &[u8]) -> bool {
    if needle.is_empty() {
        return true;
    }
    if haystack.len() < needle.len() {
        return false;
    }
    (0..=haystack.len() - needle.len()).any(|i| &haystack[i..i + needle.len()] == needle)
}

#[test]
fn parse_simple_request() {
    let req = Request::parse(b"GET /echo/abc123 HTTP/1.1\r\nHost: x\r\n\r\n").unwrap();
    assert_eq!(req.method, b"GET".to_vec());
    assert_eq!(req.path, b"/echo/abc123".to_vec());
    assert_eq!(req.version, b"HTTP/1.1".to_vec());
    assert_eq!(req.headers.get(b"Host"), Some(b"x".to_vec()));
    assert_eq!(req.headers.len(), 1);
    assert_eq!(req.path_params.len(), 0);
    assert!(req.body.is_empty());
}

#[test]
fn parse_body_is_everything_after_blank_line() {
    let req =
        Request::parse(b"POST /files/test.txt HTTP/1.1\r\nContent-Length: 5\r\n\r\nhello").unwrap();
    assert_eq!(req.body, b"hello".to_vec());
}

#[test]
fn parse_without_delimiter_fails() {
    let err = Request::parse(b"GET / HTTP/1.1\r\n").unwrap_err();
    assert_eq!(err, RequestError::MissingDelimiter);
}

#[test]
fn parse_short_request_line_fails() {
    let err = Request::parse(b"GET\r\n\r\n").unwrap_err();
    assert_eq!(err, RequestError::BadRequestLine);
}

#[test]
fn parse_header_without_colon_fails() {
    let err = Request::parse(b"GET / HTTP/1.1\r\nNoColonHere\r\n\r\n").unwrap_err();
    assert_eq!(err, RequestError::BadHeaderLine);
}

#[test]
fn parse_replaces_invalid_utf8() {
    let mut raw = b"GET / HTTP/1.1\r\n\r\n".to_vec();
    raw.push(0xff);
    let req = Request::parse(&raw).unwrap();
    assert_eq!(req.body, vec![0xef, 0xbf, 0xbd]);
}

#[test]
fn header_values_are_trimmed() {
    let req = Request::parse(b"GET / HTTP/1.1\r\nX-Pad:   spaced \t \r\n\r\n").unwrap();
    assert_eq!(req.headers.get(b"X-Pad"), Some(b"spaced".to_vec()));
}

#[test]
fn duplicate_header_last_write_wins() {
    let req = Request::parse(b"GET / HTTP/1.1\r\nA: one\r\nA: two\r\n\r\n").unwrap();
    assert_eq!(req.headers.get(b"A"), Some(b"two".to_vec()));
}

#[test]
fn negotiation_keeps_client_order_and_drops_unknown() {
    let req = Request::parse(b"GET / HTTP/1.1\r\nAccept-Encoding: unknown, gzip\r\n\r\n").unwrap();
    assert_eq!(req.get_compression_schemas(), vec![CompressionSchema::Gzip]);
}

#[test]
fn negotiation_unknown_only_is_empty() {
    let req = Request::parse(b"GET / HTTP/1.1\r\nAccept-Encoding: unknown\r\n\r\n").unwrap();
    assert!(req.get_compression_schemas().is_empty());
}

#[test]
fn negotiation_without_header_is_empty() {
    let req = Request::parse(b"GET / HTTP/1.1\r\n\r\n").unwrap();
    assert!(req.get_compression_schemas().is_empty());
}

#[test]
fn scheme_from_token() {
    assert_eq!(CompressionSchema::from_token(b"gzip"), Ok(CompressionSchema::Gzip));
    assert_eq!(CompressionSchema::from_token(b"br"), Err(CompressionSchemaError::Unknown));
    assert_eq!(CompressionSchema::Gzip.canonical_name(), b"gzip".to_vec());
}

#[test]
fn empty_body_has_no_content_length() {
    let res = ResponseBuilder::new();
    let wire = res.send();
    assert_eq!(wire.head, b"HTTP/1.1 200 OK\r\n\r\n".to_vec());
    assert!(!contains(&wire.head, b"Content-Length"));
    assert!(wire.body.is_empty());
}

#[test]
fn nonempty_body_has_exact_content_length() {
    let res = ResponseBuilder::new();
    let wire = res.send_text(b"hello");
    assert!(contains(&wire.head, b"Content-Length: 5"));
    assert!(contains(&wire.head, b"Content-Type: text/plain"));
    assert_eq!(wire.body, b"hello".to_vec());
}

#[test]
fn status_codes_render_fixed_pairs() {
    assert_eq!(StatusCode::OK.render(), b"200 OK".to_vec());
    assert_eq!(StatusCode::Created.render(), b"201 Created".to_vec());
    assert_eq!(StatusCode::BadRequest.render(), b"400 Bad Request".to_vec());
    assert_eq!(StatusCode::NotFound.render(), b"404 Not Found".to_vec());
    assert_eq!(StatusCode::InternalServer.render(), b"500 Internal Server Error".to_vec());
}

#[test]
fn send_status_code_uses_request_version() {
    let mut res = ResponseBuilder::new();
    res.with_version(b"HTTP/1.0".to_vec());
    let wire = res.send_status_code(StatusCode::NotFound);
    assert_eq!(wire.head, b"HTTP/1.0 404 Not Found\r\n\r\n".to_vec());
}

#[test]
fn gzip_body_is_compressed_and_declared() {
    let text = b"hello hello hello hello hello hello";
    let mut res = ResponseBuilder::new();
    res.with_compression_schemas(vec![CompressionSchema::Gzip]);
    let wire = res.send_text(text);
    assert!(contains(&wire.head, b"Content-Encoding: gzip"));
    let expected_len = format!("Content-Length: {}", wire.body.len());
    assert!(contains(&wire.head, expected_len.as_bytes()));
    assert_ne!(wire.body, text.to_vec());
    let mut decoder = flate2::read::GzDecoder::new(wire.body.as_slice());
    let mut out = Vec::new();
    std::io::Read::read_to_end(&mut decoder, &mut out).unwrap();
    assert_eq!(out, text.to_vec());
}

#[test]
fn compress_round_trips_through_gzip() {
    let data = b"some data worth compressing".to_vec();
    let compressed = CompressionSchema::Gzip.compress(data.clone()).unwrap();
    let mut decoder = flate2::read::GzDecoder::new(compressed.as_slice());
    let mut out = Vec::new();
    std::io::Read::read_to_end(&mut decoder, &mut out).unwrap();
    assert_eq!(out, data);
}

#[test]
fn join_path_inserts_single_slash() {
    assert_eq!(FileManager::join_path(b"/tmp/pub", b"test.txt"), b"/tmp/pub/test.txt".to_vec());
}
