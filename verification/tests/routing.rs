//! Pattern matching, registration, and full dispatch scenarios.

use http_server::file_manager::FileManagerError;
use http_server::handler::HandlerPattern;
use http_server::handlers::{handle_echo, handle_file_read, handle_file_write, handle_root,
    handle_user_agent};
use http_server::request::Request;
use http_server::response::ResponseBuilder;
use http_server::server::{Outcome, ServerHTTP};

const ROOT: usize = 0;
const ECHO: usize = 1;
const USER_AGENT: usize = 2;
const FILES_GET: usize = 3;
const FILES_POST: usize = 4;

fn demo_server() -> ServerHTTP {
    let mut server = ServerHTTP::default();
    server.handle_fn(b"GET", b"/", ROOT);
    server.handle_fn(b"GET", b"/echo/{str}", ECHO);
    server.handle_fn(b"GET", b"/user-agent", USER_AGENT);
    server.handle_fn(b"GET", b"/files/{filename}", FILES_GET);
    server.handle_fn(b"POST", b"/files/{filename}", FILES_POST);
    server
}

fn starts_with(haystack: &[u8], prefix: &[u8]) -> bool {
    haystack.len() >= prefix.len() && &haystack[..prefix.len()] == prefix
}

fn contains(haystack: &[u8], needle: &[u8]) -> bool {
    if needle.is_empty() {
        return true;
    }
    if haystack.len() < needle.len() {
        return false;
    }
    (0..=haystack.len() - needle.len()).any(|i| &haystack[i..i + needle.len()] == needle)
}

#[test]
fn param_extraction_binds_segment() {
    let mut req = Request::parse(b"GET /echo/hello HTTP/1.1\r\n\r\n").unwrap();
    assert!(req.method_and_pattern_matches(b"GET", b"/echo/{str}"));
    assert_eq!(req.path_params.get(b"str"), Some(b"hello".to_vec()));
}

#[test]
fn method_mismatch_rejects() {
    let mut req = Request::parse(b"POST /echo/hello HTTP/1.1\r\n\r\n").unwrap();
    assert!(!req.method_and_pattern_matches(b"GET", b"/echo/{str}"));
    assert_eq!(req.path_params.get(b"str"), None);
}

#[test]
fn segment_count_mismatch_rejects() {
    let mut req = Request::parse(b"GET /echo/a/b HTTP/1.1\r\n\r\n").unwrap();
    assert!(!req.method_and_pattern_matches(b"GET", b"/echo/{str}"));
}

#[test]
fn literal_mismatch_rejects_and_clears_params() {
    let mut req = Request::parse(b"GET /files/x.txt HTTP/1.1\r\n\r\n").unwrap();
    assert!(!req.method_and_pattern_matches(b"GET", b"/{kind}/nope"));
    assert_eq!(req.path_params.get(b"kind"), None);
}

#[test]
fn root_pattern_matches_only_root() {
    let pattern = HandlerPattern::new(b"GET".to_vec(), b"/".to_vec());
    let root = Request::parse(b"GET / HTTP/1.1\r\n\r\n").unwrap();
    let other = Request::parse(b"GET /anything HTTP/1.1\r\n\r\n").unwrap();
    assert!(pattern.contains_pattern(&root));
    assert!(!pattern.contains_pattern(&other));
    assert_eq!(pattern.get_method(), b"GET".to_vec());
    assert_eq!(pattern.get_path(), b"/".to_vec());
}

#[test]
fn registration_is_idempotent() {
    let mut server = ServerHTTP::default();
    server.handle_fn(b"GET", b"/x", 7);
    server.handle_fn(b"GET", b"/x", 8);
    match server.dispatch(b"GET /x HTTP/1.1\r\n\r\n") {
        Outcome::Invoke { handler, .. } => assert_eq!(handler, 7),
        Outcome::Reply(_) => panic!("expected a handler match"),
    }
}

#[test]
fn echo_round_trip() {
    let server = demo_server();
    match server.dispatch(b"GET /echo/abc123 HTTP/1.1\r\nHost: x\r\n\r\n") {
        Outcome::Invoke { request, response, handler } => {
            assert_eq!(handler, ECHO);
            let wire = handle_echo(&request, response);
            assert!(starts_with(&wire.head, b"HTTP/1.1 200 OK"));
            assert!(contains(&wire.head, b"Content-Type: text/plain"));
            assert!(contains(&wire.head, b"Content-Length: 6"));
            assert_eq!(wire.body, b"abc123".to_vec());
        },
        Outcome::Reply(_) => panic!("expected the echo handler"),
    }
}

#[test]
fn root_route_replies_empty_ok() {
    let server = demo_server();
    match server.dispatch(b"GET / HTTP/1.1\r\n\r\n") {
        Outcome::Invoke { response, handler, .. } => {
            assert_eq!(handler, ROOT);
            let wire = handle_root(response);
            assert_eq!(wire.head, b"HTTP/1.1 200 OK\r\n\r\n".to_vec());
            assert!(wire.body.is_empty());
        },
        Outcome::Reply(_) => panic!("expected the root handler"),
    }
}

#[test]
fn file_upload_reports_created() {
    let mut server = demo_server();
    server.set_public_folder(b"/tmp/pub");
    match server.dispatch(b"POST /files/test.txt HTTP/1.1\r\nContent-Length: 5\r\n\r\nhello") {
        Outcome::Invoke { request, response, handler } => {
            assert_eq!(handler, FILES_POST);
            assert_eq!(request.path_params.get(b"filename"), Some(b"test.txt".to_vec()));
            assert_eq!(request.body, b"hello".to_vec());
            assert_eq!(response.public_folder, Some(b"/tmp/pub".to_vec()));
            let wire = handle_file_write(response, Ok(()));
            assert!(starts_with(&wire.head, b"HTTP/1.1 201 Created"));
            assert!(wire.body.is_empty());
        },
        Outcome::Reply(_) => panic!("expected the upload handler"),
    }
}

#[test]
fn missing_file_reports_not_found() {
    let server = demo_server();
    match server.dispatch(b"GET /files/missing.txt HTTP/1.1\r\n\r\n") {
        Outcome::Invoke { response, handler, .. } => {
            assert_eq!(handler, FILES_GET);
            let wire = handle_file_read(response, Err(FileManagerError::NotFound));
            assert!(starts_with(&wire.head, b"HTTP/1.1 404 Not Found"));
            assert!(wire.body.is_empty());
        },
        Outcome::Reply(_) => panic!("expected the download handler"),
    }
}

#[test]
fn other_file_error_reports_server_error() {
    let res = ResponseBuilder::new();
    let wire = handle_file_read(res, Err(FileManagerError::Unknown("disk on fire".to_string())));
    assert!(starts_with(&wire.head, b"HTTP/1.1 500 Internal Server Error"));
    assert!(wire.body.is_empty());
}

#[test]
fn failed_write_reports_server_error() {
    let res = ResponseBuilder::new();
    let wire = handle_file_write(res, Err(FileManagerError::Unknown("no".to_string())));
    assert!(starts_with(&wire.head, b"HTTP/1.1 500 Internal Server Error"));
}

#[test]
fn unregistered_path_yields_not_found() {
    let server = demo_server();
    match server.dispatch(b"GET /nope HTTP/1.1\r\n\r\n") {
        Outcome::Reply(wire) => {
            assert_eq!(wire.head, b"HTTP/1.1 404 Not Found\r\n\r\n".to_vec());
            assert!(wire.body.is_empty());
        },
        Outcome::Invoke { .. } => panic!("nothing should match /nope"),
    }
}

#[test]
fn user_agent_is_echoed() {
    let server = demo_server();
    match server.dispatch(b"GET /user-agent HTTP/1.1\r\nUser-Agent: test-client\r\n\r\n") {
        Outcome::Invoke { request, response, handler } => {
            assert_eq!(handler, USER_AGENT);
            let wire = handle_user_agent(&request, response);
            assert!(starts_with(&wire.head, b"HTTP/1.1 200 OK"));
            assert_eq!(wire.body, b"test-client".to_vec());
        },
        Outcome::Reply(_) => panic!("expected the user-agent handler"),
    }
}

#[test]
fn missing_user_agent_yields_bad_request() {
    let server = demo_server();
    match server.dispatch(b"GET /user-agent HTTP/1.1\r\n\r\n") {
        Outcome::Invoke { request, response, .. } => {
            let wire = handle_user_agent(&request, response);
            assert!(starts_with(&wire.head, b"HTTP/1.1 400 Bad Request"));
            assert!(wire.body.is_empty());
        },
        Outcome::Reply(_) => panic!("expected the user-agent handler"),
    }
}

#[test]
fn malformed_request_yields_bad_request() {
    let server = demo_server();
    match server.dispatch(b"garbage") {
        Outcome::Reply(wire) => {
            assert_eq!(wire.head, b"HTTP/1.1 400 Bad Request\r\n\r\n".to_vec());
            assert!(wire.body.is_empty());
        },
        Outcome::Invoke { .. } => panic!("a malformed request must not match"),
    }
}

#[test]
fn not_found_reply_uses_request_version() {
    let server = ServerHTTP::default();
    match server.dispatch(b"GET /x HTTP/1.0\r\n\r\n") {
        Outcome::Reply(wire) => {
            assert_eq!(wire.head, b"HTTP/1.0 404 Not Found\r\n\r\n".to_vec());
        },
        Outcome::Invoke { .. } => panic!("the registry is empty"),
    }
}

#[test]
fn first_registered_match_wins() {
    let mut server = ServerHTTP::default();
    server.handle_fn(b"GET", b"/a/{x}", 1);
    server.handle_fn(b"GET", b"/a/b", 2);
    match server.dispatch(b"GET /a/b HTTP/1.1\r\n\r\n") {
        Outcome::Invoke { handler, .. } => assert_eq!(handler, 1),
        Outcome::Reply(_) => panic!("expected a match"),
    }
}
