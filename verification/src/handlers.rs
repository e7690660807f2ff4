//! The illustrative route handlers: the root route, the echo route, the
//! user-agent route, and the file routes.  Each is a pure function from the
//! request (and, for the file routes, the filesystem outcome) to the wire
//! response; the filesystem calls themselves happen outside the crate.

use vstd::prelude::*;
use crate::headers::lookup;
use crate::request::Request;
use crate::response::{ResponseBuilder, WireResponse, StatusCode, send_post};
use crate::file_manager::{ReadResult, FileManagerError};
use crate::tokens::{str_param, str_param_bytes, h_user_agent, h_user_agent_bytes, h_content_type,
    v_text_plain, v_octet_stream};
use crate::headers::spec_insert;

verus! {

/// `GET /`: send the builder as it stands (`200 OK`, empty body).
pub fn handle_root(res: ResponseBuilder) -> (r: WireResponse)
    ensures
        send_post(
            res.version_view(),
            res.status_view(),
            res.headers_view(),
            res.schemes_view(),
            res.body_view(),
            r.head@,
            r.body@,
        ),
{
    res.send()
}

/// `GET /echo/{str}`: reply with the bound `str` parameter as plain text
/// (empty if the binding is missing).
pub fn handle_echo(req: &Request, res: ResponseBuilder) -> (r: WireResponse)
    ensures
        send_post(
            res.version_view(),
            res.status_view(),
            spec_insert(res.headers_view(), h_content_type(), v_text_plain()),
            res.schemes_view(),
            match lookup(req.path_params@, str_param()) {
                Some(v) => v,
                None => Seq::empty(),
            },
            r.head@,
            r.body@,
        ),
{
    let key = str_param_bytes();
    match req.path_params.get(key.as_slice()) {
        Some(v) => res.send_text(v.as_slice()),
        None => {
            let empty: Vec<u8> = Vec::new();
            proof {
                assert(empty@ =~= Seq::<u8>::empty());
            }
            res.send_text(empty.as_slice())
        },
    }
}

/// `GET /user-agent`: reply with the `User-Agent` header as plain text, or
/// `400 Bad Request` (empty body) when the header is missing.
pub fn handle_user_agent(req: &Request, res: ResponseBuilder) -> (r: WireResponse)
    ensures
        match lookup(req.headers@, h_user_agent()) {
            Some(v) => send_post(
                res.version_view(),
                res.status_view(),
                spec_insert(res.headers_view(), h_content_type(), v_text_plain()),
                res.schemes_view(),
                v,
                r.head@,
                r.body@,
            ),
            None => send_post(
                res.version_view(),
                StatusCode::BadRequest,
                res.headers_view(),
                res.schemes_view(),
                res.body_view(),
                r.head@,
                r.body@,
            ),
        },
{
    let key = h_user_agent_bytes();
    match req.headers.get(key.as_slice()) {
        Some(v) => res.send_text(v.as_slice()),
        None => res.send_status_code(StatusCode::BadRequest),
    }
}

/// `GET /files/{filename}`, given the read outcome: the file's bytes as an
/// octet stream on success, `404 Not Found` when the file is absent, `500
/// Internal Server Error` on any other failure.
pub fn handle_file_read(res: ResponseBuilder, outcome: Result<ReadResult, FileManagerError>) -> (r:
    WireResponse)
    ensures
        match outcome {
            Ok(rr) => send_post(
                res.version_view(),
                res.status_view(),
                spec_insert(res.headers_view(), h_content_type(), v_octet_stream()),
                res.schemes_view(),
                rr.content@,
                r.head@,
                r.body@,
            ),
            Err(FileManagerError::NotFound) => send_post(
                res.version_view(),
                StatusCode::NotFound,
                res.headers_view(),
                res.schemes_view(),
                res.body_view(),
                r.head@,
                r.body@,
            ),
            Err(FileManagerError::Unknown(_)) => send_post(
                res.version_view(),
                StatusCode::InternalServer,
                res.headers_view(),
                res.schemes_view(),
                res.body_view(),
                r.head@,
                r.body@,
            ),
        },
{
    match outcome {
        Ok(rr) => res.send_file(rr.content.as_slice()),
        Err(FileManagerError::NotFound) => res.send_status_code(StatusCode::NotFound),
        Err(FileManagerError::Unknown(_)) => res.send_status_code(StatusCode::InternalServer),
    }
}

/// `POST /files/{filename}`, given the write outcome: `201 Created` on
/// success, `500 Internal Server Error` on failure.
pub fn handle_file_write(res: ResponseBuilder, outcome: Result<(), FileManagerError>) -> (r:
    WireResponse)
    ensures
        match outcome {
            Ok(_) => send_post(
                res.version_view(),
                StatusCode::Created,
                res.headers_view(),
                res.schemes_view(),
                res.body_view(),
                r.head@,
                r.body@,
            ),
            Err(_) => send_post(
                res.version_view(),
                StatusCode::InternalServer,
                res.headers_view(),
                res.schemes_view(),
                res.body_view(),
                r.head@,
                r.body@,
            ),
        },
{
    match outcome {
        Ok(_) => res.send_status_code(StatusCode::Created),
        Err(_) => res.send_status_code(StatusCode::InternalServer),
    }
}

} // verus!
