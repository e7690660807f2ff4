//! Response construction and serialization.  A builder accumulates status,
//! headers and body for one request; sending finalizes the headers (content
//! encoding and content length), renders the status line and header block,
//! and yields the wire bytes.  Sending consumes the builder, so a response
//! cannot be sent twice.

use vstd::prelude::*;
use crate::bytes::{dec_digits, dec_bytes};
use crate::headers::{Headers, spec_insert, lookup, spec_render, copy_bytes,
    lemma_lookup_insert_same, lemma_lookup_insert_other};
use crate::encoding::{CompressionSchema, spec_name, spec_compressed};
use crate::tokens::{sp, crlf2, http11, h_content_encoding, h_content_length, h_content_type,
    v_text_plain, v_octet_stream, st_ok, st_created, st_bad_request, st_not_found, st_internal,
    sp_bytes, crlf2_bytes, http11_bytes, h_content_encoding_bytes, h_content_length_bytes,
    h_content_type_bytes, v_text_plain_bytes, v_octet_stream_bytes, st_ok_bytes, st_created_bytes,
    st_bad_request_bytes, st_not_found_bytes, st_internal_bytes};

verus! {

/// The fixed set of status codes the engine serializes.
#[derive(Clone, Copy, Debug, PartialEq, Eq, Structural)]
pub enum StatusCode {
    OK,
    NotFound,
    BadRequest,
    InternalServer,
    Created,
}

/// The fixed `<code> <reason>` text of each status.
pub open spec fn status_text(s: StatusCode) -> Seq<u8> {
    match s {
        StatusCode::OK => st_ok(),
        StatusCode::Created => st_created(),
        StatusCode::NotFound => st_not_found(),
        StatusCode::BadRequest => st_bad_request(),
        StatusCode::InternalServer => st_internal(),
    }
}

impl StatusCode {
    /// Render the `<code> <reason>` text.
    pub fn render(&self) -> (r: Vec<u8>)
        ensures
            r@ == status_text(*self),
    {
        match self {
            StatusCode::OK => st_ok_bytes(),
            StatusCode::Created => st_created_bytes(),
            StatusCode::NotFound => st_not_found_bytes(),
            StatusCode::BadRequest => st_bad_request_bytes(),
            StatusCode::InternalServer => st_internal_bytes(),
        }
    }
}

/// A serialized response: the status line plus header block (ending in the
/// blank line), and the body.  They go onto the connection as two writes,
/// the body only if non-empty.
pub struct WireResponse {
    pub head: Vec<u8>,
    pub body: Vec<u8>,
}

/// The headers after the content-encoding step: unchanged if no scheme was
/// applied, else with `Content-Encoding` set to the scheme's name.
pub open spec fn with_encoding(
    h: Seq<(Seq<u8>, Seq<u8>)>,
    enc: Option<CompressionSchema>,
) -> Seq<(Seq<u8>, Seq<u8>)> {
    match enc {
        None => h,
        Some(s) => spec_insert(h, h_content_encoding(), spec_name(s)),
    }
}

/// The headers after the content-length step: `Content-Length` holds the
/// exact byte count of the outgoing body, and is absent for an empty body.
pub open spec fn with_length(h: Seq<(Seq<u8>, Seq<u8>)>, out: Seq<u8>) -> Seq<(Seq<u8>, Seq<u8>)> {
    if out.len() == 0 {
        h
    } else {
        spec_insert(h, h_content_length(), dec_digits(out.len()))
    }
}

/// The finalized headers of a response whose outgoing body is `out`.
pub open spec fn finalize_headers(
    h: Seq<(Seq<u8>, Seq<u8>)>,
    enc: Option<CompressionSchema>,
    out: Seq<u8>,
) -> Seq<(Seq<u8>, Seq<u8>)> {
    with_length(with_encoding(h, enc), out)
}

/// The serialized head: `<version> SP <status text>`, the rendered header
/// block, and the terminating blank line.
pub open spec fn spec_head(version: Seq<u8>, status: StatusCode, h: Seq<(Seq<u8>, Seq<u8>)>) -> Seq<
    u8,
> {
    version + sp() + status_text(status) + spec_render(h) + crlf2()
}

/// How the outgoing body may relate to the accumulated one: with no
/// negotiated scheme or an empty body it goes out as it is; otherwise the
/// first negotiated scheme is applied, or — if the compression step failed —
/// the body falls back to uncompressed and no scheme counts as applied.
pub open spec fn encoding_ok(
    schemes: Seq<CompressionSchema>,
    body: Seq<u8>,
    enc: Option<CompressionSchema>,
    out: Seq<u8>,
) -> bool {
    if schemes.len() == 0 || body.len() == 0 {
        enc is None && out == body
    } else {
        (enc == Some(schemes[0]) && out == spec_compressed(schemes[0], body)) || (enc is None && out
            == body)
    }
}

/// What sending from a builder state yields: for some legitimate encoding
/// outcome, the head renders the finalized headers around that outgoing
/// body.
pub open spec fn send_post(
    version: Seq<u8>,
    status: StatusCode,
    h: Seq<(Seq<u8>, Seq<u8>)>,
    schemes: Seq<CompressionSchema>,
    body: Seq<u8>,
    head: Seq<u8>,
    out: Seq<u8>,
) -> bool {
    exists|enc: Option<CompressionSchema>|
        #[trigger] encoding_ok(schemes, body, enc, out) && head == spec_head(
            version,
            status,
            finalize_headers(h, enc, out),
        )
}

/// A response with an empty body never carries `Content-Length`; one with a
/// non-empty outgoing body carries its exact decimal byte count — provided
/// the handler did not set the header by hand.
pub proof fn lemma_content_length_header(
    h: Seq<(Seq<u8>, Seq<u8>)>,
    enc: Option<CompressionSchema>,
    out: Seq<u8>,
)
    requires
        lookup(h, h_content_length()) is None,
    ensures
        out.len() == 0 ==> lookup(finalize_headers(h, enc, out), h_content_length()) is None,
        out.len() > 0 ==> lookup(finalize_headers(h, enc, out), h_content_length()) == Some(
            dec_digits(out.len()),
        ),
{
    assert(h_content_encoding()[8] == 69 && h_content_length()[8] == 76);
    assert(h_content_encoding() != h_content_length());
    let h2 = with_encoding(h, enc);
    match enc {
        None => {},
        Some(s) => {
            lemma_lookup_insert_other(h, h_content_encoding(), spec_name(s), h_content_length());
        },
    }
    assert(lookup(h2, h_content_length()) is None);
    if out.len() > 0 {
        lemma_lookup_insert_same(h2, h_content_length(), dec_digits(out.len()));
    }
}

/// Accumulates one response; consumed by the single terminal send.
pub struct ResponseBuilder {
    pub public_folder: Option<Vec<u8>>,
    version: Vec<u8>,
    headers: Headers,
    compression_schemas: Vec<CompressionSchema>,
    status_code: StatusCode,
    body: Vec<u8>,
}

impl ResponseBuilder {
    pub closed spec fn folder_view(&self) -> Option<Seq<u8>> {
        match self.public_folder {
            Some(v) => Some(v@),
            None => None,
        }
    }

    pub closed spec fn version_view(&self) -> Seq<u8> {
        self.version@
    }

    pub closed spec fn headers_view(&self) -> Seq<(Seq<u8>, Seq<u8>)> {
        self.headers@
    }

    pub closed spec fn schemes_view(&self) -> Seq<CompressionSchema> {
        self.compression_schemas@
    }

    pub closed spec fn status_view(&self) -> StatusCode {
        self.status_code
    }

    pub closed spec fn body_view(&self) -> Seq<u8> {
        self.body@
    }

    /// A fresh builder: version `HTTP/1.1`, status `200 OK`, no headers, no
    /// negotiated schemes, empty body, no public folder.
    pub fn new() -> (r: ResponseBuilder)
        ensures
            r.version_view() == http11(),
            r.headers_view() == Seq::<(Seq<u8>, Seq<u8>)>::empty(),
            r.schemes_view() == Seq::<CompressionSchema>::empty(),
            r.status_view() == StatusCode::OK,
            r.body_view() == Seq::<u8>::empty(),
            r.folder_view() is None,
    {
        let r = ResponseBuilder {
            public_folder: None,
            version: http11_bytes(),
            headers: Headers::new(),
            compression_schemas: Vec::new(),
            status_code: StatusCode::OK,
            body: Vec::new(),
        };
        proof {
            assert(r.schemes_view() =~= Seq::<CompressionSchema>::empty());
            assert(r.body_view() =~= Seq::<u8>::empty());
        }
        r
    }

    pub fn with_version(&mut self, version: Vec<u8>)
        ensures
            final(self).version_view() == version@,
            final(self).headers_view() == old(self).headers_view(),
            final(self).schemes_view() == old(self).schemes_view(),
            final(self).status_view() == old(self).status_view(),
            final(self).body_view() == old(self).body_view(),
            final(self).folder_view() == old(self).folder_view(),
    {
        self.version = version;
    }

    pub fn with_public_folder(&mut self, public_folder: Option<Vec<u8>>)
        ensures
            final(self).folder_view() == (match public_folder {
                Some(v) => Some(v@),
                None => None::<Seq<u8>>,
            }),
            final(self).version_view() == old(self).version_view(),
            final(self).headers_view() == old(self).headers_view(),
            final(self).schemes_view() == old(self).schemes_view(),
            final(self).status_view() == old(self).status_view(),
            final(self).body_view() == old(self).body_view(),
    {
        self.public_folder = public_folder;
    }

    pub fn with_compression_schemas(&mut self, compression_schemas: Vec<CompressionSchema>)
        ensures
            final(self).schemes_view() == compression_schemas@,
            final(self).version_view() == old(self).version_view(),
            final(self).headers_view() == old(self).headers_view(),
            final(self).status_view() == old(self).status_view(),
            final(self).body_view() == old(self).body_view(),
            final(self).folder_view() == old(self).folder_view(),
    {
        self.compression_schemas = compression_schemas;
    }

    pub fn with_status_code(&mut self, status_code: StatusCode)
        ensures
            final(self).status_view() == status_code,
            final(self).version_view() == old(self).version_view(),
            final(self).headers_view() == old(self).headers_view(),
            final(self).schemes_view() == old(self).schemes_view(),
            final(self).body_view() == old(self).body_view(),
            final(self).folder_view() == old(self).folder_view(),
    {
        self.status_code = status_code;
    }

    /// Finalize and serialize the response.  The outgoing body is the
    /// accumulated one, compressed under the first negotiated scheme when
    /// one exists and the body is non-empty (falling back to uncompressed
    /// if the compression step fails); `Content-Encoding` is set exactly
    /// when a scheme was applied and `Content-Length` exactly when the
    /// outgoing body is non-empty.
    pub fn send(self) -> (r: WireResponse)
        ensures
            send_post(
                self.version_view(),
                self.status_view(),
                self.headers_view(),
                self.schemes_view(),
                self.body_view(),
                r.head@,
                r.body@,
            ),
    {
        let ghost b0 = self.body@;
        let ghost h0 = self.headers@;
        let ghost v0 = self.version@;
        let ghost st0 = self.status_code;
        let ghost sch0 = self.compression_schemas@;
        let ResponseBuilder {
            public_folder: _,
            version,
            mut headers,
            compression_schemas,
            status_code,
            body,
        } = self;
        let mut applied: Option<CompressionSchema> = None;
        let out_body: Vec<u8>;
        if body.len() > 0 && compression_schemas.len() > 0 {
            let schema = compression_schemas[0];
            match schema.compress(copy_bytes(&body)) {
                Ok(c) => {
                    out_body = c;
                    applied = Some(schema);
                },
                Err(_) => {
                    out_body = body;
                },
            }
        } else {
            out_body = body;
        }
        match applied {
            Some(s) => {
                let name = s.canonical_name();
                headers.insert(h_content_encoding_bytes(), name);
            },
            None => {},
        }
        proof {
            assert(headers@ == with_encoding(h0, applied));
        }
        if out_body.len() > 0 {
            let len_value = dec_bytes(out_body.len());
            headers.insert(h_content_length_bytes(), len_value);
        }
        proof {
            assert(headers@ == finalize_headers(h0, applied, out_body@));
        }
        let mut head = version;
        let spc = sp_bytes();
        head.extend_from_slice(spc.as_slice());
        let st = status_code.render();
        head.extend_from_slice(st.as_slice());
        let hb = headers.render();
        head.extend_from_slice(hb.as_slice());
        let end = crlf2_bytes();
        head.extend_from_slice(end.as_slice());
        proof {
            assert(head@ =~= spec_head(v0, st0, finalize_headers(h0, applied, out_body@)));
            assert(encoding_ok(sch0, b0, applied, out_body@));
        }
        WireResponse { head, body: out_body }
    }

    /// Set status and send at once.
    pub fn send_status_code(self, status_code: StatusCode) -> (r: WireResponse)
        ensures
            send_post(
                self.version_view(),
                status_code,
                self.headers_view(),
                self.schemes_view(),
                self.body_view(),
                r.head@,
                r.body@,
            ),
    {
        let mut me = self;
        me.with_status_code(status_code);
        me.send()
    }

    /// Send `text` as a `text/plain` body.
    pub fn send_text(self, text: &[u8]) -> (r: WireResponse)
        ensures
            send_post(
                self.version_view(),
                self.status_view(),
                spec_insert(self.headers_view(), h_content_type(), v_text_plain()),
                self.schemes_view(),
                text@,
                r.head@,
                r.body@,
            ),
    {
        let mut me = self;
        me.headers.insert(h_content_type_bytes(), v_text_plain_bytes());
        me.body = vstd::slice::slice_to_vec(text);
        me.send()
    }

    /// Send `content` as an `application/octet-stream` body.
    pub fn send_file(self, content: &[u8]) -> (r: WireResponse)
        ensures
            send_post(
                self.version_view(),
                self.status_view(),
                spec_insert(self.headers_view(), h_content_type(), v_octet_stream()),
                self.schemes_view(),
                content@,
                r.head@,
                r.body@,
            ),
    {
        let mut me = self;
        me.headers.insert(h_content_type_bytes(), v_octet_stream_bytes());
        me.body = vstd::slice::slice_to_vec(content);
        me.send()
    }
}

} // verus!
