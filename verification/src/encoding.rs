//! Compression schemes for `Content-Encoding` negotiation.  The engine only
//! decides whether and which scheme to apply; the compression itself is done
//! by the `flate2` crate behind a trusted wrapper.

use vstd::prelude::*;
use crate::bytes::{split_on, split_bytes, views, bytes_eq};
use crate::tokens::{gzip_tok, gzip_tok_bytes, comma_sp, comma_sp_bytes};

verus! {

/// The supported compression schemes: currently exactly gzip.
#[derive(Clone, Copy, Debug, PartialEq, Eq, Structural)]
pub enum CompressionSchema {
    Gzip,
}

/// An encoding token that names no supported scheme.
#[derive(Clone, Copy, Debug, PartialEq, Eq, Structural)]
pub enum CompressionSchemaError {
    Unknown,
}

/// The compression step itself failed; the caller falls back to the
/// uncompressed body.
#[derive(Clone, Copy, Debug, PartialEq, Eq, Structural)]
pub enum CompressionError {
    Failed,
}

/// The gzip stream that compressing `b` yields.  flate2 writes a fixed
/// header (mtime 0, operating-system byte 255, chosen for reproducible
/// streams), so at the default level the stream depends on the input bytes
/// alone.
pub uninterp spec fn gzip_of(b: Seq<u8>) -> Seq<u8>;

/// Relies on flate2's `GzEncoder` (`write_all`, then `finish`) at the
/// default compression level: on success the returned stream is determined
/// by the input bytes.
#[verifier::external_body]
fn gzip_backend(body: &Vec<u8>) -> (r: Result<Vec<u8>, CompressionError>)
    ensures
        r matches Ok(c) ==> c@ == gzip_of(body@),
{
    let mut encoder = flate2::write::GzEncoder::new(Vec::new(), flate2::Compression::default());
    if std::io::Write::write_all(&mut encoder, body.as_slice()).is_err() {
        return Err(CompressionError::Failed);
    }
    match encoder.finish() {
        Ok(out) => Ok(out),
        Err(_) => Err(CompressionError::Failed),
    }
}

/// The scheme named by `t`, if supported.
pub open spec fn spec_from_token(t: Seq<u8>) -> Result<CompressionSchema, CompressionSchemaError> {
    if t == gzip_tok() {
        Ok(CompressionSchema::Gzip)
    } else {
        Err(CompressionSchemaError::Unknown)
    }
}

/// The canonical textual name of a scheme.
pub open spec fn spec_name(s: CompressionSchema) -> Seq<u8> {
    match s {
        CompressionSchema::Gzip => gzip_tok(),
    }
}

/// What compressing `b` under scheme `s` yields on success.
pub open spec fn spec_compressed(s: CompressionSchema, b: Seq<u8>) -> Seq<u8> {
    match s {
        CompressionSchema::Gzip => gzip_of(b),
    }
}

impl CompressionSchema {
    /// Map an encoding token to a scheme; unrecognized tokens are rejected,
    /// not defaulted.
    pub fn from_token(token: &[u8]) -> (r: Result<CompressionSchema, CompressionSchemaError>)
        ensures
            r == spec_from_token(token@),
    {
        let g = gzip_tok_bytes();
        if bytes_eq(token, g.as_slice()) {
            Ok(CompressionSchema::Gzip)
        } else {
            Err(CompressionSchemaError::Unknown)
        }
    }

    /// The canonical name, as it goes into `Content-Encoding`.
    pub fn canonical_name(&self) -> (r: Vec<u8>)
        ensures
            r@ == spec_name(*self),
    {
        match self {
            CompressionSchema::Gzip => gzip_tok_bytes(),
        }
    }

    /// Compress `body` under this scheme.
    pub fn compress(&self, body: Vec<u8>) -> (r: Result<Vec<u8>, CompressionError>)
        ensures
            r matches Ok(c) ==> c@ == spec_compressed(*self, body@),
    {
        match self {
            CompressionSchema::Gzip => gzip_backend(&body),
        }
    }
}

/// The schemes among `tokens[i..]`, in order, appended to `acc`.
pub open spec fn schemes_from(tokens: Seq<Seq<u8>>, i: int, acc: Seq<CompressionSchema>) -> Seq<
    CompressionSchema,
>
    decreases tokens.len() - i,
{
    if i < 0 || i >= tokens.len() {
        acc
    } else {
        schemes_from(
            tokens,
            i + 1,
            if tokens[i] == gzip_tok() {
                acc.push(CompressionSchema::Gzip)
            } else {
                acc
            },
        )
    }
}

/// The schemes an `Accept-Encoding` value names, in the client's order,
/// with unsupported tokens silently dropped.
pub open spec fn spec_schemes(value: Seq<u8>) -> Seq<CompressionSchema> {
    schemes_from(split_on(value, comma_sp()), 0, Seq::empty())
}

/// Parse an `Accept-Encoding` value: split on `", "` and keep the tokens
/// that name a supported scheme, preserving their order.
pub fn parse_schemes(value: &[u8]) -> (r: Vec<CompressionSchema>)
    ensures
        r@ == spec_schemes(value@),
{
    let sep = comma_sp_bytes();
    let toks = split_bytes(value, sep.as_slice());
    let n = toks.len();
    let mut acc: Vec<CompressionSchema> = Vec::new();
    let mut i: usize = 0;
    proof {
        assert(acc@ =~= Seq::<CompressionSchema>::empty());
    }
    while i < n
        invariant
            n == toks@.len(),
            i <= n,
            views(toks@) == split_on(value@, comma_sp()),
            spec_schemes(value@) == schemes_from(views(toks@), i as int, acc@),
        decreases n - i,
    {
        proof {
            assert(views(toks@)[i as int] == toks@[i as int]@);
        }
        match CompressionSchema::from_token(toks[i].as_slice()) {
            Ok(s) => {
                acc.push(s);
            },
            Err(_) => {},
        }
        i += 1;
    }
    acc
}

} // verus!
