//! The fixed ASCII tokens of the wire protocol: delimiters, header names,
//! canonical header values and status lines.  Each token exists twice: as a
//! spec-level byte sequence the contracts speak of, and as an executable
//! constructor proved to produce exactly that sequence.

use vstd::prelude::*;

verus! {

/// `"\r\n"`
pub open spec fn crlf() -> Seq<u8> {
    seq![13u8, 10u8]
}

/// `"\r\n\r\n"`, the head/body delimiter.
pub open spec fn crlf2() -> Seq<u8> {
    seq![13u8, 10u8, 13u8, 10u8]
}

/// `" "`
pub open spec fn sp() -> Seq<u8> {
    seq![32u8]
}

/// `"/"`
pub open spec fn slash() -> Seq<u8> {
    seq![47u8]
}

/// `":"`
pub open spec fn colon() -> Seq<u8> {
    seq![58u8]
}

/// `": "`
pub open spec fn colon_sp() -> Seq<u8> {
    seq![58u8, 32u8]
}

/// `", "`, the separator of `Accept-Encoding` tokens.
pub open spec fn comma_sp() -> Seq<u8> {
    seq![44u8, 32u8]
}

/// `"gzip"`
pub open spec fn gzip_tok() -> Seq<u8> {
    seq![103u8, 122u8, 105u8, 112u8]
}

/// `"HTTP/1.1"`
pub open spec fn http11() -> Seq<u8> {
    seq![72u8, 84u8, 84u8, 80u8, 47u8, 49u8, 46u8, 49u8]
}

/// `"Accept-Encoding"`
pub open spec fn h_accept_encoding() -> Seq<u8> {
    seq![65u8, 99u8, 99u8, 101u8, 112u8, 116u8, 45u8, 69u8, 110u8, 99u8, 111u8, 100u8, 105u8, 110u8, 103u8]
}

/// `"Content-Encoding"`
pub open spec fn h_content_encoding() -> Seq<u8> {
    seq![67u8, 111u8, 110u8, 116u8, 101u8, 110u8, 116u8, 45u8, 69u8, 110u8, 99u8, 111u8, 100u8, 105u8, 110u8, 103u8]
}

/// `"Content-Length"`
pub open spec fn h_content_length() -> Seq<u8> {
    seq![67u8, 111u8, 110u8, 116u8, 101u8, 110u8, 116u8, 45u8, 76u8, 101u8, 110u8, 103u8, 116u8, 104u8]
}

/// `"Content-Type"`
pub open spec fn h_content_type() -> Seq<u8> {
    seq![67u8, 111u8, 110u8, 116u8, 101u8, 110u8, 116u8, 45u8, 84u8, 121u8, 112u8, 101u8]
}

/// `"User-Agent"`
pub open spec fn h_user_agent() -> Seq<u8> {
    seq![85u8, 115u8, 101u8, 114u8, 45u8, 65u8, 103u8, 101u8, 110u8, 116u8]
}

/// `"text/plain"`
pub open spec fn v_text_plain() -> Seq<u8> {
    seq![116u8, 101u8, 120u8, 116u8, 47u8, 112u8, 108u8, 97u8, 105u8, 110u8]
}

/// `"application/octet-stream"`
pub open spec fn v_octet_stream() -> Seq<u8> {
    seq![97u8, 112u8, 112u8, 108u8, 105u8, 99u8, 97u8, 116u8, 105u8, 111u8, 110u8, 47u8, 111u8, 99u8, 116u8, 101u8, 116u8, 45u8, 115u8, 116u8, 114u8, 101u8, 97u8, 109u8]
}

/// `"200 OK"`
pub open spec fn st_ok() -> Seq<u8> {
    seq![50u8, 48u8, 48u8, 32u8, 79u8, 75u8]
}

/// `"201 Created"`
pub open spec fn st_created() -> Seq<u8> {
    seq![50u8, 48u8, 49u8, 32u8, 67u8, 114u8, 101u8, 97u8, 116u8, 101u8, 100u8]
}

/// `"400 Bad Request"`
pub open spec fn st_bad_request() -> Seq<u8> {
    seq![52u8, 48u8, 48u8, 32u8, 66u8, 97u8, 100u8, 32u8, 82u8, 101u8, 113u8, 117u8, 101u8, 115u8, 116u8]
}

/// `"404 Not Found"`
pub open spec fn st_not_found() -> Seq<u8> {
    seq![52u8, 48u8, 52u8, 32u8, 78u8, 111u8, 116u8, 32u8, 70u8, 111u8, 117u8, 110u8, 100u8]
}

/// `"500 Internal Server Error"`
pub open spec fn st_internal() -> Seq<u8> {
    seq![53u8, 48u8, 48u8, 32u8, 73u8, 110u8, 116u8, 101u8, 114u8, 110u8, 97u8, 108u8, 32u8, 83u8, 101u8, 114u8, 118u8, 101u8, 114u8, 32u8, 69u8, 114u8, 114u8, 111u8, 114u8]
}

/// `"str"`, the echo route's parameter name.
pub open spec fn str_param() -> Seq<u8> {
    seq![115u8, 116u8, 114u8]
}

pub fn str_param_bytes() -> (r: Vec<u8>)
    ensures
        r@ == str_param(),
{
    let v: Vec<u8> = vec![115u8, 116u8, 114u8];
    proof {
        assert(v@ =~= str_param());
    }
    v
}

pub fn crlf_bytes() -> (r: Vec<u8>)
    ensures
        r@ == crlf(),
{
    let v: Vec<u8> = vec![13u8, 10u8];
    proof {
        assert(v@ =~= crlf());
    }
    v
}

pub fn crlf2_bytes() -> (r: Vec<u8>)
    ensures
        r@ == crlf2(),
{
    let v: Vec<u8> = vec![13u8, 10u8, 13u8, 10u8];
    proof {
        assert(v@ =~= crlf2());
    }
    v
}

pub fn sp_bytes() -> (r: Vec<u8>)
    ensures
        r@ == sp(),
{
    let v: Vec<u8> = vec![32u8];
    proof {
        assert(v@ =~= sp());
    }
    v
}

pub fn slash_bytes() -> (r: Vec<u8>)
    ensures
        r@ == slash(),
{
    let v: Vec<u8> = vec![47u8];
    proof {
        assert(v@ =~= slash());
    }
    v
}

pub fn colon_bytes() -> (r: Vec<u8>)
    ensures
        r@ == colon(),
{
    let v: Vec<u8> = vec![58u8];
    proof {
        assert(v@ =~= colon());
    }
    v
}

pub fn colon_sp_bytes() -> (r: Vec<u8>)
    ensures
        r@ == colon_sp(),
{
    let v: Vec<u8> = vec![58u8, 32u8];
    proof {
        assert(v@ =~= colon_sp());
    }
    v
}

pub fn comma_sp_bytes() -> (r: Vec<u8>)
    ensures
        r@ == comma_sp(),
{
    let v: Vec<u8> = vec![44u8, 32u8];
    proof {
        assert(v@ =~= comma_sp());
    }
    v
}

pub fn gzip_tok_bytes() -> (r: Vec<u8>)
    ensures
        r@ == gzip_tok(),
{
    let v: Vec<u8> = vec![103u8, 122u8, 105u8, 112u8];
    proof {
        assert(v@ =~= gzip_tok());
    }
    v
}

pub fn http11_bytes() -> (r: Vec<u8>)
    ensures
        r@ == http11(),
{
    let v: Vec<u8> = vec![72u8, 84u8, 84u8, 80u8, 47u8, 49u8, 46u8, 49u8];
    proof {
        assert(v@ =~= http11());
    }
    v
}

pub fn h_accept_encoding_bytes() -> (r: Vec<u8>)
    ensures
        r@ == h_accept_encoding(),
{
    let v: Vec<u8> = vec![65u8, 99u8, 99u8, 101u8, 112u8, 116u8, 45u8, 69u8, 110u8, 99u8, 111u8, 100u8, 105u8, 110u8, 103u8];
    proof {
        assert(v@ =~= h_accept_encoding());
    }
    v
}

pub fn h_content_encoding_bytes() -> (r: Vec<u8>)
    ensures
        r@ == h_content_encoding(),
{
    let v: Vec<u8> = vec![67u8, 111u8, 110u8, 116u8, 101u8, 110u8, 116u8, 45u8, 69u8, 110u8, 99u8, 111u8, 100u8, 105u8, 110u8, 103u8];
    proof {
        assert(v@ =~= h_content_encoding());
    }
    v
}

pub fn h_content_length_bytes() -> (r: Vec<u8>)
    ensures
        r@ == h_content_length(),
{
    let v: Vec<u8> = vec![67u8, 111u8, 110u8, 116u8, 101u8, 110u8, 116u8, 45u8, 76u8, 101u8, 110u8, 103u8, 116u8, 104u8];
    proof {
        assert(v@ =~= h_content_length());
    }
    v
}

pub fn h_content_type_bytes() -> (r: Vec<u8>)
    ensures
        r@ == h_content_type(),
{
    let v: Vec<u8> = vec![67u8, 111u8, 110u8, 116u8, 101u8, 110u8, 116u8, 45u8, 84u8, 121u8, 112u8, 101u8];
    proof {
        assert(v@ =~= h_content_type());
    }
    v
}

pub fn h_user_agent_bytes() -> (r: Vec<u8>)
    ensures
        r@ == h_user_agent(),
{
    let v: Vec<u8> = vec![85u8, 115u8, 101u8, 114u8, 45u8, 65u8, 103u8, 101u8, 110u8, 116u8];
    proof {
        assert(v@ =~= h_user_agent());
    }
    v
}

pub fn v_text_plain_bytes() -> (r: Vec<u8>)
    ensures
        r@ == v_text_plain(),
{
    let v: Vec<u8> = vec![116u8, 101u8, 120u8, 116u8, 47u8, 112u8, 108u8, 97u8, 105u8, 110u8];
    proof {
        assert(v@ =~= v_text_plain());
    }
    v
}

pub fn v_octet_stream_bytes() -> (r: Vec<u8>)
    ensures
        r@ == v_octet_stream(),
{
    let v: Vec<u8> = vec![97u8, 112u8, 112u8, 108u8, 105u8, 99u8, 97u8, 116u8, 105u8, 111u8, 110u8, 47u8, 111u8, 99u8, 116u8, 101u8, 116u8, 45u8, 115u8, 116u8, 114u8, 101u8, 97u8, 109u8];
    proof {
        assert(v@ =~= v_octet_stream());
    }
    v
}

pub fn st_ok_bytes() -> (r: Vec<u8>)
    ensures
        r@ == st_ok(),
{
    let v: Vec<u8> = vec![50u8, 48u8, 48u8, 32u8, 79u8, 75u8];
    proof {
        assert(v@ =~= st_ok());
    }
    v
}

pub fn st_created_bytes() -> (r: Vec<u8>)
    ensures
        r@ == st_created(),
{
    let v: Vec<u8> = vec![50u8, 48u8, 49u8, 32u8, 67u8, 114u8, 101u8, 97u8, 116u8, 101u8, 100u8];
    proof {
        assert(v@ =~= st_created());
    }
    v
}

pub fn st_bad_request_bytes() -> (r: Vec<u8>)
    ensures
        r@ == st_bad_request(),
{
    let v: Vec<u8> = vec![52u8, 48u8, 48u8, 32u8, 66u8, 97u8, 100u8, 32u8, 82u8, 101u8, 113u8, 117u8, 101u8, 115u8, 116u8];
    proof {
        assert(v@ =~= st_bad_request());
    }
    v
}

pub fn st_not_found_bytes() -> (r: Vec<u8>)
    ensures
        r@ == st_not_found(),
{
    let v: Vec<u8> = vec![52u8, 48u8, 52u8, 32u8, 78u8, 111u8, 116u8, 32u8, 70u8, 111u8, 117u8, 110u8, 100u8];
    proof {
        assert(v@ =~= st_not_found());
    }
    v
}

pub fn st_internal_bytes() -> (r: Vec<u8>)
    ensures
        r@ == st_internal(),
{
    let v: Vec<u8> = vec![53u8, 48u8, 48u8, 32u8, 73u8, 110u8, 116u8, 101u8, 114u8, 110u8, 97u8, 108u8, 32u8, 83u8, 101u8, 114u8, 118u8, 101u8, 114u8, 32u8, 69u8, 114u8, 114u8, 111u8, 114u8];
    proof {
        assert(v@ =~= st_internal());
    }
    v
}

} // verus!
