//! Responses, including the synthetic ones the gateway produces itself.
use vstd::prelude::*;
use vstd::string::*;
use vstd::utf8::encode_utf8;

use crate::body::{BodyView, SgBody};
use crate::reflect::Reflect;
use crate::request::SgHeader;

verus! {

pub const NOT_FOUND: u16 = 404;
pub const FORBIDDEN: u16 = 403;
pub const TOO_MANY_REQUESTS: u16 = 429;
pub const NOT_IMPLEMENTED: u16 = 501;
pub const GATEWAY_TIMEOUT: u16 = 504;
pub const INTERNAL_SERVER_ERROR: u16 = 500;
pub const BAD_REQUEST: u16 = 400;
pub const OK: u16 = 200;

pub struct SgResponse {
    pub status: u16,
    pub headers: Vec<SgHeader>,
    pub body: SgBody,
}

/// The UTF-8 bytes of a text, copied into a buffer.
pub fn utf8_bytes(s: &str) -> (r: Vec<u8>)
    ensures
        r@ == encode_utf8(s@),
{
    let b = s.as_bytes();
    let n = b.len();
    let mut out: Vec<u8> = Vec::new();
    let mut i: usize = 0;
    while i < n
        invariant
            n == b@.len(),
            b@ == encode_utf8(s@),
            i <= n,
            out@ == b@.subrange(0, i as int),
        decreases n - i,
    {
        out.push(b[i]);
        i += 1;
        assert(out@ =~= b@.subrange(0, i as int));
    }
    assert(b@.subrange(0, n as int) =~= b@);
    out
}

impl SgResponse {
    pub open spec fn wf(&self) -> bool {
        self.body.wf()
    }

    /// A response with `code`, a dumped body holding `message`, and the
    /// extension bag `reflect`.
    pub fn with_code_message(code: u16, message: &str, reflect: Reflect) -> (r: SgResponse)
        requires
            reflect.wf(),
        ensures
            r.wf(),
            r.status == code,
            r.headers@.len() == 0,
            r.body@ == (BodyView {
                content: encode_utf8(message@),
                dumped: Some(encode_utf8(message@)),
                failed: false,
                extensions: reflect@,
            }),
    {
        let body = SgBody::full(utf8_bytes(message)).with_reflect(reflect);
        SgResponse { status: code, headers: Vec::new(), body }
    }
}

} // verus!

verus! {

pub open spec fn content_length_name() -> Seq<char> {
    "content-length"@
}

pub open spec fn transfer_encoding_name() -> Seq<char> {
    "transfer-encoding"@
}

/// Gives a response that states neither its length nor chunked transfer
/// one of the two: the length when the body is dumped, chunked otherwise.
pub fn with_length_or_chunked(resp: &mut SgResponse)
    requires
        old(resp).wf(),
    ensures
        final(resp).wf(),
        final(resp).status == old(resp).status,
        final(resp).body == old(resp).body,
        ({
            let hs = old(resp).headers@;
            if crate::request::header_value(hs, content_length_name()).is_some()
                || crate::request::header_value(hs, transfer_encoding_name()).is_some() {
                final(resp).headers@ == hs
            } else {
                &&& final(resp).headers@.len() == hs.len() + 1
                &&& final(resp).headers@.subrange(0, hs.len() as int) == hs
                &&& match old(resp).body@.dumped {
                    Some(d) => final(resp).headers@.last().name@ == content_length_name()
                        && final(resp).headers@.last().value@ == crate::text::decimal(d.len()),
                    None => final(resp).headers@.last().name@ == transfer_encoding_name()
                        && final(resp).headers@.last().value@ == "chunked"@,
                }
            }
        }),
{
    let has_len = header_present(&resp.headers, "content-length");
    let has_te = header_present(&resp.headers, "transfer-encoding");
    if has_len || has_te {
        return;
    }
    let ghost hs = resp.headers@;
    let header = match resp.body.dumped_bytes() {
        Some(d) => SgHeader {
            name: String::from_str("content-length"),
            value: crate::text::decimal_string(d.len() as u64),
        },
        None => SgHeader { name: String::from_str("transfer-encoding"), value: String::from_str("chunked") },
    };
    resp.headers.push(header);
    assert(resp.headers@.subrange(0, hs.len() as int) =~= hs);
}

/// Whether a header named `name` is among `headers`.
pub fn header_present(headers: &Vec<SgHeader>, name: &str) -> (r: bool)
    ensures
        r == crate::request::header_value(headers@, name@).is_some(),
{
    proof {
        crate::request::lemma_first_header_index(headers@, name@);
    }
    let n = headers.len();
    let mut i: usize = 0;
    while i < n
        invariant
            n == headers@.len(),
            i <= n,
            forall|j: int| 0 <= j < i ==> !crate::text::eq_ignore_case(#[trigger] headers@[j].name@, name@),
            0 <= crate::request::first_header_index(headers@, name@) <= n,
            forall|j: int|
                0 <= j < crate::request::first_header_index(headers@, name@) ==> !crate::text::eq_ignore_case(
                    #[trigger] headers@[j].name@,
                    name@,
                ),
            crate::request::first_header_index(headers@, name@) < n ==> crate::text::eq_ignore_case(
                headers@[crate::request::first_header_index(headers@, name@)].name@,
                name@,
            ),
        decreases n - i,
    {
        if crate::text::str_eq_ignore_ascii_case(headers[i].name.as_str(), name) {
            return true;
        }
        i += 1;
    }
    false
}

} // verus!
