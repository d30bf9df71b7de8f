//! The bytes written back on the connection: status line, headers and a
//! chunked body.

use vstd::prelude::*;
use vstd::string::StringSliceAdditionalSpecFns;
use crate::text::{hex, push_all, push_hex};

verus! {

/// The statuses this transport answers with.
#[derive(Debug, Clone, Copy, PartialEq, Eq, Structural)]
pub enum Status {
    Success,
    Forbidden,
    MethodNotAllowed,
    UnsupportedMediaType,
}

impl Status {
    pub open spec fn spec_code(self) -> u16 {
        match self {
            Status::Success => 200,
            Status::Forbidden => 403,
            Status::MethodNotAllowed => 405,
            Status::UnsupportedMediaType => 415,
        }
    }

    pub fn code(&self) -> (r: u16)
        ensures
            r == self.spec_code(),
    {
        match self {
            Status::Success => 200,
            Status::Forbidden => 403,
            Status::MethodNotAllowed => 405,
            Status::UnsupportedMediaType => 415,
        }
    }
}

pub open spec fn status_line(s: Status) -> Seq<u8> {
    match s {
        Status::Success => "HTTP/1.1 200 OK\r\n".spec_bytes(),
        Status::Forbidden => "HTTP/1.1 403 Forbidden\r\n".spec_bytes(),
        Status::MethodNotAllowed => "HTTP/1.1 405 Method Not Allowed\r\n".spec_bytes(),
        Status::UnsupportedMediaType => "HTTP/1.1 415 Unsupported Media Type\r\n".spec_bytes(),
    }
}

/// JSON for an admitted request, plain text for a refusal.
pub open spec fn content_type_line(s: Status) -> Seq<u8> {
    match s {
        Status::Success => "Content-Type: application/json\r\n".spec_bytes(),
        _ => "Content-Type: text/plain; charset=utf-8\r\n".spec_bytes(),
    }
}

pub open spec fn origin_line(allow_origin: Option<Seq<u8>>) -> Seq<u8> {
    match allow_origin {
        Some(o) => "Access-Control-Allow-Origin: ".spec_bytes() + o + "\r\n".spec_bytes(),
        None => Seq::empty(),
    }
}

/// Chunked transfer encoding of a whole payload: one chunk sized in
/// hexadecimal, then the terminating zero-size chunk. An empty payload is the
/// terminating chunk alone.
pub open spec fn chunked(payload: Seq<u8>) -> Seq<u8> {
    if payload.len() == 0 {
        "0\r\n\r\n".spec_bytes()
    } else {
        hex(payload.len()) + "\r\n".spec_bytes() + payload + "\r\n".spec_bytes()
            + "0\r\n\r\n".spec_bytes()
    }
}

/// A full response: status line, headers, a blank line and the chunked body.
pub open spec fn response_bytes(s: Status, allow_origin: Option<Seq<u8>>, payload: Seq<u8>) -> Seq<
    u8,
> {
    status_line(s) + content_type_line(s) + origin_line(allow_origin)
        + "Transfer-Encoding: chunked\r\nConnection: close\r\n\r\n".spec_bytes() + chunked(payload)
}

pub fn push_chunked(out: &mut Vec<u8>, payload: &[u8])
    ensures
        final(out)@ == old(out)@ + chunked(payload@),
{
    if payload.len() > 0 {
        push_hex(out, payload.len() as u64);
        push_all(out, "\r\n".as_bytes());
        push_all(out, payload);
        push_all(out, "\r\n".as_bytes());
    }
    push_all(out, "0\r\n\r\n".as_bytes());
    assert(out@ =~= old(out)@ + chunked(payload@));
}

pub fn encode_response(s: Status, allow_origin: Option<&[u8]>, payload: &[u8]) -> (r: Vec<u8>)
    ensures
        r@ == response_bytes(
            s,
            match allow_origin {
                Some(o) => Some(o@),
                None => None,
            },
            payload@,
        ),
{
    let mut out: Vec<u8> = Vec::new();
    match s {
        Status::Success => push_all(&mut out, "HTTP/1.1 200 OK\r\n".as_bytes()),
        Status::Forbidden => push_all(&mut out, "HTTP/1.1 403 Forbidden\r\n".as_bytes()),
        Status::MethodNotAllowed => push_all(
            &mut out,
            "HTTP/1.1 405 Method Not Allowed\r\n".as_bytes(),
        ),
        Status::UnsupportedMediaType => push_all(
            &mut out,
            "HTTP/1.1 415 Unsupported Media Type\r\n".as_bytes(),
        ),
    }
    match s {
        Status::Success => push_all(&mut out, "Content-Type: application/json\r\n".as_bytes()),
        _ => push_all(&mut out, "Content-Type: text/plain; charset=utf-8\r\n".as_bytes()),
    }
    match allow_origin {
        Some(o) => {
            push_all(&mut out, "Access-Control-Allow-Origin: ".as_bytes());
            push_all(&mut out, o);
            push_all(&mut out, "\r\n".as_bytes());
        },
        None => {},
    }
    push_all(&mut out, "Transfer-Encoding: chunked\r\nConnection: close\r\n\r\n".as_bytes());
    push_chunked(&mut out, payload);
    assert(out@ =~= response_bytes(
        s,
        match allow_origin {
            Some(o) => Some(o@),
            None => None,
        },
        payload@,
    ));
    out
}

} // verus!
