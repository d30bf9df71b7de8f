//! Response bodies as a client that reads the connection line by line sees
//! them: the chunk-size line, then the chunk, up to the blank line that
//! follows it.

use vstd::prelude::*;
use vstd::string::StringSliceAdditionalSpecFns;
use jsonrpc_core::Id;
use crate::admission::views;
use crate::connection::{
    after_block, block_end, invalid_host_message, invalid_host_text, json_line, lines_text,
    read_block,
};
use crate::head::{lines_of, split_lines};
use crate::envelope::{
    invalid_request_object, invalid_request_payload, method_not_found_object,
    method_not_found_payload, result_object,
};
use crate::text::{hex, push_all, push_hex};

verus! {

/// The chunk-size line of a payload followed by the payload.
pub open spec fn chunk_as_read(p: Seq<u8>) -> Seq<u8> {
    hex(p.len()) + seq![10u8] + p
}

/// The result `"world"` for the call with id 1.
pub open spec fn world_object() -> Seq<u8> {
    result_object(Id::Num(1), "\"world\"".spec_bytes())
}

fn chunk_read(p: &[u8]) -> (r: Vec<u8>)
    ensures
        r@ == chunk_as_read(p@),
{
    let mut out: Vec<u8> = Vec::new();
    push_hex(&mut out, p.len() as u64);
    out.push(10);
    push_all(&mut out, p);
    assert(out@ =~= chunk_as_read(p@));
    out
}

fn with_line_feed(v: Vec<u8>) -> (r: Vec<u8>)
    requires
        v@.len() > 0,
    ensures
        r@ == json_line(v@),
{
    let mut v = v;
    v.push(10);
    v
}

/// The body of the refusal of a `Host` that is not allowed, as read.
pub fn invalid_host() -> (r: Vec<u8>)
    ensures
        r@ == chunk_as_read(invalid_host_text()),
{
    let t = invalid_host_message();
    chunk_read(t.as_slice())
}

/// The body that answers a call with id 1 of an unregistered method, as read.
pub fn method_not_found() -> (r: Vec<u8>)
    ensures
        r@ == chunk_as_read(json_line(method_not_found_object(Id::Num(1)))),
{
    let o = method_not_found_payload(&Id::Num(1));
    proof {
        reveal_strlit("{\"jsonrpc\":\"2.0\",\"error\":{\"code\":");
    }
    assert(o@.len() > 0);
    let line = with_line_feed(o);
    chunk_read(line.as_slice())
}

/// The body that answers a malformed request, as read.
pub fn invalid_request() -> (r: Vec<u8>)
    ensures
        r@ == chunk_as_read(json_line(invalid_request_object())),
{
    let o = invalid_request_payload();
    proof {
        reveal_strlit("{\"jsonrpc\":\"2.0\",\"error\":{\"code\":");
    }
    assert(o@.len() > 0);
    let line = with_line_feed(o);
    chunk_read(line.as_slice())
}

fn world_payload() -> (r: Vec<u8>)
    ensures
        r@ == world_object(),
{
    let mut out: Vec<u8> = Vec::new();
    push_all(&mut out, "{\"jsonrpc\":\"2.0\",\"result\":".as_bytes());
    push_all(&mut out, "\"world\"".as_bytes());
    push_all(&mut out, ",\"id\":".as_bytes());
    crate::text::push_decimal(&mut out, 1);
    push_all(&mut out, "}".as_bytes());
    assert(out@ =~= world_object());
    out
}

/// The body that answers the call with id 1 of a method returning `"world"`,
/// as read.
pub fn world() -> (r: Vec<u8>)
    ensures
        r@ == chunk_as_read(json_line(world_object())),
{
    let o = world_payload();
    proof {
        reveal_strlit("{\"jsonrpc\":\"2.0\",\"result\":");
    }
    assert(o@.len() > 0);
    let line = with_line_feed(o);
    chunk_read(line.as_slice())
}

/// The same answer inside a batch of one, as read.
pub fn world_batch() -> (r: Vec<u8>)
    ensures
        r@ == chunk_as_read(json_line(seq![91u8] + world_object() + seq![93u8])),
{
    let o = world_payload();
    let mut b: Vec<u8> = Vec::new();
    b.push(91);
    push_all(&mut b, o.as_slice());
    b.push(93);
    assert(b@ =~= seq![91u8] + world_object() + seq![93u8]);
    let line = with_line_feed(b);
    chunk_read(line.as_slice())
}

/// A response as a line-oriented client reads it.
pub struct ClientResponse {
    pub status: Vec<u8>,
    pub headers: Vec<u8>,
    pub body: Vec<u8>,
}

/// Splits response bytes into the status line, the block of header lines
/// and the block of body lines, each line followed by a line feed.
pub fn read_response(text: &[u8]) -> (r: ClientResponse)
    ensures
        ({
            let ls = lines_of(text@);
            let b = after_block(ls, 1);
            &&& r.status@ == ls[0]
            &&& r.headers@ == lines_text(ls, 1, block_end(ls, 1))
            &&& r.body@ == lines_text(ls, b, block_end(ls, b))
        }),
{
    let lines = split_lines(text);
    assert(views(lines@).len() == lines@.len());
    assert(lines@.len() >= 1);
    let mut status: Vec<u8> = Vec::new();
    push_all(&mut status, lines[0].as_slice());
    let mut pos: usize = 1;
    let headers = read_block(&lines, &mut pos);
    let body = read_block(&lines, &mut pos);
    ClientResponse { status, headers, body }
}

} // verus!
