//! The life of one connection as a state machine: the caller performs the
//! reads, the dispatch and the write, and hands each outcome back here.

use vstd::prelude::*;
use vstd::string::StringSliceAdditionalSpecFns;
use jsonrpc_core::Request;
use crate::admission::views;
use crate::connection::{
    gate_parts, json_line, respond_admitted, vec_opt, Admission, ServerPolicy,
};
use crate::envelope::{call_count, payload, well_formed, Reply};
use crate::head::{
    blank_line_at, find_head_end, find_header, header_lines, header_of, length_of, method_of,
    parse_head, parse_length, split_lines,
};
use crate::response::{response_bytes, Status};
use crate::text::push_all;

verus! {

/// The longest head that is waited for.
pub const MAX_HEAD: usize = 65536;

pub enum Phase {
    /// Waiting for the blank line that ends the head.
    Head,
    /// Admitted; waiting for `wanted` bytes of body.
    Body { allow_origin: Option<Vec<u8>>, wanted: usize },
    /// The body is in; waiting for the handler's replies.
    Dispatch { allow_origin: Option<Vec<u8>> },
    /// The response was handed out, or the connection given up.
    Closed,
}

pub struct Connection {
    pub phase: Phase,
    /// What has arrived and is not yet consumed.
    pub buf: Vec<u8>,
}

/// What the caller does next.
pub enum Step {
    ReadMore,
    /// Parse these body bytes, dispatch them and call `finish`.
    Dispatch(Vec<u8>),
    /// Write these bytes, then close.
    Send(Vec<u8>),
    /// Close without writing.
    Close,
}

/// The admission of a head text: the refusal to write, or the origin to echo.
pub open spec fn gate_text(p: ServerPolicy, bound: Seq<Seq<u8>>, ports: Seq<u16>, text: Seq<u8>) -> (
    Option<Seq<u8>>,
    Option<Seq<u8>>,
) {
    gate_parts(
        p,
        bound,
        ports,
        method_of(text),
        header_of(text, "host".spec_bytes()),
        header_of(text, "origin".spec_bytes()),
        header_of(text, "content-type".spec_bytes()),
    )
}

/// The body length a head declares; none declared means no body.
pub open spec fn declared_length(text: Seq<u8>) -> Option<u64> {
    match header_of(text, "content-length".spec_bytes()) {
        Some(v) => length_of(v),
        None => Some(0),
    }
}

/// Having `rest` of a body of `wanted` bytes: dispatch the body once it is
/// all in, else keep reading.
pub open spec fn body_step(
    origin: Option<Seq<u8>>,
    wanted: nat,
    rest: Seq<u8>,
    c: Connection,
    r: Step,
) -> bool {
    if rest.len() >= wanted {
        &&& r matches Step::Dispatch(v) && v@ == rest.subrange(0, wanted as int)
        &&& c.phase matches Phase::Dispatch { allow_origin } && vec_opt(allow_origin) == origin
    } else {
        &&& r is ReadMore
        &&& c.phase matches Phase::Body { allow_origin, wanted: w } && vec_opt(allow_origin)
            == origin && w == wanted
        &&& c.buf@ == rest
    }
}

/// Having `b` while the head is incomplete.
pub open spec fn head_step(
    p: ServerPolicy,
    bound: Seq<Seq<u8>>,
    ports: Seq<u16>,
    b: Seq<u8>,
    c: Connection,
    r: Step,
) -> bool {
    if exists|k: int| blank_line_at(b, k) {
        let k = choose|k: int|
            blank_line_at(b, k) && forall|j: int| 0 <= j < k ==> !#[trigger] blank_line_at(b, j);
        let text = b.subrange(0, k);
        let g = gate_text(p, bound, ports, text);
        match g.0 {
            Some(refusal) => (r matches Step::Send(v) && v@ == refusal) && c.phase is Closed,
            None => match declared_length(text) {
                Some(n) if n <= usize::MAX => body_step(
                    g.1,
                    n as nat,
                    b.subrange(k + 4, b.len() as int),
                    c,
                    r,
                ),
                _ => r is Close && c.phase is Closed,
            },
        }
    } else if b.len() > MAX_HEAD {
        r is Close && c.phase is Closed
    } else {
        r is ReadMore && c.phase is Head && c.buf@ == b
    }
}

fn vec_of(s: &[u8]) -> (r: Vec<u8>)
    ensures
        r@ == s@,
{
    let mut out: Vec<u8> = Vec::new();
    push_all(&mut out, s);
    out
}

fn declared_length_of(text: &[u8]) -> (r: Option<u64>)
    ensures
        r == declared_length(text@),
{
    let lines = split_lines(text);
    assert(views(lines@).subrange(1, lines@.len() as int) =~= header_lines(text@));
    match find_header(&lines, 1, "content-length".as_bytes()) {
        Some(v) => parse_length(v.as_slice()),
        None => Some(0),
    }
}

fn body_decision(allow_origin: Option<Vec<u8>>, wanted: usize, rest: Vec<u8>) -> (r: (
    Connection,
    Step,
))
    ensures
        body_step(vec_opt(allow_origin), wanted as nat, rest@, r.0, r.1),
{
    if rest.len() >= wanted {
        let body = vec_of(vstd::slice::slice_subrange(rest.as_slice(), 0, wanted));
        (Connection { phase: Phase::Dispatch { allow_origin }, buf: Vec::new() }, Step::Dispatch(body))
    } else {
        (Connection { phase: Phase::Body { allow_origin, wanted }, buf: rest }, Step::ReadMore)
    }
}

fn closed() -> (r: (Connection, Step))
    ensures
        r.0.phase is Closed,
        r.1 is Close,
{
    (Connection { phase: Phase::Closed, buf: Vec::new() }, Step::Close)
}

fn admitted_decision(o: Option<Vec<u8>>, b: &Vec<u8>, k: usize, text: &[u8]) -> (r: (
    Connection,
    Step,
))
    requires
        k + 4 <= b@.len(),
        text@ == b@.subrange(0, k as int),
    ensures
        match declared_length(text@) {
            Some(n) if n <= usize::MAX => body_step(
                vec_opt(o),
                n as nat,
                b@.subrange(k + 4, b@.len() as int),
                r.0,
                r.1,
            ),
            _ => r.1 is Close && r.0.phase is Closed,
        },
{
    let n: u64 = match declared_length_of(text) {
        Some(n) => n,
        None => {
            return closed();
        },
    };
    if n > usize::MAX as u64 {
        return closed();
    }
    let len = b.len();
    let rest = vec_of(vstd::slice::slice_subrange(b.as_slice(), k + 4, len));
    body_decision(o, n as usize, rest)
}

fn head_decision(policy: &ServerPolicy, bound: &Vec<Vec<u8>>, ports: &Vec<u16>, b: Vec<u8>) -> (r: (
    Connection,
    Step,
))
    ensures
        head_step(*policy, views(bound@), ports@, b@, r.0, r.1),
{
    match find_head_end(b.as_slice()) {
        None => {
            if b.len() > MAX_HEAD {
                closed()
            } else {
                (Connection { phase: Phase::Head, buf: b }, Step::ReadMore)
            }
        },
        Some(k) => {
            let text = vstd::slice::slice_subrange(b.as_slice(), 0, k);
            let head = parse_head(text);
            proof {
                let c = choose|c: int|
                    blank_line_at(b@, c) && forall|j: int|
                        0 <= j < c ==> !#[trigger] blank_line_at(b@, j);
                if c < k {
                    assert(!blank_line_at(b@, c));
                } else if c > k {
                    assert(!blank_line_at(b@, k as int));
                }
            }
            match policy.gate(bound, ports, &head) {
                Admission::Refused(resp) => (
                    Connection { phase: Phase::Closed, buf: Vec::new() },
                    Step::Send(resp),
                ),
                Admission::Admitted(o) => admitted_decision(o, &b, k, text),
            }
        },
    }
}

impl Connection {
    pub fn new() -> (r: Connection)
        ensures
            r.phase is Head,
            r.buf@.len() == 0,
    {
        Connection { phase: Phase::Head, buf: Vec::new() }
    }

    /// Takes the bytes of one read.
    pub fn on_data(
        &mut self,
        policy: &ServerPolicy,
        bound: &Vec<Vec<u8>>,
        ports: &Vec<u16>,
        data: &[u8],
    ) -> (r: Step)
        ensures
            match old(self).phase {
                Phase::Head => head_step(
                    *policy,
                    views(bound@),
                    ports@,
                    old(self).buf@ + data@,
                    *final(self),
                    r,
                ),
                Phase::Body { allow_origin, wanted } => body_step(
                    vec_opt(allow_origin),
                    wanted as nat,
                    old(self).buf@ + data@,
                    *final(self),
                    r,
                ),
                _ => r is Close && *final(self) == *old(self),
            },
    {
        let open = match &self.phase {
            Phase::Head => true,
            Phase::Body { .. } => true,
            _ => false,
        };
        if !open {
            return Step::Close;
        }
        let mut phase = Phase::Closed;
        core::mem::swap(&mut self.phase, &mut phase);
        let mut b: Vec<u8> = Vec::new();
        core::mem::swap(&mut self.buf, &mut b);
        push_all(&mut b, data);
        let (next, step) = match phase {
            Phase::Body { allow_origin, wanted } => body_decision(allow_origin, wanted, b),
            _ => head_decision(policy, bound, ports, b),
        };
        *self = next;
        step
    }

    /// Takes the handler's replies to the dispatched body, in call order.
    pub fn finish(&mut self, req: &Option<Request>, replies: &Vec<Reply>) -> (r: Step)
        requires
            well_formed(*req) ==> replies@.len() == call_count(*req),
        ensures
            match old(self).phase {
                Phase::Dispatch { allow_origin } => (r matches Step::Send(v) && v@
                    == response_bytes(
                    Status::Success,
                    vec_opt(allow_origin),
                    json_line(payload(*req, replies@)),
                )) && final(self).phase is Closed,
                _ => r is Close && *final(self) == *old(self),
            },
    {
        let mut phase = Phase::Closed;
        core::mem::swap(&mut self.phase, &mut phase);
        match phase {
            Phase::Dispatch { allow_origin } => Step::Send(
                respond_admitted(&allow_origin, req, replies),
            ),
            other => {
                self.phase = other;
                Step::Close
            },
        }
    }
}

} // verus!
