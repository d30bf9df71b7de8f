//! What one connection decides: admission of a request head, the refusal
//! responses, the response to an admitted request, and reading the blocks of
//! lines that make up a head.

use vstd::prelude::*;
use vstd::string::StringSliceAdditionalSpecFns;
use jsonrpc_core::Request;
use crate::admission::{check, opt_view, spec_check, views, AdmissionError, CorsPolicy, HostWhitelist};
use crate::envelope::{call_count, payload, respond, well_formed, Reply};
use crate::response::{encode_response, response_bytes, Status};
use crate::text::push_all;

verus! {

/// The policy a server applies to every connection.
pub struct ServerPolicy {
    pub hosts: HostWhitelist,
    pub cors: CorsPolicy,
}

/// The parts of a request head that admission reads.
pub struct RequestHead {
    pub method: Vec<u8>,
    pub host: Option<Vec<u8>>,
    pub origin: Option<Vec<u8>>,
    pub content_type: Option<Vec<u8>>,
    /// The declared body length, where it is a number.
    pub content_length: Option<u64>,
}

/// The outcome of admission: a refusal, with the complete response to write,
/// or leave to read the body, with the CORS origin to echo.
pub enum Admission {
    Refused(Vec<u8>),
    Admitted(Option<Vec<u8>>),
}

pub open spec fn vec_opt(o: Option<Vec<u8>>) -> Option<Seq<u8>> {
    match o {
        Some(v) => Some(v@),
        None => None,
    }
}

pub open spec fn invalid_host_text() -> Seq<u8> {
    "Provided Host header is not whitelisted.\n".spec_bytes()
}

pub open spec fn method_not_allowed_text() -> Seq<u8> {
    "Used HTTP Method is not allowed. POST or OPTIONS is required\n".spec_bytes()
}

pub open spec fn unsupported_media_text() -> Seq<u8> {
    "Supplied content type is not allowed. Content-Type: application/json is required\n".spec_bytes()
}

/// The response that refuses a request whose `Host` is not allowed.
pub open spec fn host_refusal() -> Seq<u8> {
    response_bytes(Status::Forbidden, None, invalid_host_text())
}

pub open spec fn check_refusal(e: AdmissionError) -> Seq<u8> {
    match e {
        AdmissionError::MethodNotAllowed => response_bytes(
            Status::MethodNotAllowed,
            None,
            method_not_allowed_text(),
        ),
        AdmissionError::UnsupportedMediaType => response_bytes(
            Status::UnsupportedMediaType,
            None,
            unsupported_media_text(),
        ),
    }
}

/// Host first, then method, then content type; an admitted request carries
/// the origin that CORS lets through.
pub open spec fn gate_parts(
    p: ServerPolicy,
    bound: Seq<Seq<u8>>,
    ports: Seq<u16>,
    method: Seq<u8>,
    host: Option<Seq<u8>>,
    origin: Option<Seq<u8>>,
    content_type: Option<Seq<u8>>,
) -> (Option<Seq<u8>>, Option<Seq<u8>>) {
    if !p.hosts.spec_allows(host, bound, ports) {
        (Some(host_refusal()), None)
    } else {
        match spec_check(method, content_type) {
            Err(e) => (Some(check_refusal(e)), None),
            Ok(_) => (None, p.cors.spec_echo(origin)),
        }
    }
}

pub open spec fn spec_gate(
    p: ServerPolicy,
    bound: Seq<Seq<u8>>,
    ports: Seq<u16>,
    head: RequestHead,
) -> (Option<Seq<u8>>, Option<Seq<u8>>) {
    gate_parts(
        p,
        bound,
        ports,
        head.method@,
        vec_opt(head.host),
        vec_opt(head.origin),
        vec_opt(head.content_type),
    )
}

/// The body of the refusal of a `Host` that is not allowed.
pub fn invalid_host_message() -> (r: Vec<u8>)
    ensures
        r@ == invalid_host_text(),
{
    let mut out: Vec<u8> = Vec::new();
    push_all(&mut out, "Provided Host header is not whitelisted.\n".as_bytes());
    assert(out@ =~= invalid_host_text());
    out
}

fn refusal_for(e: AdmissionError) -> (r: Vec<u8>)
    ensures
        r@ == check_refusal(e),
{
    match e {
        AdmissionError::MethodNotAllowed => encode_response(
            Status::MethodNotAllowed,
            None,
            "Used HTTP Method is not allowed. POST or OPTIONS is required\n".as_bytes(),
        ),
        AdmissionError::UnsupportedMediaType => encode_response(
            Status::UnsupportedMediaType,
            None,
            "Supplied content type is not allowed. Content-Type: application/json is required\n".as_bytes(),
        ),
    }
}

fn opt_slice(o: &Option<Vec<u8>>) -> (r: Option<&[u8]>)
    ensures
        opt_view(r) == vec_opt(*o),
{
    match o {
        Some(v) => Some(v.as_slice()),
        None => None,
    }
}

/// A policy that lets through only `hosts`, besides the server's own
/// addresses (an empty list lets every host through), and echoes the origin
/// `ethcore.io` alone.
pub fn serve_hosts(hosts: Vec<Vec<u8>>) -> (r: ServerPolicy)
    ensures
        r.hosts == HostWhitelist::AllowOnly(hosts),
        r.cors matches CorsPolicy::AllowOnly(v) && views(v@) == seq!["ethcore.io".spec_bytes()],
{
    let mut origin: Vec<u8> = Vec::new();
    push_all(&mut origin, "ethcore.io".as_bytes());
    let mut origins: Vec<Vec<u8>> = Vec::new();
    origins.push(origin);
    assert(views(origins@) =~= seq!["ethcore.io".spec_bytes()]);
    ServerPolicy { hosts: HostWhitelist::AllowOnly(hosts), cors: CorsPolicy::AllowOnly(origins) }
}

impl ServerPolicy {
    /// Admission of a request head by a server bound to `bound` (as
    /// `host:port` text) on `ports`.
    pub fn gate(&self, bound: &Vec<Vec<u8>>, ports: &Vec<u16>, head: &RequestHead) -> (r:
        Admission)
        ensures
            match r {
                Admission::Refused(resp) => spec_gate(*self, views(bound@), ports@, *head) == (
                    Some(resp@),
                    None::<Seq<u8>>,
                ),
                Admission::Admitted(o) => spec_gate(*self, views(bound@), ports@, *head) == (
                    None::<Seq<u8>>,
                    vec_opt(o),
                ),
            },
    {
        if !self.hosts.is_allowed(opt_slice(&head.host), bound, ports) {
            let body = invalid_host_message();
            return Admission::Refused(encode_response(Status::Forbidden, None, body.as_slice()));
        }
        match check(head.method.as_slice(), opt_slice(&head.content_type)) {
            Err(e) => Admission::Refused(refusal_for(e)),
            Ok(_) => {
                let o = self.cors.allowed_origin(opt_slice(&head.origin));
                Admission::Admitted(o)
            },
        }
    }
}

/// A JSON payload as it is sent: followed by a line feed, unless it is empty.
pub open spec fn json_line(p: Seq<u8>) -> Seq<u8> {
    if p.len() == 0 {
        p
    } else {
        p.push(10)
    }
}

/// The response to an admitted request: status 200, the echoed origin if
/// any, and the JSON payload that answers the request.
pub fn respond_admitted(
    allow_origin: &Option<Vec<u8>>,
    req: &Option<Request>,
    replies: &Vec<Reply>,
) -> (r: Vec<u8>)
    requires
        well_formed(*req) ==> replies@.len() == call_count(*req),
    ensures
        r@ == response_bytes(
            Status::Success,
            vec_opt(*allow_origin),
            json_line(payload(*req, replies@)),
        ),
{
    let mut body = respond(req, replies);
    if body.len() > 0 {
        body.push(10);
    }
    encode_response(Status::Success, opt_slice(allow_origin), body.as_slice())
}

/// With a non-empty whitelist, a request whose `Host` is missing or outside
/// the effective set is refused with 403 and the fixed body.
pub proof fn lemma_unlisted_host_forbidden(
    p: ServerPolicy,
    bound: Seq<Seq<u8>>,
    ports: Seq<u16>,
    head: RequestHead,
)
    requires
        !p.hosts.admits_all(),
        match head.host {
            None => true,
            Some(h) => !p.hosts.in_effective_set(h@, bound, ports),
        },
    ensures
        spec_gate(p, bound, ports, head) == (Some(host_refusal()), None::<Seq<u8>>),
{
    crate::admission::lemma_unlisted_host_refused(p.hosts, vec_opt(head.host), bound, ports);
}

/// A `POST` of JSON naming one of the server's own addresses, or
/// `localhost:<port>` for one of its ports, as `Host` is admitted whatever
/// the whitelist holds.
pub proof fn lemma_own_address_admitted(
    p: ServerPolicy,
    bound: Seq<Seq<u8>>,
    ports: Seq<u16>,
    head: RequestHead,
    i: int,
    j: int,
)
    requires
        0 <= i < bound.len(),
        0 <= j < ports.len(),
        vec_opt(head.host) == Some(bound[i]) || vec_opt(head.host) == Some(
            crate::admission::localhost_alias(ports[j]),
        ),
        head.method@ == "POST".spec_bytes(),
        crate::admission::json_content(vec_opt(head.content_type)),
    ensures
        spec_gate(p, bound, ports, head).0 is None,
{
    crate::admission::lemma_own_addresses_allowed(p.hosts, bound, ports, i, j);
}

/// A request with an allowed `Host` and a method other than `POST` or
/// `OPTIONS` is refused with 405 and the fixed body.
pub proof fn lemma_method_refused(
    p: ServerPolicy,
    bound: Seq<Seq<u8>>,
    ports: Seq<u16>,
    head: RequestHead,
)
    requires
        p.hosts.spec_allows(vec_opt(head.host), bound, ports),
        !crate::admission::method_ok(head.method@),
    ensures
        spec_gate(p, bound, ports, head) == (
            Some(response_bytes(Status::MethodNotAllowed, None, method_not_allowed_text())),
            None::<Seq<u8>>,
        ),
{
}

/// A request with an allowed `Host` and method whose content type is not JSON
/// is refused with 415 and the fixed body.
pub proof fn lemma_media_type_refused(
    p: ServerPolicy,
    bound: Seq<Seq<u8>>,
    ports: Seq<u16>,
    head: RequestHead,
)
    requires
        p.hosts.spec_allows(vec_opt(head.host), bound, ports),
        crate::admission::method_ok(head.method@),
        !crate::admission::json_content(vec_opt(head.content_type)),
    ensures
        spec_gate(p, bound, ports, head) == (
            Some(response_bytes(Status::UnsupportedMediaType, None, unsupported_media_text())),
            None::<Seq<u8>>,
        ),
{
}

/// Under an allow-only CORS policy a listed origin is echoed as it is, and an
/// unlisted one is not echoed while the request is still admitted.
pub proof fn lemma_origin_echo(
    p: ServerPolicy,
    bound: Seq<Seq<u8>>,
    ports: Seq<u16>,
    head: RequestHead,
    origins: Vec<Vec<u8>>,
    o: Seq<u8>,
)
    requires
        p.cors == CorsPolicy::AllowOnly(origins),
        vec_opt(head.origin) == Some(o),
        spec_gate(p, bound, ports, head).0 is None,
    ensures
        views(origins@).contains(o) ==> spec_gate(p, bound, ports, head).1 == Some(o),
        !views(origins@).contains(o) ==> spec_gate(p, bound, ports, head).1 is None,
{
}

/// An admitted request whose body is not a well-formed JSON-RPC request is
/// still answered with status 200, carrying the invalid-request object.
pub proof fn lemma_malformed_is_success(
    allow_origin: Option<Seq<u8>>,
    req: Option<Request>,
    replies: Seq<Reply>,
)
    requires
        !well_formed(req),
    ensures
        response_bytes(Status::Success, allow_origin, json_line(payload(req, replies)))
            == response_bytes(
            Status::Success,
            allow_origin,
            crate::envelope::invalid_request_object().push(10),
        ),
{
    reveal_strlit("{\"jsonrpc\":\"2.0\",\"error\":{\"code\":");
    assert(crate::envelope::invalid_request_object().len() > 0);
}

/// The lines from `start` up to `end`, each followed by a line feed.
pub open spec fn lines_text(lines: Seq<Seq<u8>>, start: int, end: int) -> Seq<u8>
    decreases end - start,
{
    if end <= start {
        Seq::empty()
    } else {
        lines_text(lines, start, end - 1) + lines[end - 1] + seq![10u8]
    }
}

/// `end` is where the block that begins at `start` stops: at the first empty
/// line, or after the last line.
pub open spec fn block_stop(lines: Seq<Seq<u8>>, start: int, end: int) -> bool {
    start <= end <= lines.len() && (end == lines.len() || lines[end].len() == 0) && forall|j: int|
        start <= j < end ==> #[trigger] lines[j].len() > 0
}

/// Where the block that begins at `start` stops.
pub open spec fn block_end(lines: Seq<Seq<u8>>, start: int) -> int {
    choose|e: int| block_stop(lines, start, e)
}

/// Where reading resumes after that block: past the empty line that ends it.
pub open spec fn after_block(lines: Seq<Seq<u8>>, start: int) -> int {
    let e = block_end(lines, start);
    if e < lines.len() {
        e + 1
    } else {
        e
    }
}

/// Reads the block of lines that begins at `*pos`, each followed by a line
/// feed, and moves `*pos` past the empty line that ends it.
pub fn read_block(lines: &Vec<Vec<u8>>, pos: &mut usize) -> (r: Vec<u8>)
    requires
        *old(pos) <= lines@.len(),
    ensures
        r@ == lines_text(views(lines@), *old(pos) as int, block_end(views(lines@), *old(pos) as int)),
        *final(pos) == after_block(views(lines@), *old(pos) as int),
        *final(pos) <= lines@.len(),
{
    let start = *pos;
    let ghost ls = views(lines@);
    let mut block: Vec<u8> = Vec::new();
    let mut i: usize = start;
    while i < lines.len() && lines[i].len() > 0
        invariant
            ls == views(lines@),
            start <= i <= lines@.len(),
            forall|j: int| start <= j < i ==> #[trigger] ls[j].len() > 0,
            block@ == lines_text(ls, start as int, i as int),
        decreases lines@.len() - i,
    {
        push_all(&mut block, lines[i].as_slice());
        block.push(10);
        i += 1;
        assert(block@ =~= lines_text(ls, start as int, i as int));
    }
    assert(block_stop(ls, start as int, i as int));
    proof {
        let c = block_end(ls, start as int);
        if c < i {
            assert(ls[c].len() > 0);
        } else if c > i {
            assert(ls[i as int].len() > 0);
        }
    }
    if i < lines.len() {
        *pos = i + 1;
    } else {
        *pos = i;
    }
    block
}

} // verus!
