//! The JSON-RPC envelope: which requests are well formed, and the bytes that
//! answer a single call or a batch once the handler's replies are in.

use vstd::prelude::*;
use vstd::string::StringSliceAdditionalSpecFns;
use vstd::utf8::encode_utf8;
use jsonrpc_core::{Call, Id, MethodCall, Notification, Params, Request, Version};
use crate::text::{json_string, push_all, push_json_string, push_signed_decimal, signed_decimal, decimal, push_decimal};

verus! {

#[verifier::external_type_specification]
#[verifier::external_body]
pub struct ExParams(Params);

#[verifier::external_type_specification]
pub struct ExVersion(Version);

#[verifier::external_type_specification]
pub struct ExId(Id);

#[verifier::external_type_specification]
pub struct ExMethodCall(MethodCall);

#[verifier::external_type_specification]
pub struct ExNotification(Notification);

#[verifier::external_type_specification]
pub struct ExCall(Call);

#[verifier::external_type_specification]
pub struct ExRequest(Request);

/// What jsonrpc_core's deserialiser makes of a request body, `None` where the
/// text is not a request at all.
pub uninterp spec fn request_of(body: Seq<u8>) -> Option<Request>;

/// Relies on jsonrpc_core::serde_from_str, read as a `Request`: the result
/// depends on the text alone.
#[verifier::external_body]
fn read_request(body: &str) -> (r: Option<Request>)
    ensures
        r == request_of(body.spec_bytes()),
{
    jsonrpc_core::serde_from_str::<Request>(body).ok()
}

/// Reads a request body as a JSON-RPC request.
pub fn parse(body: &str) -> (r: Option<Request>)
    ensures
        r == request_of(body.spec_bytes()),
{
    read_request(body)
}

/// What the handler made of one call.
pub enum Reply {
    /// The method returned; the JSON text of its result.
    Value(Vec<u8>),
    /// The method returned an error object.
    Failure { code: i64, message: Vec<u8>, data: Option<Vec<u8>> },
    /// No method of that name is registered.
    NoSuchMethod,
    /// The pending computation failed before it produced a result.
    Fault,
}

/// A call that names `"jsonrpc": "2.0"` and has the shape of a method call or
/// a notification.
pub open spec fn call_ok(c: Call) -> bool {
    match c {
        Call::MethodCall(m) => m.jsonrpc is Some,
        Call::Notification(n) => n.jsonrpc is Some,
        Call::Invalid { .. } => false,
    }
}

/// A single well-formed call, or a non-empty batch of them.
pub open spec fn well_formed(req: Option<Request>) -> bool {
    match req {
        None => false,
        Some(Request::Single(c)) => call_ok(c),
        Some(Request::Batch(v)) => v@.len() > 0 && forall|i: int|
            0 <= i < v@.len() ==> call_ok(#[trigger] v@[i]),
    }
}

/// How many replies the handler owes a request.
pub open spec fn call_count(req: Option<Request>) -> nat {
    match req {
        Some(Request::Single(_)) => 1,
        Some(Request::Batch(v)) => v@.len(),
        None => 0,
    }
}

pub open spec fn id_text(id: Id) -> Seq<u8> {
    match id {
        Id::Null => "null".spec_bytes(),
        Id::Num(n) => decimal(n as nat),
        Id::Str(s) => json_string(encode_utf8(s@)),
    }
}

/// A JSON-RPC error response object.
pub open spec fn error_object(code: int, message: Seq<u8>, data: Option<Seq<u8>>, id: Id) -> Seq<u8> {
    "{\"jsonrpc\":\"2.0\",\"error\":{\"code\":".spec_bytes() + signed_decimal(code)
        + ",\"message\":".spec_bytes() + json_string(message) + ",\"data\":".spec_bytes()
        + match data {
        Some(d) => d,
        None => "null".spec_bytes(),
    } + "},\"id\":".spec_bytes() + id_text(id) + "}".spec_bytes()
}

/// The answer to a malformed request: code -32600, id null.
pub open spec fn invalid_request_object() -> Seq<u8> {
    error_object(-32600, "Invalid request".spec_bytes(), None, Id::Null)
}

/// The answer to a call of a method that is not registered: code -32601.
pub open spec fn method_not_found_object(id: Id) -> Seq<u8> {
    error_object(-32601, "Method not found".spec_bytes(), None, id)
}

/// A JSON-RPC success response object carrying the JSON text `v`.
pub open spec fn result_object(id: Id, v: Seq<u8>) -> Seq<u8> {
    "{\"jsonrpc\":\"2.0\",\"result\":".spec_bytes() + v + ",\"id\":".spec_bytes() + id_text(id)
        + "}".spec_bytes()
}

/// The response object for a call with this id and reply.
pub open spec fn response_object(id: Id, reply: Reply) -> Seq<u8> {
    match reply {
        Reply::Value(v) => result_object(id, v@),
        Reply::Failure { code, message, data } => error_object(
            code as int,
            message@,
            match data {
                Some(d) => Some(d@),
                None => None,
            },
            id,
        ),
        Reply::NoSuchMethod => method_not_found_object(id),
        Reply::Fault => error_object(-32603, "Internal error".spec_bytes(), None, id),
    }
}

/// A call with an id is answered; a notification never is.
pub open spec fn answer(c: Call, reply: Reply) -> Option<Seq<u8>> {
    match c {
        Call::MethodCall(m) => Some(response_object(m.id, reply)),
        _ => None,
    }
}

/// The answers to the first `n` calls of a batch, in call order, with the
/// notifications left out.
pub open spec fn kept(calls: Seq<Call>, replies: Seq<Reply>, n: int) -> Seq<Seq<u8>>
    decreases n,
{
    if n <= 0 {
        Seq::empty()
    } else {
        let prev = kept(calls, replies, n - 1);
        match answer(calls[n - 1], replies[n - 1]) {
            Some(o) => prev.push(o),
            None => prev,
        }
    }
}

/// The parts separated by commas.
pub open spec fn joined(parts: Seq<Seq<u8>>) -> Seq<u8>
    decreases parts.len(),
{
    if parts.len() == 0 {
        Seq::empty()
    } else if parts.len() == 1 {
        parts[0]
    } else {
        joined(parts.drop_last()) + seq![44u8] + parts.last()
    }
}

/// A batch is answered by a JSON array of its answers, or by nothing at all
/// where every call was a notification.
pub open spec fn batch_payload(calls: Seq<Call>, replies: Seq<Reply>) -> Seq<u8> {
    let k = kept(calls, replies, calls.len() as int);
    if k.len() == 0 {
        Seq::empty()
    } else {
        seq![91u8] + joined(k) + seq![93u8]
    }
}

/// The JSON payload of the response to a parsed request, given the handler's
/// replies in call order.
pub open spec fn payload(req: Option<Request>, replies: Seq<Reply>) -> Seq<u8> {
    if !well_formed(req) {
        invalid_request_object()
    } else {
        match req {
            Some(Request::Single(c)) => match answer(c, replies[0]) {
                Some(o) => o,
                None => Seq::empty(),
            },
            Some(Request::Batch(v)) => batch_payload(v@, replies),
            None => Seq::empty(),
        }
    }
}

fn call_is_ok(c: &Call) -> (r: bool)
    ensures
        r == call_ok(*c),
{
    match c {
        Call::MethodCall(m) => m.jsonrpc.is_some(),
        Call::Notification(n) => n.jsonrpc.is_some(),
        Call::Invalid { .. } => false,
    }
}

pub fn is_well_formed(req: &Option<Request>) -> (r: bool)
    ensures
        r == well_formed(*req),
{
    match req {
        None => false,
        Some(Request::Single(c)) => call_is_ok(c),
        Some(Request::Batch(v)) => {
            if v.len() == 0 {
                return false;
            }
            let mut i: usize = 0;
            while i < v.len()
                invariant
                    0 <= i <= v@.len(),
                    well_formed(*req) == forall|j: int|
                        0 <= j < v@.len() ==> call_ok(#[trigger] v@[j]),
                    forall|j: int| 0 <= j < i ==> call_ok(#[trigger] v@[j]),
                decreases v@.len() - i,
            {
                if !call_is_ok(&v[i]) {
                    return false;
                }
                i += 1;
            }
            true
        },
    }
}

/// The number of replies that `respond` expects for a request.
pub fn reply_count(req: &Option<Request>) -> (r: usize)
    ensures
        r == call_count(*req),
{
    match req {
        Some(Request::Single(_)) => 1,
        Some(Request::Batch(v)) => v.len(),
        None => 0,
    }
}

fn push_id(out: &mut Vec<u8>, id: &Id)
    ensures
        final(out)@ == old(out)@ + id_text(*id),
{
    match id {
        Id::Null => push_all(out, "null".as_bytes()),
        Id::Num(n) => push_decimal(out, *n),
        Id::Str(s) => push_json_string(out, s.as_str().as_bytes()),
    }
}

fn push_error(out: &mut Vec<u8>, code: i64, message: &[u8], data: Option<&[u8]>, id: &Id)
    ensures
        final(out)@ == old(out)@ + error_object(
            code as int,
            message@,
            match data {
                Some(d) => Some(d@),
                None => None,
            },
            *id,
        ),
{
    push_all(out, "{\"jsonrpc\":\"2.0\",\"error\":{\"code\":".as_bytes());
    push_signed_decimal(out, code);
    push_all(out, ",\"message\":".as_bytes());
    push_json_string(out, message);
    push_all(out, ",\"data\":".as_bytes());
    match data {
        Some(d) => push_all(out, d),
        None => push_all(out, "null".as_bytes()),
    }
    push_all(out, "},\"id\":".as_bytes());
    push_id(out, id);
    push_all(out, "}".as_bytes());
    assert(out@ =~= old(out)@ + error_object(
        code as int,
        message@,
        match data {
            Some(d) => Some(d@),
            None => None,
        },
        *id,
    ));
}

fn push_response(out: &mut Vec<u8>, id: &Id, reply: &Reply)
    ensures
        final(out)@ == old(out)@ + response_object(*id, *reply),
{
    match reply {
        Reply::Value(v) => {
            push_all(out, "{\"jsonrpc\":\"2.0\",\"result\":".as_bytes());
            push_all(out, v.as_slice());
            push_all(out, ",\"id\":".as_bytes());
            push_id(out, id);
            push_all(out, "}".as_bytes());
            assert(out@ =~= old(out)@ + response_object(*id, *reply));
        },
        Reply::Failure { code, message, data } => {
            let d: Option<&[u8]> = match data {
                Some(d) => Some(d.as_slice()),
                None => None,
            };
            push_error(out, *code, message.as_slice(), d, id);
        },
        Reply::NoSuchMethod => push_error(out, -32601, "Method not found".as_bytes(), None, id),
        Reply::Fault => push_error(out, -32603, "Internal error".as_bytes(), None, id),
    }
}

/// The method a call names.
pub open spec fn method_named(c: Call) -> Seq<char> {
    match c {
        Call::MethodCall(m) => m.method@,
        Call::Notification(n) => n.method@,
        Call::Invalid { .. } => Seq::empty(),
    }
}

/// The call names a method of the registry.
pub open spec fn registered(names: Seq<String>, c: Call) -> bool {
    !(c is Invalid) && exists|i: int| 0 <= i < names.len() && #[trigger] names[i]@ == method_named(c)
}

/// The reply owed to a call, given the registry's names and what the handler
/// made of it: an unregistered method is not found, whatever was handed in.
pub open spec fn resolved(names: Seq<String>, c: Call, handled: Reply) -> Reply {
    if registered(names, c) {
        handled
    } else {
        Reply::NoSuchMethod
    }
}

/// Whether the call names a method of the registry.
pub fn is_registered(names: &Vec<String>, c: &Call) -> (r: bool)
    ensures
        r == registered(names@, *c),
{
    let name: &String = match c {
        Call::MethodCall(m) => &m.method,
        Call::Notification(n) => &n.method,
        Call::Invalid { .. } => {
            return false;
        },
    };
    let mut i: usize = 0;
    while i < names.len()
        invariant
            0 <= i <= names@.len(),
            name@ == method_named(*c),
            !(*c is Invalid),
            forall|j: int| 0 <= j < i ==> #[trigger] names@[j]@ != method_named(*c),
        decreases names@.len() - i,
    {
        if names[i] == *name {
            assert(names@[i as int]@ == method_named(*c));
            return true;
        }
        i += 1;
    }
    false
}

/// The reply owed to a call: `handled` for a registered method, not found
/// otherwise.
pub fn resolve(names: &Vec<String>, c: &Call, handled: Reply) -> (r: Reply)
    ensures
        r == resolved(names@, *c, handled),
{
    if is_registered(names, c) {
        handled
    } else {
        Reply::NoSuchMethod
    }
}

/// The answer to a malformed request.
pub fn invalid_request_payload() -> (r: Vec<u8>)
    ensures
        r@ == invalid_request_object(),
{
    let mut out: Vec<u8> = Vec::new();
    push_error(&mut out, -32600, "Invalid request".as_bytes(), None, &Id::Null);
    out
}

/// The answer to a call of an unregistered method with this id.
pub fn method_not_found_payload(id: &Id) -> (r: Vec<u8>)
    ensures
        r@ == method_not_found_object(*id),
{
    let mut out: Vec<u8> = Vec::new();
    push_error(&mut out, -32601, "Method not found".as_bytes(), None, id);
    out
}

/// The answer to one call, if it is owed one.
pub fn answer_call(c: &Call, reply: &Reply) -> (r: Option<Vec<u8>>)
    ensures
        match r {
            Some(o) => answer(*c, *reply) == Some(o@),
            None => answer(*c, *reply) is None,
        },
{
    match c {
        Call::MethodCall(m) => {
            let mut out: Vec<u8> = Vec::new();
            push_response(&mut out, &m.id, reply);
            Some(out)
        },
        _ => None,
    }
}

fn batch_answer(calls: &Vec<Call>, replies: &Vec<Reply>) -> (r: Vec<u8>)
    requires
        replies@.len() == calls@.len(),
    ensures
        r@ == batch_payload(calls@, replies@),
{
    let mut body: Vec<u8> = Vec::new();
    let mut count: usize = 0;
    let mut i: usize = 0;
    while i < calls.len()
        invariant
            replies@.len() == calls@.len(),
            0 <= i <= calls@.len(),
            count == kept(calls@, replies@, i as int).len(),
            count <= i,
            body@ == joined(kept(calls@, replies@, i as int)),
        decreases calls@.len() - i,
    {
        let ghost prev = kept(calls@, replies@, i as int);
        match answer_call(&calls[i], &replies[i]) {
            Some(o) => {
                if count > 0 {
                    body.push(44);
                }
                push_all(&mut body, o.as_slice());
                assert(prev.push(o@).drop_last() =~= prev);
                count += 1;
                assert(body@ =~= joined(prev.push(o@)));
            },
            None => {},
        }
        i += 1;
    }
    if count == 0 {
        Vec::new()
    } else {
        let mut out: Vec<u8> = Vec::new();
        out.push(91);
        push_all(&mut out, body.as_slice());
        out.push(93);
        assert(out@ =~= batch_payload(calls@, replies@));
        out
    }
}

/// The JSON payload that answers a parsed request, given what the handler
/// replied to each of its calls, in call order.
pub fn respond(req: &Option<Request>, replies: &Vec<Reply>) -> (r: Vec<u8>)
    requires
        well_formed(*req) ==> replies@.len() == call_count(*req),
    ensures
        r@ == payload(*req, replies@),
{
    if !is_well_formed(req) {
        return invalid_request_payload();
    }
    match req {
        Some(Request::Single(c)) => match answer_call(c, &replies[0]) {
            Some(o) => o,
            None => Vec::new(),
        },
        Some(Request::Batch(v)) => batch_answer(v, replies),
        None => Vec::new(),
    }
}

/// A malformed request, whatever it was, is answered by the invalid-request
/// error object with a null id.
pub proof fn lemma_malformed_answered_invalid(req: Option<Request>, replies: Seq<Reply>)
    requires
        !well_formed(req),
    ensures
        payload(req, replies) == invalid_request_object(),
{
}

/// A single notification is answered by an empty body, whatever the handler
/// did with it.
pub proof fn lemma_notification_silent(n: Notification, reply: Reply)
    requires
        n.jsonrpc is Some,
    ensures
        payload(Some(Request::Single(Call::Notification(n))), seq![reply]) == Seq::<u8>::empty(),
{
}

/// A call of an unregistered method is answered by the method-not-found error
/// object that carries the call's id.
pub proof fn lemma_unknown_method_answered(m: MethodCall)
    requires
        m.jsonrpc is Some,
    ensures
        payload(Some(Request::Single(Call::MethodCall(m))), seq![Reply::NoSuchMethod])
            == method_not_found_object(m.id),
{
}

/// A call with an id of a method that the registry does not hold is
/// answered by the method-not-found error object carrying that id, whatever
/// the handler was asked for.
pub proof fn lemma_unregistered_method_answered(m: MethodCall, names: Seq<String>, handled: Reply)
    requires
        m.jsonrpc is Some,
        !registered(names, Call::MethodCall(m)),
    ensures
        payload(
            Some(Request::Single(Call::MethodCall(m))),
            seq![resolved(names, Call::MethodCall(m), handled)],
        ) == method_not_found_object(m.id),
{
}

/// A batch of one call with an id is answered by an array of exactly that
/// call's response object.
pub proof fn lemma_batch_of_one(calls: Vec<Call>, m: MethodCall, reply: Reply)
    requires
        calls@ == seq![Call::MethodCall(m)],
        m.jsonrpc is Some,
    ensures
        payload(Some(Request::Batch(calls)), seq![reply]) == seq![91u8] + response_object(m.id, reply) + seq![
            93u8,
        ],
{
    assert(well_formed(Some(Request::Batch(calls))));
    assert(kept(calls@, seq![reply], 0) == Seq::<Seq<u8>>::empty());
    assert(kept(calls@, seq![reply], 1) =~= seq![response_object(m.id, reply)]);
}

/// A batch of notifications only is answered by an empty body, not by `[]`.
pub proof fn lemma_silent_batch(calls: Seq<Call>, replies: Seq<Reply>)
    requires
        forall|i: int| 0 <= i < calls.len() ==> #[trigger] calls[i] is Notification,
    ensures
        batch_payload(calls, replies) == Seq::<u8>::empty(),
{
    lemma_nothing_kept(calls, replies, calls.len() as int);
}

proof fn lemma_nothing_kept(calls: Seq<Call>, replies: Seq<Reply>, n: int)
    requires
        n <= calls.len(),
        forall|i: int| 0 <= i < calls.len() ==> #[trigger] calls[i] is Notification,
    ensures
        kept(calls, replies, n).len() == 0,
    decreases n,
{
    if n > 0 {
        lemma_nothing_kept(calls, replies, n - 1);
        assert(calls[n - 1] is Notification);
    }
}

/// Where every call of a batch has an id, the `i`-th answer is the response
/// to the `i`-th call, whatever order the replies were completed in.
pub proof fn lemma_answers_in_call_order(calls: Seq<Call>, replies: Seq<Reply>, n: int)
    requires
        0 <= n <= calls.len(),
        n <= replies.len(),
        forall|i: int| 0 <= i < calls.len() ==> #[trigger] calls[i] is MethodCall,
    ensures
        kept(calls, replies, n).len() == n,
        forall|i: int|
            0 <= i < n ==> answer(calls[i], replies[i]) == Some(
                #[trigger] kept(calls, replies, n)[i],
            ),
    decreases n,
{
    if n > 0 {
        lemma_answers_in_call_order(calls, replies, n - 1);
        assert(calls[n - 1] is MethodCall);
        let prev = kept(calls, replies, n - 1);
        let cur = kept(calls, replies, n);
        assert forall|i: int| 0 <= i < n implies answer(calls[i], replies[i]) == Some(
            #[trigger] cur[i],
        ) by {
            if i < n - 1 {
                assert(cur[i] == prev[i]);
            }
        }
    }
}

} // verus!
