//! The admission gate: allowed hosts, CORS origin echoing, and the checks on
//! HTTP method and content type that run before a body is read.

use vstd::prelude::*;
use vstd::string::StringSliceAdditionalSpecFns;
use crate::text::{
    eq_ignore_case, push_all, push_decimal, same_bytes, same_ignoring_case, decimal,
};

verus! {

/// Which `Host` headers a server accepts, besides its own addresses.
pub enum HostWhitelist {
    AllowAll,
    AllowOnly(Vec<Vec<u8>>),
}

/// Which `Origin` values are echoed in `Access-Control-Allow-Origin`.
pub enum CorsPolicy {
    Disabled,
    AllowAll,
    AllowOnly(Vec<Vec<u8>>),
}

/// Why a request was refused before its body was read.
#[derive(Debug, Clone, Copy, PartialEq, Eq, Structural)]
pub enum AdmissionError {
    MethodNotAllowed,
    UnsupportedMediaType,
}

pub open spec fn views(v: Seq<Vec<u8>>) -> Seq<Seq<u8>> {
    v.map_values(|x: Vec<u8>| x@)
}

pub open spec fn opt_view(o: Option<&[u8]>) -> Option<Seq<u8>> {
    match o {
        Some(x) => Some(x@),
        None => None,
    }
}

/// Some entry of `list` equals `h` up to ASCII case.
pub open spec fn listed(h: Seq<u8>, list: Seq<Seq<u8>>) -> bool {
    exists|i: int| 0 <= i < list.len() && same_ignoring_case(h, #[trigger] list[i])
}

/// `localhost:<port>`.
pub open spec fn localhost_alias(port: u16) -> Seq<u8> {
    "localhost:".spec_bytes() + decimal(port as nat)
}

pub open spec fn localhost_aliases(ports: Seq<u16>) -> Seq<Seq<u8>> {
    ports.map_values(|p: u16| localhost_alias(p))
}

impl HostWhitelist {
    pub open spec fn configured(&self) -> Seq<Seq<u8>> {
        match self {
            HostWhitelist::AllowAll => Seq::empty(),
            HostWhitelist::AllowOnly(v) => views(v@),
        }
    }

    /// An explicit allow-all, or an empty list, admits every request.
    pub open spec fn admits_all(&self) -> bool {
        match self {
            HostWhitelist::AllowAll => true,
            HostWhitelist::AllowOnly(v) => v@.len() == 0,
        }
    }

    /// The configured hosts, the bound addresses and a `localhost:<port>`
    /// alias for every bound port.
    pub open spec fn in_effective_set(
        &self,
        h: Seq<u8>,
        bound: Seq<Seq<u8>>,
        ports: Seq<u16>,
    ) -> bool {
        listed(h, self.configured()) || listed(h, bound) || listed(h, localhost_aliases(ports))
    }

    pub open spec fn spec_allows(
        &self,
        host: Option<Seq<u8>>,
        bound: Seq<Seq<u8>>,
        ports: Seq<u16>,
    ) -> bool {
        self.admits_all() || match host {
            None => false,
            Some(h) => self.in_effective_set(h, bound, ports),
        }
    }

    /// Whether a request with this `Host` header is let through by a server
    /// bound to `bound` (as `host:port` text) on `ports`.
    pub fn is_allowed(&self, host: Option<&[u8]>, bound: &Vec<Vec<u8>>, ports: &Vec<u16>) -> (r:
        bool)
        ensures
            r == self.spec_allows(opt_view(host), views(bound@), ports@),
    {
        let configured = match self {
            HostWhitelist::AllowAll => {
                return true;
            },
            HostWhitelist::AllowOnly(v) => v,
        };
        if configured.len() == 0 {
            return true;
        }
        match host {
            None => false,
            Some(h) => {
                any_listed(h, configured) || any_listed(h, bound) || any_alias(h, ports)
            },
        }
    }
}

fn any_listed(h: &[u8], list: &Vec<Vec<u8>>) -> (r: bool)
    ensures
        r == listed(h@, views(list@)),
{
    let mut i: usize = 0;
    while i < list.len()
        invariant
            0 <= i <= list@.len(),
            forall|j: int| 0 <= j < i ==> !same_ignoring_case(h@, #[trigger] views(list@)[j]),
        decreases list@.len() - i,
    {
        if eq_ignore_case(h, list[i].as_slice()) {
            assert(same_ignoring_case(h@, views(list@)[i as int]));
            return true;
        }
        i += 1;
    }
    false
}

pub fn localhost_alias_of(port: u16) -> (r: Vec<u8>)
    ensures
        r@ == localhost_alias(port),
{
    let mut out: Vec<u8> = Vec::new();
    push_all(&mut out, "localhost:".as_bytes());
    push_decimal(&mut out, port as u64);
    assert(out@ =~= localhost_alias(port));
    out
}

fn any_alias(h: &[u8], ports: &Vec<u16>) -> (r: bool)
    ensures
        r == listed(h@, localhost_aliases(ports@)),
{
    let mut i: usize = 0;
    while i < ports.len()
        invariant
            0 <= i <= ports@.len(),
            forall|j: int|
                0 <= j < i ==> !same_ignoring_case(h@, #[trigger] localhost_aliases(ports@)[j]),
        decreases ports@.len() - i,
    {
        let alias = localhost_alias_of(ports[i]);
        if eq_ignore_case(h, alias.as_slice()) {
            assert(same_ignoring_case(h@, localhost_aliases(ports@)[i as int]));
            return true;
        }
        i += 1;
    }
    false
}

/// A non-empty whitelist refuses every `Host` header outside its effective
/// set, and a request without one.
pub proof fn lemma_unlisted_host_refused(
    w: HostWhitelist,
    host: Option<Seq<u8>>,
    bound: Seq<Seq<u8>>,
    ports: Seq<u16>,
)
    requires
        !w.admits_all(),
        match host {
            None => true,
            Some(h) => !w.in_effective_set(h, bound, ports),
        },
    ensures
        !w.spec_allows(host, bound, ports),
{
}

/// Every bound address, and `localhost:<port>` for every bound port, is let
/// through whatever the whitelist holds.
pub proof fn lemma_own_addresses_allowed(
    w: HostWhitelist,
    bound: Seq<Seq<u8>>,
    ports: Seq<u16>,
    i: int,
    j: int,
)
    requires
        0 <= i < bound.len(),
        0 <= j < ports.len(),
    ensures
        w.spec_allows(Some(bound[i]), bound, ports),
        w.spec_allows(Some(localhost_alias(ports[j])), bound, ports),
{
    assert(same_ignoring_case(bound[i], bound[i]));
    assert(listed(bound[i], bound));
    let a = localhost_alias(ports[j]);
    assert(localhost_aliases(ports)[j] == a);
    assert(same_ignoring_case(a, localhost_aliases(ports)[j]));
}

impl CorsPolicy {
    /// The `Access-Control-Allow-Origin` value owed to a request with this
    /// `Origin` header, if any.
    pub open spec fn spec_echo(&self, origin: Option<Seq<u8>>) -> Option<Seq<u8>> {
        match origin {
            None => None,
            Some(o) => match self {
                CorsPolicy::Disabled => None,
                CorsPolicy::AllowAll => Some("*".spec_bytes()),
                CorsPolicy::AllowOnly(v) => if views(v@).contains(o) {
                    Some(o)
                } else {
                    None
                },
            },
        }
    }

    pub fn allowed_origin(&self, origin: Option<&[u8]>) -> (r: Option<Vec<u8>>)
        ensures
            match r {
                Some(v) => self.spec_echo(opt_view(origin)) == Some(v@),
                None => self.spec_echo(opt_view(origin)) is None,
            },
    {
        let o = match origin {
            None => {
                return None;
            },
            Some(o) => o,
        };
        match self {
            CorsPolicy::Disabled => None,
            CorsPolicy::AllowAll => {
                let mut star: Vec<u8> = Vec::new();
                push_all(&mut star, "*".as_bytes());
                assert(star@ =~= "*".spec_bytes());
                Some(star)
            },
            CorsPolicy::AllowOnly(v) => {
                let mut i: usize = 0;
                while i < v.len()
                    invariant
                        0 <= i <= v@.len(),
                        opt_view(origin) == Some(o@),
                        self.spec_echo(Some(o@)) == (if views(v@).contains(o@) {
                            Some(o@)
                        } else {
                            None
                        }),
                        forall|j: int| 0 <= j < i ==> #[trigger] views(v@)[j] != o@,
                    decreases v@.len() - i,
                {
                    if same_bytes(v[i].as_slice(), o) {
                        assert(views(v@)[i as int] == o@);
                        assert(views(v@).contains(o@));
                        let mut echo: Vec<u8> = Vec::new();
                        push_all(&mut echo, o);
                        assert(echo@ =~= o@);
                        return Some(echo);
                    }
                    i += 1;
                }
                assert(!views(v@).contains(o@));
                None
            },
        }
    }
}

/// CORS never reflects an arbitrary origin: what it echoes is `*` under
/// allow-all, or the request's own origin when that origin is configured.
pub proof fn lemma_echo_is_configured(c: CorsPolicy, origin: Option<Seq<u8>>, v: Seq<u8>)
    requires
        c.spec_echo(origin) == Some(v),
    ensures
        match c {
            CorsPolicy::AllowAll => v == "*".spec_bytes(),
            CorsPolicy::AllowOnly(list) => origin == Some(v) && views(list@).contains(v),
            CorsPolicy::Disabled => false,
        },
{
}

/// The part of a `Content-Type` value before its parameters: up to the first
/// `;`, or all of it.
pub open spec fn media_end(s: Seq<u8>, k: int) -> bool {
    0 <= k <= s.len() && (k == s.len() || s[k] == 59) && forall|j: int|
        0 <= j < k ==> #[trigger] s[j] != 59
}

pub open spec fn media_type(s: Seq<u8>) -> Seq<u8> {
    s.subrange(0, choose|k: int| media_end(s, k))
}

pub open spec fn method_ok(method: Seq<u8>) -> bool {
    method == "POST".spec_bytes() || method == "OPTIONS".spec_bytes()
}

/// `application/json`, in any case, with or without parameters.
pub open spec fn json_content(content_type: Option<Seq<u8>>) -> bool {
    match content_type {
        None => false,
        Some(c) => same_ignoring_case(media_type(c), "application/json".spec_bytes()),
    }
}

pub open spec fn spec_check(method: Seq<u8>, content_type: Option<Seq<u8>>) -> Result<
    (),
    AdmissionError,
> {
    if !method_ok(method) {
        Err(AdmissionError::MethodNotAllowed)
    } else if !json_content(content_type) {
        Err(AdmissionError::UnsupportedMediaType)
    } else {
        Ok(())
    }
}

fn media_type_of(s: &[u8]) -> (r: &[u8])
    ensures
        r@ == media_type(s@),
{
    let mut k: usize = 0;
    while k < s.len() && s[k] != 59
        invariant
            0 <= k <= s@.len(),
            forall|j: int| 0 <= j < k ==> #[trigger] s@[j] != 59,
        decreases s@.len() - k,
    {
        k += 1;
    }
    assert(media_end(s@, k as int));
    let ghost c = choose|c: int| media_end(s@, c);
    assert(c == k as int) by {
        if c < k as int {
            assert(s@[c] != 59);
        } else if c > k as int {
            assert(s@[k as int] != 59);
        }
    }
    vstd::slice::slice_subrange(s, 0, k)
}

/// The method must be `POST` or `OPTIONS`; then the content type must be
/// JSON.
pub fn check(method: &[u8], content_type: Option<&[u8]>) -> (r: Result<(), AdmissionError>)
    ensures
        r == spec_check(method@, opt_view(content_type)),
{
    if !same_bytes(method, "POST".as_bytes()) && !same_bytes(method, "OPTIONS".as_bytes()) {
        return Err(AdmissionError::MethodNotAllowed);
    }
    match content_type {
        None => Err(AdmissionError::UnsupportedMediaType),
        Some(c) => {
            if eq_ignore_case(media_type_of(c), "application/json".as_bytes()) {
                Ok(())
            } else {
                Err(AdmissionError::UnsupportedMediaType)
            }
        },
    }
}

} // verus!
