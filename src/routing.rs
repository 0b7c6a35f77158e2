//! Public ingress routing: the first label of the `Host` header names the
//! agent whose session receives the request.
use vstd::prelude::*;
use vstd::string::StringExecFns;
use vstd::string::StrSliceExecFns;

use crate::agent_id::AgentId;
use crate::endpoint::{forward_target, target_text};
use crate::server::{lemma_connect_persists, run_ops, touches, RegistryOp, StormGrokServer};

verus! {

/// Body of the answer to a request for an agent that has no live session.
pub const NOT_FOUND_BODY: &'static str = "No active client found\n";

/// Body of the answer to a request whose host names no agent.
pub const NO_AGENT_BODY: &'static str = "The host name does not name an agent\n";

/// Status of both refusals.
pub const NOT_FOUND_STATUS: u16 = 404;

/// The characters of `host` before its first `.`, or all of them.
pub open spec fn first_label(host: Seq<char>) -> Seq<char>
    decreases host.len(),
{
    if host.len() == 0 {
        host
    } else if host[0] == '.' {
        Seq::empty()
    } else {
        seq![host[0]] + first_label(host.drop_first())
    }
}

proof fn lemma_first_label_prefix(host: Seq<char>, n: int)
    requires
        0 <= n <= host.len(),
        forall|j: int| 0 <= j < n ==> host[j] != '.',
        n == host.len() || host[n] == '.',
    ensures
        first_label(host) == host.subrange(0, n),
    decreases host.len(),
{
    if host.len() > 0 && host[0] != '.' {
        let rest = host.drop_first();
        assert forall|j: int| 0 <= j < n - 1 implies rest[j] != '.' by {
            assert(rest[j] == host[j + 1]);
        }
        lemma_first_label_prefix(rest, n - 1);
        assert(first_label(host) =~= host.subrange(0, n));
    } else if host.len() > 0 {
        assert(host.subrange(0, n) =~= Seq::<char>::empty());
    } else {
        assert(host.subrange(0, n) =~= host);
    }
}

/// The first dot-separated label of a host name.
pub fn host_first_label(host: &str) -> (r: &str)
    ensures
        r@ == first_label(host@),
{
    let n = host.unicode_len();
    let mut i: usize = 0;
    while i < n && host.get_char(i) != '.'
        invariant
            n == host@.len(),
            i <= n,
            forall|j: int| 0 <= j < i ==> host@[j] != '.',
        decreases n - i,
    {
        i = i + 1;
    }
    proof {
        lemma_first_label_prefix(host@, i as int);
    }
    host.substring_char(0, i)
}

/// The 128-bit value that `uuid::Uuid::parse_str` reads from a text, or `None`
/// where it refuses the text.
pub uninterp spec fn uuid_text_value(s: Seq<char>) -> Option<u128>;

/// Relies on `uuid::Uuid::parse_str` (hyphenated, simple, braced and URN forms)
/// and on `Uuid::as_u128`, which reads the 16 bytes big-endian.
#[verifier::external_body]
fn parse_uuid(label: &str) -> (r: Option<AgentId>)
    ensures
        r is None ==> uuid_text_value(label@) is None,
        r matches Some(id) ==> uuid_text_value(label@) == Some(id.value),
{
    uuid::Uuid::parse_str(label).ok().map(|u| AgentId { value: u.as_u128() })
}

/// The agent that a host name addresses: its first label read as a UUID.
pub fn resolve_uuid_from_host(host: &str) -> (r: Option<AgentId>)
    ensures
        r is None ==> uuid_text_value(first_label(host@)) is None,
        r matches Some(id) ==> uuid_text_value(first_label(host@)) == Some(id.value),
{
    parse_uuid(host_first_label(host))
}

/// Where a public request goes.
#[derive(Clone, Debug, PartialEq, Eq)]
pub enum Route {
    /// To the session of `id`, under the URL base `target`.
    Forward { id: AgentId, target: String },
    /// The host names an agent that has no live session.
    UnknownClient,
    /// The first label of the host is not an agent identity.
    BadSubdomain,
}

/// The route, given what the first host label parsed to.
pub open spec fn route_spec<H>(m: Map<u128, (H, u16)>, parsed: Option<u128>) -> Option<Option<(u128, Seq<char>)>> {
    match parsed {
        None => None,
        Some(v) => if m.contains_key(v) {
            Some(Some((v, target_text(m[v].1))))
        } else {
            Some(None)
        },
    }
}

/// `Route` as `route_spec` writes it: `None` for a bad subdomain, `Some(None)`
/// for an unknown client.
pub open spec fn route_view(r: Route) -> Option<Option<(u128, Seq<char>)>> {
    match r {
        Route::Forward { id, target } => Some(Some((id.value, target@))),
        Route::UnknownClient => Some(None),
        Route::BadSubdomain => None,
    }
}

/// The route of a request whose first host label parsed to `parsed`.
pub fn route_for_id<H>(registry: &StormGrokServer<H>, parsed: Option<AgentId>) -> (r: Route)
    ensures
        route_view(r) == route_spec(
            registry@,
            match parsed {
                Some(id) => Some(id.value),
                None => None,
            },
        ),
{
    match parsed {
        None => Route::BadSubdomain,
        Some(id) => match registry.resolve_port(id) {
            Some(port) => Route::Forward { id, target: forward_target(port) },
            None => Route::UnknownClient,
        },
    }
}

/// The route of a public request for `host`.
pub fn route_request<H>(registry: &StormGrokServer<H>, host: &str) -> (r: Route)
    ensures
        route_view(r) == route_spec(registry@, uuid_text_value(first_label(host@))),
{
    let parsed = resolve_uuid_from_host(host);
    route_for_id(registry, parsed)
}

impl Route {
    /// Status and body of the answer for a route that forwards nothing.
    pub fn refusal(&self) -> (r: Option<(u16, String)>)
        ensures
            match *self {
                Route::Forward { .. } => r is None,
                Route::UnknownClient => r matches Some((status, body)) && status == NOT_FOUND_STATUS
                    && body@ == NOT_FOUND_BODY@,
                Route::BadSubdomain => r matches Some((status, body)) && status == NOT_FOUND_STATUS
                    && body@ == NO_AGENT_BODY@,
            },
    {
        match self {
            Route::Forward { .. } => None,
            Route::UnknownClient => Some((NOT_FOUND_STATUS, String::from_str(NOT_FOUND_BODY))),
            Route::BadSubdomain => Some((NOT_FOUND_STATUS, String::from_str(NO_AGENT_BODY))),
        }
    }
}

/// Once agent `a` connects on `port`, and whatever requests follow that neither
/// connect nor disconnect `a`, a request whose host names `a` goes to `a`'s own
/// loopback endpoint, and to no other agent's.
pub proof fn lemma_route_after_connect<H>(m: Map<u128, (H, u16)>, a: AgentId, h: H, port: u16, ops: Seq<RegistryOp<H>>)
    requires
        !touches(ops, a.value),
    ensures
        route_spec(run_ops(m.insert(a.value, (h, port)), ops), Some(a.value)) == Some(
            Some((a.value, target_text(port))),
        ),
{
    lemma_connect_persists(m, a, h, port, ops);
}

} // verus!
