//! The session registry: which agent is live, the handle of its session and
//! the loopback port on which its session listens.
use std::collections::HashMap;
use vstd::prelude::*;

use crate::agent_id::{AgentId, id_bytes, be_value, lemma_id_bytes_round_trip, AGENT_ID_LEN};
use crate::endpoint::{endpoint_text, loopback_endpoint};
use crate::handshake::{authorized, validate_claims, AuthRules, Claims, HandshakeError};

verus! {

broadcast use vstd::std_specs::hash::group_hash_axioms;

/// Registers a live session under its agent's identity.
pub struct Connect<H> {
    pub id: AgentId,
    pub handle: H,
    pub port: u16,
}

/// Removes a session that has stopped.
pub struct Disconnect {
    pub id: AgentId,
}

/// Asks for the loopback endpoint of an agent.
pub struct ResolveClient {
    pub id: AgentId,
}

/// Asks for the identities of all live agents.
pub struct LogAllClients {}

/// A `Disconnect` named an agent that has no entry: a bug in the session
/// bookkeeping, upon which the process stops.
#[derive(Clone, Copy, Debug, PartialEq, Eq, Structural)]
pub enum RegistryError {
    UnknownSession(AgentId),
}

/// The registry of live sessions, keyed by the agent identity's 128-bit value.
pub struct StormGrokServer<H> {
    sessions: HashMap<u128, (H, u16)>,
}

/// No two live sessions hold the same port.
pub open spec fn ports_distinct<H>(m: Map<u128, (H, u16)>) -> bool {
    forall|a: u128, b: u128|
        #[trigger] m.contains_key(a) && #[trigger] m.contains_key(b) && a != b ==> m[a].1 != m[b].1
}

/// `port` is held by no live session other than that of `id`.
pub open spec fn port_free_for<H>(m: Map<u128, (H, u16)>, id: u128, port: u16) -> bool {
    forall|b: u128| #[trigger] m.contains_key(b) && b != id ==> m[b].1 != port
}

impl<H> View for StormGrokServer<H> {
    type V = Map<u128, (H, u16)>;

    closed spec fn view(&self) -> Map<u128, (H, u16)> {
        self.sessions@
    }
}

impl<H> StormGrokServer<H> {
    pub open spec fn wf(&self) -> bool {
        ports_distinct(self@)
    }

    /// An empty registry.
    pub fn new() -> (r: Self)
        ensures
            r@ == Map::<u128, (H, u16)>::empty(),
            r.wf(),
    {
        StormGrokServer { sessions: HashMap::new() }
    }

    /// Whether `port` is held by a live session of another agent than `id`.
    pub fn port_held_by_other(&self, id: AgentId, port: u16) -> (r: bool)
        ensures
            r == !port_free_for(self@, id.value, port),
    {
        let mut held = false;
        let ghost mut seen: Seq<u128> = Seq::empty();
        for key in it: self.sessions.keys()
            invariant
                it.seq().unref().to_set() == self@.dom(),
                seen == it.seq().unref().take(it.index() as int),
                seen.len() == it.seq().len() ==> seen.to_set() == self@.dom(),
                held == exists|j: int|
                    0 <= j < seen.len() && seen[j] != id.value && #[trigger] self@[seen[j]].1 == port,
        {
            proof {
                seen = seen.push(*key);
                assert(seen =~= it.seq().unref().take(it.index() as int + 1));
                assert(it.seq().unref().to_set().contains(*key));
                assert(seen.len() == it.seq().len() ==> seen =~= it.seq().unref());
            }
            if *key != id.value {
                match self.sessions.get(key) {
                    Some(entry) => {
                        if entry.1 == port {
                            held = true;
                            assert(seen[seen.len() - 1] == *key);
                        }
                    },
                    None => {},
                }
            }
        }
        proof {
            assert(seen.to_set() == self@.dom());
            if !port_free_for(self@, id.value, port) {
                let b = choose|b: u128| #[trigger] self@.contains_key(b) && b != id.value && self@[b].1 == port;
                assert(seen.to_set().contains(b));
            }
            if held {
                let j = choose|j: int|
                    0 <= j < seen.len() && seen[j] != id.value && #[trigger] self@[seen[j]].1 == port;
                assert(seen.to_set().contains(seen[j]));
            }
        }
        held
    }

    /// Inserts or replaces the entry of `msg.id`.
    pub fn handle_connect(&mut self, msg: Connect<H>)
        requires
            old(self).wf(),
            port_free_for(old(self)@, msg.id.value, msg.port),
        ensures
            final(self)@ == old(self)@.insert(msg.id.value, (msg.handle, msg.port)),
            final(self).wf(),
    {
        self.sessions.insert(msg.id.value, (msg.handle, msg.port));
    }

    /// Removes the entry of `msg.id`; an error where there was none.
    pub fn handle_disconnect(&mut self, msg: Disconnect) -> (r: Result<(), RegistryError>)
        requires
            old(self).wf(),
        ensures
            final(self)@ == old(self)@.remove(msg.id.value),
            final(self).wf(),
            r is Ok <==> old(self)@.contains_key(msg.id.value),
            r is Err ==> r == Err::<(), RegistryError>(RegistryError::UnknownSession(msg.id)),
    {
        match self.sessions.remove(&msg.id.value) {
            Some(_) => Ok(()),
            None => Err(RegistryError::UnknownSession(msg.id)),
        }
    }

    /// The loopback port of the session of `id`, if it is live.
    pub fn resolve_port(&self, id: AgentId) -> (r: Option<u16>)
        ensures
            r is Some <==> self@.contains_key(id.value),
            r is Some ==> r == Some(self@[id.value].1),
    {
        match self.sessions.get(&id.value) {
            Some(entry) => Some(entry.1),
            None => None,
        }
    }

    /// The loopback endpoint `127.0.0.1:<port>` of the session of `msg.id`, if it is live.
    pub fn handle_resolve(&self, msg: &ResolveClient) -> (r: Option<String>)
        ensures
            r is Some <==> self@.contains_key(msg.id.value),
            r is Some ==> r.unwrap()@ == endpoint_text(self@[msg.id.value].1),
    {
        match self.resolve_port(msg.id) {
            Some(port) => Some(loopback_endpoint(port)),
            None => None,
        }
    }

    /// The identities of all live agents, each once.
    pub fn handle_log_all(&self, msg: &LogAllClients) -> (r: Vec<AgentId>)
        ensures
            r@.len() == self@.dom().len(),
            forall|i: int, j: int| 0 <= i < j < r@.len() ==> r@[i] != r@[j],
            forall|i: int| 0 <= i < r@.len() ==> self@.contains_key(#[trigger] r@[i].value),
            forall|k: u128| #[trigger] self@.contains_key(k) ==> exists|i: int| 0 <= i < r@.len() && r@[i].value == k,
    {
        let mut out: Vec<AgentId> = Vec::new();
        let ghost mut seen: Seq<u128> = Seq::empty();
        for key in it: self.sessions.keys()
            invariant
                it.seq().unref().to_set() == self@.dom(),
                it.seq().unref().no_duplicates(),
                it.seq().len() == self@.dom().len(),
                seen == it.seq().unref().take(it.index() as int),
                seen.len() == it.seq().len() ==> seen == it.seq().unref(),
                out@.len() == seen.len(),
                forall|i: int| 0 <= i < seen.len() ==> #[trigger] out@[i].value == seen[i],
        {
            proof {
                seen = seen.push(*key);
                assert(seen =~= it.seq().unref().take(it.index() as int + 1));
                assert(seen.len() == it.seq().len() ==> seen =~= it.seq().unref());
            }
            out.push(AgentId { value: *key });
        }
        proof {
            assert(seen.to_set() == self@.dom());
            assert forall|k: u128| #[trigger] self@.contains_key(k) implies exists|i: int| 0 <= i < out@.len() && out@[i].value == k by {
                assert(seen.to_set().contains(k));
                let i = choose|i: int| 0 <= i < seen.len() && seen[i] == k;
                assert(out@[i].value == k);
            }
            assert forall|i: int| 0 <= i < out@.len() implies self@.contains_key(#[trigger] out@[i].value) by {
                assert(out@[i].value == seen[i]);
                assert(seen.to_set().contains(seen[i]));
            }
            assert forall|i: int, j: int| 0 <= i < j < out@.len() implies out@[i] != out@[j] by {
                assert(out@[i].value == seen[i]);
                assert(out@[j].value == seen[j]);
            }
        }
        out
    }

    /// Completes the handshake of an agent whose token carried `claims`: where
    /// the claims pass `auth`, registers the session of `id` on `port` and hands
    /// back the 16 bytes to send to the agent; otherwise leaves the registry as
    /// it was.
    pub fn complete_handshake(&mut self, claims: &Claims, auth: &AuthRules, id: AgentId, handle: H, port: u16) -> (r: Result<Vec<u8>, HandshakeError>)
        requires
            old(self).wf(),
            port_free_for(old(self)@, id.value, port),
        ensures
            final(self).wf(),
            r is Ok <==> authorized(*claims, *auth),
            r is Err ==> r == Err::<Vec<u8>, HandshakeError>(HandshakeError::NotAuthorized) && final(self)@ == old(self)@,
            r is Ok ==> final(self)@ == old(self)@.insert(id.value, (handle, port)),
            r matches Ok(reply) ==> reply@ == id_bytes(id) && reply@.len() == AGENT_ID_LEN && be_value(reply@) == id.value,
    {
        match validate_claims(claims, auth) {
            Err(e) => Err(e),
            Ok(()) => {
                let reply = id.to_bytes();
                proof {
                    lemma_id_bytes_round_trip(id);
                }
                self.handle_connect(Connect { id, handle, port });
                Ok(reply)
            },
        }
    }

    /// Handles one request: a connect inserts or replaces the entry, a
    /// disconnect removes it (an error where there was none), a lookup leaves
    /// the registry as it was and answers with the loopback endpoint.
    pub fn handle(&mut self, op: RegistryOp<H>) -> (r: RegistryReply)
        requires
            old(self).wf(),
            op matches RegistryOp::Connect(id, _, port) ==> port_free_for(old(self)@, id.value, port),
        ensures
            final(self).wf(),
            final(self)@ == apply_op(old(self)@, op),
            match op {
                RegistryOp::Connect(_, _, _) => r == RegistryReply::Done,
                RegistryOp::Disconnect(id) => if old(self)@.contains_key(id.value) {
                    r == RegistryReply::Done
                } else {
                    r == RegistryReply::Failed(RegistryError::UnknownSession(id))
                },
                RegistryOp::Resolve(id) => r matches RegistryReply::Endpoint(e) && (e is Some
                    <==> old(self)@.contains_key(id.value)) && (e is Some ==> e.unwrap()@
                    == endpoint_text(old(self)@[id.value].1)),
            },
    {
        match op {
            RegistryOp::Connect(id, handle, port) => {
                self.handle_connect(Connect { id, handle, port });
                RegistryReply::Done
            },
            RegistryOp::Disconnect(id) => match self.handle_disconnect(Disconnect { id }) {
                Ok(()) => RegistryReply::Done,
                Err(e) => RegistryReply::Failed(e),
            },
            RegistryOp::Resolve(id) => RegistryReply::Endpoint(self.handle_resolve(&ResolveClient { id })),
        }
    }

} // impl

/// The answer of the registry to a request.
#[derive(Clone, Debug, PartialEq, Eq)]
pub enum RegistryReply {
    /// A connect, or a disconnect of a live agent, took effect.
    Done,
    /// The loopback endpoint of the agent looked up, if it is live.
    Endpoint(Option<String>),
    /// A disconnect named an agent without an entry.
    Failed(RegistryError),
}

/// A request to the registry, as sessions and the public ingress send them.
pub enum RegistryOp<H> {
    Connect(AgentId, H, u16),
    Disconnect(AgentId),
    Resolve(AgentId),
}

/// The registry after one request, as `handle_connect`, `handle_disconnect` and
/// `handle_resolve` leave it.
pub open spec fn apply_op<H>(m: Map<u128, (H, u16)>, op: RegistryOp<H>) -> Map<u128, (H, u16)> {
    match op {
        RegistryOp::Connect(id, h, port) => m.insert(id.value, (h, port)),
        RegistryOp::Disconnect(id) => m.remove(id.value),
        RegistryOp::Resolve(_) => m,
    }
}

/// The registry after a run of requests, in order.
pub open spec fn run_ops<H>(m: Map<u128, (H, u16)>, ops: Seq<RegistryOp<H>>) -> Map<u128, (H, u16)>
    decreases ops.len(),
{
    if ops.len() == 0 {
        m
    } else {
        apply_op(run_ops(m, ops.drop_last()), ops.last())
    }
}

/// Of the requests that connect or disconnect agent `a`, the last one connects it.
pub open spec fn last_change_connects<H>(ops: Seq<RegistryOp<H>>, a: u128) -> bool
    decreases ops.len(),
{
    if ops.len() == 0 {
        false
    } else {
        match ops.last() {
            RegistryOp::Connect(id, _, _) => if id.value == a {
                true
            } else {
                last_change_connects(ops.drop_last(), a)
            },
            RegistryOp::Disconnect(id) => if id.value == a {
                false
            } else {
                last_change_connects(ops.drop_last(), a)
            },
            RegistryOp::Resolve(_) => last_change_connects(ops.drop_last(), a),
        }
    }
}

/// Some request of `ops` connects or disconnects agent `a`.
pub open spec fn touches<H>(ops: Seq<RegistryOp<H>>, a: u128) -> bool {
    exists|i: int| 0 <= i < ops.len() && changes(#[trigger] ops[i], a)
}

/// `op` connects or disconnects agent `a`.
pub open spec fn changes<H>(op: RegistryOp<H>, a: u128) -> bool {
    match op {
        RegistryOp::Connect(id, _, _) => id.value == a,
        RegistryOp::Disconnect(id) => id.value == a,
        RegistryOp::Resolve(_) => false,
    }
}

/// Whatever the interleaving of connects, disconnects and lookups, and from
/// any registry: where some request connects or disconnects agent `a`, `a` has
/// an entry at the end exactly when the last such request connects it; where
/// none does, the entry of `a` is what it was at the start.
pub proof fn lemma_registry_churn<H>(m: Map<u128, (H, u16)>, ops: Seq<RegistryOp<H>>, a: u128)
    ensures
        touches(ops, a) ==> (run_ops(m, ops).contains_key(a) <==> last_change_connects(ops, a)),
        !touches(ops, a) ==> (run_ops(m, ops).contains_key(a) <==> m.contains_key(a)),
        !touches(ops, a) && m.contains_key(a) ==> run_ops(m, ops)[a] == m[a],
    decreases ops.len(),
{
    if ops.len() > 0 {
        let init = ops.drop_last();
        lemma_registry_churn(m, init, a);
        if touches(init, a) {
            let i = choose|i: int| 0 <= i < init.len() && changes(#[trigger] init[i], a);
            assert(ops[i] == init[i]);
        }
        if touches(ops, a) && !changes(ops.last(), a) {
            let i = choose|i: int| 0 <= i < ops.len() && changes(#[trigger] ops[i], a);
            assert(i < init.len());
            assert(init[i] == ops[i]);
        }
        if changes(ops.last(), a) {
            assert(changes(ops[ops.len() - 1], a));
        }
    }
}

/// Once agent `a` connects on `port`, requests that neither connect nor
/// disconnect `a` leave its entry in place: a lookup of `a` still finds `port`,
/// whatever other agents do meanwhile.
pub proof fn lemma_connect_persists<H>(m: Map<u128, (H, u16)>, a: AgentId, h: H, port: u16, ops: Seq<RegistryOp<H>>)
    requires
        !touches(ops, a.value),
    ensures
        run_ops(m.insert(a.value, (h, port)), ops).contains_key(a.value),
        run_ops(m.insert(a.value, (h, port)), ops)[a.value] == (h, port),
{
    lemma_registry_churn(m.insert(a.value, (h, port)), ops, a.value);
}

/// The 16 bytes handed back by a successful handshake decode to the key under
/// which the registry then holds the new session.
pub proof fn lemma_reply_names_entry<H>(m: Map<u128, (H, u16)>, reply: Seq<u8>, id: AgentId, h: H, port: u16)
    requires
        reply == id_bytes(id),
    ensures
        be_value(reply) == id.value,
        m.insert(id.value, (h, port)).contains_key(be_value(reply) as u128),
        m.insert(id.value, (h, port))[be_value(reply) as u128] == (h, port),
{
    lemma_id_bytes_round_trip(id);
}

/// Two distinct live sessions never hold the same loopback port.
pub proof fn lemma_live_ports_distinct<H>(reg: &StormGrokServer<H>, a: u128, b: u128)
    requires
        reg.wf(),
        reg@.contains_key(a),
        reg@.contains_key(b),
        a != b,
    ensures
        reg@[a].1 != reg@[b].1,
{
}

} // verus!
