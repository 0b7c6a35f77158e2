//! The decisions of one agent session: heartbeat, fan-out of public
//! connections, and teardown.
use vstd::prelude::*;

use crate::agent_id::AgentId;
use crate::endpoint::{endpoint_text, loopback_endpoint};
use crate::handshake::Mode;

verus! {

/// Seconds between two heartbeats.
pub const HEARTBEAT_INTERVAL_SECS: u64 = 4;

/// The bytes of a heartbeat: ASCII `ping`.
pub open spec fn ping_bytes() -> Seq<u8> {
    seq![0x70u8, 0x69u8, 0x6eu8, 0x67u8]
}

/// The payload of each heartbeat stream.
pub fn ping_payload() -> (r: Vec<u8>)
    ensures
        r@ == ping_bytes(),
{
    let r: Vec<u8> = vec![0x70u8, 0x69u8, 0x6eu8, 0x67u8];
    assert(r@ =~= ping_bytes());
    r
}

#[derive(Clone, Copy, Debug, PartialEq, Eq, Structural)]
pub enum SessionState {
    Live,
    Stopped,
}

/// What happened to a session.
#[derive(Clone, Copy, Debug, PartialEq, Eq, Structural)]
pub enum SessionEvent {
    /// The heartbeat interval elapsed.
    HeartbeatTick,
    /// A heartbeat stream was opened, written and finished.
    PingSent,
    /// Opening, writing or finishing a heartbeat stream failed.
    PingFailed,
    /// The loopback listener accepted a public connection.
    Accepted,
    /// The loopback listener stopped.
    ListenerClosed,
    /// The agent's connection closed.
    ConnectionClosed,
}

/// What the session must do in answer.
#[derive(Clone, Copy, Debug, PartialEq, Eq, Structural)]
pub enum SessionAction {
    Nothing,
    /// Open a unidirectional stream, write the heartbeat and finish it.
    SendPing,
    /// Open a bidirectional stream and pipe the accepted connection through it.
    Forward,
    /// Remove this agent from the registry and release the listener.
    Unregister(AgentId),
}

/// One connected agent.
#[derive(Clone, Copy, Debug, PartialEq, Eq, Structural)]
pub struct StormGrokClientSession {
    pub id: AgentId,
    pub port: u16,
    pub mode: Mode,
    pub state: SessionState,
}

/// A failure that ends the session.
pub open spec fn is_fatal(e: SessionEvent) -> bool {
    e == SessionEvent::PingFailed || e == SessionEvent::ListenerClosed || e
        == SessionEvent::ConnectionClosed
}

/// The session's answer to `e` in state `s`.
pub open spec fn step_spec(s: StormGrokClientSession, e: SessionEvent) -> (StormGrokClientSession, SessionAction) {
    if s.state == SessionState::Stopped {
        (s, SessionAction::Nothing)
    } else if is_fatal(e) {
        (StormGrokClientSession { state: SessionState::Stopped, ..s }, SessionAction::Unregister(s.id))
    } else if e == SessionEvent::HeartbeatTick {
        (s, SessionAction::SendPing)
    } else if e == SessionEvent::Accepted {
        (s, SessionAction::Forward)
    } else {
        (s, SessionAction::Nothing)
    }
}

impl StormGrokClientSession {
    /// A live session of agent `id` listening on `port`.
    pub fn new(id: AgentId, port: u16, mode: Mode) -> (r: StormGrokClientSession)
        ensures
            r == (StormGrokClientSession { id, port, mode, state: SessionState::Live }),
    {
        StormGrokClientSession { id, port, mode, state: SessionState::Live }
    }

    /// The loopback address of the session's listener.
    pub fn tcp_addr(&self) -> (r: String)
        ensures
            r@ == endpoint_text(self.port),
    {
        loopback_endpoint(self.port)
    }

    /// Takes in one event and says what to do: ping on each tick, forward
    /// each accepted connection, and on the first failure stop and unregister.
    pub fn handle(&mut self, event: SessionEvent) -> (r: SessionAction)
        ensures
            (*final(self), r) == step_spec(*old(self), event),
    {
        if self.state == SessionState::Stopped {
            return SessionAction::Nothing;
        }
        match event {
            SessionEvent::PingFailed | SessionEvent::ListenerClosed | SessionEvent::ConnectionClosed => {
                self.state = SessionState::Stopped;
                SessionAction::Unregister(self.id)
            },
            SessionEvent::HeartbeatTick => SessionAction::SendPing,
            SessionEvent::Accepted => SessionAction::Forward,
            SessionEvent::PingSent => SessionAction::Nothing,
        }
    }
}

/// The session after a run of events, and the number of times it asked to
/// unregister.
pub open spec fn run_events(s: StormGrokClientSession, events: Seq<SessionEvent>) -> (StormGrokClientSession, nat)
    decreases events.len(),
{
    if events.len() == 0 {
        (s, 0)
    } else {
        let (t, n) = run_events(s, events.drop_last());
        let (u, a) = step_spec(t, events.last());
        (u, if a is Unregister { n + 1 } else { n })
    }
}

/// Whatever events a live session sees, it asks to unregister at most once,
/// and it does so exactly when one of them is a failed heartbeat, a closed
/// listener or a closed connection; it then is stopped.
pub proof fn lemma_unregister_once(s: StormGrokClientSession, events: Seq<SessionEvent>)
    requires
        s.state == SessionState::Live,
    ensures
        run_events(s, events).1 <= 1,
        (run_events(s, events).1 == 1) <==> exists|i: int| 0 <= i < events.len() && is_fatal(#[trigger] events[i]),
        (run_events(s, events).1 == 1) <==> run_events(s, events).0.state == SessionState::Stopped,
        run_events(s, events).0.id == s.id,
    decreases events.len(),
{
    if events.len() > 0 {
        let init = events.drop_last();
        lemma_unregister_once(s, init);
        let (t, n) = run_events(s, init);
        if exists|i: int| 0 <= i < init.len() && is_fatal(#[trigger] init[i]) {
            let i = choose|i: int| 0 <= i < init.len() && is_fatal(#[trigger] init[i]);
            assert(events[i] == init[i]);
        }
        if exists|i: int| 0 <= i < events.len() && is_fatal(#[trigger] events[i]) {
            let i = choose|i: int| 0 <= i < events.len() && is_fatal(#[trigger] events[i]);
            if i < init.len() {
                assert(init[i] == events[i]);
            }
        }
    }
}

} // verus!
