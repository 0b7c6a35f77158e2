use stormgrok::agent_id::AgentId;
use stormgrok::endpoint::{forward_target, loopback_endpoint};
use stormgrok::handshake::{HandshakeError, Mode};
use stormgrok::ports::{first_port_step, next_port_step, BindOutcome, PortStep, FIRST_PORT, PORT_LIMIT};
use stormgrok::routing::{
    host_first_label, resolve_uuid_from_host, route_for_id, route_request, Route, NOT_FOUND_BODY,
};
use stormgrok::server::{
    Connect, Disconnect, LogAllClients, RegistryError, RegistryOp, RegistryReply, ResolveClient, StormGrokServer,
};
use stormgrok::session::{
    ping_payload, SessionAction, SessionEvent, SessionState, StormGrokClientSession, HEARTBEAT_INTERVAL_SECS,
};

const ALICE: u128 = 0x0123_4567_89ab_cdef_0011_2233_4455_6677;
const ALICE_TEXT: &str = "01234567-89ab-cdef-0011-223344556677";

fn connect(reg: &mut StormGrokServer<()>, v: u128, port: u16) {
    let id = AgentId::from_u128(v);
    assert!(!reg.port_held_by_other(id, port));
    reg.handle_connect(Connect { id, handle: (), port });
}

#[test]
fn connect_then_resolve_gives_endpoint() {
    let mut reg = StormGrokServer::new();
    connect(&mut reg, 1, 4000);
    let id = AgentId::from_u128(1);
    assert_eq!(reg.handle_resolve(&ResolveClient { id }), Some("127.0.0.1:4000".to_string()));
    assert_eq!(reg.resolve_port(id), Some(4000));
    assert_eq!(reg.resolve_port(AgentId::from_u128(2)), None);
}

#[test]
fn connect_replaces_entry() {
    let mut reg = StormGrokServer::new();
    connect(&mut reg, 1, 4000);
    connect(&mut reg, 1, 4001);
    assert_eq!(reg.resolve_port(AgentId::from_u128(1)), Some(4001));
    assert_eq!(reg.handle_log_all(&LogAllClients {}).len(), 1);
}

#[test]
fn disconnect_removes_entry() {
    let mut reg = StormGrokServer::new();
    connect(&mut reg, 1, 4000);
    let id = AgentId::from_u128(1);
    assert_eq!(reg.handle_disconnect(Disconnect { id }), Ok(()));
    assert_eq!(reg.handle_resolve(&ResolveClient { id }), None);
}

#[test]
fn disconnect_of_absent_id_is_an_error() {
    let mut reg: StormGrokServer<()> = StormGrokServer::new();
    let id = AgentId::from_u128(9);
    assert_eq!(reg.handle_disconnect(Disconnect { id }), Err(RegistryError::UnknownSession(id)));
    connect(&mut reg, 9, 5000);
    assert_eq!(reg.handle_disconnect(Disconnect { id }), Ok(()));
    assert_eq!(reg.handle_disconnect(Disconnect { id }), Err(RegistryError::UnknownSession(id)));
}

#[test]
fn registry_follows_last_change_under_churn() {
    let mut reg = StormGrokServer::new();
    let a = AgentId::from_u128(1);
    let b = AgentId::from_u128(2);
    connect(&mut reg, 1, 3000);
    connect(&mut reg, 2, 3001);
    assert!(reg.handle_resolve(&ResolveClient { id: a }).is_some());
    assert_eq!(reg.handle_disconnect(Disconnect { id: a }), Ok(()));
    connect(&mut reg, 1, 3002);
    assert_eq!(reg.handle_disconnect(Disconnect { id: b }), Ok(()));
    assert!(reg.handle_resolve(&ResolveClient { id: b }).is_none());
    assert_eq!(reg.handle_resolve(&ResolveClient { id: a }), Some("127.0.0.1:3002".to_string()));
}

#[test]
fn log_all_lists_each_live_id_once() {
    let mut reg = StormGrokServer::new();
    for v in 1..=5u128 {
        connect(&mut reg, v, 2000 + v as u16);
    }
    reg.handle_disconnect(Disconnect { id: AgentId::from_u128(3) }).unwrap();
    let mut ids: Vec<u128> = reg.handle_log_all(&LogAllClients {}).iter().map(|i| i.as_u128()).collect();
    ids.sort();
    assert_eq!(ids, vec![1, 2, 4, 5]);
}

#[test]
fn port_of_other_session_is_held() {
    let mut reg = StormGrokServer::new();
    connect(&mut reg, 1, 4000);
    assert!(reg.port_held_by_other(AgentId::from_u128(2), 4000));
    assert!(!reg.port_held_by_other(AgentId::from_u128(1), 4000));
    assert!(!reg.port_held_by_other(AgentId::from_u128(2), 4001));
}

#[test]
fn endpoint_text_is_decimal() {
    assert_eq!(loopback_endpoint(0), "127.0.0.1:0");
    assert_eq!(loopback_endpoint(9), "127.0.0.1:9");
    assert_eq!(loopback_endpoint(1025), "127.0.0.1:1025");
    assert_eq!(loopback_endpoint(65535), "127.0.0.1:65535");
    assert_eq!(forward_target(8080), "http://127.0.0.1:8080");
}

#[test]
fn first_label_stops_at_dot() {
    assert_eq!(host_first_label("abc.localhost:8080"), "abc");
    assert_eq!(host_first_label("nodot"), "nodot");
    assert_eq!(host_first_label(".lead"), "");
    assert_eq!(host_first_label(""), "");
}

#[test]
fn host_with_uuid_label_resolves() {
    let id = resolve_uuid_from_host(&format!("{}.localhost", ALICE_TEXT)).unwrap();
    assert_eq!(id.as_u128(), ALICE);
    let upper = ALICE_TEXT.to_uppercase();
    assert_eq!(resolve_uuid_from_host(&format!("{}.example", upper)), Some(id));
    assert_eq!(resolve_uuid_from_host("not-a-uuid.localhost"), None);
}

#[test]
fn routes_to_live_agent() {
    let mut reg = StormGrokServer::new();
    connect(&mut reg, ALICE, 4321);
    connect(&mut reg, 5, 4322);
    let r = route_request(&reg, &format!("{}.localhost:3000", ALICE_TEXT));
    assert_eq!(
        r,
        Route::Forward { id: AgentId::from_u128(ALICE), target: "http://127.0.0.1:4321".to_string() }
    );
    assert_eq!(r.refusal(), None);
}

#[test]
fn unknown_subdomain_is_not_found() {
    let reg: StormGrokServer<()> = StormGrokServer::new();
    let r = route_request(&reg, "00000000-0000-0000-0000-000000000000.localhost");
    assert_eq!(r, Route::UnknownClient);
    assert_eq!(r.refusal(), Some((404, "No active client found\n".to_string())));
    assert_eq!(NOT_FOUND_BODY, "No active client found\n");
}

#[test]
fn unparseable_subdomain_is_not_found() {
    let reg: StormGrokServer<()> = StormGrokServer::new();
    let r = route_request(&reg, "not-a-uuid.localhost");
    assert_eq!(r, Route::BadSubdomain);
    assert_eq!(r.refusal().unwrap().0, 404);
}

#[test]
fn route_for_id_cases() {
    let mut reg = StormGrokServer::new();
    connect(&mut reg, 3, 7000);
    assert_eq!(route_for_id(&reg, None), Route::BadSubdomain);
    assert_eq!(route_for_id(&reg, Some(AgentId::from_u128(4))), Route::UnknownClient);
    assert_eq!(
        route_for_id(&reg, Some(AgentId::from_u128(3))),
        Route::Forward { id: AgentId::from_u128(3), target: "http://127.0.0.1:7000".to_string() }
    );
}

#[test]
fn port_scan_steps() {
    assert_eq!(first_port_step(), PortStep::Try(1025));
    assert_eq!(next_port_step(FIRST_PORT, BindOutcome::Bound), PortStep::Use(1025));
    assert_eq!(next_port_step(FIRST_PORT, BindOutcome::AddrInUse), PortStep::Try(1026));
    assert_eq!(next_port_step(2000, BindOutcome::OtherError), PortStep::Fail(HandshakeError::PortSetup));
    assert_eq!(
        next_port_step(PORT_LIMIT - 1, BindOutcome::AddrInUse),
        PortStep::Fail(HandshakeError::NoPortsAvailable)
    );
}

#[test]
fn port_scan_picks_first_free_port() {
    let taken = |p: u16| p < 1030;
    let mut step = first_port_step();
    let chosen = loop {
        match step {
            PortStep::Try(p) => {
                let o = if taken(p) { BindOutcome::AddrInUse } else { BindOutcome::Bound };
                step = next_port_step(p, o);
            }
            PortStep::Use(p) => break p,
            PortStep::Fail(e) => panic!("{:?}", e),
        }
    };
    assert_eq!(chosen, 1030);
}

#[test]
fn session_heartbeat_and_loss() {
    let id = AgentId::from_u128(11);
    let mut s = StormGrokClientSession::new(id, 3333, Mode::Http);
    assert_eq!(s.tcp_addr(), "127.0.0.1:3333");
    assert_eq!(HEARTBEAT_INTERVAL_SECS, 4);
    assert_eq!(ping_payload(), b"ping".to_vec());
    assert_eq!(s.handle(SessionEvent::HeartbeatTick), SessionAction::SendPing);
    assert_eq!(s.handle(SessionEvent::PingSent), SessionAction::Nothing);
    assert_eq!(s.handle(SessionEvent::PingFailed), SessionAction::Unregister(id));
    assert_eq!(s.state, SessionState::Stopped);
    assert_eq!(s.handle(SessionEvent::ConnectionClosed), SessionAction::Nothing);
    assert_eq!(s.handle(SessionEvent::HeartbeatTick), SessionAction::Nothing);
}

#[test]
fn heartbeat_loss_removes_agent() {
    let mut reg = StormGrokServer::new();
    connect(&mut reg, 11, 3333);
    let id = AgentId::from_u128(11);
    let mut s = StormGrokClientSession::new(id, 3333, Mode::Tcp);
    s.handle(SessionEvent::HeartbeatTick);
    if let SessionAction::Unregister(gone) = s.handle(SessionEvent::PingFailed) {
        reg.handle_disconnect(Disconnect { id: gone }).unwrap();
    }
    assert!(reg.handle_log_all(&LogAllClients {}).is_empty());
    assert_eq!(
        route_request(&reg, "00000000-0000-0000-0000-00000000000b.localhost"),
        Route::UnknownClient
    );
}

#[test]
fn each_accepted_connection_is_forwarded() {
    let mut s = StormGrokClientSession::new(AgentId::from_u128(1), 4000, Mode::Http);
    let forwards = (0..100)
        .map(|_| s.handle(SessionEvent::Accepted))
        .filter(|a| *a == SessionAction::Forward)
        .count();
    assert_eq!(forwards, 100);
    assert_eq!(s.state, SessionState::Live);
}

#[test]
fn listener_close_unregisters_once() {
    let id = AgentId::from_u128(5);
    let mut s = StormGrokClientSession::new(id, 4000, Mode::Http);
    let actions: Vec<SessionAction> = [
        SessionEvent::Accepted,
        SessionEvent::ListenerClosed,
        SessionEvent::PingFailed,
        SessionEvent::ConnectionClosed,
    ]
    .iter()
    .map(|e| s.handle(*e))
    .collect();
    assert_eq!(actions.iter().filter(|a| matches!(a, SessionAction::Unregister(_))).count(), 1);
    assert_eq!(actions[1], SessionAction::Unregister(id));
}

#[test]
fn handle_dispatches_each_request() {
    let mut reg: StormGrokServer<()> = StormGrokServer::new();
    let a = AgentId::from_u128(1);
    let b = AgentId::from_u128(2);
    assert_eq!(reg.handle(RegistryOp::Connect(a, (), 6000)), RegistryReply::Done);
    assert_eq!(reg.handle(RegistryOp::Connect(b, (), 6001)), RegistryReply::Done);
    assert_eq!(reg.handle(RegistryOp::Disconnect(b)), RegistryReply::Done);
    assert_eq!(
        reg.handle(RegistryOp::Disconnect(b)),
        RegistryReply::Failed(RegistryError::UnknownSession(b))
    );
    assert_eq!(
        reg.handle(RegistryOp::Resolve(a)),
        RegistryReply::Endpoint(Some("127.0.0.1:6000".to_string()))
    );
    assert_eq!(reg.handle(RegistryOp::Resolve(b)), RegistryReply::Endpoint(None));
}
