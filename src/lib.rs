//! Server side of a reverse tunnelling service: agent identities, the
//! handshake rules, the session registry, the key cache, public routing and
//! the decisions that drive each agent session.
pub mod agent_id;
pub mod decimal;
pub mod endpoint;
pub mod google_key_store;
pub mod handshake;
pub mod ports;
pub mod routing;
pub mod server;
pub mod session;
