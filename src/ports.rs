//! Choosing the loopback port of a new session: the lowest port of the scanned
//! range that binds.
use vstd::prelude::*;

use crate::handshake::HandshakeError;

verus! {

/// The first port tried.
pub const FIRST_PORT: u16 = 1025;

/// The end of the scanned range; this port itself is not tried.
pub const PORT_LIMIT: u16 = 65535;

/// What binding `127.0.0.1:<port>` gave.
#[derive(Clone, Copy, Debug, PartialEq, Eq, Structural)]
pub enum BindOutcome {
    Bound,
    AddrInUse,
    OtherError,
}

/// What the port scan does next.
#[derive(Clone, Debug, PartialEq, Eq)]
pub enum PortStep {
    /// Bind this port.
    Try(u16),
    /// Keep the listener just bound on this port.
    Use(u16),
    /// Give up with this error.
    Fail(HandshakeError),
}

/// The first step of a scan.
pub fn first_port_step() -> (r: PortStep)
    ensures
        r == PortStep::Try(FIRST_PORT),
{
    PortStep::Try(FIRST_PORT)
}

/// The step after binding `port` gave `outcome`: keep a bound port, move past a
/// port in use, and give up on any other error or at the end of the range.
pub fn next_port_step(port: u16, outcome: BindOutcome) -> (r: PortStep)
    requires
        FIRST_PORT <= port < PORT_LIMIT,
    ensures
        outcome == BindOutcome::Bound ==> r == PortStep::Use(port),
        outcome == BindOutcome::OtherError ==> r == PortStep::Fail(HandshakeError::PortSetup),
        outcome == BindOutcome::AddrInUse ==> if port + 1 < PORT_LIMIT {
            r == PortStep::Try((port + 1) as u16)
        } else {
            r == PortStep::Fail(HandshakeError::NoPortsAvailable)
        },
{
    match outcome {
        BindOutcome::Bound => PortStep::Use(port),
        BindOutcome::OtherError => PortStep::Fail(HandshakeError::PortSetup),
        BindOutcome::AddrInUse => {
            if port + 1 < PORT_LIMIT {
                PortStep::Try(port + 1)
            } else {
                PortStep::Fail(HandshakeError::NoPortsAvailable)
            }
        },
    }
}

} // verus!
