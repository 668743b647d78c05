//! Wire messages exchanged between a host and an embedded target.
//!
//! Only the message shapes live here; framing them as JSON requires a
//! serializer and therefore happens outside the verified core.

use vstd::prelude::*;

verus! {

/// A command sent from the host to the controller.
#[derive(Debug, Clone, PartialEq)]
pub enum ControlCommand {
    Ping,
    Reset,
    SetFormula(String),
}

/// Failures reported by a hardware backend.
#[derive(Debug, Clone, PartialEq, Eq, Structural)]
pub enum HardwareError {
    SensorReadFailed,
    ActuatorWriteFailed,
    CommunicationError,
}

} // verus!
