//! Why a request for a session is turned down.
use crate::probe_id;
use crate::probe_id::ProbeId;
use vstd::prelude::*;

verus! {

/// Why a request for a session is turned down. Errors of the debug probe and of
/// the operating system are kept as their text.
#[derive(Debug)]
pub enum ManagerError {
    Io(String),
    DebugProbeSelector(String),
    NoProbesAvailable,
    NoProbeSelector,
    ProbeNotFound(ProbeId),
    WireProtocol(String),
    Probe(String),
    DebugProbe(String),
    RttSessionAlreadyStarted,
    TargetNotPowered,
    ProbeInRecovery,
}

impl ManagerError {
    /// What the client gets to read.
    pub open spec fn text(self) -> Seq<char> {
        match self {
            ManagerError::Io(error) => "Manager IO error. "@ + error@,
            ManagerError::DebugProbeSelector(error) => error@,
            ManagerError::NoProbesAvailable => "No debug probes available"@,
            ManagerError::NoProbeSelector =>
                "A probe selector must be provided when multiple debug probes are available"@,
            ManagerError::ProbeNotFound(id) =>
                "No debug probe found matching the provided selector '"@ + probe_id::probe_text(id@)
                    + "'"@,
            ManagerError::WireProtocol(name) => "Unsupported wire protocol '"@ + name@
                + "'. Only SWD and JTAG are supported."@,
            ManagerError::Probe(error) => "Encountered an error with the debug probe. "@ + error@,
            ManagerError::DebugProbe(error) => "Encountered an error with the debug probe. "@
                + error@,
            ManagerError::RttSessionAlreadyStarted =>
                "An RTT session is already attached to this target's core at the same control block address and up channel"@,
            ManagerError::TargetNotPowered => "Target not powered (VTref less than threshold)"@,
            ManagerError::ProbeInRecovery => "The debug probe is currently in recovery mode"@,
        }
    }

    /// What the client gets to read.
    pub fn display(&self) -> (text: String)
        ensures
            text@ == self.text(),
    {
        match self {
            ManagerError::Io(error) => {
                String::from_str("Manager IO error. ").concat(error.as_str())
            },
            ManagerError::DebugProbeSelector(error) => error.clone(),
            ManagerError::NoProbesAvailable => String::from_str("No debug probes available"),
            ManagerError::NoProbeSelector => String::from_str(
                "A probe selector must be provided when multiple debug probes are available",
            ),
            ManagerError::ProbeNotFound(id) => {
                String::from_str("No debug probe found matching the provided selector '").concat(
                    id.display().as_str(),
                ).concat("'")
            },
            ManagerError::WireProtocol(name) => {
                String::from_str("Unsupported wire protocol '").concat(name.as_str()).concat(
                    "'. Only SWD and JTAG are supported.",
                )
            },
            ManagerError::Probe(error) => {
                String::from_str("Encountered an error with the debug probe. ").concat(
                    error.as_str(),
                )
            },
            ManagerError::DebugProbe(error) => {
                String::from_str("Encountered an error with the debug probe. ").concat(
                    error.as_str(),
                )
            },
            ManagerError::RttSessionAlreadyStarted => String::from_str(
                "An RTT session is already attached to this target's core at the same control block address and up channel",
            ),
            ManagerError::TargetNotPowered => String::from_str(
                "Target not powered (VTref less than threshold)",
            ),
            ManagerError::ProbeInRecovery => String::from_str(
                "The debug probe is currently in recovery mode",
            ),
        }
    }
}

} // verus!
