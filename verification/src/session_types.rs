//! The states of a session, why it stops, and what can go wrong.
use crate::clock::Interval;
use crate::text;
use crate::text::{append_decimal, append_upper_hex};
use vstd::prelude::*;

verus! {

/// What went wrong with an RTT operation, with the text of the error.
#[derive(Debug)]
pub enum RttFault {
    /// There is no control block where it was looked for.
    ControlBlockNotFound(String),
    Other(String),
}

impl RttFault {
    /// The text of the error.
    pub open spec fn text(self) -> Seq<char> {
        match self {
            RttFault::ControlBlockNotFound(text) => text@,
            RttFault::Other(text) => text@,
        }
    }

    /// The text of the error.
    pub open spec fn message(self) -> String {
        match self {
            RttFault::ControlBlockNotFound(text) => text,
            RttFault::Other(text) => text,
        }
    }

    /// The text of the error.
    pub fn into_message(self) -> (message: String)
        ensures
            message == self.message(),
            message@ == self.text(),
    {
        match self {
            RttFault::ControlBlockNotFound(text) => text,
            RttFault::Other(text) => text,
        }
    }
}

/// What ends a turn of a session early. Errors of the debug probe are kept as
/// their text.
#[derive(Debug)]
pub enum Error {
    Io(String),
    ResponseJson(String),
    Probe(String),
    Rtt(RttFault),
    DownChannelInvalid(usize),
    UpChannelInvalid(usize),
    CoreNotRunning(u32),
    CoreStatus(String),
    /// This is the mostly likely error when target power is lost
    /// and we need to do debug probe recovery
    CoreAttach(String),
    ClientDisconnected,
}

impl Error {
    /// The error in writing.
    pub open spec fn text(self) -> Seq<char> {
        match self {
            Error::Io(error) => "RTT session IO error. "@ + error@,
            Error::ResponseJson(error) => "RTT session JSON response error. "@ + error@,
            Error::Probe(error) => "Encountered an error with the debug probe. "@ + error@,
            Error::Rtt(fault) => "Encountered an RTT operation error. "@ + fault.text(),
            Error::DownChannelInvalid(channel) => "The RTT down channel ("@ + text::decimal(
                channel as nat,
            ) + ") is invalid"@,
            Error::UpChannelInvalid(channel) => "The RTT up channel ("@ + text::decimal(
                channel as nat,
            ) + ") is invalid"@,
            Error::CoreNotRunning(core) => "The core ("@ + text::decimal(core as nat)
                + ") isn't running"@,
            Error::CoreStatus(error) => "Core status check failed. "@ + error@,
            Error::CoreAttach(error) => "Failed to attach core. "@ + error@,
            Error::ClientDisconnected => "Client disconnected"@,
        }
    }

    /// The error in writing.
    pub fn display(&self) -> (text: String)
        ensures
            text@ == self.text(),
    {
        match self {
            Error::Io(error) => {
                String::from_str("RTT session IO error. ").concat(error.as_str())
            },
            Error::ResponseJson(error) => {
                String::from_str("RTT session JSON response error. ").concat(error.as_str())
            },
            Error::Probe(error) => {
                String::from_str("Encountered an error with the debug probe. ").concat(
                    error.as_str(),
                )
            },
            Error::Rtt(fault) => {
                let text = match fault {
                    RttFault::ControlBlockNotFound(text) => text.as_str(),
                    RttFault::Other(text) => text.as_str(),
                };
                String::from_str("Encountered an RTT operation error. ").concat(text)
            },
            Error::DownChannelInvalid(channel) => {
                let mut text = String::from_str("The RTT down channel (");
                append_decimal(&mut text, *channel as u64);
                text.concat(") is invalid")
            },
            Error::UpChannelInvalid(channel) => {
                let mut text = String::from_str("The RTT up channel (");
                append_decimal(&mut text, *channel as u64);
                text.concat(") is invalid")
            },
            Error::CoreNotRunning(core) => {
                let mut text = String::from_str("The core (");
                append_decimal(&mut text, *core as u64);
                text.concat(") isn't running")
            },
            Error::CoreStatus(error) => {
                String::from_str("Core status check failed. ").concat(error.as_str())
            },
            Error::CoreAttach(error) => {
                String::from_str("Failed to attach core. ").concat(error.as_str())
            },
            Error::ClientDisconnected => String::from_str("Client disconnected"),
        }
    }
}

/// Why a session stopped.
#[derive(Debug)]
pub enum StoppedReason {
    Shutdown,
    Error(Error),
    ResetCatch,
    Breakpoint(u64),
    /// No data came within the configured time
    NoData,
}

impl StoppedReason {
    /// The reason in writing.
    pub open spec fn text(self) -> Seq<char> {
        match self {
            StoppedReason::Shutdown => "shutdown"@,
            StoppedReason::Error(_) => "error"@,
            StoppedReason::Breakpoint(address) => "breakpoint=0x"@ + text::upper_hex(
                address as nat,
            ),
            StoppedReason::ResetCatch => "reset"@,
            StoppedReason::NoData => "no-data"@,
        }
    }

    /// The reason in writing.
    pub fn display(&self) -> (text: String)
        ensures
            text@ == self.text(),
    {
        match self {
            StoppedReason::Shutdown => String::from_str("shutdown"),
            StoppedReason::Error(_) => String::from_str("error"),
            StoppedReason::Breakpoint(address) => {
                let mut text = String::from_str("breakpoint=0x");
                append_upper_hex(&mut text, *address);
                text
            },
            StoppedReason::ResetCatch => String::from_str("reset"),
            StoppedReason::NoData => String::from_str("no-data"),
        }
    }
}

/// What a session is attached to while it runs.
#[derive(Clone, Copy, Debug, PartialEq, Eq, Structural)]
pub struct RttHandles {
    /// Where the control block lies in target memory
    pub control_block: u64,
    /// RTT up (target to host) channel
    pub up_channel: u32,
    /// RTT down (host to target) channel
    pub down_channel: u32,
}

/// Where a session stands between two turns.
#[derive(Debug)]
pub enum RttSessionState {
    /// Need to perform the core setup routine
    Init,
    /// Running the RTT attach routine, since that reading of the clock
    RttAttach(Interval),
    /// Attached to RTT and actively reading data
    Run(RttHandles),
    /// Stopping conditions were reached, but can be restarted (i.e. after a power cycle or reset)
    Stopped(StoppedReason),
    /// Shutdown down and waiting to be culled, will never come back
    Shutdown,
}

impl RttSessionState {
    /// The state in writing.
    pub open spec fn text(self) -> Seq<char> {
        match self {
            RttSessionState::Init => "INIT"@,
            RttSessionState::RttAttach(_) => "RTT_ATTACH"@,
            RttSessionState::Run(handles) => "RUN(cb = 0x"@ + text::upper_hex(
                handles.control_block as nat,
            ) + ")"@,
            RttSessionState::Shutdown => "SHUTDOWN"@,
            RttSessionState::Stopped(reason) => "STOPPED("@ + reason.text() + ")"@,
        }
    }

    /// The state in writing.
    pub fn display(&self) -> (text: String)
        ensures
            text@ == self.text(),
    {
        match self {
            RttSessionState::Init => String::from_str("INIT"),
            RttSessionState::RttAttach(_) => String::from_str("RTT_ATTACH"),
            RttSessionState::Run(handles) => {
                let mut text = String::from_str("RUN(cb = 0x");
                append_upper_hex(&mut text, handles.control_block);
                text.concat(")")
            },
            RttSessionState::Shutdown => String::from_str("SHUTDOWN"),
            RttSessionState::Stopped(reason) => {
                String::from_str("STOPPED(").concat(reason.display().as_str()).concat(")")
            },
        }
    }
}

} // verus!
