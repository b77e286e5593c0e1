//! What a session asks to be done, and the answers to that.
use crate::metrics::MetricsUpdate;
use crate::probe_id::ProbeId;
use crate::protocol::ProxySessionId;
use crate::session_types::RttFault;
use crate::target::{CoreStatus, RegisterValue};
use crate::trc_command::TrcCommand;
use vstd::prelude::*;

verus! {

/// Where to look for the RTT control block.
#[derive(Clone, Copy, Debug, PartialEq, Eq)]
pub enum ScanRegion {
    /// At that address
    Exact(u64),
    /// Where the description of the target says
    Target,
}

/// One thing to be done for a session. Where it acts on a core, that is the core
/// which the last `AttachCore` of the same turn named.
#[derive(Clone, Copy, Debug, PartialEq, Eq)]
pub enum Command {
    AttachCore(u32),
    ReadStatus,
    /// With the time to wait for the core to halt, in milliseconds
    ResetAndHalt(u64),
    ReadStackPointer,
    ReadProgramCounter,
    /// Disables all vector catches
    DisableVectorCatch,
    /// Enables the vector catch on core reset
    EnableVectorCatch,
    ClearAllBreakpoints,
    ClearBreakpoint(u64),
    CountBreakpoints,
    SetBreakpoint(u64),
    Run,
    AttachRtt(ScanRegion),
    /// Takes the up and the down channel with these numbers and reads the mode
    /// of the up channel
    OpenChannels(u32, u32),
    /// Makes the target wait where the up channel is full
    SetBlockIfFull,
    /// Writes a command to the down channel
    WriteDown(TrcCommand),
    /// Waits that many milliseconds
    Sleep(u64),
    /// Tells the client that its session has started
    SendStarted(ProxySessionId),
    /// Reads from the up channel into the session's buffer
    ReadUp,
    LogMetrics(MetricsUpdate),
    /// Sends that many bytes from the start of the buffer to the client
    WriteClient(usize),
    CloseStream,
    /// Nothing more is to be done in this turn
    EndTurn,
}

/// What came of doing something.
#[derive(Debug)]
pub enum Reply {
    Done,
    Failed(RttFault),
    Status(CoreStatus),
    Register(RegisterValue),
    /// Where the control block is, and how many up and down channels it has
    Attached(u64, usize, usize),
    /// The number of bytes read
    Read(usize),
    /// Whether the target has power
    Powered(bool),
    /// The debug probes that are there
    Probes(Vec<ProbeId>),
}

} // verus!
