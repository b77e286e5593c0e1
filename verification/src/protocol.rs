//! What clients and the proxy say to each other.
use uuid::Uuid;
use vstd::prelude::*;

verus! {

pub type Version = u8;

pub const V1: Version = 1;

/// Names one session. It is the number whose big-endian bytes make up a UUID.
pub type ProxySessionId = u128;

/// Whether the bits that mark a random (version 4) UUID are set as they must be.
pub open spec fn is_random_id(id: ProxySessionId) -> bool {
    &&& (id / 0x10000000000000000000) % 16 == 4
    &&& (id / 0x4000000000000000) % 4 == 2
}

/// Calls `uuid::Uuid::new_v4`, which draws a random UUID. Any number may come
/// out whose version and variant bits mark it as random.
#[verifier::external_body]
pub(crate) fn new_session_id() -> (id: ProxySessionId)
    ensures
        is_random_id(id),
{
    Uuid::new_v4().as_u128()
}

#[derive(Clone, Debug, PartialEq, Eq)]
pub struct ProxySessionConfig {
    pub version: Version,
    pub probe: ProbeConfig,
    pub target: TargetConfig,
    pub rtt: RttConfig,
}

#[derive(Clone, Debug, PartialEq, Eq)]
pub enum ProxySessionStatus {
    Started(ProxySessionId),
    Error(String),
}

#[derive(Clone, Debug, PartialEq, Eq)]
pub enum ProxySessionControl {
    Shutdown(ProxySessionId),
}

impl ProxySessionStatus {
    pub fn session_started(id: ProxySessionId) -> (status: Self)
        ensures
            status == ProxySessionStatus::Started(id),
    {
        ProxySessionStatus::Started(id)
    }

    /// The status that reports an error, given the text of the error.
    pub fn error(err: String) -> (status: Self)
        ensures
            status == ProxySessionStatus::Error(err),
    {
        ProxySessionStatus::Error(err)
    }
}

#[derive(Clone, Debug, PartialEq, Eq)]
pub enum Target {
    Auto,
    Specific(String),
}

impl Target {
    /// The name of the target.
    pub open spec fn text(self) -> Seq<char> {
        match self {
            Target::Auto => "AUTO"@,
            Target::Specific(name) => name@,
        }
    }

    /// The name of the target.
    pub fn display(&self) -> (text: String)
        ensures
            text@ == self.text(),
    {
        match self {
            Target::Auto => String::from_str("AUTO"),
            Target::Specific(name) => name.clone(),
        }
    }

    /// The same target once more.
    pub fn duplicate(&self) -> (copy: Target)
        ensures
            copy == *self,
    {
        match self {
            Target::Auto => Target::Auto,
            Target::Specific(name) => Target::Specific(name.clone()),
        }
    }
}

/// Probe config, only applied on the first session attaching to the probe
#[derive(Clone, Debug, PartialEq, Eq)]
pub struct ProbeConfig {
    /// If None, connect to the first available probe (only supported if a single probe is
    /// connected)
    pub probe_selector: Option<String>,
    pub protocol: String,
    /// Protocol speed in kHz
    pub speed_khz: u32,
    /// If None, try to automatically identify the target chip, by reading
    /// identifying information from the probe and / or target
    pub target: Target,
    pub attach_under_reset: bool,
    /// If True, any existing sessions using this probe will be shut down
    pub force_exclusive: bool,
}

/// Target config
#[derive(Clone, Copy, Debug, PartialEq, Eq, Structural)]
pub struct TargetConfig {
    /// Automatically attempt to recover the debug probe connection
    /// when an error is encountered.
    pub auto_recover: bool,
    pub core: u32,
    /// Reset and halt the core before starting the RTT reader session
    pub reset: bool,
    /// This session will have exclusive access to the core's
    /// control functionality (i.e. hardware breakpoints, reset, etc).
    /// If another session (i.e. the application to be booted by the bootloader)
    /// is requested on this core, it will be suspended until this session
    /// signals completion.
    pub bootloader: bool,
    /// This session will not drive any of the core's
    /// control functionality (i.e. hardware breakpoints, reset, etc)
    pub bootloader_companion_application: bool,
}

/// RTT config
#[derive(Clone, Copy, Debug, PartialEq, Eq)]
pub struct RttConfig {
    /// How long the control block is looked for; if None, only once
    pub attach_timeout_ms: Option<u32>,
    /// Set a breakpoint on the address for enabling the RTT BlockIfFull channel mode
    pub setup_on_breakpoint_address: Option<u64>,
    /// Set a breakpoint on the address to signal a stopping condition
    pub stop_on_breakpoint_address: Option<u64>,
    /// Stop if no data comes within the timeout
    pub no_data_stop_timeout_ms: Option<u32>,
    /// If None, memory will be scanned for the control block
    pub control_block_address: Option<u64>,
    pub up_channel: u32,
    pub down_channel: u32,
    pub disable_control_plane: bool,
    /// Sends the stop command before the start command
    pub restart: bool,
    pub rtt_read_buffer_size: u32,
    pub rtt_poll_interval_ms: u32,
    pub rtt_idle_poll_interval_ms: u32,
}

impl RttConfig {
    pub const DEFAULT_POLL_INTERVAL_MS: u32 = 1;

    pub const DEFAULT_IDLE_POLL_INTERVAL_MS: u32 = 100;

    pub const DEFAULT_RTT_BUFFER_SIZE: u32 = 1024;
}

impl Default for RttConfig {
    fn default() -> (cfg: Self)
        ensures
            cfg == (RttConfig {
                attach_timeout_ms: None,
                setup_on_breakpoint_address: None,
                stop_on_breakpoint_address: None,
                no_data_stop_timeout_ms: None,
                control_block_address: None,
                up_channel: 1,
                down_channel: 1,
                disable_control_plane: false,
                restart: false,
                rtt_read_buffer_size: RttConfig::DEFAULT_RTT_BUFFER_SIZE,
                rtt_poll_interval_ms: RttConfig::DEFAULT_POLL_INTERVAL_MS,
                rtt_idle_poll_interval_ms: RttConfig::DEFAULT_IDLE_POLL_INTERVAL_MS,
            }),
    {
        Self {
            attach_timeout_ms: None,
            setup_on_breakpoint_address: None,
            stop_on_breakpoint_address: None,
            no_data_stop_timeout_ms: None,
            control_block_address: None,
            up_channel: 1,
            down_channel: 1,
            disable_control_plane: false,
            restart: false,
            rtt_read_buffer_size: Self::DEFAULT_RTT_BUFFER_SIZE,
            rtt_poll_interval_ms: Self::DEFAULT_POLL_INTERVAL_MS,
            rtt_idle_poll_interval_ms: Self::DEFAULT_IDLE_POLL_INTERVAL_MS,
        }
    }
}

} // verus!
