//! Opening a debug probe and attaching to the target.
use crate::command::Reply;
use crate::manager_error::ManagerError;
use crate::protocol::{ProbeConfig, Target};
use crate::session_types::RttFault;
use std::str::FromStr;
use vstd::prelude::*;

verus! {

/// The protocol between probe and target.
#[derive(Clone, Copy, Debug, PartialEq, Eq, Structural)]
pub enum WireProtocol {
    Swd,
    Jtag,
}

/// The small letter for a capital one among the ASCII letters; any other
/// character stays as it is.
pub open spec fn ascii_lower(c: char) -> char {
    if 'A' <= c <= 'Z' {
        (c as u32 + 32) as char
    } else {
        c
    }
}

/// The protocol with that name, in whatever case it is written.
pub open spec fn wire_protocol(name: Seq<char>) -> Option<WireProtocol> {
    let lower = name.map_values(|c: char| ascii_lower(c));
    if lower == "swd"@ {
        Some(WireProtocol::Swd)
    } else if lower == "jtag"@ {
        Some(WireProtocol::Jtag)
    } else {
        None
    }
}

/// Calls `<probe_rs::probe::WireProtocol as FromStr>::from_str`, which knows the
/// names "swd" and "jtag" in any mix of small letters and capitals, and no other.
#[verifier::external_body]
fn parse_wire_protocol(name: &str) -> (protocol: Option<WireProtocol>)
    ensures
        protocol == wire_protocol(name@),
{
    match probe_rs::probe::WireProtocol::from_str(name) {
        Ok(probe_rs::probe::WireProtocol::Swd) => Some(WireProtocol::Swd),
        Ok(probe_rs::probe::WireProtocol::Jtag) => Some(WireProtocol::Jtag),
        Err(_) => None,
    }
}

/// One thing to be done to a debug probe that is being set up.
#[derive(Debug, PartialEq, Eq)]
pub enum SetupCommand {
    Open,
    SelectProtocol(WireProtocol),
    /// With the speed in kHz
    SetSpeed(u32),
    ReadVoltage,
    Attach(Target),
    AttachUnderReset(Target),
}

/// What the setup of a probe is waiting for.
#[derive(Clone, Copy, Debug, PartialEq, Eq, Structural)]
pub enum SetupStep {
    Open(WireProtocol),
    Protocol,
    Speed,
    Voltage,
    Attach,
}

/// How the setup of a probe goes on.
#[derive(Debug)]
pub enum SetupProgress {
    Ask(SetupStep, SetupCommand),
    /// The probe is attached to its target
    Ready,
    Failed(ManagerError),
}

/// The first step: the probe is opened if the protocol is one that is known.
pub open spec fn setup_begun(cfg: ProbeConfig) -> SetupProgress {
    match wire_protocol(cfg.protocol@) {
        Some(protocol) => SetupProgress::Ask(SetupStep::Open(protocol), SetupCommand::Open),
        None => SetupProgress::Failed(ManagerError::WireProtocol(cfg.protocol)),
    }
}

/// Whether the setup can go on with this answer.
pub open spec fn setup_accepts(step: SetupStep, reply: Reply) -> bool {
    step is Voltage ==> reply is Powered || reply is Failed
}

/// The next step, given the answer to the last one: protocol, speed, voltage and
/// attach, in that order. A target without power is not attached to.
pub open spec fn setup_resumed(cfg: ProbeConfig, step: SetupStep, reply: Reply) -> SetupProgress {
    match reply {
        Reply::Failed(fault) => SetupProgress::Failed(
            if step is Attach {
                ManagerError::Probe(fault.message())
            } else {
                ManagerError::DebugProbe(fault.message())
            },
        ),
        _ => match step {
            SetupStep::Open(protocol) => SetupProgress::Ask(
                SetupStep::Protocol,
                SetupCommand::SelectProtocol(protocol),
            ),
            SetupStep::Protocol => SetupProgress::Ask(
                SetupStep::Speed,
                SetupCommand::SetSpeed(cfg.speed_khz),
            ),
            SetupStep::Speed => SetupProgress::Ask(SetupStep::Voltage, SetupCommand::ReadVoltage),
            SetupStep::Voltage => if reply->Powered_0 {
                SetupProgress::Ask(
                    SetupStep::Attach,
                    if cfg.attach_under_reset {
                        SetupCommand::AttachUnderReset(cfg.target)
                    } else {
                        SetupCommand::Attach(cfg.target)
                    },
                )
            } else {
                SetupProgress::Failed(ManagerError::TargetNotPowered)
            },
            SetupStep::Attach => SetupProgress::Ready,
        },
    }
}

/// Begins to set a probe up.
pub fn setup_probe(cfg: &ProbeConfig) -> (progress: SetupProgress)
    ensures
        progress == setup_begun(*cfg),
{
    match parse_wire_protocol(cfg.protocol.as_str()) {
        Some(protocol) => SetupProgress::Ask(SetupStep::Open(protocol), SetupCommand::Open),
        None => SetupProgress::Failed(ManagerError::WireProtocol(cfg.protocol.clone())),
    }
}

/// Whether the setup can go on with this answer.
pub fn can_resume_setup(step: &SetupStep, reply: &Reply) -> (yes: bool)
    ensures
        yes == setup_accepts(*step, *reply),
{
    match step {
        SetupStep::Voltage => matches!(reply, Reply::Powered(_) | Reply::Failed(_)),
        _ => true,
    }
}

/// Goes on with setting a probe up, given what came of the last command.
pub fn resume_setup(cfg: &ProbeConfig, step: SetupStep, reply: Reply) -> (progress: SetupProgress)
    requires
        setup_accepts(step, reply),
    ensures
        progress == setup_resumed(*cfg, step, reply),
{
    match reply {
        Reply::Failed(fault) => {
            let text = fault.into_message();
            match step {
                SetupStep::Attach => SetupProgress::Failed(ManagerError::Probe(text)),
                _ => SetupProgress::Failed(ManagerError::DebugProbe(text)),
            }
        },
        _ => match step {
            SetupStep::Open(protocol) => SetupProgress::Ask(
                SetupStep::Protocol,
                SetupCommand::SelectProtocol(protocol),
            ),
            SetupStep::Protocol => SetupProgress::Ask(
                SetupStep::Speed,
                SetupCommand::SetSpeed(cfg.speed_khz),
            ),
            SetupStep::Speed => SetupProgress::Ask(SetupStep::Voltage, SetupCommand::ReadVoltage),
            SetupStep::Voltage => {
                // Use target voltage to check for target powered on
                let powered: bool = match reply {
                    Reply::Powered(powered) => powered,
                    _ => false,
                };
                if !powered {
                    SetupProgress::Failed(ManagerError::TargetNotPowered)
                } else if cfg.attach_under_reset {
                    SetupProgress::Ask(
                        SetupStep::Attach,
                        SetupCommand::AttachUnderReset(cfg.target.duplicate()),
                    )
                } else {
                    SetupProgress::Ask(
                        SetupStep::Attach,
                        SetupCommand::Attach(cfg.target.duplicate()),
                    )
                }
            },
            SetupStep::Attach => SetupProgress::Ready,
        },
    }
}

/// A target without power is never attached to, and a probe is ready only once
/// the attach is done.
pub proof fn unpowered_target_is_refused(cfg: ProbeConfig, step: SetupStep, reply: Reply)
    requires
        setup_accepts(step, reply),
    ensures
        reply == Reply::Powered(false) && step is Voltage ==> setup_resumed(cfg, step, reply)
            == SetupProgress::Failed(ManagerError::TargetNotPowered),
        setup_resumed(cfg, step, reply) matches SetupProgress::Ask(_, command) && (
        command is Attach || command is AttachUnderReset) ==> reply == Reply::Powered(true),
        setup_resumed(cfg, step, reply) is Ready ==> step is Attach,
{
}

/// A probe whose protocol is known is opened, configured, checked for power and
/// attached, each thing once and in that order; then it is ready.
pub proof fn setup_follows_its_plan(cfg: ProbeConfig, protocol: WireProtocol)
    requires
        wire_protocol(cfg.protocol@) == Some(protocol),
    ensures
        setup_begun(cfg) == SetupProgress::Ask(SetupStep::Open(protocol), SetupCommand::Open),
        setup_resumed(cfg, SetupStep::Open(protocol), Reply::Done) == SetupProgress::Ask(
            SetupStep::Protocol,
            SetupCommand::SelectProtocol(protocol),
        ),
        setup_resumed(cfg, SetupStep::Protocol, Reply::Done) == SetupProgress::Ask(
            SetupStep::Speed,
            SetupCommand::SetSpeed(cfg.speed_khz),
        ),
        setup_resumed(cfg, SetupStep::Speed, Reply::Done) == SetupProgress::Ask(
            SetupStep::Voltage,
            SetupCommand::ReadVoltage,
        ),
        setup_resumed(cfg, SetupStep::Voltage, Reply::Powered(true)) == SetupProgress::Ask(
            SetupStep::Attach,
            if cfg.attach_under_reset {
                SetupCommand::AttachUnderReset(cfg.target)
            } else {
                SetupCommand::Attach(cfg.target)
            },
        ),
        setup_resumed(cfg, SetupStep::Attach, Reply::Done) == SetupProgress::Ready,
{
}

/// Whatever a command answers short of a failure, the next one follows in the same order:
/// the protocol that the probe was opened with, the configured speed, the look at the
/// voltage and, with power, the kind of attach that is configured. Only the attach comes
/// last.
pub proof fn setup_goes_on_unless_something_fails(cfg: ProbeConfig, step: SetupStep, reply: Reply)
    requires
        setup_accepts(step, reply),
        !(reply is Failed),
        !(step is Voltage && reply == Reply::Powered(false)),
    ensures
        match step {
            SetupStep::Open(protocol) => setup_resumed(cfg, step, reply) == SetupProgress::Ask(
                SetupStep::Protocol,
                SetupCommand::SelectProtocol(protocol),
            ),
            SetupStep::Protocol => setup_resumed(cfg, step, reply) == SetupProgress::Ask(
                SetupStep::Speed,
                SetupCommand::SetSpeed(cfg.speed_khz),
            ),
            SetupStep::Speed => setup_resumed(cfg, step, reply) == SetupProgress::Ask(
                SetupStep::Voltage,
                SetupCommand::ReadVoltage,
            ),
            SetupStep::Voltage => setup_resumed(cfg, step, reply) == SetupProgress::Ask(
                SetupStep::Attach,
                if cfg.attach_under_reset {
                    SetupCommand::AttachUnderReset(cfg.target)
                } else {
                    SetupCommand::Attach(cfg.target)
                },
            ),
            SetupStep::Attach => setup_resumed(cfg, step, reply) is Ready,
        },
{
}

/// A failure ends the setup, and the client reads what went wrong.
pub proof fn failed_setup_tells_why(cfg: ProbeConfig, step: SetupStep, fault: RttFault)
    ensures
        setup_resumed(cfg, step, Reply::Failed(fault)) matches SetupProgress::Failed(error)
            && error.text() == "Encountered an error with the debug probe. "@ + match fault {
            RttFault::ControlBlockNotFound(text) => text@,
            RttFault::Other(text) => text@,
        },
{
}

/// A setup is begun just if the protocol is known; otherwise the client reads which one was
/// asked for.
pub proof fn unknown_protocol_is_refused(cfg: ProbeConfig)
    ensures
        setup_begun(cfg) is Failed <==> wire_protocol(cfg.protocol@) is None,
        setup_begun(cfg) matches SetupProgress::Failed(error) ==> error.text()
            == "Unsupported wire protocol '"@ + cfg.protocol@
            + "'. Only SWD and JTAG are supported."@,
        setup_begun(cfg) matches SetupProgress::Ask(step, command) ==> command
            == SetupCommand::Open && Some(step) == (match wire_protocol(cfg.protocol@) {
            Some(protocol) => Some(SetupStep::Open(protocol)),
            None => None,
        }),
{
}

} // verus!
