use trc_rtt_proxy::command::Reply;
use trc_rtt_proxy::manager_error::ManagerError;
use trc_rtt_proxy::protocol::{ProbeConfig, Target};
use trc_rtt_proxy::session_types::RttFault;
use trc_rtt_proxy::setup::{
    can_resume_setup, resume_setup, setup_probe, SetupCommand, SetupProgress, SetupStep,
    WireProtocol,
};

fn config(protocol: &str, under_reset: bool) -> ProbeConfig {
    ProbeConfig {
        probe_selector: None,
        protocol: protocol.to_string(),
        speed_khz: 1234,
        target: Target::Specific("chip".to_string()),
        attach_under_reset: under_reset,
        force_exclusive: false,
    }
}

fn ask(progress: SetupProgress) -> (SetupStep, SetupCommand) {
    match progress {
        SetupProgress::Ask(step, command) => (step, command),
        other => panic!("unexpected {:?}", other),
    }
}

#[test]
fn probe_is_set_up_in_order() {
    let cfg = config("swd", false);
    let (step, command) = ask(setup_probe(&cfg));
    assert_eq!(command, SetupCommand::Open);
    let (step, command) = ask(resume_setup(&cfg, step, Reply::Done));
    assert_eq!(command, SetupCommand::SelectProtocol(WireProtocol::Swd));
    let (step, command) = ask(resume_setup(&cfg, step, Reply::Done));
    assert_eq!(command, SetupCommand::SetSpeed(1234));
    let (step, command) = ask(resume_setup(&cfg, step, Reply::Done));
    assert_eq!(command, SetupCommand::ReadVoltage);
    let (step, command) = ask(resume_setup(&cfg, step, Reply::Powered(true)));
    assert_eq!(command, SetupCommand::Attach(Target::Specific("chip".to_string())));
    assert!(matches!(resume_setup(&cfg, step, Reply::Done), SetupProgress::Ready));
}

#[test]
fn attach_under_reset() {
    let cfg = config("JTAG", true);
    let (step, _) = ask(setup_probe(&cfg));
    let (_, command) = ask(resume_setup(&cfg, step, Reply::Done));
    assert_eq!(command, SetupCommand::SelectProtocol(WireProtocol::Jtag));
    let (_, command) = ask(resume_setup(&cfg, SetupStep::Voltage, Reply::Powered(true)));
    assert_eq!(
        command,
        SetupCommand::AttachUnderReset(Target::Specific("chip".to_string()))
    );
}

#[test]
fn wire_protocols_are_read_in_any_case() {
    for name in ["swd", "SWD", "Swd", "sWd"] {
        let (step, _) = ask(setup_probe(&config(name, false)));
        assert_eq!(step, SetupStep::Open(WireProtocol::Swd));
    }
    for name in ["jtag", "JTAG", "Jtag"] {
        let (step, _) = ask(setup_probe(&config(name, false)));
        assert_eq!(step, SetupStep::Open(WireProtocol::Jtag));
    }
    for name in ["", "spi", "swd ", "jtags"] {
        let progress = setup_probe(&config(name, false));
        assert!(matches!(
            progress,
            SetupProgress::Failed(ManagerError::WireProtocol(text)) if text == name
        ));
    }
}

#[test]
fn target_without_power_is_not_attached_to() {
    let progress = resume_setup(&config("swd", false), SetupStep::Voltage, Reply::Powered(false));
    assert!(matches!(progress, SetupProgress::Failed(ManagerError::TargetNotPowered)));
}

#[test]
fn failures_end_the_setup() {
    let cfg = config("swd", false);
    let steps = [
        SetupStep::Open(WireProtocol::Swd),
        SetupStep::Protocol,
        SetupStep::Speed,
        SetupStep::Voltage,
    ];
    for step in steps {
        let fault = Reply::Failed(RttFault::Other("usb".to_string()));
        let progress = resume_setup(&cfg, step, fault);
        assert!(matches!(
            progress,
            SetupProgress::Failed(ManagerError::DebugProbe(text)) if text == "usb"
        ));
    }
    let fault = Reply::Failed(RttFault::Other("chip".to_string()));
    let progress = resume_setup(&cfg, SetupStep::Attach, fault);
    assert!(matches!(
        progress,
        SetupProgress::Failed(ManagerError::Probe(text)) if text == "chip"
    ));
}

#[test]
fn voltage_step_wants_to_know_about_power() {
    assert!(can_resume_setup(&SetupStep::Voltage, &Reply::Powered(true)));
    assert!(can_resume_setup(
        &SetupStep::Voltage,
        &Reply::Failed(RttFault::Other(String::new()))
    ));
    assert!(!can_resume_setup(&SetupStep::Voltage, &Reply::Done));
    assert!(can_resume_setup(&SetupStep::Speed, &Reply::Done));
}
