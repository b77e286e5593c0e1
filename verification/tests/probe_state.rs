use trc_rtt_proxy::clock::{Interval, Stopwatch};
use trc_rtt_proxy::command::{Command, Reply};
use trc_rtt_proxy::probe_id::ProbeId;
use trc_rtt_proxy::probe_model::ProbeAction;
use trc_rtt_proxy::probe_state::ProbeState;
use trc_rtt_proxy::protocol::{ProbeConfig, RttConfig, Target, TargetConfig};
use trc_rtt_proxy::rtt_session::RttSession;
use trc_rtt_proxy::session_types::RttFault;
use trc_rtt_proxy::setup::SetupCommand;
use trc_rtt_proxy::target::CoreStatus;

fn ms(millis: u64) -> Interval {
    Interval::from_millis(millis)
}

fn config() -> ProbeConfig {
    ProbeConfig {
        probe_selector: None,
        protocol: "swd".to_string(),
        speed_khz: 4000,
        target: Target::Auto,
        attach_under_reset: false,
        force_exclusive: false,
    }
}

fn target(core: u32) -> TargetConfig {
    TargetConfig {
        auto_recover: true,
        core,
        reset: false,
        bootloader: false,
        bootloader_companion_application: false,
    }
}

fn probe() -> ProbeState {
    let id = ProbeId { vendor_id: 1, product_id: 2, serial_number: None };
    ProbeState::new(id, config(), Stopwatch::start(), ms(0))
}

fn session(id: u128, core: u32) -> RttSession {
    RttSession::new(
        id,
        format!("AUTO:{}", core),
        target(core),
        RttConfig::default(),
        false,
        Stopwatch::start(),
        ms(0),
    )
}

fn probe_with(ids: &[u128]) -> ProbeState {
    let mut probe = probe();
    for id in ids {
        probe.shared_state_for_core(*id as u32);
        probe.add_rtt_session(session(*id, *id as u32));
    }
    probe
}

fn failed() -> Reply {
    Reply::Failed(RttFault::Other("broken".to_string()))
}

fn kind(action: &ProbeAction) -> Reply {
    match action {
        ProbeAction::Session(_, Command::ReadStatus) => Reply::Status(CoreStatus::Running),
        ProbeAction::Session(_, Command::AttachRtt(_)) => Reply::Attached(0, 3, 3),
        ProbeAction::Session(_, Command::ReadUp) => Reply::Read(0),
        ProbeAction::Setup(SetupCommand::ReadVoltage) => Reply::Powered(true),
        _ => Reply::Done,
    }
}

/// Goes on until nothing is left to do, and lists what was done.
fn finish(
    probe: &mut ProbeState,
    first: ProbeAction,
    now: Interval,
    answer: impl Fn(&ProbeAction) -> Reply,
) -> Vec<String> {
    let mut done = Vec::new();
    let mut action = first;
    while !matches!(action, ProbeAction::Done) {
        let reply = answer(&action);
        assert!(probe.accepts(&reply));
        done.push(format!("{:?}", action));
        action = probe.resume_at(reply, now);
    }
    assert!(probe.is_idle());
    done
}

fn service(
    probe: &mut ProbeState,
    now: Interval,
    answer: impl Fn(&ProbeAction) -> Reply,
) -> Vec<String> {
    let first = probe.service_at(now);
    finish(probe, first, now, answer)
}

#[test]
fn new_probe_is_connected_and_empty() {
    let probe = probe();
    assert_eq!(probe.id().display(), "0001:0002");
    assert_eq!(*probe.config(), config());
    assert!(probe.is_active());
    assert!(probe.is_idle());
    assert!(probe.is_empty());
    assert!(probe.session(1).is_none());
}

#[test]
fn empty_probe_has_nothing_to_do() {
    let mut probe = probe();
    assert!(service(&mut probe, ms(0), kind).is_empty());
    assert!(matches!(probe.service(), ProbeAction::Done));
}

#[test]
fn sessions_have_their_turns_in_order() {
    let mut probe = probe_with(&[5, 6, 7]);
    assert!(!probe.is_empty());
    for round in 0..2u64 {
        for id in 5..8u128 {
            let done = service(&mut probe, ms(round * 1000), kind);
            let first = format!("{:?}", ProbeAction::Session(id, Command::AttachCore(id as u32)));
            assert_eq!(done[0], first);
        }
    }
    for id in 5..8u128 {
        assert!(probe.session(id).is_some_and(|session| session.is_running()));
    }
}

#[test]
fn turn_leaves_the_other_sessions_alone() {
    let mut probe = probe_with(&[5, 6]);
    service(&mut probe, ms(0), kind);
    assert_eq!(probe.session(5).map(|s| s.state().display()), Some("RTT_ATTACH".to_string()));
    assert_eq!(probe.session(6).map(|s| s.state().display()), Some("INIT".to_string()));
}

#[test]
fn places_are_known() {
    let probe = probe_with(&[5]);
    let rtt = RttConfig::default();
    assert!(probe.has_session_on(&target(5), &rtt));
    assert!(!probe.has_session_on(&target(6), &rtt));
    let other = RttConfig { up_channel: 2, ..rtt };
    assert!(!probe.has_session_on(&target(5), &other));
    let other = RttConfig { control_block_address: Some(1), ..rtt };
    assert!(!probe.has_session_on(&target(5), &other));
    let other = RttConfig { down_channel: 9, restart: true, ..rtt };
    assert!(probe.has_session_on(&target(5), &other));
}

#[test]
fn one_session_shuts_down() {
    let mut probe = probe_with(&[5, 6]);
    service(&mut probe, ms(0), kind);
    let first = probe.shutdown_rtt_session(5);
    assert!(probe.session(5).is_none());
    let done = finish(&mut probe, first, ms(1), kind);
    assert_eq!(
        done,
        vec![
            format!("{:?}", ProbeAction::Session(5, Command::AttachCore(5))),
            format!("{:?}", ProbeAction::Session(5, Command::DisableVectorCatch)),
            format!("{:?}", ProbeAction::Session(5, Command::CloseStream)),
            format!("{:?}", ProbeAction::DropSession(5)),
        ]
    );
    assert!(probe.session(6).is_some());
    // The schedule starts over without it
    let done = service(&mut probe, ms(2), kind);
    assert_eq!(done[0], format!("{:?}", ProbeAction::Session(6, Command::AttachCore(6))));
}

#[test]
fn unknown_session_cannot_shut_down() {
    let mut probe = probe_with(&[5]);
    assert!(matches!(probe.shutdown_rtt_session(9), ProbeAction::Done));
    assert!(probe.session(5).is_some());
}

#[test]
fn all_sessions_shut_down() {
    let mut probe = probe_with(&[5, 6, 7]);
    let first = probe.shutdown_all_rtt_sessions();
    let done = finish(&mut probe, first, ms(1), kind);
    assert!(probe.is_empty());
    let dropped: Vec<String> = done
        .iter()
        .filter(|action| action.starts_with("DropSession"))
        .cloned()
        .collect();
    assert_eq!(dropped, vec!["DropSession(5)", "DropSession(6)", "DropSession(7)"]);
}

#[test]
fn lost_connection_is_given_up_and_set_up_again() {
    let mut probe = probe_with(&[5, 6]);
    let lost = |action: &ProbeAction| match action {
        ProbeAction::Session(..) => failed(),
        other => kind(other),
    };
    // One session cannot reach its core, and no session is running
    let done = service(&mut probe, ms(0), lost);
    assert_eq!(done.last(), Some(&"DropDebugSession".to_string()));
    assert!(!probe.is_active());
    // No session has a turn until the probe is there again
    let done = service(&mut probe, ms(1), lost);
    assert_eq!(
        done,
        vec![
            format!("{:?}", ProbeAction::Setup(SetupCommand::Open)),
            "Setup(SelectProtocol(Swd))".to_string(),
            "Setup(SetSpeed(4000))".to_string(),
            "Setup(ReadVoltage)".to_string(),
            "Setup(Attach(Auto))".to_string(),
        ]
    );
    assert!(probe.is_active());
    // It is given up again only once both sessions have had their turn
    let done = service(&mut probe, ms(500), lost);
    assert!(!done.contains(&"DropDebugSession".to_string()));
    assert!(probe.is_active());
    let done = service(&mut probe, ms(700), lost);
    assert_eq!(done.last(), Some(&"DropDebugSession".to_string()));
    assert!(!probe.is_active());
}

#[test]
fn failed_recovery_is_tried_again_later() {
    let mut probe = probe_with(&[5]);
    service(&mut probe, ms(0), |action| match action {
        ProbeAction::Session(..) => failed(),
        other => kind(other),
    });
    assert!(!probe.is_active());
    let no_power = |action: &ProbeAction| match action {
        ProbeAction::Setup(SetupCommand::ReadVoltage) => Reply::Powered(false),
        other => kind(other),
    };
    assert_eq!(service(&mut probe, ms(10), no_power).len(), 4);
    assert!(!probe.is_active());
    assert!(service(&mut probe, ms(59), kind).is_empty());
    assert_eq!(service(&mut probe, ms(60), kind).len(), 5);
    assert!(probe.is_active());
}

#[test]
fn session_on_a_lost_probe_has_its_stream_closed() {
    let mut probe = probe_with(&[5, 6]);
    service(&mut probe, ms(0), |action| match action {
        ProbeAction::Session(..) => failed(),
        other => kind(other),
    });
    assert!(!probe.is_active());
    let first = probe.shutdown_rtt_session(5);
    assert_eq!(
        finish(&mut probe, first, ms(1), kind),
        vec![
            format!("{:?}", ProbeAction::Session(5, Command::CloseStream)),
            "DropSession(5)".to_string(),
        ]
    );
    let first = probe.shutdown_all_rtt_sessions();
    assert_eq!(
        finish(&mut probe, first, ms(1), kind),
        vec![
            format!("{:?}", ProbeAction::Session(6, Command::CloseStream)),
            "DropSession(6)".to_string(),
        ]
    );
    assert!(probe.is_empty());
}

fn session_with(id: u128, target: TargetConfig, up_channel: u32) -> RttSession {
    RttSession::new(
        id,
        "chip".to_string(),
        target,
        RttConfig { up_channel, ..RttConfig::default() },
        false,
        Stopwatch::start(),
        ms(0),
    )
}

#[test]
fn application_waits_for_its_bootloader() {
    let mut probe = probe();
    let once = TargetConfig { auto_recover: false, ..target(0) };
    let bootloader = TargetConfig { bootloader: true, ..once };
    let companion = TargetConfig { bootloader_companion_application: true, ..once };
    probe.shared_state_for_core(0);
    probe.add_rtt_session(session_with(5, companion, 1));
    probe.add_rtt_session(session_with(6, bootloader, 2));
    probe.add_rtt_session(session_with(7, target(1), 1));
    // The application is passed over, the others have their turns
    for round in 0..3 {
        assert!(service(&mut probe, ms(round), kind).is_empty());
        let done = service(&mut probe, ms(round), kind);
        assert!(done[0].starts_with("Session(6"));
        let done = service(&mut probe, ms(round), kind);
        assert!(done[0].starts_with("Session(7"));
    }
    assert_eq!(probe.session(5).map(|s| s.state().display()), Some("INIT".to_string()));
    assert!(probe.session(6).is_some_and(|s| s.is_running()));
    assert!(probe.session(7).is_some_and(|s| s.is_running()));
    // The bootloader hands over
    service(&mut probe, ms(100), kind);
    service(&mut probe, ms(100), |action| match action {
        ProbeAction::Session(6, Command::ReadStatus) => Reply::Status(CoreStatus::Sleeping),
        other => kind(other),
    });
    assert!(probe.session(6).is_some_and(|s| s.is_stopped()));
    service(&mut probe, ms(100), kind);
    let done = service(&mut probe, ms(101), kind);
    assert!(done[0].starts_with("Session(5"));
}

#[test]
fn bootloader_that_recovers_suspends_nobody() {
    let mut probe = probe();
    let bootloader = TargetConfig { bootloader: true, ..target(0) };
    let companion = TargetConfig { bootloader_companion_application: true, ..target(0) };
    probe.add_rtt_session(session_with(5, companion, 1));
    probe.add_rtt_session(session_with(6, bootloader, 2));
    for round in 0..3 {
        assert!(service(&mut probe, ms(round), kind).is_empty());
        service(&mut probe, ms(round), kind);
    }
    assert!(probe.session(6).is_some_and(|s| s.is_running()));
    service(&mut probe, ms(100), kind);
    service(&mut probe, ms(100), |action| match action {
        ProbeAction::Session(6, Command::ReadStatus) => Reply::Status(CoreStatus::Sleeping),
        other => kind(other),
    });
    assert!(probe.session(6).is_some_and(|s| s.is_stopped()));
    // From now on both have their turns, also once the bootloader is back
    for round in 2..6 {
        let done = service(&mut probe, ms(round * 100), kind);
        assert!(done[0].starts_with("Session(5"));
        let done = service(&mut probe, ms(round * 100), kind);
        assert!(done[0].starts_with("Session(6"));
    }
    assert!(probe.session(5).is_some_and(|s| s.is_running()));
    assert!(probe.session(6).is_some_and(|s| s.is_running()));
}

#[test]
fn bootloader_that_is_gone_suspends_nobody() {
    let mut probe = probe();
    let bootloader = TargetConfig { bootloader: true, ..target(0) };
    probe.add_rtt_session(session_with(5, target(0), 1));
    probe.add_rtt_session(session_with(6, bootloader, 2));
    assert!(service(&mut probe, ms(0), kind).is_empty());
    let first = probe.shutdown_rtt_session(6);
    finish(&mut probe, first, ms(1), kind);
    let done = service(&mut probe, ms(2), kind);
    assert!(done[0].starts_with("Session(5"));
}

#[test]
fn of_two_bootloaders_the_first_one_goes_first() {
    let mut probe = probe();
    let bootloader = TargetConfig { bootloader: true, ..target(0) };
    probe.add_rtt_session(session_with(5, bootloader, 1));
    probe.add_rtt_session(session_with(6, bootloader, 2));
    let done = service(&mut probe, ms(0), kind);
    assert!(done[0].starts_with("Session(5"));
    assert!(service(&mut probe, ms(0), kind).is_empty());
    let done = service(&mut probe, ms(1), kind);
    assert!(done[0].starts_with("Session(5"));
}

#[test]
fn counts_are_those_of_the_sessions_on_the_core() {
    let mut probe = probe();
    probe.add_rtt_session(session_with(5, target(0), 1));
    probe.add_rtt_session(session_with(6, target(0), 2));
    // Both sessions come to run, and the first one enables the catch
    let mut done = Vec::new();
    for _ in 0..4 {
        done.extend(service(&mut probe, ms(0), kind));
    }
    let enabled = "EnableVectorCatch)";
    assert_eq!(done.iter().filter(|action| action.ends_with(enabled)).count(), 1);
    // The last one to leave disables it
    let first = probe.shutdown_rtt_session(5);
    let left = finish(&mut probe, first, ms(1), kind);
    assert!(!left.iter().any(|action| action.ends_with("DisableVectorCatch)")));
    let first = probe.shutdown_rtt_session(6);
    let left = finish(&mut probe, first, ms(1), kind);
    assert!(left.iter().any(|action| action.ends_with("DisableVectorCatch)")));
}

#[test]
fn running_session_keeps_the_connection() {
    let mut probe = probe_with(&[5, 6]);
    let good: u128 = 6;
    let half = move |action: &ProbeAction| match action {
        ProbeAction::Session(id, _) if *id != good => failed(),
        other => kind(other),
    };
    // Session six comes to run before the connection is looked at again
    service(&mut probe, ms(0), kind);
    service(&mut probe, ms(1), kind);
    service(&mut probe, ms(2), kind);
    service(&mut probe, ms(3), kind);
    assert!(probe.session(6).is_some_and(|session| session.is_running()));
    let done = service(&mut probe, ms(500), half);
    assert!(probe.session(5).is_some_and(|s| s.is_stopped_due_to_core_attach()));
    assert!(!done.contains(&"DropDebugSession".to_string()));
    assert!(probe.is_active());
}

#[test]
fn probe_can_go_by_the_real_clock() {
    let mut probe = probe_with(&[5]);
    assert!(matches!(probe.service(), ProbeAction::Session(5, Command::AttachCore(5))));
    assert!(!probe.is_idle());
    assert!(matches!(probe.resume(Reply::Done), ProbeAction::Session(5, Command::ReadStatus)));
    assert!(!probe.accepts(&Reply::Done));
    assert!(probe.accepts(&Reply::Status(CoreStatus::Running)));
}
