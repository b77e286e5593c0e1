use trc_rtt_proxy::clock::Interval;
use trc_rtt_proxy::command::{Command, Reply};
use trc_rtt_proxy::manager::{session_name, Action, Manager, Operation};
use trc_rtt_proxy::probe_id::ProbeId;
use trc_rtt_proxy::probe_model::ProbeAction;
use trc_rtt_proxy::protocol::{
    ProbeConfig, ProxySessionConfig, RttConfig, Target, TargetConfig, V1,
};
use trc_rtt_proxy::session_types::RttFault;
use trc_rtt_proxy::setup::SetupCommand;
use trc_rtt_proxy::target::CoreStatus;

fn ms(millis: u64) -> Interval {
    Interval::from_millis(millis)
}

fn probe(product_id: u16) -> ProbeId {
    ProbeId { vendor_id: 1, product_id, serial_number: None }
}

fn request(selector: Option<&str>, core: u32) -> ProxySessionConfig {
    ProxySessionConfig {
        version: V1,
        probe: ProbeConfig {
            probe_selector: selector.map(|s| s.to_string()),
            protocol: "swd".to_string(),
            speed_khz: 4000,
            target: Target::Specific("chip".to_string()),
            attach_under_reset: false,
            force_exclusive: false,
        },
        target: TargetConfig {
            auto_recover: true,
            core,
            reset: false,
            bootloader: false,
            bootloader_companion_application: false,
        },
        rtt: RttConfig::default(),
    }
}

fn exclusive(selector: Option<&str>, core: u32) -> ProxySessionConfig {
    let mut request = request(selector, core);
    request.probe.force_exclusive = true;
    request
}

fn failed() -> Reply {
    Reply::Failed(RttFault::Other("broken".to_string()))
}

fn kind(action: &Action) -> Reply {
    match action {
        Action::ListProbes => Reply::Probes(vec![probe(1)]),
        Action::Setup(_, SetupCommand::ReadVoltage) => Reply::Powered(true),
        Action::Probe(_, ProbeAction::Setup(SetupCommand::ReadVoltage)) => Reply::Powered(true),
        Action::Probe(_, ProbeAction::Session(_, Command::ReadStatus)) => {
            Reply::Status(CoreStatus::Running)
        }
        Action::Probe(_, ProbeAction::Session(_, Command::AttachRtt(_))) => {
            Reply::Attached(0, 3, 3)
        }
        Action::Probe(_, ProbeAction::Session(_, Command::ReadUp)) => Reply::Read(0),
        _ => Reply::Done,
    }
}

fn two_probes(action: &Action) -> Reply {
    match action {
        Action::ListProbes => Reply::Probes(vec![probe(1), probe(2)]),
        other => kind(other),
    }
}

/// Goes on until nothing is left to do, and lists what was done.
fn finish(
    manager: &mut Manager,
    first: Action,
    id: u128,
    now: Interval,
    answer: impl Fn(&Action) -> Reply,
) -> Vec<String> {
    let mut done = Vec::new();
    let mut action = first;
    while !matches!(action, Action::Finished) {
        let reply = answer(&action);
        assert!(manager.accepts(&reply));
        done.push(format!("{:?}", action));
        action = manager.resume_at(reply, id, now);
    }
    assert!(manager.is_idle());
    done
}

fn handle(
    manager: &mut Manager,
    op: Operation,
    id: u128,
    answer: impl Fn(&Action) -> Reply,
) -> Vec<String> {
    let first = manager.handle(op);
    finish(manager, first, id, ms(0), answer)
}

fn ask(
    manager: &mut Manager,
    request: ProxySessionConfig,
    id: u128,
    answer: impl Fn(&Action) -> Reply,
) -> Vec<String> {
    handle(manager, Operation::HandleClient(Ok(request)), id, answer)
}

fn refusal(done: &[String]) -> Option<&String> {
    done.last().filter(|action| action.starts_with("Refuse"))
}

#[test]
fn sessions_are_named_after_target_and_core() {
    let chip = Target::Specific("chip".to_string());
    let plain = request(None, 12).target;
    assert_eq!(session_name(&chip, &plain), "chip:12");
    let bootloader = TargetConfig { bootloader: true, ..plain };
    assert_eq!(session_name(&Target::Auto, &bootloader), "AUTO:12:bl");
    let companion = TargetConfig { bootloader_companion_application: true, ..plain };
    assert_eq!(session_name(&chip, &companion), "chip:12:app");
    let both = TargetConfig { bootloader: true, bootloader_companion_application: true, ..plain };
    assert_eq!(session_name(&chip, &both), "chip:12:bl");
    let zero = TargetConfig { core: 0, ..plain };
    assert_eq!(session_name(&chip, &zero), "chip:0");
}

#[test]
fn operations_queue_up_to_eight() {
    assert_eq!(Operation::OPERATION_CHANNEL_SIZE, 8);
}

#[test]
fn first_request_opens_the_probe() {
    let mut manager = Manager::new(false);
    let done = ask(&mut manager, request(None, 0), 5, kind);
    let id = format!("{:?}", probe(1));
    assert_eq!(
        done,
        vec![
            "DropProbes([])".to_string(),
            "ListProbes".to_string(),
            format!("Setup({id}, Open)"),
            format!("Setup({id}, SelectProtocol(Swd))"),
            format!("Setup({id}, SetSpeed(4000))"),
            format!("Setup({id}, ReadVoltage)"),
            format!("Setup({id}, Attach(Specific(\"chip\")))"),
            format!("StartControl({id}, 5, \"chip:0:control\")"),
        ]
    );
    let session = manager.session(5);
    assert!(session.is_some_and(|s| s.name() == "chip:0" && s.id() == 5));
    assert!(manager.session(6).is_none());
}

#[test]
fn second_request_shares_the_probe() {
    let mut manager = Manager::new(false);
    ask(&mut manager, request(None, 0), 5, kind);
    let mut second = request(None, 1);
    second.probe.target = Target::Auto;
    let done = ask(&mut manager, second, 6, kind);
    // The probe keeps the target it was configured with at first
    let id = format!("{:?}", probe(1));
    assert_eq!(
        done,
        vec![
            "DropProbes([])".to_string(),
            "ListProbes".to_string(),
            format!("StartControl({id}, 6, \"chip:1:control\")"),
        ]
    );
    assert!(manager.session(5).is_some());
    assert!(manager.session(6).is_some());
}

#[test]
fn same_place_is_refused() {
    let mut manager = Manager::new(false);
    ask(&mut manager, request(None, 0), 5, kind);
    let done = ask(&mut manager, request(None, 0), 6, kind);
    assert_eq!(
        refusal(&done),
        Some(&"Refuse(\"An RTT session is already attached to this target's core at the same control block address and up channel\")".to_string())
    );
    assert!(manager.session(5).is_some());
    assert!(manager.session(6).is_none());
    // Another up channel is another place
    let mut other = request(None, 0);
    other.rtt.up_channel = 2;
    assert!(refusal(&ask(&mut manager, other, 7, kind)).is_none());
    assert!(manager.session(7).is_some());
}

#[test]
fn requests_are_refused_with_the_reason() {
    let mut manager = Manager::new(false);
    let refused = |manager: &mut Manager, request: ProxySessionConfig, fails: &str| {
        let done = ask(manager, request, 5, |action| {
            if format!("{:?}", action).contains(fails) {
                failed()
            } else {
                two_probes(action)
            }
        });
        refusal(&done).cloned().unwrap_or_default()
    };
    let never = "nothing of the sort";
    assert_eq!(
        refused(&mut manager, request(None, 0), never),
        "Refuse(\"A probe selector must be provided when multiple debug probes are available\")"
    );
    assert_eq!(
        refused(&mut manager, request(Some("0001:0003"), 0), never),
        "Refuse(\"No debug probe found matching the provided selector '0001:0003'\")"
    );
    assert!(refused(&mut manager, request(Some("?"), 0), never).starts_with("Refuse(\""));
    let mut odd = request(Some("0001:0001"), 0);
    odd.probe.protocol = "spi".to_string();
    assert_eq!(
        refused(&mut manager, odd, never),
        "Refuse(\"Unsupported wire protocol 'spi'. Only SWD and JTAG are supported.\")"
    );
    for fails in ["Open)", "SelectProtocol", "SetSpeed", "ReadVoltage", "Attach("] {
        assert_eq!(
            refused(&mut manager, request(Some("0001:0001"), 0), fails),
            "Refuse(\"Encountered an error with the debug probe. broken\")"
        );
    }
    assert_eq!(
        refused(&mut manager, request(Some("0001:0001"), 0), "StartControl"),
        "Refuse(\"Manager IO error. broken\")"
    );
    assert!(manager.session(5).is_none());
    let none = ask(&mut manager, request(None, 0), 5, |action| match action {
        Action::ListProbes => Reply::Probes(Vec::new()),
        other => kind(other),
    });
    assert_eq!(refusal(&none), Some(&"Refuse(\"No debug probes available\")".to_string()));
    let off = ask(&mut manager, request(Some("0001:0001"), 0), 5, |action| match action {
        Action::Setup(_, SetupCommand::ReadVoltage) => Reply::Powered(false),
        other => two_probes(other),
    });
    assert_eq!(
        refusal(&off),
        Some(&"Refuse(\"Target not powered (VTref less than threshold)\")".to_string())
    );
}

#[test]
fn nonsense_is_refused_with_its_error() {
    let mut manager = Manager::new(false);
    let nonsense = Operation::HandleClient(Err("expected value".to_string()));
    let done = handle(&mut manager, nonsense, 5, kind);
    assert_eq!(done, vec!["Refuse(\"expected value\")"]);
}

#[test]
fn probe_without_sessions_is_pruned() {
    let mut manager = Manager::new(false);
    ask(&mut manager, request(None, 0), 5, kind);
    let done = handle(&mut manager, Operation::ShutdownSession(5), 0, kind);
    let id = format!("{:?}", probe(1));
    assert_eq!(done.last(), Some(&format!("DropProbes([{id}])")));
    assert!(manager.session(5).is_none());
    // So the next request opens it again
    let done = ask(&mut manager, request(None, 0), 6, kind);
    assert!(done.contains(&format!("Setup({id}, Open)")));
}

#[test]
fn probe_of_a_failed_request_is_pruned_by_the_next_one() {
    let mut manager = Manager::new(false);
    let done = ask(&mut manager, request(None, 0), 5, |action| match action {
        Action::StartControl(..) => failed(),
        other => kind(other),
    });
    assert!(refusal(&done).is_some());
    let done = ask(&mut manager, request(None, 0), 6, kind);
    let id = format!("{:?}", probe(1));
    assert_eq!(done[0], format!("DropProbes([{id}])"));
    assert!(manager.session(6).is_some());
}

#[test]
fn probe_with_other_sessions_is_kept() {
    let mut manager = Manager::new(false);
    ask(&mut manager, request(None, 0), 5, kind);
    ask(&mut manager, request(None, 1), 6, kind);
    let done = handle(&mut manager, Operation::ShutdownSession(5), 0, kind);
    assert_eq!(done.last(), Some(&"DropProbes([])".to_string()));
    assert!(manager.session(6).is_some());
}

#[test]
fn unknown_session_only_prunes() {
    let mut manager = Manager::new(false);
    let done = handle(&mut manager, Operation::ShutdownSession(5), 0, kind);
    assert_eq!(done, vec!["DropProbes([])"]);
}

#[test]
fn exclusive_request_ends_the_other_sessions() {
    let mut manager = Manager::new(false);
    ask(&mut manager, request(Some("0001:0001"), 0), 5, two_probes);
    ask(&mut manager, request(Some("0001:0001"), 1), 6, two_probes);
    ask(&mut manager, request(Some("0001:0002"), 0), 7, two_probes);
    let done = ask(&mut manager, exclusive(Some("0001:0001"), 0), 8, two_probes);
    let id = format!("{:?}", probe(1));
    assert!(done.contains(&format!("Probe({id}, DropSession(5))")));
    assert!(done.contains(&format!("Probe({id}, DropSession(6))")));
    assert!(done.contains(&format!("DropProbes([{id}])")));
    assert!(done.contains(&format!("Setup({id}, Open)")));
    assert!(manager.session(5).is_none());
    assert!(manager.session(6).is_none());
    assert!(manager.session(7).is_some());
    assert!(manager.session(8).is_some());
}

#[test]
fn exclusive_request_closes_the_streams_on_a_lost_probe() {
    let mut manager = Manager::new(false);
    ask(&mut manager, request(None, 0), 5, kind);
    ask(&mut manager, request(None, 1), 6, kind);
    let first = manager.service_probes_at(ms(1));
    finish(&mut manager, first, 0, ms(1), |action| match action {
        Action::Probe(_, ProbeAction::Session(..)) => failed(),
        other => kind(other),
    });
    let done = ask(&mut manager, exclusive(None, 0), 8, kind);
    let id = format!("{:?}", probe(1));
    assert_eq!(
        done[2..7],
        [
            format!("Probe({id}, Session(5, CloseStream))"),
            format!("Probe({id}, DropSession(5))"),
            format!("Probe({id}, Session(6, CloseStream))"),
            format!("Probe({id}, DropSession(6))"),
            format!("DropProbes([{id}])"),
        ]
    );
    assert!(manager.session(8).is_some());
}

#[test]
fn selector_need_not_give_the_serial_number() {
    let mut manager = Manager::new(false);
    let listed = |action: &Action| match action {
        Action::ListProbes => Reply::Probes(vec![
            probe(1),
            ProbeId { vendor_id: 1, product_id: 2, serial_number: Some("S".to_string()) },
        ]),
        other => kind(other),
    };
    ask(&mut manager, request(Some("0001:0002"), 0), 5, listed);
    assert!(manager.session(5).is_some());
}

#[test]
fn exclusive_request_for_a_free_probe_just_opens_it() {
    let mut manager = Manager::new(false);
    let done = ask(&mut manager, exclusive(None, 0), 5, kind);
    assert_eq!(done.len(), 8);
    assert!(manager.session(5).is_some());
}

#[test]
fn every_probe_has_its_turn() {
    let mut manager = Manager::new(true);
    ask(&mut manager, request(Some("0001:0001"), 0), 5, two_probes);
    ask(&mut manager, request(Some("0001:0002"), 0), 7, two_probes);
    let first = manager.service_probes_at(ms(1));
    let done = finish(&mut manager, first, 0, ms(1), two_probes);
    let one = format!("{:?}", probe(1));
    let two = format!("{:?}", probe(2));
    assert_eq!(done[0], format!("Probe({one}, Session(5, AttachCore(0)))"));
    assert!(done.contains(&format!("Probe({two}, Session(7, AttachCore(0)))")));
    assert_eq!(manager.session(5).map(|s| s.state().display()), Some("RTT_ATTACH".to_string()));
    assert_eq!(manager.session(7).map(|s| s.state().display()), Some("RTT_ATTACH".to_string()));
}

#[test]
fn request_for_a_lost_probe_is_refused() {
    let mut manager = Manager::new(false);
    ask(&mut manager, request(None, 0), 5, kind);
    let first = manager.service_probes_at(ms(1));
    finish(&mut manager, first, 0, ms(1), |action| match action {
        Action::Probe(_, ProbeAction::Session(..)) => failed(),
        other => kind(other),
    });
    let done = ask(&mut manager, request(None, 1), 6, kind);
    assert_eq!(
        refusal(&done),
        Some(&"Refuse(\"The debug probe is currently in recovery mode\")".to_string())
    );
    assert!(manager.session(6).is_none());
    // It is admitted once the probe is there again
    let first = manager.service_probes_at(ms(2));
    finish(&mut manager, first, 0, ms(2), kind);
    assert!(refusal(&ask(&mut manager, request(None, 1), 7, kind)).is_none());
    assert!(manager.session(7).is_some());
}

#[test]
fn shutdown_lets_go_of_everything() {
    let mut manager = Manager::new(false);
    ask(&mut manager, request(Some("0001:0001"), 0), 5, two_probes);
    ask(&mut manager, request(Some("0001:0002"), 0), 7, two_probes);
    let done = handle(&mut manager, Operation::Shutdown, 0, two_probes);
    let one = format!("{:?}", probe(1));
    let two = format!("{:?}", probe(2));
    assert!(done.contains(&format!("Probe({one}, DropSession(5))")));
    assert!(done.contains(&format!("DropProbes([{one}])")));
    assert!(done.contains(&format!("Probe({two}, DropSession(7))")));
    assert_eq!(done.last(), Some(&format!("DropProbes([{two}])")));
    assert!(manager.session(5).is_none());
    assert!(manager.session(7).is_none());
    assert!(matches!(manager.shutdown(), Action::Finished));
}

#[test]
fn orders_take_a_bounded_number_of_answers() {
    let mut manager = Manager::new(false);
    assert!(ask(&mut manager, request(Some("0001:0001"), 0), 5, two_probes).len() <= 10);
    // One probe with one session is there now
    let asked = ask(&mut manager, exclusive(Some("0001:0001"), 0), 6, two_probes);
    assert!(asked.len() <= 10 + 3 + 9);
    for round in 0..4 {
        let now = ms(round * 1000);
        let first = manager.service_probes_at(now);
        assert!(finish(&mut manager, first, 0, now, two_probes).len() <= 23);
    }
    let done = handle(&mut manager, Operation::ShutdownSession(6), 0, two_probes);
    assert!(done.len() <= 9);
}

#[test]
fn new_sessions_get_random_ids() {
    let mut manager = Manager::new(false);
    let mut ids: Vec<u128> = Vec::new();
    for core in 0..4 {
        let mut action = manager.handle_new_session_req(request(None, core));
        while !matches!(action, Action::Finished) {
            if let Action::StartControl(_, id, _) = &action {
                ids.push(*id);
            }
            let reply = kind(&action);
            action = manager.resume(reply);
        }
    }
    assert_eq!(ids.len(), 4);
    for (i, id) in ids.iter().enumerate() {
        assert!(manager.session(*id).is_some());
        // The bits of a random UUID
        assert_eq!((id >> 76) & 0xf, 4);
        assert_eq!((id >> 62) & 0x3, 2);
        assert!(!ids[..i].contains(id));
    }
}

#[test]
fn only_fitting_answers_go_on() {
    let mut manager = Manager::new(false);
    let action = manager.handle_new_session_req(request(None, 0));
    assert!(matches!(action, Action::DropProbes(ids) if ids.is_empty()));
    assert!(!manager.is_idle());
    assert!(matches!(manager.resume(Reply::Done), Action::ListProbes));
    assert!(!manager.accepts(&Reply::Done));
    assert!(!manager.accepts(&failed()));
    assert!(manager.accepts(&Reply::Probes(Vec::new())));
}

#[test]
fn idle_manager_services_nothing() {
    let mut manager = Manager::new(false);
    assert!(matches!(manager.service_probes(), Action::Finished));
    assert!(matches!(manager.shutdown_session(3), Action::DropProbes(_)));
    assert!(matches!(manager.resume(Reply::Done), Action::Finished));
}
