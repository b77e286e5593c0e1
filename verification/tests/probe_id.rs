use trc_rtt_proxy::manager_error::ManagerError;
use trc_rtt_proxy::probe_id::{choose_probe, find_probe_info, ProbeId};
use trc_rtt_proxy::protocol::{ProbeConfig, Target};

fn probe(vendor_id: u16, product_id: u16, serial: Option<&str>) -> ProbeId {
    ProbeId { vendor_id, product_id, serial_number: serial.map(|s| s.to_string()) }
}

fn config(selector: Option<&str>) -> ProbeConfig {
    ProbeConfig {
        probe_selector: selector.map(|s| s.to_string()),
        protocol: "swd".to_string(),
        speed_khz: 4000,
        target: Target::Auto,
        attach_under_reset: false,
        force_exclusive: false,
    }
}

#[test]
fn probes_in_writing() {
    assert_eq!(probe(0x1366, 0x0101, None).display(), "1366:0101");
    assert_eq!(probe(0xc251, 0xf, Some("12345678")).display(), "c251:000f:12345678");
    assert_eq!(probe(0xabcd, 0xef09, Some("")).display(), "abcd:ef09:");
}

#[test]
fn probes_are_told_apart() {
    let a = probe(1, 2, Some("x"));
    assert!(a.same(&a.duplicate()));
    assert_eq!(a, a.duplicate());
    assert!(!a.same(&probe(3, 2, Some("x"))));
    assert!(!a.same(&probe(1, 3, Some("x"))));
    assert!(!a.same(&probe(1, 2, Some("y"))));
    assert!(!a.same(&probe(1, 2, None)));
    assert!(probe(1, 2, None).same(&probe(1, 2, None)));
}

#[test]
fn selector_names_the_probe() {
    let available = vec![
        probe(0x1366, 0x0101, Some("A")),
        probe(0x1366, 0x0101, Some("B")),
        probe(0x1366, 0x0101, Some("B")),
        probe(0x0483, 0x374b, None),
    ];
    let chosen = find_probe_info(&config(Some("1366:0101:B")), &available);
    assert!(matches!(chosen, Ok(1)));
    let chosen = find_probe_info(&config(Some("0483:374b")), &available);
    assert!(matches!(chosen, Ok(3)));
}

#[test]
fn selector_without_a_match_is_refused() {
    let available = vec![probe(0x1366, 0x0101, Some("A"))];
    let chosen = find_probe_info(&config(Some("1366:0101:Z")), &available);
    let Err(error) = chosen else { panic!("there is no such probe") };
    let wanted = probe(0x1366, 0x0101, Some("Z"));
    assert!(matches!(&error, ManagerError::ProbeNotFound(id) if id.same(&wanted)));
    assert_eq!(
        error.display(),
        "No debug probe found matching the provided selector '1366:0101:Z'"
    );
    // A serial number in the selector does not name a probe that has none
    let nameless = vec![probe(0x1366, 0x0101, None)];
    let chosen = find_probe_info(&config(Some("1366:0101:A")), &nameless);
    assert!(matches!(chosen, Err(ManagerError::ProbeNotFound(_))));
    // Another product is another probe
    let chosen = find_probe_info(&config(Some("1366:0102")), &available);
    assert!(matches!(chosen, Err(ManagerError::ProbeNotFound(_))));
}

#[test]
fn selector_without_a_serial_number_names_any_probe_of_that_kind() {
    let available = vec![
        probe(0x0483, 0x374b, None),
        probe(0x1366, 0x0101, Some("A")),
        probe(0x1366, 0x0101, None),
    ];
    let chosen = find_probe_info(&config(Some("1366:0101")), &available);
    assert!(matches!(chosen, Ok(1)));
    let selector = probe(0x1366, 0x0101, None);
    assert!(selector.names(&available[1]));
    assert!(selector.names(&available[2]));
    assert!(!selector.names(&available[0]));
    assert!(!probe(0x1366, 0x0101, Some("B")).names(&available[1]));
}

#[test]
fn selector_that_is_none_is_refused() {
    let available = vec![probe(0x1366, 0x0101, None)];
    let chosen = find_probe_info(&config(Some("not a probe")), &available);
    let Err(error) = chosen else { panic!("that is no selector") };
    assert!(matches!(&error, ManagerError::DebugProbeSelector(_)));
    assert_ne!(error.display(), "");
    assert_ne!(error.display(), "not a probe");
}

#[test]
fn single_probe_needs_no_selector() {
    let one = vec![probe(0x1366, 0x0101, None)];
    assert!(matches!(find_probe_info(&config(None), &one), Ok(0)));
    let two = vec![probe(0x1366, 0x0101, None), probe(0x1366, 0x0102, None)];
    assert!(matches!(find_probe_info(&config(None), &two), Err(ManagerError::NoProbeSelector)));
    let none: Vec<ProbeId> = Vec::new();
    assert!(matches!(
        find_probe_info(&config(None), &none),
        Err(ManagerError::NoProbesAvailable)
    ));
}

#[test]
fn choice_goes_by_what_the_selector_says() {
    let available = vec![probe(1, 1, None), probe(2, 2, Some("s")), probe(2, 2, Some("s"))];
    let chosen = choose_probe(Some(Ok(probe(2, 2, Some("s")))), &available);
    assert!(matches!(chosen, Ok(1)));
    let chosen = choose_probe(Some(Ok(probe(2, 2, None))), &available);
    assert!(matches!(chosen, Ok(1)));
    let chosen = choose_probe(Some(Ok(probe(2, 2, Some("t")))), &available);
    assert!(matches!(chosen, Err(ManagerError::ProbeNotFound(_))));
    let chosen = choose_probe(Some(Err("odd".to_string())), &available);
    assert!(matches!(chosen, Err(ManagerError::DebugProbeSelector(text)) if text == "odd"));
    assert!(matches!(choose_probe(None, &available), Err(ManagerError::NoProbeSelector)));
}

#[test]
fn refusals_in_writing() {
    let text = |s: &str| s.to_string();
    assert_eq!(ManagerError::Io(text("gone")).display(), "Manager IO error. gone");
    assert_eq!(ManagerError::DebugProbeSelector(text("bad")).display(), "bad");
    assert_eq!(ManagerError::NoProbesAvailable.display(), "No debug probes available");
    assert_eq!(
        ManagerError::NoProbeSelector.display(),
        "A probe selector must be provided when multiple debug probes are available"
    );
    assert_eq!(
        ManagerError::WireProtocol(text("spi")).display(),
        "Unsupported wire protocol 'spi'. Only SWD and JTAG are supported."
    );
    assert_eq!(
        ManagerError::Probe(text("x")).display(),
        "Encountered an error with the debug probe. x"
    );
    assert_eq!(
        ManagerError::DebugProbe(text("y")).display(),
        "Encountered an error with the debug probe. y"
    );
    assert_eq!(
        ManagerError::RttSessionAlreadyStarted.display(),
        "An RTT session is already attached to this target's core at the same control block address and up channel"
    );
    assert_eq!(
        ManagerError::TargetNotPowered.display(),
        "Target not powered (VTref less than threshold)"
    );
    assert_eq!(
        ManagerError::ProbeInRecovery.display(),
        "The debug probe is currently in recovery mode"
    );
}
