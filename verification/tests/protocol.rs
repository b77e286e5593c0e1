use trc_rtt_proxy::protocol::{
    ProxySessionControl, ProxySessionStatus, RttConfig, Target, V1,
};

#[test]
fn status_reports_start_and_error() {
    assert_eq!(ProxySessionStatus::session_started(7), ProxySessionStatus::Started(7));
    assert_eq!(
        ProxySessionStatus::error("no".to_string()),
        ProxySessionStatus::Error("no".to_string())
    );
}

#[test]
fn targets_have_names() {
    assert_eq!(Target::Auto.display(), "AUTO");
    assert_eq!(Target::Specific("STM32F407VE".to_string()).display(), "STM32F407VE");
    let specific = Target::Specific("nrf52840".to_string());
    assert_eq!(specific.duplicate(), specific);
    assert_eq!(Target::Auto.duplicate(), Target::Auto);
}

#[test]
fn rtt_defaults() {
    let cfg = RttConfig::default();
    assert_eq!(cfg.attach_timeout_ms, None);
    assert_eq!(cfg.setup_on_breakpoint_address, None);
    assert_eq!(cfg.stop_on_breakpoint_address, None);
    assert_eq!(cfg.no_data_stop_timeout_ms, None);
    assert_eq!(cfg.control_block_address, None);
    assert_eq!(cfg.up_channel, 1);
    assert_eq!(cfg.down_channel, 1);
    assert!(!cfg.disable_control_plane);
    assert!(!cfg.restart);
    assert_eq!(cfg.rtt_read_buffer_size, 1024);
    assert_eq!(cfg.rtt_poll_interval_ms, 1);
    assert_eq!(cfg.rtt_idle_poll_interval_ms, 100);
}

#[test]
fn the_protocol_has_one_version_and_one_control_message() {
    assert_eq!(V1, 1);
    assert!(matches!(ProxySessionControl::Shutdown(9), ProxySessionControl::Shutdown(9)));
}
