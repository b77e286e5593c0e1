use trc_rtt_proxy::trc_command::TrcCommand;

#[test]
fn wire_bytes() {
    let bytes = TrcCommand::StartTracing.to_wire_bytes();
    assert_eq!(bytes, [0x01, 0x01, 0, 0, 0, 0, 0xFD, 0xFF]);
    let bytes = TrcCommand::StopTracing.to_wire_bytes();
    assert_eq!(bytes, [0x01, 0x00, 0, 0, 0, 0, 0xFE, 0xFF]);
}

#[test]
fn commands_have_names() {
    assert_eq!(TrcCommand::StartTracing.display(), "start-tracing");
    assert_eq!(TrcCommand::StopTracing.display(), "stop-tracing");
}

#[test]
fn checksum_completes_the_sum_of_the_parameters() {
    for command in [TrcCommand::StartTracing, TrcCommand::StopTracing] {
        let bytes = command.to_wire_bytes();
        assert_eq!(bytes.len(), TrcCommand::WIRE_SIZE);
        let sum: u32 = bytes[..6].iter().map(|b| u32::from(*b)).sum();
        let checksum = u32::from(u16::from_le_bytes([bytes[6], bytes[7]]));
        assert_eq!(sum + checksum, 0xFFFF);
    }
}

#[test]
fn commands_differ_on_the_wire() {
    assert_ne!(
        TrcCommand::StartTracing.to_wire_bytes(),
        TrcCommand::StopTracing.to_wire_bytes()
    );
}
