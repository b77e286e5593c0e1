use trc_rtt_proxy::clock::{Interval, Stopwatch};
use trc_rtt_proxy::command::{Command, Reply, ScanRegion};
use trc_rtt_proxy::protocol::{RttConfig, TargetConfig};
use trc_rtt_proxy::rtt_session::{control_thread_name, RttSession};
use trc_rtt_proxy::session_types::{
    Error, RttFault, RttHandles, RttSessionState, StoppedReason,
};
use trc_rtt_proxy::shared_state::SharedState;
use trc_rtt_proxy::target::{CoreStatus, HaltReason, RegisterValue};
use trc_rtt_proxy::trc_command::TrcCommand;

const ID: u128 = 77;

fn ms(millis: u64) -> Interval {
    Interval::from_millis(millis)
}

fn target() -> TargetConfig {
    TargetConfig {
        auto_recover: false,
        core: 3,
        reset: false,
        bootloader: false,
        bootloader_companion_application: false,
    }
}

fn session(target: TargetConfig, rtt: RttConfig) -> RttSession {
    RttSession::new(ID, "chip:3".to_string(), target, rtt, false, Stopwatch::start(), ms(0))
}

fn failed() -> Reply {
    Reply::Failed(RttFault::Other("broken".to_string()))
}

/// The answer of a world in which all goes well.
fn kind(command: &Command) -> Reply {
    match command {
        Command::ReadStatus => Reply::Status(CoreStatus::Running),
        Command::ReadStackPointer => Reply::Register(RegisterValue::U32(0x2000_0000)),
        Command::ReadProgramCounter => Reply::Register(RegisterValue::U32(0x0800_0100)),
        Command::AttachRtt(_) => Reply::Attached(0x2000_1000, 3, 3),
        Command::ReadUp => Reply::Read(0),
        _ => Reply::Done,
    }
}

/// Goes through the rest of a turn and lists what was done.
fn finish(
    session: &mut RttSession,
    shared: &mut SharedState,
    first: Command,
    now: Interval,
    answer: impl Fn(&Command) -> Reply,
) -> Vec<Command> {
    let mut done = Vec::new();
    let mut command = first;
    while command != Command::EndTurn {
        let reply = answer(&command);
        assert!(session.accepts(&reply));
        done.push(command);
        command = session.resume_at(shared, reply, now);
    }
    assert!(session.is_idle());
    done
}

/// One turn of the session.
fn turn(
    session: &mut RttSession,
    shared: &mut SharedState,
    now: Interval,
    answer: impl Fn(&Command) -> Reply,
) -> Vec<Command> {
    let first = session.update_at(shared, now);
    finish(session, shared, first, now, answer)
}

/// A session that runs.
fn running(target: TargetConfig, rtt: RttConfig, shared: &mut SharedState) -> RttSession {
    let mut session = session(target, rtt);
    turn(&mut session, shared, ms(0), kind);
    turn(&mut session, shared, ms(0), kind);
    assert!(session.is_running());
    session
}

#[test]
fn new_session_waits_in_init() {
    let session = session(target(), RttConfig::default());
    assert_eq!(session.id(), ID);
    assert_eq!(session.name(), "chip:3");
    assert_eq!(*session.target_config(), target());
    assert_eq!(*session.rtt_config(), RttConfig::default());
    assert_eq!(session.buffer_size(), 1024);
    assert!(matches!(session.state(), RttSessionState::Init));
    assert!(session.is_idle());
    assert!(!session.is_shutdown());
    assert!(!session.is_running());
    assert!(!session.is_stopped());
    assert!(!session.is_stopped_due_to_core_attach());
}

#[test]
fn small_buffers_are_not_used() {
    let rtt = RttConfig { rtt_read_buffer_size: 63, ..RttConfig::default() };
    assert_eq!(session(target(), rtt).buffer_size(), 1024);
    let rtt = RttConfig { rtt_read_buffer_size: 64, ..RttConfig::default() };
    assert_eq!(session(target(), rtt).buffer_size(), 64);
}

#[test]
fn control_thread_is_named_after_the_session() {
    assert_eq!(control_thread_name(&"chip:3".to_string()), "chip:3:control");
}

#[test]
fn core_setup_with_all_its_parts() {
    let target = TargetConfig { reset: true, bootloader: true, ..target() };
    let rtt = RttConfig { stop_on_breakpoint_address: Some(0x100), ..RttConfig::default() };
    let mut session = session(target, rtt);
    let mut shared = SharedState::new_rc();
    let done = turn(&mut session, &mut shared, ms(5), kind);
    assert_eq!(
        done,
        vec![
            Command::AttachCore(3),
            Command::ReadStatus,
            Command::ResetAndHalt(100),
            Command::ReadStackPointer,
            Command::ReadProgramCounter,
            Command::DisableVectorCatch,
            Command::ClearAllBreakpoints,
            Command::EnableVectorCatch,
            Command::ReadStackPointer,
            Command::ReadProgramCounter,
            Command::Run,
            Command::ReadStatus,
            Command::CountBreakpoints,
            Command::SetBreakpoint(0x100),
        ]
    );
    assert!(matches!(session.state(), RttSessionState::RttAttach(at) if *at == ms(5)));
    assert_eq!(
        shared,
        SharedState { clear_vector_catch_and_breakpoints: 1, vector_catch_enabled: 1 }
    );
}

#[test]
fn core_setup_with_none_of_its_parts() {
    let mut session = session(target(), RttConfig::default());
    let mut shared =
        SharedState { clear_vector_catch_and_breakpoints: 2, vector_catch_enabled: 2 };
    let done = turn(&mut session, &mut shared, ms(0), kind);
    assert_eq!(
        done,
        vec![Command::AttachCore(3), Command::ReadStatus, Command::ReadStatus]
    );
    assert_eq!(
        shared,
        SharedState { clear_vector_catch_and_breakpoints: 3, vector_catch_enabled: 2 }
    );
}

#[test]
fn second_session_on_a_core_does_not_enable_the_catch_again() {
    let companion = TargetConfig { bootloader_companion_application: true, ..target() };
    let mut shared =
        SharedState { clear_vector_catch_and_breakpoints: 1, vector_catch_enabled: 1 };
    let mut session = session(companion, RttConfig::default());
    let done = turn(&mut session, &mut shared, ms(0), kind);
    assert_eq!(
        done,
        vec![Command::AttachCore(3), Command::ReadStatus, Command::ReadStatus]
    );
    assert_eq!(
        shared,
        SharedState { clear_vector_catch_and_breakpoints: 1, vector_catch_enabled: 2 }
    );
}

#[test]
fn halted_core_is_started_but_not_by_a_companion() {
    let halted_first = |session: &mut RttSession, shared: &mut SharedState| {
        let mut done = Vec::new();
        let mut seen = 0;
        let mut command = session.update_at(shared, ms(0));
        while command != Command::EndTurn {
            let reply = if command == Command::ReadStatus && seen == 0 {
                seen = 1;
                Reply::Status(CoreStatus::Halted(HaltReason::Request))
            } else {
                kind(&command)
            };
            done.push(command);
            command = session.resume_at(shared, reply, ms(0));
        }
        done
    };
    let mut shared =
        SharedState { clear_vector_catch_and_breakpoints: 1, vector_catch_enabled: 1 };
    let mut plain = session(target(), RttConfig::default());
    let done = halted_first(&mut plain, &mut shared);
    assert_eq!(
        done[2..5],
        [Command::ReadStackPointer, Command::ReadProgramCounter, Command::Run]
    );
    let companion = TargetConfig { bootloader_companion_application: true, ..target() };
    let mut companion = session(companion, RttConfig::default());
    let done = halted_first(&mut companion, &mut shared);
    assert!(!done.contains(&Command::Run));
}

#[test]
fn core_that_does_not_run_shuts_the_session_down() {
    let mut session = session(target(), RttConfig::default());
    let mut shared = SharedState::new_rc();
    let done = turn(&mut session, &mut shared, ms(0), |command| match command {
        Command::ReadStatus => Reply::Status(CoreStatus::Sleeping),
        other => kind(other),
    });
    assert_eq!(done.last(), Some(&Command::CloseStream));
    assert!(session.is_shutdown());
    assert_eq!(shared, SharedState::new_rc());
}

#[test]
fn core_that_does_not_run_stops_a_session_that_recovers() {
    let recovering = TargetConfig { auto_recover: true, ..target() };
    let mut session = session(recovering, RttConfig::default());
    let mut shared = SharedState::new_rc();
    turn(&mut session, &mut shared, ms(0), |command| match command {
        Command::ReadStatus => Reply::Status(CoreStatus::LockedUp),
        other => kind(other),
    });
    assert!(matches!(
        session.state(),
        RttSessionState::Stopped(StoppedReason::Error(Error::CoreNotRunning(3)))
    ));
}

#[test]
fn attach_with_all_its_parts() {
    let rtt = RttConfig {
        restart: true,
        control_block_address: Some(0x2000_1000),
        up_channel: 2,
        down_channel: 0,
        ..RttConfig::default()
    };
    let mut session = session(target(), rtt);
    let mut shared = SharedState::new_rc();
    turn(&mut session, &mut shared, ms(0), kind);
    let done = turn(&mut session, &mut shared, ms(0), kind);
    assert_eq!(
        done,
        vec![
            Command::AttachCore(3),
            Command::AttachRtt(ScanRegion::Exact(0x2000_1000)),
            Command::OpenChannels(2, 0),
            Command::WriteDown(TrcCommand::StopTracing),
            Command::Sleep(10),
            Command::WriteDown(TrcCommand::StartTracing),
            Command::EnableVectorCatch,
            Command::SendStarted(ID),
        ]
    );
    let handles = RttHandles { control_block: 0x2000_1000, up_channel: 2, down_channel: 0 };
    assert!(matches!(session.state(), RttSessionState::Run(h) if *h == handles));
    assert_eq!(shared.vector_catch_enabled, 1);
}

#[test]
fn attach_without_control_plane() {
    let rtt = RttConfig { disable_control_plane: true, restart: true, ..RttConfig::default() };
    let mut session = session(TargetConfig { bootloader: true, ..target() }, rtt);
    let mut shared = SharedState::new_rc();
    turn(&mut session, &mut shared, ms(0), kind);
    let done = turn(&mut session, &mut shared, ms(0), kind);
    assert_eq!(
        done,
        vec![
            Command::AttachCore(3),
            Command::AttachRtt(ScanRegion::Target),
            Command::OpenChannels(1, 1),
            Command::SendStarted(ID),
        ]
    );
}

#[test]
fn client_is_told_only_once() {
    let recovering = TargetConfig { auto_recover: true, ..target() };
    let mut shared = SharedState::new_rc();
    let mut session = running(recovering, RttConfig::default(), &mut shared);
    // The core is lost, then it comes back
    turn(&mut session, &mut shared, ms(1), |_| failed());
    assert!(session.is_stopped_due_to_core_attach());
    turn(&mut session, &mut shared, ms(100), kind);
    assert!(matches!(session.state(), RttSessionState::Init));
    turn(&mut session, &mut shared, ms(200), kind);
    let done = turn(&mut session, &mut shared, ms(200), kind);
    assert!(session.is_running());
    assert!(!done.contains(&Command::SendStarted(ID)));
}

#[test]
fn client_that_cannot_be_told_ends_the_session() {
    let mut session = session(target(), RttConfig::default());
    let mut shared = SharedState::new_rc();
    turn(&mut session, &mut shared, ms(0), kind);
    turn(&mut session, &mut shared, ms(0), |command| match command {
        Command::SendStarted(_) => failed(),
        other => kind(other),
    });
    assert!(session.is_shutdown());
}

#[test]
fn missing_control_block_is_looked_for_until_the_timeout() {
    let rtt = RttConfig { attach_timeout_ms: Some(100), ..RttConfig::default() };
    let mut session = session(TargetConfig { auto_recover: true, ..target() }, rtt);
    let mut shared = SharedState::new_rc();
    turn(&mut session, &mut shared, ms(0), kind);
    let missing = |command: &Command| match command {
        Command::AttachRtt(_) => {
            Reply::Failed(RttFault::ControlBlockNotFound("none".to_string()))
        }
        other => kind(other),
    };
    let done = turn(&mut session, &mut shared, ms(10), missing);
    assert_eq!(done.len(), 2);
    assert!(matches!(session.state(), RttSessionState::RttAttach(_)));
    // The next attempt is made after a while
    assert!(turn(&mut session, &mut shared, ms(29), missing).is_empty());
    assert_eq!(turn(&mut session, &mut shared, ms(30), missing).len(), 2);
    assert_eq!(turn(&mut session, &mut shared, ms(100), missing).len(), 2);
    assert!(matches!(session.state(), RttSessionState::RttAttach(_)));
    turn(&mut session, &mut shared, ms(121), missing);
    assert!(matches!(
        session.state(),
        RttSessionState::Stopped(StoppedReason::Error(Error::Rtt(
            RttFault::ControlBlockNotFound(text)
        ))) if text == "none"
    ));
}

#[test]
fn missing_control_block_is_an_error_without_a_timeout() {
    let mut session = session(target(), RttConfig::default());
    let mut shared = SharedState::new_rc();
    turn(&mut session, &mut shared, ms(0), kind);
    turn(&mut session, &mut shared, ms(0), |command| match command {
        Command::AttachRtt(_) => {
            Reply::Failed(RttFault::ControlBlockNotFound("none".to_string()))
        }
        other => kind(other),
    });
    assert!(session.is_shutdown());
}

#[test]
fn channels_must_be_there() {
    let recovering = TargetConfig { auto_recover: true, ..target() };
    let attach = |rtt: RttConfig, up: usize, down: usize| {
        let mut session = session(recovering, rtt);
        let mut shared = SharedState::new_rc();
        turn(&mut session, &mut shared, ms(0), kind);
        turn(&mut session, &mut shared, ms(0), |command| match command {
            Command::AttachRtt(_) => Reply::Attached(0, up, down),
            other => kind(other),
        });
        session
    };
    let rtt = RttConfig { up_channel: 4, down_channel: 5, ..RttConfig::default() };
    let stopped = attach(rtt, 3, 3);
    assert!(matches!(
        stopped.state(),
        RttSessionState::Stopped(StoppedReason::Error(Error::UpChannelInvalid(4)))
    ));
    let stopped = attach(rtt, 5, 4);
    assert!(matches!(
        stopped.state(),
        RttSessionState::Stopped(StoppedReason::Error(Error::DownChannelInvalid(5)))
    ));
    // Channels are numbered from zero, so the count of them is no channel
    let stopped = attach(rtt, 4, 5);
    assert!(matches!(
        stopped.state(),
        RttSessionState::Stopped(StoppedReason::Error(Error::UpChannelInvalid(4)))
    ));
    let stopped = attach(rtt, 5, 5);
    assert!(matches!(
        stopped.state(),
        RttSessionState::Stopped(StoppedReason::Error(Error::DownChannelInvalid(5)))
    ));
    assert!(attach(rtt, 5, 6).is_running());
}

#[test]
fn only_fitting_answers_are_accepted() {
    let mut shared = SharedState::new_rc();
    let mut session = session(target(), RttConfig::default());
    turn(&mut session, &mut shared, ms(0), kind);
    session.update_at(&mut shared, ms(0));
    session.resume_at(&mut shared, Reply::Done, ms(0));
    for up in 0..3 {
        for down in 0..3 {
            assert!(session.accepts(&Reply::Attached(0, up, down)));
        }
    }
    assert!(!session.accepts(&Reply::Done));
    assert!(session.accepts(&failed()));
}

#[test]
fn data_goes_to_the_client() {
    let mut shared = SharedState::new_rc();
    let mut session = running(target(), RttConfig::default(), &mut shared);
    let done = turn(&mut session, &mut shared, ms(1), |command| match command {
        Command::ReadUp => Reply::Read(17),
        other => kind(other),
    });
    assert_eq!(
        done,
        vec![Command::AttachCore(3), Command::ReadUp, Command::WriteClient(17)]
    );
}

#[test]
fn metrics_are_logged_if_wanted() {
    let mut shared = SharedState::new_rc();
    let mut session = RttSession::new(
        ID,
        "chip:3".to_string(),
        target(),
        RttConfig::default(),
        true,
        Stopwatch::start(),
        ms(0),
    );
    turn(&mut session, &mut shared, ms(0), kind);
    turn(&mut session, &mut shared, ms(0), kind);
    let done = turn(&mut session, &mut shared, ms(1), |command| match command {
        Command::ReadUp => Reply::Read(17),
        other => kind(other),
    });
    assert!(matches!(
        done[2],
        Command::LogMetrics(update) if update.sample == Some(17) && update.report.is_none()
    ));
    assert_eq!(done[3], Command::WriteClient(17));
}

#[test]
fn reads_are_paced_by_what_came_last() {
    let mut shared = SharedState::new_rc();
    let mut session = running(target(), RttConfig::default(), &mut shared);
    let data = |command: &Command| match command {
        Command::ReadUp => Reply::Read(1),
        other => kind(other),
    };
    assert!(turn(&mut session, &mut shared, ms(10), data).contains(&Command::ReadUp));
    // With data the next read is due after a millisecond
    assert!(turn(&mut session, &mut shared, ms(11), kind).contains(&Command::ReadUp));
    // Without data it is due after the idle interval, which runs from the last idle read
    assert!(turn(&mut session, &mut shared, ms(12), kind).contains(&Command::ReadUp));
    assert!(!turn(&mut session, &mut shared, ms(111), kind).contains(&Command::ReadUp));
    assert!(turn(&mut session, &mut shared, ms(112), kind).contains(&Command::ReadUp));
}

#[test]
fn core_is_checked_from_time_to_time() {
    let mut shared = SharedState::new_rc();
    let mut session = running(target(), RttConfig::default(), &mut shared);
    let done = turn(&mut session, &mut shared, ms(10), kind);
    assert_eq!(done, vec![Command::AttachCore(3), Command::ReadUp, Command::ReadStatus]);
    let done = turn(&mut session, &mut shared, ms(59), kind);
    assert!(!done.contains(&Command::ReadStatus));
    let done = turn(&mut session, &mut shared, ms(60), kind);
    assert!(done.contains(&Command::ReadStatus));
}

#[test]
fn breakpoint_stops_the_session() {
    let rtt = RttConfig { stop_on_breakpoint_address: Some(0x0800_0100), ..RttConfig::default() };
    let mut shared = SharedState::new_rc();
    let mut session = running(target(), rtt, &mut shared);
    let done = turn(&mut session, &mut shared, ms(10), |command| match command {
        Command::ReadStatus => Reply::Status(CoreStatus::Halted(HaltReason::Breakpoint)),
        other => kind(other),
    });
    assert_eq!(
        done,
        vec![
            Command::AttachCore(3),
            Command::ReadUp,
            Command::ReadStatus,
            Command::ReadStackPointer,
            Command::ReadProgramCounter,
            Command::AttachCore(3),
            Command::DisableVectorCatch,
            Command::WriteDown(TrcCommand::StopTracing),
            Command::ClearBreakpoint(0x0800_0100),
            Command::Run,
        ]
    );
    assert!(matches!(
        session.state(),
        RttSessionState::Stopped(StoppedReason::Breakpoint(0x0800_0100))
    ));
    assert_eq!(shared, SharedState::new_rc());
    // It may not recover, so it stays
    assert!(turn(&mut session, &mut shared, ms(1000), kind).is_empty());
    assert!(session.is_stopped());
}

#[test]
fn other_halts_count_as_reset() {
    let stops = |status: CoreStatus| {
        let mut shared = SharedState::new_rc();
        let mut session = running(target(), RttConfig::default(), &mut shared);
        turn(&mut session, &mut shared, ms(10), |command| match command {
            Command::ReadStatus => Reply::Status(status),
            other => kind(other),
        });
        session
    };
    for reason in [HaltReason::Exception, HaltReason::Watchpoint, HaltReason::Unknown] {
        let session = stops(CoreStatus::Halted(reason));
        assert!(matches!(
            session.state(),
            RttSessionState::Stopped(StoppedReason::ResetCatch)
        ));
    }
    for status in [CoreStatus::LockedUp, CoreStatus::Sleeping, CoreStatus::Unknown] {
        let session = stops(status);
        assert!(matches!(
            session.state(),
            RttSessionState::Stopped(StoppedReason::ResetCatch)
        ));
    }
    assert!(stops(CoreStatus::Running).is_running());
}

#[test]
fn addresses_are_the_low_bits_of_registers() {
    assert_eq!(RegisterValue::U32(7).address(), 7);
    assert_eq!(RegisterValue::U64(u64::MAX).address(), u64::MAX);
    assert_eq!(RegisterValue::U128((5 << 64) + 9).address(), 9);
}

#[test]
fn client_that_is_gone_ends_the_session() {
    let recovering = TargetConfig { auto_recover: true, ..target() };
    let mut shared = SharedState::new_rc();
    let mut session = running(recovering, RttConfig::default(), &mut shared);
    let done = turn(&mut session, &mut shared, ms(1), |command| match command {
        Command::ReadUp => Reply::Read(5),
        Command::WriteClient(_) => failed(),
        other => kind(other),
    });
    assert_eq!(done.last(), Some(&Command::CloseStream));
    assert!(session.is_shutdown());
}

#[test]
fn failures_have_their_own_errors() {
    let stopped_by = |fails: Command, from_running: bool| {
        let recovering = TargetConfig { auto_recover: true, reset: true, ..target() };
        let mut shared = SharedState::new_rc();
        let mut session = if from_running {
            running(recovering, RttConfig::default(), &mut shared)
        } else {
            session(recovering, RttConfig::default())
        };
        // The core cannot be reached any more once something has failed
        turn(&mut session, &mut shared, ms(10), |command| {
            if *command == fails {
                failed()
            } else {
                kind(command)
            }
        });
        match session.state() {
            RttSessionState::Stopped(StoppedReason::Error(error)) => error.display(),
            other => other.display(),
        }
    };
    assert_eq!(stopped_by(Command::AttachCore(3), false), "Failed to attach core. broken");
    assert_eq!(stopped_by(Command::ReadStatus, false), "Core status check failed. broken");
    assert_eq!(
        stopped_by(Command::ResetAndHalt(100), false),
        "Encountered an error with the debug probe. broken"
    );
    assert_eq!(
        stopped_by(Command::ReadUp, true),
        "Encountered an RTT operation error. broken"
    );
}

#[test]
fn errors_in_writing() {
    let text = || "x".to_string();
    assert_eq!(Error::Io(text()).display(), "RTT session IO error. x");
    assert_eq!(Error::ResponseJson(text()).display(), "RTT session JSON response error. x");
    assert_eq!(
        Error::Rtt(RttFault::ControlBlockNotFound(text())).display(),
        "Encountered an RTT operation error. x"
    );
    assert_eq!(Error::DownChannelInvalid(12).display(), "The RTT down channel (12) is invalid");
    assert_eq!(Error::UpChannelInvalid(0).display(), "The RTT up channel (0) is invalid");
    assert_eq!(Error::CoreNotRunning(10).display(), "The core (10) isn't running");
    assert_eq!(Error::ClientDisconnected.display(), "Client disconnected");
    assert_eq!(RttFault::Other(text()).into_message(), "x");
}

#[test]
fn states_in_writing() {
    assert_eq!(RttSessionState::Init.display(), "INIT");
    assert_eq!(RttSessionState::RttAttach(ms(1)).display(), "RTT_ATTACH");
    let handles = RttHandles { control_block: 0x2000_0ABC, up_channel: 1, down_channel: 1 };
    assert_eq!(RttSessionState::Run(handles).display(), "RUN(cb = 0x20000ABC)");
    assert_eq!(RttSessionState::Shutdown.display(), "SHUTDOWN");
    let stopped = |reason: StoppedReason| RttSessionState::Stopped(reason).display();
    assert_eq!(stopped(StoppedReason::Shutdown), "STOPPED(shutdown)");
    assert_eq!(stopped(StoppedReason::Error(Error::ClientDisconnected)), "STOPPED(error)");
    assert_eq!(stopped(StoppedReason::ResetCatch), "STOPPED(reset)");
    assert_eq!(stopped(StoppedReason::NoData), "STOPPED(no-data)");
    assert_eq!(stopped(StoppedReason::Breakpoint(0xdeadbeef)), "STOPPED(breakpoint=0xDEADBEEF)");
    assert_eq!(stopped(StoppedReason::Breakpoint(0)), "STOPPED(breakpoint=0x0)");
}

#[test]
fn shutdown_is_for_good() {
    let mut shared = SharedState::new_rc();
    let recovering = TargetConfig { auto_recover: true, ..target() };
    let mut session = running(recovering, RttConfig::default(), &mut shared);
    let first = session.shutdown(&mut shared);
    let done = finish(&mut session, &mut shared, first, ms(5), kind);
    assert_eq!(
        done,
        vec![
            Command::AttachCore(3),
            Command::DisableVectorCatch,
            Command::WriteDown(TrcCommand::StopTracing),
            Command::CloseStream,
        ]
    );
    assert!(session.is_shutdown());
    // It has given back all that it took
    assert_eq!(shared, SharedState::new_rc());
    assert!(turn(&mut session, &mut shared, ms(1000), kind).is_empty());
    assert_eq!(session.shutdown(&mut shared), Command::EndTurn);
    assert!(session.is_shutdown());
}

#[test]
fn shutdown_goes_through_even_if_the_core_is_gone() {
    let mut shared =
        SharedState { clear_vector_catch_and_breakpoints: 0, vector_catch_enabled: 1 };
    let mut session = running(target(), RttConfig::default(), &mut shared);
    assert_eq!(shared.vector_catch_enabled, 2);
    let first = session.shutdown(&mut shared);
    let done = finish(&mut session, &mut shared, first, ms(5), |_| failed());
    assert_eq!(done, vec![Command::AttachCore(3), Command::CloseStream]);
    assert!(session.is_shutdown());
    assert_eq!(shared.vector_catch_enabled, 1);
}

#[test]
fn stopped_session_recovers_at_intervals() {
    let recovering = TargetConfig { auto_recover: true, ..target() };
    let mut shared = SharedState::new_rc();
    let mut session = running(recovering, RttConfig::default(), &mut shared);
    turn(&mut session, &mut shared, ms(1), |_| failed());
    assert!(session.is_stopped_due_to_core_attach());
    assert_eq!(turn(&mut session, &mut shared, ms(10), |_| failed()), vec![Command::AttachCore(3)]);
    assert!(turn(&mut session, &mut shared, ms(59), kind).is_empty());
    let no_status = |command: &Command| match command {
        Command::ReadStatus => failed(),
        other => kind(other),
    };
    let done = turn(&mut session, &mut shared, ms(60), no_status);
    assert_eq!(done, vec![Command::AttachCore(3), Command::ReadStatus]);
    assert!(session.is_stopped());
    turn(&mut session, &mut shared, ms(110), kind);
    assert!(matches!(session.state(), RttSessionState::Init));
}

#[test]
fn companion_does_not_drive_the_core() {
    let companion = TargetConfig {
        bootloader_companion_application: true,
        reset: true,
        ..target()
    };
    let rtt = RttConfig {
        setup_on_breakpoint_address: Some(0x100),
        stop_on_breakpoint_address: Some(0x200),
        ..RttConfig::default()
    };
    let mut shared = SharedState::new_rc();
    let mut session = session(companion, rtt);
    let done = turn(&mut session, &mut shared, ms(0), kind);
    assert_eq!(
        done,
        vec![
            Command::AttachCore(3),
            Command::ReadStatus,
            Command::EnableVectorCatch,
            Command::ReadStatus,
        ]
    );
    assert_eq!(
        shared,
        SharedState { clear_vector_catch_and_breakpoints: 0, vector_catch_enabled: 1 }
    );
    let done = turn(&mut session, &mut shared, ms(0), kind);
    assert_eq!(
        done,
        vec![
            Command::AttachCore(3),
            Command::AttachRtt(ScanRegion::Target),
            Command::OpenChannels(1, 1),
            Command::WriteDown(TrcCommand::StartTracing),
            Command::SendStarted(ID),
        ]
    );
    // Only a core whose reset it has caught is let run on
    let done = turn(&mut session, &mut shared, ms(10), |command| match command {
        Command::ReadStatus => Reply::Status(CoreStatus::Halted(HaltReason::Exception)),
        other => kind(other),
    });
    assert_eq!(
        done[5..],
        [
            Command::AttachCore(3),
            Command::DisableVectorCatch,
            Command::WriteDown(TrcCommand::StopTracing),
            Command::Run,
        ]
    );
    assert!(matches!(session.state(), RttSessionState::Stopped(StoppedReason::ResetCatch)));
    assert_eq!(shared, SharedState::new_rc());
}

#[test]
fn channel_mode_is_set_up_at_its_breakpoint() {
    let rtt = RttConfig { setup_on_breakpoint_address: Some(0x400), ..RttConfig::default() };
    let mut shared = SharedState::new_rc();
    let mut session = session(target(), rtt);
    let done = turn(&mut session, &mut shared, ms(0), kind);
    assert_eq!(
        done[done.len() - 2..],
        [Command::CountBreakpoints, Command::SetBreakpoint(0x400)]
    );
    let done = turn(&mut session, &mut shared, ms(0), |command| match command {
        Command::ReadStatus => Reply::Status(CoreStatus::Halted(HaltReason::Breakpoint)),
        other => kind(other),
    });
    assert_eq!(
        done,
        vec![
            Command::AttachCore(3),
            Command::AttachRtt(ScanRegion::Target),
            Command::OpenChannels(1, 1),
            Command::SetBlockIfFull,
            Command::ClearBreakpoint(0x400),
            Command::ReadStatus,
            Command::Run,
            Command::WriteDown(TrcCommand::StartTracing),
            Command::EnableVectorCatch,
            Command::SendStarted(ID),
        ]
    );
    assert!(session.is_running());
    // The breakpoint is gone, so it need not be cleared again
    let first = session.shutdown(&mut shared);
    let done = finish(&mut session, &mut shared, first, ms(1), kind);
    assert!(!done.contains(&Command::ClearBreakpoint(0x400)));
}

#[test]
fn running_core_is_not_started_after_the_mode_is_set_up() {
    let rtt = RttConfig {
        setup_on_breakpoint_address: Some(0x400),
        stop_on_breakpoint_address: Some(0x500),
        ..RttConfig::default()
    };
    let mut shared = SharedState::new_rc();
    let mut session = session(target(), rtt);
    let done = turn(&mut session, &mut shared, ms(0), kind);
    assert_eq!(
        done[done.len() - 3..],
        [
            Command::CountBreakpoints,
            Command::SetBreakpoint(0x500),
            Command::SetBreakpoint(0x400),
        ]
    );
    let done = turn(&mut session, &mut shared, ms(0), kind);
    assert!(done.contains(&Command::SetBlockIfFull));
    assert!(!done.contains(&Command::Run));
    assert!(session.is_running());
}

#[test]
fn breakpoints_are_cleared_by_a_session_that_never_ran() {
    let rtt = RttConfig {
        setup_on_breakpoint_address: Some(0x400),
        stop_on_breakpoint_address: Some(0x500),
        ..RttConfig::default()
    };
    let mut shared = SharedState::new_rc();
    let mut session = session(target(), rtt);
    turn(&mut session, &mut shared, ms(0), kind);
    let first = session.shutdown(&mut shared);
    let done = finish(&mut session, &mut shared, first, ms(1), kind);
    assert_eq!(
        done,
        vec![
            Command::AttachCore(3),
            Command::ReadStatus,
            Command::DisableVectorCatch,
            Command::ClearBreakpoint(0x400),
            Command::ClearBreakpoint(0x500),
            Command::CloseStream,
        ]
    );
}

#[test]
fn core_that_waits_for_its_channel_mode_is_let_run() {
    let rtt = RttConfig { setup_on_breakpoint_address: Some(0x400), ..RttConfig::default() };
    let shut_down = |status: Reply| {
        let mut shared = SharedState::new_rc();
        let mut session = session(target(), rtt);
        turn(&mut session, &mut shared, ms(0), kind);
        assert_eq!(session.shutdown(&mut shared), Command::AttachCore(3));
        assert_eq!(session.resume_at(&mut shared, Reply::Done, ms(1)), Command::ReadStatus);
        assert!(!session.accepts(&Reply::Done));
        assert!(session.accepts(&status));
        let next = session.resume_at(&mut shared, status, ms(1));
        finish(&mut session, &mut shared, next, ms(1), kind)
    };
    let done = shut_down(Reply::Status(CoreStatus::Halted(HaltReason::Breakpoint)));
    assert_eq!(
        done,
        vec![
            Command::DisableVectorCatch,
            Command::ClearBreakpoint(0x400),
            Command::Run,
            Command::CloseStream,
        ]
    );
    assert!(!shut_down(Reply::Status(CoreStatus::Running)).contains(&Command::Run));
    assert!(!shut_down(failed()).contains(&Command::Run));
}

#[test]
fn session_without_data_stops() {
    let rtt = RttConfig { no_data_stop_timeout_ms: Some(200), ..RttConfig::default() };
    let mut shared = SharedState::new_rc();
    let mut session = running(target(), rtt, &mut shared);
    let data = |command: &Command| match command {
        Command::ReadUp => Reply::Read(1),
        other => kind(other),
    };
    turn(&mut session, &mut shared, ms(100), data);
    // Data came, so the time runs from then on
    turn(&mut session, &mut shared, ms(250), kind);
    assert!(session.is_running());
    turn(&mut session, &mut shared, ms(300), kind);
    assert!(session.is_running());
    let done = turn(&mut session, &mut shared, ms(301), kind);
    assert_eq!(
        done,
        vec![
            Command::AttachCore(3),
            Command::ReadStatus,
            Command::AttachCore(3),
            Command::DisableVectorCatch,
            Command::WriteDown(TrcCommand::StopTracing),
        ]
    );
    assert!(matches!(session.state(), RttSessionState::Stopped(StoppedReason::NoData)));
    assert_eq!(shared, SharedState::new_rc());
}

#[test]
fn halted_core_comes_before_missing_data() {
    let rtt = RttConfig {
        no_data_stop_timeout_ms: Some(200),
        stop_on_breakpoint_address: Some(0x0800_0100),
        ..RttConfig::default()
    };
    let mut shared = SharedState::new_rc();
    let mut session = running(target(), rtt, &mut shared);
    let done = turn(&mut session, &mut shared, ms(1_000), |command| match command {
        Command::ReadStatus => Reply::Status(CoreStatus::Halted(HaltReason::Breakpoint)),
        other => kind(other),
    });
    assert!(matches!(
        session.state(),
        RttSessionState::Stopped(StoppedReason::Breakpoint(0x0800_0100))
    ));
    assert_eq!(done.last(), Some(&Command::Run));
}

#[test]
fn session_waits_for_data_without_a_timeout() {
    let mut shared = SharedState::new_rc();
    let mut session = running(target(), RttConfig::default(), &mut shared);
    turn(&mut session, &mut shared, ms(1_000_000_000), kind);
    assert!(session.is_running());
}

#[test]
fn late_data_keeps_the_session_running() {
    let rtt = RttConfig { no_data_stop_timeout_ms: Some(200), ..RttConfig::default() };
    let mut shared = SharedState::new_rc();
    let mut session = running(target(), rtt, &mut shared);
    let done = turn(&mut session, &mut shared, ms(5_000), |command| match command {
        Command::ReadUp => Reply::Read(9),
        other => kind(other),
    });
    assert_eq!(done.last(), Some(&Command::WriteClient(9)));
    assert!(session.is_running());
}

#[test]
fn session_that_never_caught_leaves_the_catch_to_others() {
    // Another session on the core has the vector catch enabled
    let mut shared =
        SharedState { clear_vector_catch_and_breakpoints: 1, vector_catch_enabled: 1 };
    let mut session = session(target(), RttConfig::default());
    turn(&mut session, &mut shared, ms(0), kind);
    let first = session.shutdown(&mut shared);
    let done = finish(&mut session, &mut shared, first, ms(1), kind);
    assert_eq!(done, vec![Command::AttachCore(3), Command::CloseStream]);
    assert_eq!(
        shared,
        SharedState { clear_vector_catch_and_breakpoints: 1, vector_catch_enabled: 1 }
    );
}

#[test]
fn session_alone_on_its_core_disables_the_catch() {
    let mut shared = SharedState::new_rc();
    let mut session = session(target(), RttConfig::default());
    let first = session.shutdown(&mut shared);
    let done = finish(&mut session, &mut shared, first, ms(1), kind);
    assert_eq!(
        done,
        vec![Command::AttachCore(3), Command::DisableVectorCatch, Command::CloseStream]
    );
    assert_eq!(shared, SharedState::new_rc());
}

#[test]
fn setup_leaves_a_catch_alone_that_somebody_holds() {
    let mut shared = SharedState::new_rc();
    let companion = TargetConfig { bootloader_companion_application: true, ..target() };
    let mut companion = session(companion, RttConfig::default());
    let done = turn(&mut companion, &mut shared, ms(0), kind);
    assert!(done.contains(&Command::EnableVectorCatch));
    let bootloader = TargetConfig { bootloader: true, ..target() };
    let mut bootloader = session(bootloader, RttConfig::default());
    let done = turn(&mut bootloader, &mut shared, ms(0), kind);
    assert_eq!(
        done,
        vec![
            Command::AttachCore(3),
            Command::ReadStatus,
            Command::ClearAllBreakpoints,
            Command::ReadStatus,
        ]
    );
    assert_eq!(
        shared,
        SharedState { clear_vector_catch_and_breakpoints: 1, vector_catch_enabled: 2 }
    );
    // The catch stays until the last of them has left
    let first = bootloader.shutdown(&mut shared);
    let done = finish(&mut bootloader, &mut shared, first, ms(1), kind);
    assert!(!done.contains(&Command::DisableVectorCatch));
    let first = companion.shutdown(&mut shared);
    let done = finish(&mut companion, &mut shared, first, ms(1), kind);
    assert!(done.contains(&Command::DisableVectorCatch));
}

#[test]
fn completion_is_kept_over_recovery() {
    let recovering = TargetConfig { auto_recover: true, bootloader: true, ..target() };
    let mut shared = SharedState::new_rc();
    let mut session = running(recovering, RttConfig::default(), &mut shared);
    assert!(!session.has_completed());
    turn(&mut session, &mut shared, ms(10), |command| match command {
        Command::ReadStatus => Reply::Status(CoreStatus::Sleeping),
        other => kind(other),
    });
    assert!(session.is_stopped());
    assert!(session.has_completed());
    turn(&mut session, &mut shared, ms(100), kind);
    assert!(matches!(session.state(), RttSessionState::Init));
    assert!(session.has_completed());
}

#[test]
fn session_that_never_began_gives_nothing_back() {
    let mut shared =
        SharedState { clear_vector_catch_and_breakpoints: 2, vector_catch_enabled: 2 };
    let mut session = session(target(), RttConfig::default());
    // Its core cannot be reached at all
    turn(&mut session, &mut shared, ms(0), |_| failed());
    assert!(session.is_shutdown());
    assert_eq!(
        shared,
        SharedState { clear_vector_catch_and_breakpoints: 2, vector_catch_enabled: 2 }
    );
}

#[test]
fn abandoned_session_only_closes_its_stream() {
    let mut shared =
        SharedState { clear_vector_catch_and_breakpoints: 1, vector_catch_enabled: 1 };
    let mut session = running(target(), RttConfig::default(), &mut shared);
    assert_eq!(session.abandon(&mut shared), Command::CloseStream);
    assert_eq!(session.resume_at(&mut shared, Reply::Done, ms(1)), Command::EndTurn);
    assert!(session.is_shutdown());
    assert_eq!(
        shared,
        SharedState { clear_vector_catch_and_breakpoints: 1, vector_catch_enabled: 1 }
    );
    assert_eq!(session.abandon(&mut shared), Command::EndTurn);
}

#[test]
fn session_that_forgot_gives_nothing_back() {
    let mut shared = SharedState::new_rc();
    let mut session = running(target(), RttConfig::default(), &mut shared);
    session.forget();
    let first = session.shutdown(&mut shared);
    let done = finish(&mut session, &mut shared, first, ms(1), kind);
    assert!(!done.contains(&Command::DisableVectorCatch));
    assert_eq!(
        shared,
        SharedState { clear_vector_catch_and_breakpoints: 1, vector_catch_enabled: 1 }
    );
}

#[test]
fn turns_can_go_by_the_real_clock() {
    let mut shared = SharedState::new_rc();
    let mut session = session(target(), RttConfig::default());
    assert_eq!(session.update(&mut shared), Command::AttachCore(3));
    assert_eq!(session.resume(&mut shared, Reply::Done), Command::ReadStatus);
    assert_eq!(session.resume(&mut shared, failed()), Command::AttachCore(3));
    assert_eq!(session.resume(&mut shared, failed()), Command::CloseStream);
    assert_eq!(session.resume(&mut shared, Reply::Done), Command::EndTurn);
    assert!(session.is_shutdown());
}
