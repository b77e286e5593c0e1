//! What becomes of a session when something fails.
use crate::clock::Interval;
use crate::command::{Command, Reply};
use crate::session_laws;
use crate::session_model::{Leave, Outcome, SessionModel, Step};
use crate::session_types::{Error, RttFault, RttSessionState, StoppedReason};
use crate::shared_state::SharedState;
use crate::target::CoreStatus;
use vstd::prelude::*;

verus! {

/// What kind of error it is when a command fails.
pub open spec fn error_of(command: Command, fault: RttFault) -> Error {
    let text = match fault {
        RttFault::ControlBlockNotFound(text) => text,
        RttFault::Other(text) => text,
    };
    match command {
        Command::AttachCore(_) => Error::CoreAttach(text),
        Command::ReadStatus => Error::CoreStatus(text),
        Command::AttachRtt(_) | Command::OpenChannels(..) => Error::Rtt(fault),
        Command::SetBlockIfFull | Command::ReadUp => Error::Rtt(fault),
        Command::WriteDown(_) | Command::Sleep(_) => Error::Rtt(fault),
        Command::SendStarted(_) => Error::ResponseJson(text),
        Command::WriteClient(_) => Error::ClientDisconnected,
        _ => Error::Probe(text),
    }
}

/// Where an error leads to: a session that may recover stops with it, any other shuts
/// down, and so does one whose client is gone.
pub open spec fn way_of(session: SessionModel, error: Error) -> Leave {
    if session.target_cfg.auto_recover && !(error is ClientDisconnected) {
        Leave::Stop(StoppedReason::Error(error))
    } else {
        Leave::Shutdown
    }
}

/// Whether a session is in the middle of setting its core up, attaching or running, where
/// what it asks for must not fail.
pub open spec fn must_succeed(session: SessionModel) -> bool {
    match session.step {
        Step::Idle | Step::RecoverCore | Step::RecoverStatus | Step::RunMetrics(_) => false,
        Step::StopCore(..) | Step::StopStatus(..) | Step::Stop(..) | Step::Close => false,
        _ => true,
    }
}

/// Whether the control block was not found and is to be looked for again: the session
/// attaches, there is a time for that, and it is not up.
pub open spec fn is_looked_for_again(session: SessionModel, error: Error, now: Interval) -> bool {
    match (session.state, error, session.rtt_cfg.attach_timeout_ms) {
        (
            RttSessionState::RttAttach(started),
            Error::Rtt(RttFault::ControlBlockNotFound(_)),
            Some(ms),
        ) => now.total() - started.total() <= ms * 1_000_000,
        _ => false,
    }
}

/// A command that fails while a core is set up, attached to or read from ends the turn:
/// the session starts to leave its core with the error that belongs to the command. Only
/// a control block that was not found is looked for again, as long as there is time.
pub proof fn failed_command_ends_the_turn(
    session: SessionModel,
    shared: SharedState,
    command: Command,
    fault: RttFault,
    now: Interval,
)
    requires
        session.wf(),
        must_succeed(session),
        session_laws::command_fits(session, command),
    ensures
        ({
            let next = session.resumed(shared, Reply::Failed(fault), now);
            let error = error_of(command, fault);
            if is_looked_for_again(session, error, now) {
                &&& next.command is EndTurn
                &&& next.session.step is Idle
                &&& next.session.state == session.state
                &&& next.shared == shared
            } else {
                &&& next.command == Command::AttachCore(session.target_cfg.core)
                &&& next.session.step == Step::<Seq<Command>>::StopCore(
                    way_of(session, error),
                    session.caught,
                )
            }
        }),
{
}

/// A core that does not run after its setup is an error.
pub proof fn core_must_run_after_setup(
    session: SessionModel,
    shared: SharedState,
    status: CoreStatus,
    now: Interval,
)
    requires
        session.wf(),
        session.step is SetupRunning,
    ensures
        ({
            let next = session.resumed(shared, Reply::Status(status), now);
            let error = Error::CoreNotRunning(session.target_cfg.core);
            if status is Running {
                next.command is CountBreakpoints || next.session.state
                    == RttSessionState::RttAttach(now)
            } else {
                next.session.step == Step::<Seq<Command>>::StopCore(
                    way_of(session, error),
                    session.caught,
                )
            }
        }),
{
}

/// Channels that the control block does not have are an error, the up channel first.
/// Channels are numbered from zero, so the number of them is not one of theirs.
pub proof fn missing_channel_is_an_error(
    session: SessionModel,
    shared: SharedState,
    control_block: u64,
    up: usize,
    down: usize,
    now: Interval,
)
    requires
        session.wf(),
        session.step is AttachRegion,
    ensures
        ({
            let rtt = session.rtt_cfg;
            let next = session.resumed(shared, Reply::Attached(control_block, up, down), now);
            if rtt.up_channel >= up {
                next.session.step == Step::<Seq<Command>>::StopCore(
                    way_of(session, Error::UpChannelInvalid(rtt.up_channel as usize)),
                    session.caught,
                )
            } else if rtt.down_channel >= down {
                next.session.step == Step::<Seq<Command>>::StopCore(
                    way_of(session, Error::DownChannelInvalid(rtt.down_channel as usize)),
                    session.caught,
                )
            } else {
                next.command == Command::OpenChannels(rtt.up_channel, rtt.down_channel)
            }
        }),
{
}

/// A stopped session whose core cannot be reached keeps that as the reason; one whose
/// core answers starts over.
pub proof fn recovery_goes_by_the_core(
    session: SessionModel,
    shared: SharedState,
    reply: Reply,
    now: Interval,
)
    requires
        session.wf(),
        session.step is RecoverCore || session.step is RecoverStatus,
    ensures
        ({
            let next = session.resumed(shared, reply, now);
            &&& next.shared == shared
            &&& session.step is RecoverCore ==> match reply {
                Reply::Failed(fault) => next.command is EndTurn && next.session.state
                    == RttSessionState::Stopped(
                    StoppedReason::Error(error_of(Command::AttachCore(0), fault)),
                ),
                _ => next.command is ReadStatus && next.session.state == session.state,
            }
            &&& session.step is RecoverStatus ==> next.command is EndTurn && (if reply is Failed {
                next.session.state == session.state
            } else {
                next.session.state is Init
            })
        }),
{
}

/// A session that is told to shut down starts to leave its core, or closes the client's
/// connection at once where it has left. One that has shut down does nothing.
pub proof fn shutdown_begins_where_the_session_stands(session: SessionModel, shared: SharedState)
    requires
        session.wf(),
        session.step is Idle,
    ensures
        ({
            let next = session.shut_down(shared);
            match session.state {
                RttSessionState::Shutdown => next.command is EndTurn && next.session == session,
                RttSessionState::Stopped(_) => next.command is CloseStream,
                _ => next.command == Command::AttachCore(session.target_cfg.core)
                    && next.session.step == Step::<Seq<Command>>::StopCore(
                    Leave::Shutdown,
                    session.caught,
                ),
            }
        }),
{
}

/// A count with one holder less, if there is one to leave.
pub open spec fn without_holder(count: usize, leaves: bool) -> int {
    if leaves && count > 0 {
        count - 1
    } else {
        count as int
    }
}

/// Whether a session has given up all that it held when it began to leave: it is marked, it
/// has left the counts that it was in, each by one, and no others, and it polls at the
/// shorter interval again.
pub open spec fn has_given_up(
    session: SessionModel,
    shared: SharedState,
    next: SessionModel,
    left: SharedState,
) -> bool {
    &&& next.completed
    &&& next.last_rtt_read_had_data
    &&& !next.cleared && !next.caught
    &&& left.clear_vector_catch_and_breakpoints == without_holder(
        shared.clear_vector_catch_and_breakpoints,
        session.cleared,
    )
    &&& left.vector_catch_enabled == without_holder(shared.vector_catch_enabled, session.caught)
}

/// Whether a session that begins to leave in a step does so as it should.
pub open spec fn gives_up(session: SessionModel, shared: SharedState, next: Outcome) -> bool {
    next.session.step is StopCore ==> {
        &&& has_given_up(session, shared, next.session, next.shared)
        &&& next.session.state == session.state
        &&& next.command == Command::AttachCore(session.target_cfg.core)
    }
}

proof fn failed_step_gives_up(
    session: SessionModel,
    shared: SharedState,
    reply: Reply,
    now: Interval,
)
    requires
        session.wf(),
        !(session.state is Stopped),
        !(session.state is Shutdown),
        session.accepts(reply),
        reply is Failed,
    ensures
        gives_up(session, shared, session.resumed(shared, reply, now)),
{
}

proof fn setup_gives_up(
    session: SessionModel,
    shared: SharedState,
    reply: Reply,
    now: Interval,
)
    requires
        session.wf(),
        !(session.state is Stopped),
        !(session.state is Shutdown),
        session.accepts(reply),
        !(reply is Failed),
        session.step is SetupCore || session.step is SetupStatus || session.step is Setup
            || session.step is SetupRunning,
    ensures
        gives_up(session, shared, session.resumed(shared, reply, now)),
{
}

proof fn attach_gives_up(
    session: SessionModel,
    shared: SharedState,
    reply: Reply,
    now: Interval,
)
    requires
        session.wf(),
        !(session.state is Stopped),
        !(session.state is Shutdown),
        session.accepts(reply),
        !(reply is Failed),
        session.step is AttachCore || session.step is AttachRegion || session.step is Attach
            || session.step is AttachStatus || session.step is Respond,
    ensures
        gives_up(session, shared, session.resumed(shared, reply, now)),
{
}

proof fn run_gives_up(
    session: SessionModel,
    shared: SharedState,
    reply: Reply,
    now: Interval,
)
    requires
        session.wf(),
        !(session.state is Stopped),
        !(session.state is Shutdown),
        session.accepts(reply),
        !(reply is Failed),
        session.step is RunCore || session.step is RunRead || session.step is RunMetrics
            || session.step is RunWrite || session.step is RunStatus || session.step is RunStack
            || session.step is RunCounter,
    ensures
        gives_up(session, shared, session.resumed(shared, reply, now)),
{
}

/// However a session comes to leave its core, by an error or by what it sees of the core,
/// it gives up at once all that it held.
pub proof fn leaving_session_gives_up_what_it_held(
    session: SessionModel,
    shared: SharedState,
    reply: Reply,
    now: Interval,
)
    requires
        session.wf(),
        !(session.state is Stopped),
        !(session.state is Shutdown),
        session.accepts(reply),
    ensures
        gives_up(session, shared, session.resumed(shared, reply, now)),
{
    if reply is Failed {
        failed_step_gives_up(session, shared, reply, now);
    } else {
        match session.step {
            Step::SetupCore | Step::SetupStatus | Step::Setup(..) | Step::SetupRunning => {
                setup_gives_up(session, shared, reply, now);
            },
            Step::AttachCore | Step::AttachRegion | Step::Attach(..) => {
                attach_gives_up(session, shared, reply, now);
            },
            Step::AttachStatus(_) | Step::Respond(_) => {
                attach_gives_up(session, shared, reply, now);
            },
            Step::RunCore | Step::RunRead | Step::RunMetrics(_) | Step::RunWrite
            | Step::RunStatus | Step::RunStack(_) | Step::RunCounter(_) => {
                run_gives_up(session, shared, reply, now);
            },
            _ => {},
        }
    }
}

/// A session that is told to leave gives up at once all that it held. Where its core cannot
/// be reached it counts as stopped with that, and its client's connection is closed.
pub proof fn session_that_is_told_to_leave_gives_up_what_it_held(
    session: SessionModel,
    shared: SharedState,
)
    requires
        session.wf(),
        session.step is Idle,
        !(session.state is Stopped),
        !(session.state is Shutdown),
    ensures
        gives_up(session, shared, session.shut_down(shared)),
        session.shut_down(shared).session.step is StopCore,
        ({
            let next = session.cut_off(shared);
            &&& has_given_up(session, shared, next.session, next.shared)
            &&& next.session.state == RttSessionState::Stopped(StoppedReason::Shutdown)
            &&& next.command is CloseStream
        }),
{
}

/// Where the core cannot be reached, a session that has stopped is only cut off from its
/// client, and one that has shut down is left alone.
pub proof fn stopped_session_is_cut_off(session: SessionModel, shared: SharedState)
    requires
        session.wf(),
        session.step is Idle,
    ensures
        session.state is Stopped ==> {
            let next = session.cut_off(shared);
            &&& next.command is CloseStream
            &&& next.session.state == session.state
            &&& next.shared == shared
        },
        session.state is Shutdown ==> {
            let next = session.cut_off(shared);
            &&& next.command is EndTurn
            &&& next.session == session
            &&& next.shared == shared
        },
{
}

/// Once the client's connection is closed, or could not be, the session has shut down.
pub proof fn closed_session_has_shut_down(
    session: SessionModel,
    shared: SharedState,
    reply: Reply,
    now: Interval,
)
    requires
        session.step is Close,
    ensures
        session.resumed(shared, reply, now).command is EndTurn,
        session.resumed(shared, reply, now).session.state is Shutdown,
        session.resumed(shared, reply, now).shared == shared,
{
}

} // verus!
