//! What a running session does with the data of its core, and when.
use crate::clock::Interval;
use crate::command::{Command, Reply};
use crate::protocol::{ProxySessionId, RttConfig, TargetConfig};
use crate::rate_limiter::LimiterView;
use crate::session_model::{Leave, SessionModel, Step};
use crate::session_types::{RttHandles, RttSessionState, StoppedReason};
use crate::shared_state::SharedState;
use crate::target::{CoreStatus, HaltReason, RegisterValue};
use vstd::prelude::*;

verus! {

/// Every read that has data reaches the client, all of it: the bytes are written right
/// after the read, or after they were noted for the metrics if that is wanted, whether or
/// not the noting fails. A read without data leads to no write.
pub proof fn every_read_reaches_the_client(
    session: SessionModel,
    shared: SharedState,
    bytes: usize,
    noted: Reply,
    now: Interval,
    later: Interval,
)
    requires
        session.state is Run,
        session.step is RunRead,
    ensures
        ({
            let read = session.resumed(shared, Reply::Read(bytes), now);
            let after = read.session.resumed(read.shared, noted, later);
            &&& session.log_rtt_metrics ==> read.command is LogMetrics
            &&& session.log_rtt_metrics && bytes != 0 ==> after.command == Command::WriteClient(
                bytes,
            )
            &&& session.log_rtt_metrics && bytes == 0 ==> !(after.command is WriteClient)
            &&& !session.log_rtt_metrics && bytes != 0 ==> read.command == Command::WriteClient(
                bytes,
            )
            &&& bytes == 0 ==> !(read.command is WriteClient)
        }),
{
}

/// From the step in which a read is noted for the metrics, the bytes go to the client.
pub proof fn noted_read_reaches_the_client(
    session: SessionModel,
    shared: SharedState,
    bytes: usize,
    reply: Reply,
    now: Interval,
)
    requires
        session.step == Step::<Seq<Command>>::RunMetrics(bytes),
        bytes != 0,
    ensures
        session.resumed(shared, reply, now).command == Command::WriteClient(bytes),
{
}

/// Whether a full interval has gone by since a limiter last found so, at a reading that
/// is not before those which the limiter has seen.
pub open spec fn interval_is_up(limiter: LimiterView, now: Interval) -> bool {
    now.total() - limiter.last >= limiter.limit
}

/// A running session that has its core reads just if the interval is up: the poll
/// interval if the last read had data, the idle interval if it had none. The interval
/// then runs from this read on.
pub proof fn reads_are_made_when_they_are_due(
    session: SessionModel,
    shared: SharedState,
    reply: Reply,
    now: Interval,
)
    requires
        session.state is Run,
        session.step is RunCore,
        !(reply is Failed),
        session.rtt_poll.read <= now.total(),
        session.idle_poll.read <= now.total(),
    ensures
        ({
            let next = session.resumed(shared, reply, now);
            &&& session.last_rtt_read_had_data ==> (next.command is ReadUp <==> interval_is_up(
                session.rtt_poll,
                now,
            ))
            &&& !session.last_rtt_read_had_data ==> (next.command is ReadUp <==> interval_is_up(
                session.idle_poll,
                now,
            ))
            &&& next.command is ReadUp && session.last_rtt_read_had_data ==> {
                &&& next.session.rtt_poll.last == now.total()
                &&& next.session.idle_poll == session.idle_poll
            }
            &&& next.command is ReadUp && !session.last_rtt_read_had_data ==> {
                &&& next.session.idle_poll.last == now.total()
                &&& next.session.rtt_poll == session.rtt_poll
            }
            &&& !(next.command is ReadUp) ==> {
                &&& next.session.rtt_poll.last == session.rtt_poll.last
                &&& next.session.idle_poll.last == session.idle_poll.last
            }
            &&& next.command is ReadUp ==> next.session.step is RunRead
        }),
{
}

/// Which interval counts next, and since when data is missing, goes by the last read.
pub proof fn reads_are_remembered(
    session: SessionModel,
    shared: SharedState,
    bytes: usize,
    now: Interval,
)
    requires
        session.state is Run,
        session.step is RunRead,
    ensures
        ({
            let next = session.resumed(shared, Reply::Read(bytes), now).session;
            &&& next.last_rtt_read_had_data <==> bytes != 0
            &&& bytes != 0 ==> next.last_data == now
            &&& bytes == 0 ==> next.last_data == session.last_data
            &&& next.state == session.state
        }),
{
}

/// Whether no data came for longer than a session is configured to wait.
pub open spec fn data_is_missing(session: SessionModel, now: Interval) -> bool {
    match session.rtt_cfg.no_data_stop_timeout_ms {
        Some(ms) => now.total() - session.last_data.total() > ms * 1_000_000,
        None => false,
    }
}

/// Whether a step without data ends as it should: the core is looked at just if the
/// interval for that is up or data is missing, and otherwise the turn is over. The
/// session runs on either way.
pub open spec fn looks_after_the_core(
    session: SessionModel,
    next_command: Command,
    next: SessionModel,
    now: Interval,
) -> bool {
    &&& next_command is ReadStatus <==> interval_is_up(session.stopping_condition, now)
        || data_is_missing(session, now)
    &&& next_command is ReadStatus || next_command is EndTurn
    &&& next_command is ReadStatus <==> next.step is RunStatus
    &&& next_command is EndTurn <==> next.step is Idle
    &&& next.state == session.state
    &&& next.last_data == session.last_data
    &&& next.stopping_condition.last == (if interval_is_up(session.stopping_condition, now) {
        now.total() as int
    } else {
        session.stopping_condition.last
    })
}

/// Where nothing is read, a running session looks after its core: at the configured
/// interval, and at once where data is missing.
pub proof fn core_is_looked_after_without_data(
    session: SessionModel,
    shared: SharedState,
    reply: Reply,
    now: Interval,
)
    requires
        session.state is Run,
        session.stopping_condition.read <= now.total(),
        session.rtt_poll.read <= now.total(),
        session.idle_poll.read <= now.total(),
        !(reply is Failed),
    ensures
        ({
            let next = session.resumed(shared, reply, now);
            &&& session.step is RunCore && !(next.command is ReadUp) ==> looks_after_the_core(
                session,
                next.command,
                next.session,
                now,
            )
            &&& session.step is RunRead && reply == Reply::Read(0) && !session.log_rtt_metrics
                ==> looks_after_the_core(session, next.command, next.session, now)
            &&& session.step == Step::<Seq<Command>>::RunMetrics(0) ==> looks_after_the_core(
                session,
                next.command,
                next.session,
                now,
            )
        }),
{
}

/// What the status of its core means for a running session: a core that runs is left
/// alone unless data is missing, a halted one has its registers read, and anything else
/// counts as a reset.
pub proof fn status_decides(
    session: SessionModel,
    shared: SharedState,
    status: CoreStatus,
    now: Interval,
)
    requires
        session.state is Run,
        session.step is RunStatus,
    ensures
        ({
            let next = session.resumed(shared, Reply::Status(status), now);
            match status {
                CoreStatus::Running => if data_is_missing(session, now) {
                    next.session.step == Step::<Seq<Command>>::StopCore(
                        Leave::Stop(StoppedReason::NoData),
                        session.caught,
                    )
                } else {
                    next.command is EndTurn && next.session.state == session.state
                },
                CoreStatus::Halted(reason) => next.command is ReadStackPointer
                    && next.session.step == Step::<Seq<Command>>::RunStack(reason),
                _ => next.session.step == Step::<Seq<Command>>::StopCore(
                    Leave::Stop(StoppedReason::ResetCatch),
                    session.caught,
                ),
            }
        }),
{
}

/// A halted core stops its session: at a breakpoint with the address that the program
/// counter holds, and for any other reason as a reset.
pub proof fn halted_core_stops_its_session(
    session: SessionModel,
    shared: SharedState,
    reason: HaltReason,
    stack: Reply,
    counter: RegisterValue,
    now: Interval,
)
    requires
        session.state is Run,
        session.step == Step::<Seq<Command>>::RunStack(reason),
        !(stack is Failed),
    ensures
        ({
            let asked = session.resumed(shared, stack, now);
            let next = asked.session.resumed(asked.shared, Reply::Register(counter), now);
            &&& asked.command is ReadProgramCounter
            &&& next.command == Command::AttachCore(session.target_cfg.core)
            &&& !(reason is Breakpoint) ==> next.session.step
                == Step::<Seq<Command>>::StopCore(
                Leave::Stop(StoppedReason::ResetCatch),
                session.caught,
            )
            &&& reason is Breakpoint ==> {
                &&& next.session.step matches Step::StopCore(
                    Leave::Stop(StoppedReason::Breakpoint(address)),
                    held,
                )
                &&& held == session.caught
                &&& match counter {
                    RegisterValue::U32(v) => address == v,
                    RegisterValue::U64(v) => address == v,
                    RegisterValue::U128(v) => address == v % 0x1_0000_0000_0000_0000,
                }
            }
        }),
{
}

/// A write that is done ends the turn, and the session runs on.
pub proof fn written_data_ends_the_turn(
    session: SessionModel,
    shared: SharedState,
    reply: Reply,
    now: Interval,
)
    requires
        session.step is RunWrite,
        !(reply is Failed),
    ensures
        session.resumed(shared, reply, now).command is EndTurn,
        session.resumed(shared, reply, now).session == (SessionModel {
            step: Step::Idle,
            ..session
        }),
        session.resumed(shared, reply, now).shared == shared,
{
}

/// How a turn begins goes by where the session stands. One that is to be set up or that
/// runs asks for its core; one that attaches or may recover does so at intervals; any
/// other does nothing. An interval runs from the moment at which it was up. The session
/// stands where it stood.
pub proof fn turn_begins_where_the_session_stands(
    session: SessionModel,
    shared: SharedState,
    now: Interval,
)
    requires
        session.step is Idle,
        session.attach_retry.read <= now.total(),
        session.recovery.read <= now.total(),
    ensures
        ({
            let next = session.updated(shared, now);
            let asks = next.command == Command::AttachCore(session.target_cfg.core);
            &&& next.command is EndTurn || asks
            &&& next.command is EndTurn <==> next.session.step is Idle
            &&& next.session.state == session.state
            &&& next.shared == shared
            &&& match session.state {
                RttSessionState::Init => asks && next.session.step is SetupCore,
                RttSessionState::RttAttach(_) => (asks <==> interval_is_up(
                    session.attach_retry,
                    now,
                )) && (asks ==> next.session.step is AttachCore),
                RttSessionState::Run(_) => asks && next.session.step is RunCore,
                RttSessionState::Stopped(_) => (asks <==> session.target_cfg.auto_recover
                    && interval_is_up(session.recovery, now)) && (asks
                    ==> next.session.step is RecoverCore),
                RttSessionState::Shutdown => !asks,
            }
            &&& next.session.attach_retry.last == (if session.state is RttAttach && asks {
                now.total() as int
            } else {
                session.attach_retry.last
            })
            &&& next.session.recovery.last == (if session.state is Stopped && asks {
                now.total() as int
            } else {
                session.recovery.last
            })
        }),
{
}

/// A new session is as it was configured: it reads as much at once as it was told to, or
/// 1024 bytes where that is less than 64, and it polls at the intervals that it was told
/// to keep, or every millisecond where they are shorter. It looks after its core and
/// recovers every 50 milliseconds, and tries to attach every 20. All of that is due at
/// once.
pub proof fn new_session_is_as_configured(
    id: ProxySessionId,
    name: Seq<char>,
    target: TargetConfig,
    rtt: RttConfig,
    log_rtt_metrics: bool,
    now: Interval,
)
    ensures
        ({
            let session = SessionModel::fresh(id, name, target, rtt, log_rtt_metrics, now);
            &&& session.id == id
            &&& session.name == name
            &&& session.target_cfg == target
            &&& session.rtt_cfg == rtt
            &&& session.log_rtt_metrics == log_rtt_metrics
            &&& session.state is Init
            &&& session.step is Idle
            &&& !session.client_response_sent && !session.completed
            &&& session.last_rtt_read_had_data
            &&& session.last_data == now
            &&& session.metrics.window_start == now
            &&& !session.cleared && !session.caught
            &&& rtt.rtt_read_buffer_size >= 64 ==> session.buffer_size
                == rtt.rtt_read_buffer_size
            &&& rtt.rtt_read_buffer_size < 64 ==> session.buffer_size == 1024
            &&& session.metrics.rtt_buffer_size == session.buffer_size
            &&& rtt.rtt_poll_interval_ms >= 1 ==> session.rtt_poll.limit
                == rtt.rtt_poll_interval_ms * 1_000_000
            &&& rtt.rtt_poll_interval_ms < 1 ==> session.rtt_poll.limit == 1_000_000
            &&& rtt.rtt_idle_poll_interval_ms >= 1 ==> session.idle_poll.limit
                == rtt.rtt_idle_poll_interval_ms * 1_000_000
            &&& rtt.rtt_idle_poll_interval_ms < 1 ==> session.idle_poll.limit == 1_000_000
            &&& session.recovery.limit == 50_000_000
            &&& session.stopping_condition.limit == 50_000_000
            &&& session.attach_retry.limit == 20_000_000
            &&& interval_is_up(session.rtt_poll, now)
            &&& interval_is_up(session.idle_poll, now)
            &&& interval_is_up(session.recovery, now)
            &&& interval_is_up(session.stopping_condition, now)
            &&& interval_is_up(session.attach_retry, now)
        }),
{
}

/// A session that has told its client begins to run: with what it has attached to, with
/// all that it does at intervals due at once, and with the time for missing data running
/// from now on.
pub proof fn attached_session_runs(
    session: SessionModel,
    shared: SharedState,
    handles: RttHandles,
    reply: Reply,
    now: Interval,
)
    requires
        session.step == Step::<Seq<Command>>::Respond(handles),
        !(reply is Failed),
        session.rtt_poll.read <= now.total(),
        session.idle_poll.read <= now.total(),
        session.recovery.read <= now.total(),
        session.stopping_condition.read <= now.total(),
    ensures
        ({
            let next = session.resumed(shared, reply, now);
            &&& next.command is EndTurn
            &&& next.shared == shared
            &&& next.session.state == RttSessionState::Run(handles)
            &&& next.session.client_response_sent
            &&& next.session.last_data == now
            &&& interval_is_up(next.session.rtt_poll, now)
            &&& interval_is_up(next.session.idle_poll, now)
            &&& interval_is_up(next.session.recovery, now)
            &&& interval_is_up(next.session.stopping_condition, now)
        }),
{
}

} // verus!
