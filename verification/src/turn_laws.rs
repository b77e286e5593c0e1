//! What holds of the turns of a session.
use crate::clock::Interval;
use crate::command::{Command, Reply};
use crate::session_laws;
use crate::session_model;
use crate::session_model::{AttachPhase, Leave, Outcome, SessionModel, SetupPhase, Step};
use crate::session_types::{Error, RttFault, RttSessionState, StoppedReason};
use crate::shared_state::SharedState;
use crate::target::CoreStatus;
use vstd::prelude::*;

verus! {

/// How many answers a session can get, at most, before its turn is over.
pub open spec fn answers_left(step: Step<Seq<Command>>) -> nat {
    match step {
        Step::Idle => 0,
        Step::Close => 1,
        Step::Stop(_, todo) => 2 + todo.len(),
        Step::StopStatus(..) => 6,
        Step::StopCore(..) => 7,
        Step::RecoverStatus => 1,
        Step::RecoverCore => 2,
        Step::RunWrite => 8,
        Step::RunCounter(_) => 8,
        Step::RunStack(_) => 9,
        Step::RunStatus => 10,
        Step::RunMetrics(_) => 11,
        Step::RunRead => 12,
        Step::RunCore => 13,
        Step::Respond(_) => 8,
        Step::Attach(AttachPhase::Catch, _, todo) => 9 + todo.len(),
        Step::Attach(AttachPhase::Control, _, todo) => 10 + todo.len(),
        Step::Attach(AttachPhase::Resume, _, todo) => 13 + todo.len(),
        Step::AttachStatus(_) => 14,
        Step::Attach(AttachPhase::Release, _, todo) => 15 + todo.len(),
        Step::Attach(AttachPhase::Mode, _, todo) => 16 + todo.len(),
        Step::Attach(AttachPhase::Open, _, todo) => 17 + todo.len(),
        Step::AttachRegion => 18,
        Step::AttachCore => 19,
        Step::Setup(SetupPhase::Breakpoint, _, todo) => 8 + todo.len(),
        Step::SetupRunning => 11,
        Step::Setup(SetupPhase::Start, _, todo) => 12 + todo.len(),
        Step::Setup(SetupPhase::Catch, _, todo) => 15 + todo.len(),
        Step::Setup(SetupPhase::Clear, _, todo) => 16 + todo.len(),
        Step::Setup(SetupPhase::Reset, _, todo) => 18 + todo.len(),
        Step::SetupStatus => 21,
        Step::SetupCore => 22,
    }
}

proof fn start_is_short(session: SessionModel, shared: SharedState, halted: bool, now: Interval)
    ensures
        answers_left(session.set_up_start(shared, halted).session.step) <= 14,
        answers_left(session.set_up_breakpoint(shared, now).session.step) <= 10,
{
}

proof fn catch_is_short(session: SessionModel, shared: SharedState, halted: bool, now: Interval)
    ensures
        answers_left(session.set_up_catch(shared, halted).session.step) <= 15,
{
    start_is_short(session, shared, halted, now);
    start_is_short(SessionModel { caught: true, ..session }, shared.caught(), halted, now);
}

proof fn clear_is_short(session: SessionModel, shared: SharedState, halted: bool, now: Interval)
    ensures
        answers_left(session.set_up_clear(shared, halted).session.step) <= 17,
        answers_left(session.set_up_reset(shared, halted).session.step) <= 20,
{
    catch_is_short(session, shared, halted, now);
    catch_is_short(SessionModel { cleared: true, ..session }, shared.cleared(), halted, now);
}

proof fn init_moves_on(
    session: SessionModel,
    step: Step<Seq<Command>>,
    shared: SharedState,
    reply: Reply,
    now: Interval,
)
    requires
        step is SetupCore || step is SetupStatus || step is Setup || step is SetupRunning,
    ensures
        answers_left(session.init_resumed(step, shared, reply, now).session.step) < answers_left(
            step,
        ),
{
    match step {
        Step::SetupStatus => {
            clear_is_short(session, shared, reply->Status_0 is Halted, now);
        },
        Step::Setup(_, halted, _) => {
            clear_is_short(session, shared, halted, now);
            catch_is_short(session, shared, halted, now);
            start_is_short(session, shared, halted, now);
        },
        Step::SetupRunning => {
            start_is_short(session, shared, false, now);
        },
        _ => {},
    }
}

proof fn attach_moves_on(
    session: SessionModel,
    step: Step<Seq<Command>>,
    shared: SharedState,
    reply: Reply,
    now: Interval,
)
    requires
        step is AttachCore || step is AttachRegion || step is Attach || step is AttachStatus
            || step is Respond,
    ensures
        answers_left(session.attach_resumed(step, shared, reply, now).session.step) < answers_left(
            step,
        ),
{
}

proof fn run_moves_on(
    session: SessionModel,
    step: Step<Seq<Command>>,
    shared: SharedState,
    reply: Reply,
    now: Interval,
)
    requires
        !(step is Idle),
    ensures
        answers_left(session.run_resumed(step, shared, reply, now).session.step) < answers_left(
            step,
        ),
{
}

proof fn stop_moves_on(
    session: SessionModel,
    step: Step<Seq<Command>>,
    shared: SharedState,
    reply: Reply,
    now: Interval,
)
    requires
        step is StopCore || step is StopStatus || step is Stop || step is Close,
    ensures
        answers_left(session.stop_resumed(step, shared, reply, now).session.step) < answers_left(
            step,
        ),
{
}

proof fn failure_moves_on(
    session: SessionModel,
    step: Step<Seq<Command>>,
    shared: SharedState,
    fault: RttFault,
    now: Interval,
)
    requires
        !(step is Idle),
    ensures
        answers_left(session.resumed_failed(step, shared, fault, now).session.step) < answers_left(
            step,
        ),
{
}

/// Every answer brings a turn closer to its end.
pub proof fn turns_move_on(session: SessionModel, shared: SharedState, reply: Reply, now: Interval)
    requires
        !(session.step is Idle),
    ensures
        answers_left(session.resumed(shared, reply, now).session.step) < answers_left(
            session.step,
        ),
{
    let idle = SessionModel { step: Step::Idle, ..session };
    match reply {
        Reply::Failed(fault) => {
            failure_moves_on(idle, session.step, shared, fault, now);
        },
        _ => {
            match session.step {
                Step::SetupCore | Step::SetupStatus | Step::Setup(..) | Step::SetupRunning => {
                    init_moves_on(idle, session.step, shared, reply, now);
                },
                Step::AttachCore | Step::AttachRegion | Step::Attach(..) => {
                    attach_moves_on(idle, session.step, shared, reply, now);
                },
                Step::AttachStatus(_) | Step::Respond(_) => {
                    attach_moves_on(idle, session.step, shared, reply, now);
                },
                Step::StopCore(..) | Step::StopStatus(..) | Step::Stop(..) | Step::Close => {
                    stop_moves_on(idle, session.step, shared, reply, now);
                },
                Step::RecoverCore | Step::RecoverStatus => {},
                _ => {
                    run_moves_on(idle, session.step, shared, reply, now);
                },
            }
        },
    }
}

/// What comes of an answer.
#[verifier::opaque]
pub open spec fn replied(outcome: Outcome, reply: Reply, now: Interval) -> Outcome {
    outcome.session.resumed(outcome.shared, reply, now)
}

/// What comes of the answers, given one after the other until the turn is over.
pub open spec fn answered(outcome: Outcome, answers: Seq<(Reply, Interval)>) -> Outcome
    decreases answers.len(),
{
    if answers.len() == 0 || outcome.session.step is Idle {
        outcome
    } else {
        answered(replied(outcome, answers[0].0, answers[0].1), answers.drop_first())
    }
}

/// However the answers turn out, a turn is over once there were enough of them,
/// and it never takes more than the longest core setup does.
pub proof fn every_turn_ends(outcome: Outcome, answers: Seq<(Reply, Interval)>)
    requires
        answers.len() >= answers_left(outcome.session.step),
    ensures
        answered(outcome, answers).session.step is Idle,
    decreases answers.len(),
{
    if answers.len() > 0 && !(outcome.session.step is Idle) {
        let next = replied(outcome, answers[0].0, answers[0].1);
        assert(answers_left(next.session.step) < answers_left(outcome.session.step)) by {
            reveal(replied);
            turns_move_on(outcome.session, outcome.shared, answers[0].0, answers[0].1);
        }
        every_turn_ends(next, answers.drop_first());
    }
}

/// A turn that begins takes at most as many answers as core setup with all its
/// parts does, and a shutdown far less.
pub proof fn turns_are_short(session: SessionModel, shared: SharedState, now: Interval)
    ensures
        answers_left(session.updated(shared, now).session.step) <= 22,
        answers_left(session.shut_down(shared).session.step) <= 7,
        answers_left(session.cut_off(shared).session.step) <= 1,
{
}

/// Where a session is once it has left.
pub open spec fn left_state(leave: Leave) -> RttSessionState {
    match leave {
        Leave::Stop(reason) => RttSessionState::Stopped(reason),
        Leave::Shutdown => RttSessionState::Shutdown,
    }
}

/// Whether a session is on its way out like that, or has left.
pub open spec fn leaves_for(session: SessionModel, leave: Leave) -> bool {
    match session.step {
        Step::StopCore(way, _) => way == leave,
        Step::StopStatus(way, _) => way == leave,
        Step::Stop(way, _) => way == leave,
        Step::Close => leave is Shutdown,
        Step::Idle => session.state == left_state(leave),
        _ => false,
    }
}

/// A session on its way out stays on it, whatever the answers.
proof fn leaving_goes_on(outcome: Outcome, leave: Leave, answers: Seq<(Reply, Interval)>)
    requires
        leaves_for(outcome.session, leave),
    ensures
        leaves_for(answered(outcome, answers).session, leave),
    decreases answers.len(),
{
    if answers.len() > 0 && !(outcome.session.step is Idle) {
        let next = replied(outcome, answers[0].0, answers[0].1);
        assert(leaves_for(next.session, leave)) by {
            reveal(replied);
        }
        leaving_goes_on(next, leave, answers.drop_first());
    }
}

/// A session that starts to leave its core ends up where it is to go, whether or
/// not the core can be reached and whatever fails on the way.
pub proof fn leaving_is_carried_through(
    session: SessionModel,
    shared: SharedState,
    leave: Leave,
    answers: Seq<(Reply, Interval)>,
)
    requires
        session.is_on_core() || session.state is Stopped && leave is Shutdown,
        answers.len() >= 7,
    ensures
        answered(session.leaving(shared, leave), answers).session.step is Idle,
        answered(session.leaving(shared, leave), answers).session.state == left_state(leave),
{
    let begun = session.leaving(shared, leave);
    leaving_goes_on(begun, leave, answers);
    every_turn_ends(begun, answers);
}

/// A session that is told to shut down does so, and it is for good: from then on
/// its turns are empty and it stays as it is.
pub proof fn shutdown_is_final(
    session: SessionModel,
    shared: SharedState,
    answers: Seq<(Reply, Interval)>,
    now: Interval,
)
    requires
        session.step is Idle,
        answers.len() >= 7,
    ensures
        ({
            let end = answered(session.shut_down(shared), answers).session;
            &&& end.step is Idle
            &&& end.state is Shutdown
            &&& end.updated(shared, now) == end.rest(shared)
            &&& end.updated(shared, now).session == end
            &&& end.shut_down(shared) == end.rest(shared)
        }),
{
    if !(session.state is Shutdown) {
        leaving_is_carried_through(session, shared, Leave::Shutdown, answers);
    }
}

/// An error in a turn stops a session that may recover, with that error as the
/// reason; any other session shuts down, and so does one whose client is gone.
pub proof fn errors_stop_or_shut_down(
    session: SessionModel,
    shared: SharedState,
    error: Error,
    answers: Seq<(Reply, Interval)>,
)
    requires
        session.is_on_core(),
        answers.len() >= 7,
    ensures
        answered(session.failed(shared, error), answers).session.state == (
        if session.target_cfg.auto_recover && !(error is ClientDisconnected) {
            RttSessionState::Stopped(StoppedReason::Error(error))
        } else {
            RttSessionState::Shutdown
        }),
{
    let leave = if session.target_cfg.auto_recover && !(error is ClientDisconnected) {
        Leave::Stop(StoppedReason::Error(error))
    } else {
        Leave::Shutdown
    };
    leaving_is_carried_through(session, shared, leave, answers);
}

/// A session that is to shut down while its core cannot be reached does so with
/// nothing but the end of the client's connection.
pub proof fn cut_off_session_shuts_down(
    session: SessionModel,
    shared: SharedState,
    reply: Reply,
    now: Interval,
)
    requires
        session.step is Idle,
        !(session.state is Shutdown),
    ensures
        ({
            let asked = session.cut_off(shared);
            let end = asked.session.resumed(asked.shared, reply, now);
            &&& asked.command is CloseStream
            &&& end.command is EndTurn
            &&& end.session.step is Idle
            &&& end.session.state is Shutdown
            &&& !end.session.cleared && !end.session.caught
        }),
{
}

/// A running session stops for want of data once none came for longer than it is
/// configured to wait, and not before that. Its core is looked at first, and where that
/// has reached a stopping condition the session stops for that instead.
pub proof fn session_without_data_stops(
    session: SessionModel,
    shared: SharedState,
    status: CoreStatus,
    now: Interval,
    answers: Seq<(Reply, Interval)>,
)
    requires
        session.state is Run,
        answers.len() >= 7,
    ensures
        ({
            let out = session.rtt_cfg.no_data_stop_timeout_ms matches Some(ms) && now.nanos_since(
                session.last_data,
            ) > ms * 1_000_000;
            let next = session.core_checked(shared, status, now);
            &&& out ==> session.check_core(shared, now).command is ReadStatus
            &&& out && status is Running ==> answered(next, answers).session.step is Idle
                && answered(next, answers).session.state == RttSessionState::Stopped(
                StoppedReason::NoData,
            )
            &&& !out && status is Running ==> next == session.rest(shared)
            &&& status is Halted ==> next.command is ReadStackPointer
            &&& !(status is Running) && !(status is Halted) ==> answered(
                next,
                answers,
            ).session.state == RttSessionState::Stopped(StoppedReason::ResetCatch)
        }),
{
    if status is Running {
        if session.is_out_of_data(now) {
            let leave = Leave::Stop(StoppedReason::NoData);
            leaving_is_carried_through(session, shared, leave, answers);
        }
    } else if !(status is Halted) {
        let leave = Leave::Stop(StoppedReason::ResetCatch);
        leaving_is_carried_through(session, shared, leave, answers);
    }
}

/// Channels that the control block does not have are an error, the up channel first;
/// otherwise both are opened.
pub proof fn channels_must_exist(
    session: SessionModel,
    shared: SharedState,
    control_block: u64,
    up: usize,
    down: usize,
    now: Interval,
)
    requires
        session.step is AttachRegion,
    ensures
        ({
            let cfg = session.rtt_cfg;
            let idle = SessionModel { step: Step::Idle, ..session };
            let next = session.resumed(shared, Reply::Attached(control_block, up, down), now);
            if cfg.up_channel >= up {
                next == idle.failed(shared, Error::UpChannelInvalid(cfg.up_channel as usize))
            } else if cfg.down_channel >= down {
                next == idle.failed(shared, Error::DownChannelInvalid(cfg.down_channel as usize))
            } else {
                next.command == Command::OpenChannels(cfg.up_channel, cfg.down_channel)
            }
        }),
{
}

/// A stopped session that may not recover stays as it is.
pub proof fn stopped_session_stays_without_recovery(
    session: SessionModel,
    shared: SharedState,
    now: Interval,
)
    requires
        session.step is Idle,
        session.state is Stopped,
        !session.target_cfg.auto_recover,
    ensures
        session.updated(shared, now) == session.rest(shared),
        session.updated(shared, now).session == session,
{
}

/// A stopped session that may recover starts over as soon as its core answers
/// again, and keeps trying at intervals until then.
pub proof fn stopped_session_recovers(
    session: SessionModel,
    shared: SharedState,
    core: Reply,
    status: Reply,
    now: Interval,
)
    requires
        session.step is Idle,
        session.state is Stopped,
        session.target_cfg.auto_recover,
        session.recovery.reached(now.total()),
    ensures
        ({
            let asked = session.updated(shared, now);
            let attached = asked.session.resumed(shared, core, now);
            let checked = attached.session.resumed(shared, status, now);
            &&& asked.command == Command::AttachCore(session.target_cfg.core)
            &&& core is Failed ==> attached.session.step is Idle
                && attached.session.is_stopped_due_to_core_attach()
            &&& !(core is Failed) ==> attached.command is ReadStatus
            &&& !(core is Failed) && status is Failed ==> checked.session.step is Idle
                && checked.session.state == session.state
            &&& !(core is Failed) && !(status is Failed) ==> checked.session.step is Idle
                && checked.session.state is Init
        }),
{
}

/// A control block that is not found is looked for again as long as the time to
/// attach is not up; the session then stays where it is. It is an error once that
/// time is up, and at once where there is no such time.
pub proof fn control_block_is_looked_for_until_the_timeout(
    session: SessionModel,
    shared: SharedState,
    text: String,
    started: Interval,
    now: Interval,
)
    requires
        session.step is AttachRegion,
        session.state == RttSessionState::RttAttach(started),
    ensures
        ({
            let fault = RttFault::ControlBlockNotFound(text);
            let next = session.resumed(shared, Reply::Failed(fault), now);
            let idle = SessionModel { step: Step::Idle, ..session };
            match session.rtt_cfg.attach_timeout_ms {
                Some(ms) => if now.nanos_since(started) <= ms * 1_000_000 {
                    next == idle.rest(shared)
                } else {
                    next == idle.failed(shared, Error::Rtt(fault))
                },
                None => next == idle.failed(shared, Error::Rtt(fault)),
            }
        }),
{
}

} // verus!
