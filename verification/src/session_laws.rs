//! What holds of sessions whatever happens to them.
use crate::clock::Interval;
use crate::command::{Command, Reply};
use crate::protocol::{ProxySessionId, RttConfig, TargetConfig};
use crate::session_model;
use crate::session_model::{Leave, Outcome, SessionModel, Step};
use crate::session_types::{Error, RttFault, RttHandles, StoppedReason};
use crate::shared_state::SharedState;
use crate::target::CoreStatus;
use vstd::prelude::*;

verus! {

/// Whether two states belong to the same session with the same configuration.
pub open spec fn same_session(a: SessionModel, b: SessionModel) -> bool {
    &&& a.id == b.id
    &&& a.name == b.name
    &&& a.target_cfg == b.target_cfg
    &&& a.rtt_cfg == b.rtt_cfg
    &&& a.log_rtt_metrics == b.log_rtt_metrics
    &&& a.buffer_size == b.buffer_size
    &&& a.rtt_poll.limit == b.rtt_poll.limit
    &&& a.idle_poll.limit == b.idle_poll.limit
    &&& a.recovery.limit == b.recovery.limit
    &&& a.attach_retry.limit == b.attach_retry.limit
    &&& a.stopping_condition.limit == b.stopping_condition.limit
}

/// Whether a step belongs to the same session, which its client knows as much of as
/// before.
pub open spec fn kept(session: SessionModel, outcome: Outcome) -> bool {
    &&& same_session(outcome.session, session)
    &&& outcome.session.client_response_sent == session.client_response_sent
}

/// Leaving keeps the session, and so does an error.
proof fn leaving_is_kept(session: SessionModel, shared: SharedState, leave: Leave, error: Error)
    ensures
        kept(session, session.leaving(shared, leave)),
        kept(session, session.failed(shared, error)),
{
}

/// The start phase of core setup keeps the session.
proof fn start_is_kept(session: SessionModel, shared: SharedState, halted: bool, now: Interval)
    ensures
        kept(session, session.set_up_start(shared, halted)),
        kept(session, session.set_up_breakpoint(shared, now)),
{
}

/// The catch phase of core setup keeps the session.
proof fn catch_is_kept(session: SessionModel, shared: SharedState, halted: bool, now: Interval)
    ensures
        kept(session, session.set_up_catch(shared, halted)),
{
    start_is_kept(session, shared, halted, now);
    start_is_kept(SessionModel { caught: true, ..session }, shared.caught(), halted, now);
}

/// The clear phase of core setup keeps the session.
proof fn clear_is_kept(session: SessionModel, shared: SharedState, halted: bool, now: Interval)
    ensures
        kept(session, session.set_up_clear(shared, halted)),
        kept(session, session.set_up_reset(shared, halted)),
{
    catch_is_kept(session, shared, halted, now);
    catch_is_kept(SessionModel { cleared: true, ..session }, shared.cleared(), halted, now);
}

/// Core setup keeps the session.
proof fn init_keeps_the_session(
    session: SessionModel,
    step: Step<Seq<Command>>,
    shared: SharedState,
    reply: Reply,
    now: Interval,
)
    ensures
        kept(session, session.init_resumed(step, shared, reply, now)),
{
    match step {
        Step::SetupStatus => {
            clear_is_kept(session, shared, reply->Status_0 is Halted, now);
        },
        Step::Setup(_, halted, _) => {
            clear_is_kept(session, shared, halted, now);
            catch_is_kept(session, shared, halted, now);
            start_is_kept(session, shared, halted, now);
        },
        Step::SetupRunning => {
            start_is_kept(session, shared, false, now);
            let error = Error::CoreNotRunning(session.target_cfg.core);
            leaving_is_kept(session, shared, Leave::Shutdown, error);
        },
        _ => {},
    }
}

/// The last phases of the attach routine keep the session.
proof fn catching_is_kept(
    session: SessionModel,
    shared: SharedState,
    handles: RttHandles,
    now: Interval,
)
    ensures
        kept(session, session.respond(shared, handles, now)),
        kept(session, session.attach_catch(shared, handles, now)),
        kept(session, session.attach_control(shared, handles, now)),
{
}

/// The phases of the attach routine in which the channel mode is set up keep the session.
proof fn mode_is_kept(
    session: SessionModel,
    shared: SharedState,
    handles: RttHandles,
    status: CoreStatus,
    now: Interval,
)
    ensures
        kept(session, session.attach_mode(shared, handles, now)),
        kept(session, session.attach_release(shared, handles, now)),
        kept(session, session.attach_resume(shared, handles, status, now)),
{
    catching_is_kept(session, shared, handles, now);
}

/// What comes of finding the control block keeps the session.
proof fn finding_is_kept(
    session: SessionModel,
    shared: SharedState,
    control_block: u64,
    up: usize,
    down: usize,
    now: Interval,
)
    ensures
        kept(session, session.attached(shared, control_block, up, down, now)),
{
    let up_error = Error::UpChannelInvalid(session.rtt_cfg.up_channel as usize);
    let down_error = Error::DownChannelInvalid(session.rtt_cfg.down_channel as usize);
    leaving_is_kept(session, shared, Leave::Shutdown, up_error);
    leaving_is_kept(session, shared, Leave::Shutdown, down_error);
}

/// Attaching keeps the session.
#[verifier::rlimit(30)]
proof fn attach_keeps_the_session(
    session: SessionModel,
    step: Step<Seq<Command>>,
    shared: SharedState,
    reply: Reply,
    now: Interval,
)
    ensures
        same_session(session.attach_resumed(step, shared, reply, now).session, session),
        session.attach_resumed(step, shared, reply, now).session.client_response_sent == (
        session.client_response_sent || step is Respond),
{
    match step {
        Step::AttachRegion => {
            finding_is_kept(
                session,
                shared,
                reply->Attached_0,
                reply->Attached_1,
                reply->Attached_2,
                now,
            );
        },
        Step::Attach(_, handles, _) => {
            catching_is_kept(session, shared, handles, now);
            mode_is_kept(session, shared, handles, CoreStatus::Running, now);
        },
        Step::AttachStatus(handles) => {
            mode_is_kept(session, shared, handles, reply->Status_0, now);
        },
        _ => {},
    }
}

/// Looking after the core keeps the session, and so does passing data on.
proof fn forward_is_kept(session: SessionModel, shared: SharedState, bytes: usize, now: Interval)
    ensures
        kept(session, session.check_core(shared, now)),
        kept(session, session.forward(shared, bytes, now)),
{
}

/// A read keeps the session.
proof fn read_is_kept(session: SessionModel, shared: SharedState, bytes: usize, now: Interval)
    ensures
        kept(session, session.read(shared, bytes, now)),
{
    let noted = SessionModel {
        last_rtt_read_had_data: bytes != 0,
        last_data: if bytes != 0 {
            now
        } else {
            session.last_data
        },
        ..session
    };
    forward_is_kept(noted, shared, bytes, now);
}

/// Polling keeps the session.
proof fn poll_is_kept(session: SessionModel, shared: SharedState, now: Interval)
    ensures
        kept(session, session.poll(shared, now)),
{
    let polled = if session.last_rtt_read_had_data {
        SessionModel { rtt_poll: session.rtt_poll.checked(now.total()), ..session }
    } else {
        SessionModel { idle_poll: session.idle_poll.checked(now.total()), ..session }
    };
    forward_is_kept(polled, shared, 0, now);
}

/// A turn of a running session keeps the session.
proof fn run_keeps_the_session(
    session: SessionModel,
    step: Step<Seq<Command>>,
    shared: SharedState,
    reply: Reply,
    now: Interval,
)
    ensures
        kept(session, session.run_resumed(step, shared, reply, now)),
{
    match step {
        Step::RunCore => {
            poll_is_kept(session, shared, now);
        },
        Step::RunRead => {
            read_is_kept(session, shared, reply->Read_0, now);
        },
        Step::RunMetrics(bytes) => {
            forward_is_kept(session, shared, bytes, now);
        },
        _ => {},
    }
}

/// Recovery keeps the session.
proof fn recovery_keeps_the_session(
    session: SessionModel,
    step: Step<Seq<Command>>,
    shared: SharedState,
    reply: Reply,
    now: Interval,
)
    ensures
        same_session(session.recovery_resumed(step, shared, reply, now).session, session),
        session.recovery_resumed(step, shared, reply, now).session.client_response_sent
            == session.client_response_sent,
{
}

/// Leaving the core keeps the session.
proof fn stop_keeps_the_session(
    session: SessionModel,
    step: Step<Seq<Command>>,
    shared: SharedState,
    reply: Reply,
    now: Interval,
)
    ensures
        same_session(session.stop_resumed(step, shared, reply, now).session, session),
        session.stop_resumed(step, shared, reply, now).session.client_response_sent
            == session.client_response_sent,
{
}

/// A failure keeps the session.
proof fn failure_keeps_the_session(
    session: SessionModel,
    step: Step<Seq<Command>>,
    shared: SharedState,
    fault: RttFault,
    now: Interval,
)
    ensures
        same_session(session.resumed_failed(step, shared, fault, now).session, session),
        session.resumed_failed(step, shared, fault, now).session.client_response_sent
            == session.client_response_sent,
{
}

/// The start of a turn keeps the session.
proof fn update_keeps_the_session(session: SessionModel, shared: SharedState, now: Interval)
    ensures
        same_session(session.updated(shared, now).session, session),
        same_session(session.shut_down(shared).session, session),
        same_session(session.cut_off(shared).session, session),
        same_session(session.forgotten(), session),
{
}

/// An answer keeps the session. It counts as told about its start once the telling
/// has not failed.
proof fn answer_keeps_the_session(
    session: SessionModel,
    shared: SharedState,
    reply: Reply,
    now: Interval,
)
    ensures
        same_session(session.resumed(shared, reply, now).session, session),
        session.resumed(shared, reply, now).session.client_response_sent == (
        session.client_response_sent || session.step is Respond && !(reply is Failed)),
{
    let idle = SessionModel { step: Step::Idle, ..session };
    let step = session.step;
    match reply {
        Reply::Failed(fault) => {
            failure_keeps_the_session(idle, step, shared, fault, now);
        },
        _ => {
            match step {
                Step::Idle => {},
                Step::RecoverCore | Step::RecoverStatus => {
                    recovery_keeps_the_session(idle, step, shared, reply, now);
                },
                Step::SetupCore | Step::SetupStatus | Step::Setup(..) | Step::SetupRunning => {
                    init_keeps_the_session(idle, step, shared, reply, now);
                },
                Step::AttachCore | Step::AttachRegion | Step::Attach(..) => {
                    attach_keeps_the_session(idle, step, shared, reply, now);
                },
                Step::AttachStatus(_) | Step::Respond(_) => {
                    attach_keeps_the_session(idle, step, shared, reply, now);
                },
                Step::StopCore(..) | Step::StopStatus(..) | Step::Stop(..) | Step::Close => {
                    stop_keeps_the_session(idle, step, shared, reply, now);
                },
                _ => {
                    run_keeps_the_session(idle, step, shared, reply, now);
                },
            }
        },
    }
}

/// Whatever a session is told to do and whatever answers it gets, it keeps its
/// identity and its configuration.
pub proof fn steps_keep_the_session(
    session: SessionModel,
    shared: SharedState,
    reply: Reply,
    now: Interval,
)
    ensures
        same_session(session.updated(shared, now).session, session),
        same_session(session.resumed(shared, reply, now).session, session),
        same_session(session.shut_down(shared).session, session),
        same_session(session.cut_off(shared).session, session),
        same_session(session.forgotten(), session),
{
    update_keeps_the_session(session, shared, now);
    answer_keeps_the_session(session, shared, reply, now);
}

/// What a step leads to: a session that is well-formed, and a command that fits
/// the step it waits in.
pub open spec fn sound(outcome: Outcome) -> bool {
    &&& outcome.session.wf()
    &&& command_fits(outcome.session, outcome.command)
}

/// Whether a command is what a session asks for in the step it is in.
pub open spec fn command_fits(session: SessionModel, command: Command) -> bool {
    match session.step {
        Step::Idle => command is EndTurn,
        Step::RecoverCore | Step::SetupCore | Step::AttachCore | Step::RunCore => command
            == Command::AttachCore(session.target_cfg.core),
        Step::StopCore(..) => command == Command::AttachCore(session.target_cfg.core),
        Step::RecoverStatus | Step::SetupStatus | Step::SetupRunning | Step::RunStatus =>
            command is ReadStatus,
        Step::AttachStatus(_) | Step::StopStatus(..) => command is ReadStatus,
        Step::Setup(phase, ..) => session_model::in_setup_phase(phase, command),
        Step::AttachRegion => command == Command::AttachRtt(
            session_model::scan_region(session.rtt_cfg),
        ),
        Step::Attach(phase, ..) => session_model::in_attach_phase(phase, command),
        Step::Respond(_) => command == Command::SendStarted(session.id),
        Step::RunRead => command is ReadUp,
        Step::RunMetrics(_) => command is LogMetrics,
        Step::RunWrite => command is WriteClient,
        Step::RunStack(_) => command is ReadStackPointer,
        Step::RunCounter(_) => command is ReadProgramCounter,
        Step::Stop(..) => session_model::in_stop_phase(command),
        Step::Close => command is CloseStream,
    }
}

/// Whether the vector catch is only enabled while nobody has it enabled, and is
/// then counted.
pub open spec fn enables_first(shared: SharedState, outcome: Outcome) -> bool {
    outcome.command is EnableVectorCatch ==> shared.vector_catch_enabled == 0
        && outcome.shared.vector_catch_enabled == 1
}

/// Whether data only goes to the client right after it was read, or after that was
/// noted for the metrics.
pub open spec fn passes_data_on(step: Step<Seq<Command>>, reply: Reply, outcome: Outcome) -> bool {
    &&& outcome.session.step matches Step::RunMetrics(n) ==> step is RunRead && !(reply is Failed)
        && reply->Read_0 == n
    &&& outcome.command matches Command::WriteClient(n) ==> n != 0 && (step is RunRead && !(
    reply is Failed) && reply->Read_0 == n || step == Step::<Seq<Command>>::RunMetrics(n))
}

/// One for what is held, nothing otherwise.
pub open spec fn held(holds: bool) -> int {
    if holds {
        1
    } else {
        0
    }
}

/// Whether the shared counts can be those of a core that this session is on: they
/// hold what the session has counted itself in for, and one more still fits.
pub open spec fn counts_hold(session: SessionModel, shared: SharedState) -> bool {
    &&& held(session.cleared) <= shared.clear_vector_catch_and_breakpoints < usize::MAX
    &&& held(session.caught) <= shared.vector_catch_enabled < usize::MAX
}

/// Whether the shared counts change by just what the session has counted itself in
/// for or given up.
pub open spec fn counts_follow(
    session: SessionModel,
    shared: SharedState,
    outcome: Outcome,
) -> bool {
    counts_hold(session, shared) ==> {
        &&& outcome.shared.clear_vector_catch_and_breakpoints - held(outcome.session.cleared)
            == shared.clear_vector_catch_and_breakpoints - held(session.cleared)
        &&& outcome.shared.vector_catch_enabled - held(outcome.session.caught)
            == shared.vector_catch_enabled - held(session.caught)
    }
}

/// Whether a session that does not drive its core leaves the core's control
/// functionality alone. All that it may do is to let the core run on after a reset, when
/// it stops for that.
pub open spec fn leaves_control_alone(session: SessionModel, outcome: Outcome) -> bool {
    session_model::drives_the_core(outcome.command) ==> {
        ||| session_model::drives(session.target_cfg)
        ||| outcome.command is Run && stops_for_a_reset(outcome.session)
    }
}

/// Whether a session is about to leave its core because of a reset.
pub open spec fn stops_for_a_reset(session: SessionModel) -> bool {
    session.step matches Step::Stop(leave, _) && leave.reason() is ResetCatch
}

/// Whether the vector catch is disabled only when nobody holds it any more, and is
/// enabled when somebody comes to hold it.
pub open spec fn guards_the_catch(shared: SharedState, outcome: Outcome) -> bool {
    &&& outcome.command is DisableVectorCatch ==> outcome.shared.vector_catch_enabled == 0
    &&& shared.vector_catch_enabled == 0 && outcome.shared.vector_catch_enabled > 0
        ==> outcome.command is EnableVectorCatch
}

/// Whether a session that is not to control the target writes nothing to it.
pub open spec fn keeps_silent(session: SessionModel, command: Command) -> bool {
    command is WriteDown ==> !session.rtt_cfg.disable_control_plane
}

/// Whether a session that has left its core once stays marked for it.
pub open spec fn stays_marked(session: SessionModel, outcome: Outcome) -> bool {
    session.completed ==> outcome.session.completed
}

/// Whether an answer leads to a step that is sound in every way.
#[verifier::opaque]
pub open spec fn proper(
    session: SessionModel,
    shared: SharedState,
    reply: Reply,
    outcome: Outcome,
) -> bool {
    &&& sound(outcome)
    &&& enables_first(shared, outcome)
    &&& passes_data_on(session.step, reply, outcome)
    &&& counts_follow(session, shared, outcome)
    &&& leaves_control_alone(session, outcome)
    &&& guards_the_catch(shared, outcome)
    &&& stays_marked(session, outcome)
    &&& keeps_silent(session, outcome.command)
}

/// Core setup takes proper steps.
#[verifier::rlimit(30)]
proof fn init_is_proper(
    session: SessionModel,
    step: Step<Seq<Command>>,
    shared: SharedState,
    reply: Reply,
    now: Interval,
)
    requires
        (SessionModel { step, ..session }).wf(),
        step is SetupCore || step is SetupStatus || step is Setup || step is SetupRunning,
    ensures
        proper(
            SessionModel { step, ..session },
            shared,
            reply,
            session.init_resumed(step, shared, reply, now),
        ),
{
    reveal(proper);
}

/// Attaching takes proper steps.
#[verifier::rlimit(30)]
proof fn attach_is_proper(
    session: SessionModel,
    step: Step<Seq<Command>>,
    shared: SharedState,
    reply: Reply,
    now: Interval,
)
    requires
        (SessionModel { step, ..session }).wf(),
        step is AttachCore || step is AttachRegion || step is Attach || step is AttachStatus
            || step is Respond,
    ensures
        proper(
            SessionModel { step, ..session },
            shared,
            reply,
            session.attach_resumed(step, shared, reply, now),
        ),
{
    reveal(proper);
}

/// Whether a step is proper and has nothing to do with data.
pub open spec fn fits(session: SessionModel, shared: SharedState, outcome: Outcome) -> bool {
    &&& sound(outcome)
    &&& enables_first(shared, outcome)
    &&& counts_follow(session, shared, outcome)
    &&& leaves_control_alone(session, outcome)
    &&& guards_the_catch(shared, outcome)
    &&& stays_marked(session, outcome)
    &&& keeps_silent(session, outcome.command)
    &&& !(outcome.session.step is RunMetrics)
    &&& !(outcome.command is WriteClient)
}

/// A running session that leaves takes a fitting step.
proof fn leaving_fits(session: SessionModel, shared: SharedState, leave: Leave)
    requires
        session.state is Run,
    ensures
        fits(session, shared, session.leaving(shared, leave)),
{
}

/// A running session that looks after its core takes a fitting step.
proof fn check_core_fits(session: SessionModel, shared: SharedState, now: Interval)
    requires
        session.state is Run,
    ensures
        fits(session, shared, session.check_core(shared, now)),
{
}

/// A running session takes proper steps.
#[verifier::rlimit(30)]
proof fn run_is_proper(
    session: SessionModel,
    step: Step<Seq<Command>>,
    shared: SharedState,
    reply: Reply,
    now: Interval,
)
    requires
        session.state is Run,
        !(reply is Failed),
    ensures
        proper(
            SessionModel { step, ..session },
            shared,
            reply,
            session.run_resumed(step, shared, reply, now),
        ),
{
    reveal(proper);
    match step {
        Step::RunCore => {
            let polled = if session.last_rtt_read_had_data {
                SessionModel { rtt_poll: session.rtt_poll.checked(now.total()), ..session }
            } else {
                SessionModel { idle_poll: session.idle_poll.checked(now.total()), ..session }
            };
            check_core_fits(polled, shared, now);
        },
        Step::RunRead => {
            let noted = SessionModel { last_rtt_read_had_data: false, ..session };
            check_core_fits(noted, shared, now);
        },
        Step::RunMetrics(_) => {
            check_core_fits(session, shared, now);
        },
        Step::RunStatus => {
            leaving_fits(session, shared, Leave::Stop(StoppedReason::NoData));
            leaving_fits(session, shared, Leave::Stop(StoppedReason::ResetCatch));
        },
        Step::RunCounter(_) => {
            let address = reply->Register_0.as_address();
            leaving_fits(session, shared, Leave::Stop(StoppedReason::ResetCatch));
            leaving_fits(session, shared, Leave::Stop(StoppedReason::Breakpoint(address)));
        },
        _ => {},
    }
}

/// Recovery takes proper steps.
proof fn recovery_is_proper(
    session: SessionModel,
    step: Step<Seq<Command>>,
    shared: SharedState,
    reply: Reply,
    now: Interval,
)
    requires
        (SessionModel { step, ..session }).wf(),
        step is RecoverCore || step is RecoverStatus,
    ensures
        proper(
            SessionModel { step, ..session },
            shared,
            reply,
            session.recovery_resumed(step, shared, reply, now),
        ),
{
    reveal(proper);
}

/// Leaving the core takes proper steps.
proof fn stop_is_proper(
    session: SessionModel,
    step: Step<Seq<Command>>,
    shared: SharedState,
    reply: Reply,
    now: Interval,
)
    requires
        (SessionModel { step, ..session }).wf(),
        step is StopCore || step is StopStatus || step is Stop || step is Close,
    ensures
        proper(
            SessionModel { step, ..session },
            shared,
            reply,
            session.stop_resumed(step, shared, reply, now),
        ),
{
    reveal(proper);
}

/// A failure leads to a proper step.
#[verifier::rlimit(30)]
proof fn failure_is_proper(
    session: SessionModel,
    step: Step<Seq<Command>>,
    shared: SharedState,
    fault: RttFault,
    now: Interval,
)
    requires
        (SessionModel { step, ..session }).wf(),
    ensures
        proper(
            SessionModel { step, ..session },
            shared,
            Reply::Failed(fault),
            session.resumed_failed(step, shared, fault, now),
        ),
{
    reveal(proper);
}

/// Every answer leads to a proper step.
proof fn answer_is_proper(
    session: SessionModel,
    shared: SharedState,
    reply: Reply,
    now: Interval,
)
    requires
        session.wf(),
    ensures
        proper(session, shared, reply, session.resumed(shared, reply, now)),
{
    let idle = SessionModel { step: Step::Idle, ..session };
    let step = session.step;
    match reply {
        Reply::Failed(fault) => {
            failure_is_proper(idle, step, shared, fault, now);
        },
        _ => {
            match step {
                Step::Idle => {
                    reveal(proper);
                },
                Step::RecoverCore | Step::RecoverStatus => {
                    recovery_is_proper(idle, step, shared, reply, now);
                },
                Step::SetupCore | Step::SetupStatus | Step::Setup(..) | Step::SetupRunning => {
                    init_is_proper(idle, step, shared, reply, now);
                },
                Step::AttachCore | Step::AttachRegion | Step::Attach(..) => {
                    attach_is_proper(idle, step, shared, reply, now);
                },
                Step::AttachStatus(_) | Step::Respond(_) => {
                    attach_is_proper(idle, step, shared, reply, now);
                },
                Step::StopCore(..) | Step::StopStatus(..) | Step::Stop(..) | Step::Close => {
                    stop_is_proper(idle, step, shared, reply, now);
                },
                _ => {
                    run_is_proper(idle, step, shared, reply, now);
                },
            }
        },
    }
}

/// The start of a turn and a shutdown are sound.
proof fn update_is_sound(session: SessionModel, shared: SharedState, now: Interval)
    requires
        session.wf(),
        session.step is Idle,
    ensures
        sound(session.updated(shared, now)),
        counts_follow(session, shared, session.updated(shared, now)),
        leaves_control_alone(session, session.updated(shared, now)),
        guards_the_catch(shared, session.updated(shared, now)),
        stays_marked(session, session.updated(shared, now)),
        sound(session.shut_down(shared)),
        counts_follow(session, shared, session.shut_down(shared)),
        leaves_control_alone(session, session.shut_down(shared)),
        guards_the_catch(shared, session.shut_down(shared)),
        stays_marked(session, session.shut_down(shared)),
        sound(session.cut_off(shared)),
        counts_follow(session, shared, session.cut_off(shared)),
        leaves_control_alone(session, session.cut_off(shared)),
        guards_the_catch(shared, session.cut_off(shared)),
        stays_marked(session, session.cut_off(shared)),
        session.forgotten().wf(),
{
}

/// Every step of a session is sound: the session stays well-formed, and what it
/// asks for fits the step it waits in.
pub proof fn steps_are_sound(
    session: SessionModel,
    shared: SharedState,
    reply: Reply,
    now: Interval,
)
    requires
        session.wf(),
    ensures
        session.step is Idle ==> sound(session.updated(shared, now)),
        session.step is Idle ==> sound(session.shut_down(shared)),
        session.step is Idle ==> sound(session.cut_off(shared)),
        session.step is Idle ==> session.forgotten().wf(),
        sound(session.resumed(shared, reply, now)),
{
    if session.step is Idle {
        update_is_sound(session, shared, now);
    }
    answer_is_proper(session, shared, reply, now);
    reveal(proper);
}

/// The client is told at most once that its session has started: only while it
/// does not know, and it knows once the telling has not failed.
pub proof fn client_is_told_once(
    session: SessionModel,
    shared: SharedState,
    reply: Reply,
    now: Interval,
)
    requires
        session.wf(),
    ensures
        ({
            let next = session.resumed(shared, reply, now);
            &&& next.session.client_response_sent == (session.client_response_sent
                || session.step is Respond && !(reply is Failed))
            &&& next.command is SendStarted ==> next.command == Command::SendStarted(session.id)
                && !next.session.client_response_sent
        }),
{
    answer_is_proper(session, shared, reply, now);
    reveal(proper);
    answer_keeps_the_session(session, shared, reply, now);
}

/// Of the sessions on a core, only the first one enables the vector catch, and it
/// counts itself in with that.
pub proof fn first_session_enables_the_catch(
    session: SessionModel,
    shared: SharedState,
    reply: Reply,
    now: Interval,
)
    requires
        session.wf(),
    ensures
        enables_first(shared, session.resumed(shared, reply, now)),
{
    answer_is_proper(session, shared, reply, now);
    reveal(proper);
}

/// A new session waits for its first turn. Its buffer holds at least 64 bytes, and
/// it polls at most every millisecond, however it is configured.
pub proof fn new_session_is_sensible(
    id: ProxySessionId,
    name: Seq<char>,
    target_cfg: TargetConfig,
    rtt_cfg: RttConfig,
    log_rtt_metrics: bool,
    now: Interval,
)
    ensures
        ({
            let session = SessionModel::fresh(
                id,
                name,
                target_cfg,
                rtt_cfg,
                log_rtt_metrics,
                now,
            );
            &&& session.wf()
            &&& session.step is Idle
            &&& session.state is Init
            &&& session.buffer_size >= 64
            &&& session.rtt_poll.limit >= 1_000_000
            &&& session.idle_poll.limit >= 1_000_000
        }),
{
}

/// Two reads in a row lie at least a poll interval apart: the shorter one while
/// there is data, the idle one while there is none.
pub proof fn reads_are_paced(
    session: SessionModel,
    later: SessionModel,
    shared: SharedState,
    first: Interval,
    second: Interval,
)
    requires
        session.poll(shared, first).command is ReadUp,
        session.rtt_poll.read <= first.total(),
        session.idle_poll.read <= first.total(),
        later.rtt_poll == session.poll(shared, first).session.rtt_poll,
        later.idle_poll == session.poll(shared, first).session.idle_poll,
        later.last_rtt_read_had_data == session.last_rtt_read_had_data,
        later.poll(shared, second).command is ReadUp,
        first.total() <= second.total(),
    ensures
        second.total() - first.total() >= (if session.last_rtt_read_had_data {
            session.rtt_poll.limit
        } else {
            session.idle_poll.limit
        }),
{
}

/// The shared counts are those of a counting semaphore: whatever a session does, they
/// change by just what it counts itself in for or gives up. So a session never takes
/// away what another one holds, whichever way it leaves.
pub proof fn counts_follow_the_session(
    session: SessionModel,
    shared: SharedState,
    reply: Reply,
    now: Interval,
)
    requires
        session.wf(),
    ensures
        session.step is Idle ==> counts_follow(session, shared, session.updated(shared, now)),
        session.step is Idle ==> counts_follow(session, shared, session.shut_down(shared)),
        session.step is Idle ==> counts_follow(session, shared, session.cut_off(shared)),
        counts_follow(session, shared, session.resumed(shared, reply, now)),
{
    if session.step is Idle {
        update_is_sound(session, shared, now);
    }
    answer_is_proper(session, shared, reply, now);
    reveal(proper);
}

/// A session that has stopped or shut down holds nothing any more.
pub proof fn session_that_left_holds_nothing(session: SessionModel)
    requires
        session.wf(),
        session.state is Stopped || session.state is Shutdown,
    ensures
        !session.cleared,
        !session.caught,
{
}

/// The companion of a bootloader never drives the control functionality of its core:
/// whatever it is configured to do and whatever happens, it neither resets the core nor
/// sets or clears breakpoints. It lets the core run only when it stops for a reset.
pub proof fn companion_never_drives_the_core(
    session: SessionModel,
    shared: SharedState,
    reply: Reply,
    now: Interval,
)
    requires
        session.wf(),
        session.target_cfg.bootloader_companion_application,
    ensures
        session.step is Idle ==> !session_model::drives_the_core(
            session.updated(shared, now).command,
        ),
        session.step is Idle ==> !session_model::drives_the_core(session.shut_down(shared).command),
        session.step is Idle ==> !session_model::drives_the_core(session.cut_off(shared).command),
        ({
            let next = session.resumed(shared, reply, now);
            session_model::drives_the_core(next.command) ==> next.command is Run
                && stops_for_a_reset(next.session)
        }),
{
    if session.step is Idle {
        update_is_sound(session, shared, now);
    }
    answer_is_proper(session, shared, reply, now);
    reveal(proper);
}

/// A session whose control plane is disabled never writes to the target, whatever it is
/// told and whatever happens.
pub proof fn session_without_control_never_writes_to_the_target(
    session: SessionModel,
    shared: SharedState,
    reply: Reply,
    now: Interval,
)
    requires
        session.wf(),
        session.rtt_cfg.disable_control_plane,
    ensures
        !(session.resumed(shared, reply, now).command is WriteDown),
        session.step is Idle ==> !(session.updated(shared, now).command is WriteDown),
        session.step is Idle ==> !(session.shut_down(shared).command is WriteDown),
        session.step is Idle ==> !(session.cut_off(shared).command is WriteDown),
{
    answer_is_proper(session, shared, reply, now);
    reveal(proper);
}

/// Nobody loses the vector catch to another session: it is disabled only when nobody
/// holds it any more.
pub proof fn nobody_loses_the_catch(
    session: SessionModel,
    shared: SharedState,
    reply: Reply,
    now: Interval,
)
    requires
        session.wf(),
    ensures
        session.step is Idle ==> !(session.updated(shared, now).command is DisableVectorCatch),
        session.step is Idle ==> !(session.shut_down(shared).command is DisableVectorCatch),
        session.step is Idle ==> !(session.cut_off(shared).command is DisableVectorCatch),
        session.resumed(shared, reply, now).command is DisableVectorCatch ==> session.resumed(
            shared,
            reply,
            now,
        ).shared.vector_catch_enabled == 0,
{
    answer_is_proper(session, shared, reply, now);
    reveal(proper);
}

/// Whether a core catches resets once a command is carried out.
pub open spec fn catches_after(catches: bool, command: Command) -> bool {
    match command {
        Command::EnableVectorCatch => true,
        Command::DisableVectorCatch => false,
        _ => catches,
    }
}

/// As long as somebody holds the vector catch of a core, the core catches resets,
/// whatever the sessions on it do: if it is so before a step and what the step asks for
/// is carried out, it is so after the step.
pub proof fn core_catches_resets_while_somebody_holds_the_catch(
    session: SessionModel,
    shared: SharedState,
    reply: Reply,
    now: Interval,
    catches: bool,
)
    requires
        session.wf(),
        shared.vector_catch_enabled > 0 ==> catches,
    ensures
        ({
            let next = session.resumed(shared, reply, now);
            next.shared.vector_catch_enabled > 0 ==> catches_after(catches, next.command)
        }),
        session.step is Idle ==> {
            let next = session.updated(shared, now);
            next.shared.vector_catch_enabled > 0 ==> catches_after(catches, next.command)
        },
        session.step is Idle ==> {
            let next = session.shut_down(shared);
            next.shared.vector_catch_enabled > 0 ==> catches_after(catches, next.command)
        },
        session.step is Idle ==> {
            let next = session.cut_off(shared);
            next.shared.vector_catch_enabled > 0 ==> catches_after(catches, next.command)
        },
{
    if session.step is Idle {
        update_is_sound(session, shared, now);
    }
    answer_is_proper(session, shared, reply, now);
    reveal(proper);
}

/// A session is marked when it has stopped or shut down, and it stays marked from then
/// on, also when it recovers.
pub proof fn completion_is_not_taken_back(
    session: SessionModel,
    shared: SharedState,
    reply: Reply,
    now: Interval,
)
    requires
        session.wf(),
    ensures
        session.state is Stopped || session.state is Shutdown ==> session.completed,
        session.completed ==> {
            &&& session.resumed(shared, reply, now).session.completed
            &&& session.step is Idle ==> session.updated(shared, now).session.completed
            &&& session.step is Idle ==> session.shut_down(shared).session.completed
            &&& session.step is Idle ==> session.cut_off(shared).session.completed
            &&& session.forgotten().completed
        },
{
    if session.step is Idle {
        update_is_sound(session, shared, now);
    }
    answer_is_proper(session, shared, reply, now);
    reveal(proper);
}

/// What goes to the client is what was just read, all of it, and never nothing.
/// Between the read and the sending there is at most the note for the metrics.
pub proof fn client_gets_what_was_read(
    session: SessionModel,
    shared: SharedState,
    reply: Reply,
    now: Interval,
)
    requires
        session.wf(),
        session.accepts(reply),
    ensures
        ({
            let next = session.resumed(shared, reply, now);
            &&& next.session.step matches Step::RunMetrics(n) ==> session.step is RunRead && reply
                == Reply::Read(n)
            &&& next.command matches Command::WriteClient(n) ==> n != 0 && (session.step is RunRead
                && reply == Reply::Read(n) || session.step == Step::<Seq<Command>>::RunMetrics(n))
        }),
{
    answer_is_proper(session, shared, reply, now);
    reveal(proper);
}

} // verus!
