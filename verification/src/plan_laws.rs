//! What a session does on its core when nothing goes wrong.
use crate::clock::Interval;
use crate::command::{Command, Reply};
use crate::session_model;
use crate::session_model::{AttachPhase, Leave, Outcome, SessionModel, SetupPhase, Step};
use crate::session_types::{RttHandles, RttSessionState, StoppedReason};
use crate::shared_state::SharedState;
use crate::target::CoreStatus;
use crate::turn_laws;
use vstd::prelude::*;

verus! {

/// How the world answers in each step of a session.
pub type World = spec_fn(Step<Seq<Command>>) -> Reply;

/// A whole turn: what was done in it, and how it ended.
pub struct Turn {
    pub commands: Seq<Command>,
    pub end: Outcome,
}

/// The rest of a turn, up to that many answers.
pub open spec fn rest_of_turn(outcome: Outcome, world: World, now: Interval, fuel: nat) -> Turn
    decreases fuel,
{
    if fuel == 0 || outcome.session.step is Idle {
        Turn { commands: Seq::empty(), end: outcome }
    } else {
        let rest = rest_of_turn(
            turn_laws::replied(outcome, world(outcome.session.step), now),
            world,
            now,
            (fuel - 1) as nat,
        );
        Turn { commands: seq![outcome.command] + rest.commands, end: rest.end }
    }
}

/// The turn with something done before it.
pub open spec fn after(done: Seq<Command>, turn: Turn) -> Turn {
    Turn { commands: done + turn.commands, end: turn.end }
}

/// Whether nothing ever fails.
pub open spec fn is_kind(world: World) -> bool {
    forall|step: Step<Seq<Command>>| !(#[trigger] world(step) is Failed)
}

/// One answer more.
proof fn turn_goes_on(
    outcome: Outcome,
    next: Outcome,
    world: World,
    now: Interval,
    fuel: nat,
    rest: Turn,
)
    requires
        fuel > 0,
        !(outcome.session.step is Idle),
        next == turn_laws::replied(outcome, world(outcome.session.step), now),
        rest == rest_of_turn(next, world, now, (fuel - 1) as nat),
    ensures
        rest_of_turn(outcome, world, now, fuel) == after(seq![outcome.command], rest),
{
}

/// The order in which parts of a turn are put together does not matter.
proof fn after_is_associative(first: Seq<Command>, second: Seq<Command>, turn: Turn)
    ensures
        after(first, after(second, turn)) == after(first + second, turn),
{
    assert(first + (second + turn.commands) =~= first + second + turn.commands);
}

/// A setup phase does all that is left of it, and then the next phase begins.
#[verifier::rlimit(30)]
proof fn setup_phase_is_done(
    session: SessionModel,
    shared: SharedState,
    phase: SetupPhase,
    halted: bool,
    script: Seq<Command>,
    world: World,
    now: Interval,
    fuel: nat,
)
    requires
        session.step is Idle,
        is_kind(world),
        0 < script.len() <= fuel,
    ensures
        rest_of_turn(
            session.ask(shared, Step::Setup(phase, halted, script.drop_first()), script[0]),
            world,
            now,
            fuel,
        ) == after(
            script,
            rest_of_turn(
                session.setup_next(shared, phase, halted, Seq::empty(), now),
                world,
                now,
                (fuel - script.len()) as nat,
            ),
        ),
    decreases script.len(),
{
    reveal(turn_laws::replied);
    let todo = script.drop_first();
    let asked = session.ask(shared, Step::Setup(phase, halted, todo), script[0]);
    let next = turn_laws::replied(asked, world(asked.session.step), now);
    assert(next == session.setup_next(shared, phase, halted, todo, now));
    if todo.len() > 0 {
        setup_phase_is_done(
            session,
            shared,
            phase,
            halted,
            todo,
            world,
            now,
            (fuel - 1) as nat,
        );
    } else {
        assert(todo =~= Seq::empty());
    }
    let rest = rest_of_turn(next, world, now, (fuel - 1) as nat);
    let end = rest_of_turn(
        session.setup_next(shared, phase, halted, Seq::empty(), now),
        world,
        now,
        (fuel - script.len()) as nat,
    );
    assert(seq![script[0]] + rest.commands =~= script + end.commands);
}

proof fn breakpoint_phase_is_done(
    session: SessionModel,
    shared: SharedState,
    world: World,
    now: Interval,
    fuel: nat,
)
    requires
        session.step is Idle,
        is_kind(world),
        fuel >= 3,
    ensures
        rest_of_turn(session.set_up_breakpoint(shared, now), world, now, fuel) == (Turn {
            commands: session_model::breakpoint_script(session.target_cfg, session.rtt_cfg),
            end: session.set_up(shared, now),
        }),
{
    let script = session_model::breakpoint_script(session.target_cfg, session.rtt_cfg);
    if script.len() > 0 {
        setup_phase_is_done(
            session,
            shared,
            SetupPhase::Breakpoint,
            false,
            script,
            world,
            now,
            fuel,
        );
        assert(script + Seq::<Command>::empty() =~= script);
    } else {
        assert(script =~= Seq::empty());
    }
}

proof fn start_phase_is_done(
    session: SessionModel,
    shared: SharedState,
    halted: bool,
    world: World,
    now: Interval,
    fuel: nat,
)
    requires
        session.step is Idle,
        is_kind(world),
        world(Step::SetupRunning) == Reply::Status(CoreStatus::Running),
        fuel >= 7,
    ensures
        rest_of_turn(session.set_up_start(shared, halted), world, now, fuel) == (Turn {
            commands: session_model::start_script(session.target_cfg, halted)
                + seq![Command::ReadStatus] + session_model::breakpoint_script(
                session.target_cfg,
                session.rtt_cfg,
            ),
            end: session.set_up(shared, now),
        }),
{
    let script = session_model::start_script(session.target_cfg, halted);
    let bp = session_model::breakpoint_script(session.target_cfg, session.rtt_cfg);
    let check = session.ask(shared, Step::SetupRunning, Command::ReadStatus);
    let left = (fuel - script.len()) as nat;
    assert(rest_of_turn(check, world, now, left) == (Turn {
        commands: seq![Command::ReadStatus] + bp,
        end: session.set_up(shared, now),
    })) by {
        reveal(turn_laws::replied);
        breakpoint_phase_is_done(session, shared, world, now, (left - 1) as nat);
        assert(turn_laws::replied(check, world(check.session.step), now)
            == session.set_up_breakpoint(shared, now));
    }
    assert(script + (seq![Command::ReadStatus] + bp) =~= script + seq![Command::ReadStatus] + bp);
    if script.len() > 0 {
        setup_phase_is_done(
            session,
            shared,
            SetupPhase::Start,
            halted,
            script,
            world,
            now,
            fuel,
        );
    } else {
        assert(script =~= Seq::empty());
        assert(script + (seq![Command::ReadStatus] + bp) =~= seq![Command::ReadStatus] + bp);
    }
}

/// The commands of core setup from the catch phase on.
pub open spec fn setup_from_catch(session: SessionModel, shared: SharedState, halted: bool) -> Seq<
    Command,
> {
    session_model::only_if(
        session_model::catches_early(session.target_cfg),
        session_model::catch_script(shared.vector_catch_enabled == 0),
    ) + (session_model::start_script(session.target_cfg, halted) + seq![Command::ReadStatus]
        + session_model::breakpoint_script(session.target_cfg, session.rtt_cfg))
}

/// The shared state after core setup from the catch phase on.
pub open spec fn shared_from_catch(session: SessionModel, shared: SharedState) -> SharedState {
    if session_model::catches_early(session.target_cfg) {
        shared.caught()
    } else {
        shared
    }
}

/// The session after core setup from the catch phase on.
pub open spec fn counted_from_catch(session: SessionModel) -> SessionModel {
    SessionModel {
        caught: session.caught || session_model::catches_early(session.target_cfg),
        ..session
    }
}

proof fn catch_phase_is_done(
    session: SessionModel,
    shared: SharedState,
    halted: bool,
    world: World,
    now: Interval,
    fuel: nat,
)
    requires
        session.step is Idle,
        is_kind(world),
        world(Step::SetupRunning) == Reply::Status(CoreStatus::Running),
        fuel >= 8,
    ensures
        rest_of_turn(session.set_up_catch(shared, halted), world, now, fuel) == (Turn {
            commands: setup_from_catch(session, shared, halted),
            end: counted_from_catch(session).set_up(shared_from_catch(session, shared), now),
        }),
{
    let script = session_model::only_if(
        session_model::catches_early(session.target_cfg),
        session_model::catch_script(shared.vector_catch_enabled == 0),
    );
    let after_catch = shared_from_catch(session, shared);
    let rest = session_model::start_script(session.target_cfg, halted) + seq![Command::ReadStatus]
        + session_model::breakpoint_script(session.target_cfg, session.rtt_cfg);
    let counted = counted_from_catch(session);
    start_phase_is_done(counted, after_catch, halted, world, now, (fuel - script.len()) as nat);
    if script.len() > 0 {
        setup_phase_is_done(
            counted,
            after_catch,
            SetupPhase::Catch,
            halted,
            script,
            world,
            now,
            fuel,
        );
    } else {
        assert(script =~= Seq::empty());
        assert(script + rest =~= rest);
    }
}

/// What core setup clears: all that is left behind, if the session drives the core
/// and is the first to do so, but not a vector catch that somebody holds.
pub open spec fn clear_part(session: SessionModel, shared: SharedState) -> Seq<Command> {
    session_model::only_if(
        session_model::drives(session.target_cfg),
        session_model::clear_script(
            shared.clear_vector_catch_and_breakpoints == 0,
            shared.vector_catch_enabled == 0,
        ),
    )
}

/// The shared state after the clear phase of core setup.
pub open spec fn shared_after_clear(session: SessionModel, shared: SharedState) -> SharedState {
    if session_model::drives(session.target_cfg) {
        shared.cleared()
    } else {
        shared
    }
}

/// The shared state after core setup.
pub open spec fn shared_after_setup(session: SessionModel, shared: SharedState) -> SharedState {
    shared_from_catch(session, shared_after_clear(session, shared))
}

/// The session after the clear phase of core setup.
pub open spec fn counted_after_clear(session: SessionModel) -> SessionModel {
    SessionModel {
        cleared: session.cleared || session_model::drives(session.target_cfg),
        ..session
    }
}

/// The session after core setup, with what it has counted itself in for.
pub open spec fn counted_after_setup(session: SessionModel) -> SessionModel {
    counted_from_catch(counted_after_clear(session))
}

proof fn clear_phase_is_done(
    session: SessionModel,
    shared: SharedState,
    halted: bool,
    world: World,
    now: Interval,
    fuel: nat,
)
    requires
        session.step is Idle,
        is_kind(world),
        world(Step::SetupRunning) == Reply::Status(CoreStatus::Running),
        fuel >= 10,
    ensures
        rest_of_turn(session.set_up_clear(shared, halted), world, now, fuel) == (Turn {
            commands: clear_part(session, shared) + setup_from_catch(session, shared, halted),
            end: counted_after_setup(session).set_up(shared_after_setup(session, shared), now),
        }),
{
    let script = clear_part(session, shared);
    let counted = counted_after_clear(session);
    let cleared = shared_after_clear(session, shared);
    let rest = setup_from_catch(session, shared, halted);
    assert(rest == setup_from_catch(counted, cleared, halted));
    catch_phase_is_done(counted, cleared, halted, world, now, (fuel - script.len()) as nat);
    if script.len() > 0 {
        setup_phase_is_done(
            counted,
            cleared,
            SetupPhase::Clear,
            halted,
            script,
            world,
            now,
            fuel,
        );
    } else {
        assert(script =~= Seq::empty());
        assert(script + rest =~= rest);
    }
}

proof fn reset_phase_is_done(
    session: SessionModel,
    shared: SharedState,
    halted: bool,
    world: World,
    now: Interval,
    fuel: nat,
)
    requires
        session.step is Idle,
        is_kind(world),
        world(Step::SetupRunning) == Reply::Status(CoreStatus::Running),
        fuel >= 13,
    ensures
        rest_of_turn(session.set_up_reset(shared, halted), world, now, fuel) == (Turn {
            commands: session_model::reset_script(session.target_cfg) + (clear_part(session, shared)
                + setup_from_catch(session, shared, halted)),
            end: counted_after_setup(session).set_up(shared_after_setup(session, shared), now),
        }),
{
    let script = session_model::reset_script(session.target_cfg);
    let rest = clear_part(session, shared) + setup_from_catch(session, shared, halted);
    clear_phase_is_done(session, shared, halted, world, now, (fuel - script.len()) as nat);
    if script.len() > 0 {
        setup_phase_is_done(
            session,
            shared,
            SetupPhase::Reset,
            halted,
            script,
            world,
            now,
            fuel,
        );
    } else {
        assert(script =~= Seq::empty());
        assert(script + rest =~= rest);
    }
}

/// What core setup does on the core, given whether the core was halted at first.
pub open spec fn setup_plan(session: SessionModel, shared: SharedState, halted: bool) -> Seq<
    Command,
> {
    seq![Command::AttachCore(session.target_cfg.core), Command::ReadStatus]
        + session_model::reset_script(session.target_cfg) + clear_part(session, shared)
        + session_model::only_if(
        session_model::catches_early(session.target_cfg),
        session_model::catch_script(shared.vector_catch_enabled == 0),
    ) + session_model::start_script(session.target_cfg, halted) + seq![Command::ReadStatus]
        + session_model::breakpoint_script(session.target_cfg, session.rtt_cfg)
}

proof fn setup_plan_in_parts(session: SessionModel, shared: SharedState, halted: bool)
    ensures
        seq![Command::AttachCore(session.target_cfg.core)] + seq![Command::ReadStatus] + (
        session_model::reset_script(session.target_cfg) + (clear_part(session, shared)
            + setup_from_catch(session, shared, halted))) == setup_plan(session, shared, halted),
{
    let core = Command::AttachCore(session.target_cfg.core);
    many_parts_are_put_together(
        seq![core],
        seq![Command::ReadStatus],
        session_model::reset_script(session.target_cfg),
        clear_part(session, shared),
        session_model::only_if(
            session_model::catches_early(session.target_cfg),
            session_model::catch_script(shared.vector_catch_enabled == 0),
        ),
        session_model::start_script(session.target_cfg, halted),
        seq![Command::ReadStatus],
        session_model::breakpoint_script(session.target_cfg, session.rtt_cfg),
    );
    assert(seq![core] + seq![Command::ReadStatus] =~= seq![core, Command::ReadStatus]);
}

proof fn many_parts_are_put_together(
    a: Seq<Command>,
    b: Seq<Command>,
    c: Seq<Command>,
    d: Seq<Command>,
    e: Seq<Command>,
    f: Seq<Command>,
    g: Seq<Command>,
    h: Seq<Command>,
)
    ensures
        a + b + (c + (d + (e + (f + g + h)))) == a + b + c + d + e + f + g + h,
{
    let fgh = f + g + h;
    assert(e + fgh =~= e + f + g + h);
    let efgh = e + f + g + h;
    assert(d + efgh =~= d + e + f + g + h);
    let defgh = d + e + f + g + h;
    assert(c + defgh =~= c + d + e + f + g + h);
    let cdefgh = c + d + e + f + g + h;
    assert(a + b + cdefgh =~= a + b + c + d + e + f + g + h);
}

/// Where nothing fails and the core runs in the end, core setup carries out its
/// plan in one turn: it resets the core if so configured, clears what others left
/// behind if it is the first on the core, enables the vector catch if that is due
/// early and nobody has done so, starts the core where it has to, checks that it
/// runs, and sets the breakpoints, so before RTT is attached. From then on the session
/// attaches. It has counted itself in for just what it took of the core.
pub proof fn core_setup_follows_its_plan(
    session: SessionModel,
    shared: SharedState,
    world: World,
    now: Interval,
)
    requires
        session.step is Idle,
        session.state is Init,
        is_kind(world),
        world(Step::SetupStatus) is Status,
        world(Step::SetupRunning) == Reply::Status(CoreStatus::Running),
    ensures
        rest_of_turn(session.updated(shared, now), world, now, 22) == (Turn {
            commands: setup_plan(
                session,
                shared,
                world(Step::SetupStatus)->Status_0 is Halted,
            ),
            end: counted_after_setup(session).set_up(shared_after_setup(session, shared), now),
        }),
{
    let halted = world(Step::SetupStatus)->Status_0 is Halted;
    let core = session.updated(shared, now);
    let status = session.ask(shared, Step::SetupStatus, Command::ReadStatus);
    assert(turn_laws::replied(core, world(core.session.step), now) == status) by {
        reveal(turn_laws::replied);
    }
    assert(turn_laws::replied(status, world(status.session.step), now) == session.set_up_reset(
        shared,
        halted,
    )) by {
        reveal(turn_laws::replied);
    }
    reset_phase_is_done(session, shared, halted, world, now, 20);
    let reset = session.set_up_reset(shared, halted);
    let rest = rest_of_turn(reset, world, now, 20);
    turn_goes_on(status, reset, world, now, 21, rest);
    turn_goes_on(core, status, world, now, 22, after(seq![status.command], rest));
    after_is_associative(seq![core.command], seq![status.command], rest);
    setup_plan_in_parts(session, shared, halted);
}

/// A phase of the attach routine does all that is left of it, and then the next
/// phase begins.
proof fn control_phase_is_done(
    session: SessionModel,
    shared: SharedState,
    handles: RttHandles,
    script: Seq<Command>,
    world: World,
    now: Interval,
    fuel: nat,
)
    requires
        session.step is Idle,
        is_kind(world),
        0 < script.len() <= fuel,
    ensures
        rest_of_turn(
            session.ask(
                shared,
                Step::Attach(AttachPhase::Control, handles, script.drop_first()),
                script[0],
            ),
            world,
            now,
            fuel,
        ) == after(
            script,
            rest_of_turn(
                session.attach_catch(shared, handles, now),
                world,
                now,
                (fuel - script.len()) as nat,
            ),
        ),
    decreases script.len(),
{
    reveal(turn_laws::replied);
    let todo = script.drop_first();
    let asked = session.ask(
        shared,
        Step::Attach(AttachPhase::Control, handles, todo),
        script[0],
    );
    let next = turn_laws::replied(asked, world(asked.session.step), now);
    assert(next == session.attach_next(shared, AttachPhase::Control, handles, todo, now));
    if todo.len() > 0 {
        control_phase_is_done(session, shared, handles, todo, world, now, (fuel - 1) as nat);
    }
    let rest = rest_of_turn(next, world, now, (fuel - 1) as nat);
    let end = rest_of_turn(
        session.attach_catch(shared, handles, now),
        world,
        now,
        (fuel - script.len()) as nat,
    );
    assert(seq![script[0]] + rest.commands =~= script + end.commands);
}

/// The shared state after the attach routine.
pub open spec fn shared_after_attach(session: SessionModel, shared: SharedState) -> SharedState {
    if session_model::catches_early(session.target_cfg) {
        shared
    } else {
        shared.caught()
    }
}

/// The session after the attach routine, with what it has counted itself in for.
pub open spec fn counted_after_attach(session: SessionModel) -> SessionModel {
    SessionModel {
        client_response_sent: true,
        caught: session.caught || !session_model::catches_early(session.target_cfg),
        ..session
    }
}

/// What the attach routine does last: the vector catch, if it is due late, and
/// the response.
pub open spec fn attach_end(session: SessionModel, shared: SharedState) -> Seq<Command> {
    session_model::only_if(
        !session_model::catches_early(session.target_cfg),
        session_model::catch_script(shared.vector_catch_enabled == 0),
    ) + session_model::only_if(
        !session.client_response_sent,
        seq![Command::SendStarted(session.id)],
    )
}

proof fn response_is_sent(
    session: SessionModel,
    shared: SharedState,
    handles: RttHandles,
    world: World,
    now: Interval,
    fuel: nat,
)
    requires
        session.step is Idle,
        is_kind(world),
        fuel >= 1,
    ensures
        rest_of_turn(session.respond(shared, handles, now), world, now, fuel) == (Turn {
            commands: session_model::only_if(
                !session.client_response_sent,
                seq![Command::SendStarted(session.id)],
            ),
            end: (SessionModel { client_response_sent: true, ..session }).running(
                shared,
                handles,
                now,
            ),
        }),
{
    reveal(turn_laws::replied);
    if session.client_response_sent {
        assert((SessionModel { client_response_sent: true, ..session }) == session);
    } else {
        let asked = session.respond(shared, handles, now);
        let end = (SessionModel { client_response_sent: true, ..session }).running(
            shared,
            handles,
            now,
        );
        assert(turn_laws::replied(asked, world(asked.session.step), now) == end);
        assert(rest_of_turn(end, world, now, (fuel - 1) as nat).commands =~= Seq::empty());
        assert(seq![asked.command] + Seq::<Command>::empty() =~= seq![asked.command]);
    }
}

proof fn attach_ends(
    session: SessionModel,
    shared: SharedState,
    handles: RttHandles,
    world: World,
    now: Interval,
    fuel: nat,
)
    requires
        session.step is Idle,
        is_kind(world),
        fuel >= 2,
    ensures
        rest_of_turn(session.attach_catch(shared, handles, now), world, now, fuel) == (Turn {
            commands: attach_end(session, shared),
            end: counted_after_attach(session).running(
                shared_after_attach(session, shared),
                handles,
                now,
            ),
        }),
{
    let script = session_model::only_if(
        !session_model::catches_early(session.target_cfg),
        session_model::catch_script(shared.vector_catch_enabled == 0),
    );
    let caught = shared_after_attach(session, shared);
    let counted = SessionModel {
        caught: session.caught || !session_model::catches_early(session.target_cfg),
        ..session
    };
    let sent = session_model::only_if(
        !session.client_response_sent,
        seq![Command::SendStarted(session.id)],
    );
    if script.len() > 0 {
        let asked = session.attach_catch(shared, handles, now);
        assert(script =~= seq![Command::EnableVectorCatch]);
        assert(turn_laws::replied(asked, world(asked.session.step), now) == counted.respond(
            caught,
            handles,
            now,
        )) by {
            reveal(turn_laws::replied);
        }
        response_is_sent(counted, caught, handles, world, now, (fuel - 1) as nat);
        assert(seq![asked.command] + sent =~= script + sent);
    } else {
        response_is_sent(counted, caught, handles, world, now, fuel);
        assert(script + sent =~= sent);
    }
}

proof fn control_and_end_are_done(
    session: SessionModel,
    shared: SharedState,
    handles: RttHandles,
    world: World,
    now: Interval,
    fuel: nat,
)
    requires
        session.step is Idle,
        is_kind(world),
        fuel >= 5,
    ensures
        rest_of_turn(session.attach_control(shared, handles, now), world, now, fuel) == (Turn {
            commands: session_model::control_script(session.rtt_cfg) + attach_end(session, shared),
            end: counted_after_attach(session).running(
                shared_after_attach(session, shared),
                handles,
                now,
            ),
        }),
{
    let script = session_model::control_script(session.rtt_cfg);
    attach_ends(session, shared, handles, world, now, (fuel - script.len()) as nat);
    if script.len() > 0 {
        control_phase_is_done(session, shared, handles, script, world, now, fuel);
    } else {
        assert(script =~= Seq::empty());
        assert(script + attach_end(session, shared) =~= attach_end(session, shared));
    }
}

/// What the attach routine does at the breakpoint where the channel mode is set up: it
/// sets the mode and clears the breakpoint, and a core that has halted there runs on.
pub open spec fn mode_plan(session: SessionModel, halted: bool) -> Seq<Command> {
    session_model::only_if(
        session_model::sets_mode_up(session.target_cfg, session.rtt_cfg),
        seq![Command::SetBlockIfFull] + session_model::clear_breakpoint(
            session.rtt_cfg.setup_on_breakpoint_address,
        ) + seq![Command::ReadStatus] + session_model::only_if(halted, seq![Command::Run]),
    )
}

/// The steps in which the channel mode is set up lead to each other.
proof fn mode_leads_on(
    session: SessionModel,
    shared: SharedState,
    handles: RttHandles,
    world: World,
    now: Interval,
)
    requires
        session.step is Idle,
        is_kind(world),
        session_model::sets_mode_up(session.target_cfg, session.rtt_cfg),
        world(Step::AttachStatus(handles)) is Status,
    ensures
        ({
            let reply = world(Step::AttachStatus(handles));
            let mode = session.attach_mode(shared, handles, now);
            let release = session.attach_release(shared, handles, now);
            let status = session.ask(shared, Step::AttachStatus(handles), Command::ReadStatus);
            let resume = session.attach_resume(shared, handles, reply->Status_0, now);
            let control = session.attach_control(shared, handles, now);
            &&& turn_laws::replied(mode, world(mode.session.step), now) == release
            &&& turn_laws::replied(release, world(release.session.step), now) == status
            &&& turn_laws::replied(status, world(status.session.step), now) == resume
            &&& reply->Status_0 is Halted ==> turn_laws::replied(
                resume,
                world(resume.session.step),
                now,
            ) == control
        }),
{
    reveal(turn_laws::replied);
}

proof fn mode_is_set_up(
    session: SessionModel,
    shared: SharedState,
    handles: RttHandles,
    world: World,
    now: Interval,
    fuel: nat,
)
    requires
        session.step is Idle,
        is_kind(world),
        session_model::sets_mode_up(session.target_cfg, session.rtt_cfg) ==> world(
            Step::AttachStatus(handles),
        ) is Status,
        fuel >= 9,
    ensures
        rest_of_turn(session.attach_mode(shared, handles, now), world, now, fuel) == (Turn {
            commands: mode_plan(session, world(Step::AttachStatus(handles))->Status_0 is Halted) + (
            session_model::control_script(session.rtt_cfg) + attach_end(session, shared)),
            end: counted_after_attach(session).running(
                shared_after_attach(session, shared),
                handles,
                now,
            ),
        }),
{
    let reply = world(Step::AttachStatus(handles));
    let plan = mode_plan(session, reply->Status_0 is Halted);
    let control = session.attach_control(shared, handles, now);
    let left = (fuel - plan.len()) as nat;
    control_and_end_are_done(session, shared, handles, world, now, left);
    let rest = rest_of_turn(control, world, now, left);
    if session_model::sets_mode_up(session.target_cfg, session.rtt_cfg) {
        let mode = session.attach_mode(shared, handles, now);
        let release = session.attach_release(shared, handles, now);
        let status = session.ask(shared, Step::AttachStatus(handles), Command::ReadStatus);
        let resume = session.attach_resume(shared, handles, reply->Status_0, now);
        mode_leads_on(session, shared, handles, world, now);
        let resumed = if reply->Status_0 is Halted {
            turn_goes_on(resume, control, world, now, left + 1, rest);
            after(seq![resume.command], rest)
        } else {
            rest
        };
        turn_goes_on(status, resume, world, now, (fuel - 2) as nat, resumed);
        let waited = after(seq![status.command], resumed);
        turn_goes_on(release, status, world, now, (fuel - 1) as nat, waited);
        turn_goes_on(mode, release, world, now, fuel, after(seq![release.command], waited));
        assert(seq![mode.command] + (seq![release.command] + (seq![status.command]
            + resumed.commands)) =~= plan + rest.commands);
    } else {
        assert(plan =~= Seq::empty());
        assert(plan + rest.commands =~= rest.commands);
    }
}

/// What the attach routine does first: it looks for the control block and opens the
/// channels.
pub open spec fn opening(session: SessionModel) -> Seq<Command> {
    seq![
        Command::AttachCore(session.target_cfg.core),
        Command::AttachRtt(session_model::scan_region(session.rtt_cfg)),
        Command::OpenChannels(session.rtt_cfg.up_channel, session.rtt_cfg.down_channel),
    ]
}

/// What the attach routine does, given whether the core has halted at the breakpoint
/// where the channel mode is set up.
pub open spec fn attach_plan(session: SessionModel, shared: SharedState, halted: bool) -> Seq<
    Command,
> {
    opening(session) + mode_plan(session, halted) + session_model::control_script(session.rtt_cfg)
        + attach_end(session, shared)
}

proof fn parts_are_put_together(
    a: Seq<Command>,
    b: Seq<Command>,
    c: Seq<Command>,
    d: Seq<Command>,
)
    ensures
        a + (b + (c + d)) == a + b + c + d,
{
    assert(a + (b + (c + d)) =~= a + b + c + d);
}

/// The attach routine opens the channels first.
#[verifier::rlimit(30)]
proof fn opening_comes_first(
    session: SessionModel,
    shared: SharedState,
    handles: RttHandles,
    up: usize,
    down: usize,
    world: World,
    now: Interval,
)
    requires
        session.step is Idle,
        session.state is RttAttach,
        session.attach_retry.reached(now.total()),
        is_kind(world),
        world(Step::AttachRegion) == Reply::Attached(handles.control_block, up, down),
        session.rtt_cfg.up_channel < up,
        session.rtt_cfg.down_channel < down,
        handles.up_channel == session.rtt_cfg.up_channel,
        handles.down_channel == session.rtt_cfg.down_channel,
    ensures
        ({
            let due = SessionModel {
                attach_retry: session.attach_retry.checked(now.total()),
                ..session
            };
            rest_of_turn(session.updated(shared, now), world, now, 22) == after(
                opening(session),
                rest_of_turn(due.attach_mode(shared, handles, now), world, now, 19),
            )
        }),
{
    let due = SessionModel { attach_retry: session.attach_retry.checked(now.total()), ..session };
    let core = session.updated(shared, now);
    let region = due.ask(
        shared,
        Step::AttachRegion,
        Command::AttachRtt(session_model::scan_region(due.rtt_cfg)),
    );
    let open = due.ask(
        shared,
        Step::Attach(AttachPhase::Open, handles, Seq::empty()),
        Command::OpenChannels(due.rtt_cfg.up_channel, due.rtt_cfg.down_channel),
    );
    assert(turn_laws::replied(core, world(core.session.step), now) == region) by {
        reveal(turn_laws::replied);
    }
    assert(turn_laws::replied(region, world(region.session.step), now) == open) by {
        reveal(turn_laws::replied);
    }
    assert(turn_laws::replied(open, world(open.session.step), now) == due.attach_mode(
        shared,
        handles,
        now,
    )) by {
        reveal(turn_laws::replied);
    }
    let mode = due.attach_mode(shared, handles, now);
    let rest = rest_of_turn(mode, world, now, 19);
    turn_goes_on(open, mode, world, now, 20, rest);
    turn_goes_on(region, open, world, now, 21, after(seq![open.command], rest));
    turn_goes_on(
        core,
        region,
        world,
        now,
        22,
        after(seq![region.command], after(seq![open.command], rest)),
    );
    assert(seq![core.command] + (seq![region.command] + (seq![open.command] + rest.commands))
        =~= opening(session) + rest.commands);
}

/// Where nothing fails, the control block is found and it has the channels, the
/// attach routine carries out its plan in one turn: it opens the channels, sets their
/// mode up if there is a breakpoint for that, starts tracing on the target if it is to
/// control it, enables the vector catch if that
/// is due late and nobody has done so, and tells the client unless the client
/// knows. From then on the session runs.
pub proof fn attach_follows_its_plan(
    session: SessionModel,
    shared: SharedState,
    control_block: u64,
    up: usize,
    down: usize,
    world: World,
    now: Interval,
)
    requires
        session.step is Idle,
        session.state is RttAttach,
        session.attach_retry.reached(now.total()),
        is_kind(world),
        world(Step::AttachRegion) == Reply::Attached(control_block, up, down),
        session.rtt_cfg.up_channel < up,
        session.rtt_cfg.down_channel < down,
        session_model::sets_mode_up(session.target_cfg, session.rtt_cfg) ==> world(
            Step::AttachStatus(
                RttHandles {
                    control_block,
                    up_channel: session.rtt_cfg.up_channel,
                    down_channel: session.rtt_cfg.down_channel,
                },
            ),
        ) is Status,
    ensures
        ({
            let handles = RttHandles {
                control_block,
                up_channel: session.rtt_cfg.up_channel,
                down_channel: session.rtt_cfg.down_channel,
            };
            let halted = world(Step::AttachStatus(handles))->Status_0 is Halted;
            let due = SessionModel {
                attach_retry: session.attach_retry.checked(now.total()),
                ..session
            };
            rest_of_turn(session.updated(shared, now), world, now, 22) == (Turn {
                commands: attach_plan(session, shared, halted),
                end: counted_after_attach(due).running(
                    shared_after_attach(session, shared),
                    handles,
                    now,
                ),
            })
        }),
{
    let handles = RttHandles {
        control_block,
        up_channel: session.rtt_cfg.up_channel,
        down_channel: session.rtt_cfg.down_channel,
    };
    let due = SessionModel { attach_retry: session.attach_retry.checked(now.total()), ..session };
    let halted = world(Step::AttachStatus(handles))->Status_0 is Halted;
    opening_comes_first(session, shared, handles, up, down, world, now);
    mode_is_set_up(due, shared, handles, world, now, 19);
    assert(mode_plan(due, halted) == mode_plan(session, halted));
    assert(attach_end(due, shared) == attach_end(session, shared));
    parts_are_put_together(
        opening(session),
        mode_plan(session, halted),
        session_model::control_script(session.rtt_cfg),
        attach_end(session, shared),
    );
}

/// What is done once the core is left: a session that shuts down closes the
/// client's connection.
pub open spec fn closing(leave: Leave) -> Seq<Command> {
    session_model::only_if(leave is Shutdown, seq![Command::CloseStream])
}

proof fn stop_commands_are_done(
    session: SessionModel,
    shared: SharedState,
    leave: Leave,
    todo: Seq<Command>,
    world: World,
    now: Interval,
    fuel: nat,
)
    requires
        session.step is Idle,
        fuel > todo.len(),
    ensures
        rest_of_turn(session.stop_next(shared, leave, todo), world, now, fuel) == (Turn {
            commands: todo + closing(leave),
            end: (SessionModel { state: turn_laws::left_state(leave), ..session }).rest(shared),
        }),
    decreases todo.len(),
{
    let asked = session.stop_next(shared, leave, todo);
    let end = (SessionModel { state: turn_laws::left_state(leave), ..session }).rest(shared);
    let none = Turn { commands: Seq::<Command>::empty(), end };
    if todo.len() > 0 {
        let rest = todo.drop_first();
        let next = session.stop_next(shared, leave, rest);
        assert(turn_laws::replied(asked, world(asked.session.step), now) == next) by {
            reveal(turn_laws::replied);
        }
        stop_commands_are_done(session, shared, leave, rest, world, now, (fuel - 1) as nat);
        turn_goes_on(
            asked,
            next,
            world,
            now,
            fuel,
            rest_of_turn(next, world, now, (fuel - 1) as nat),
        );
        assert(seq![todo[0]] + (rest + closing(leave)) =~= todo + closing(leave));
    } else if leave is Shutdown {
        assert(turn_laws::replied(asked, world(asked.session.step), now) == end) by {
            reveal(turn_laws::replied);
        }
        turn_goes_on(asked, end, world, now, fuel, none);
        assert(seq![Command::CloseStream] + none.commands =~= todo + closing(leave));
    } else {
        assert(none.commands =~= todo + closing(leave));
    }
}

/// Whether the core has halted where the channel mode is set up, as the world tells a
/// session that leaves.
pub open spec fn found_halted(session: SessionModel, leave: Leave, world: World) -> bool {
    &&& session.waits_at_breakpoint()
    &&& world(stop_status(session, leave)) matches Reply::Status(CoreStatus::Halted(_))
}

/// The step in which a session that leaves looks whether its core has halted where the
/// channel mode is set up.
pub open spec fn stop_status(session: SessionModel, leave: Leave) -> Step<Seq<Command>> {
    Step::StopStatus(leave, session.resumes(session.caught, leave))
}

/// What a session that leaves does on its core, given whether that has halted where the
/// channel mode is set up.
pub open spec fn stop_plan(
    session: SessionModel,
    shared: SharedState,
    leave: Leave,
    halted: bool,
) -> Seq<Command> {
    session_model::only_if(session.waits_at_breakpoint(), seq![Command::ReadStatus])
        + session.stop_script(
        session.is_last(shared),
        session.resumes(session.caught, leave) || halted,
    )
}

/// A session that has left.
pub open spec fn session_left(session: SessionModel, leave: Leave) -> SessionModel {
    SessionModel {
        last_rtt_read_had_data: true,
        completed: true,
        cleared: false,
        caught: false,
        state: turn_laws::left_state(leave),
        ..session
    }
}

/// A session on its way out.
pub open spec fn session_leaving(session: SessionModel) -> SessionModel {
    SessionModel {
        last_rtt_read_had_data: true,
        completed: true,
        cleared: false,
        caught: false,
        ..session
    }
}

/// A session leaves without a look at its core, or does not reach it.
proof fn leaving_at_once_is_done(
    session: SessionModel,
    shared: SharedState,
    leave: Leave,
    world: World,
    now: Interval,
    fuel: nat,
)
    requires
        session.step is Idle,
        session.is_on_core(),
        fuel >= 7,
        !session.waits_at_breakpoint() || world(Step::StopCore(leave, session.caught)) is Failed,
    ensures
        ({
            let reached = !(world(Step::StopCore(leave, session.caught)) is Failed);
            rest_of_turn(session.leaving(shared, leave), world, now, fuel) == (Turn {
                commands: seq![Command::AttachCore(session.target_cfg.core)] + (
                session_model::only_if(
                    reached,
                    session.stop_script(
                        session.is_last(shared),
                        session.resumes(session.caught, leave),
                    ),
                ) + closing(leave)),
                end: session_left(session, leave).rest(
                    shared.released(session.cleared, session.caught),
                ),
            })
        }),
{
    let core = session.leaving(shared, leave);
    let leaving = session_leaving(session);
    let released = shared.released(session.cleared, session.caught);
    let reached = !(world(Step::StopCore(leave, session.caught)) is Failed);
    let resume = session.resumes(session.caught, leave);
    let script = session_model::only_if(
        reached,
        session.stop_script(session.is_last(shared), resume),
    );
    let next = leaving.stop_next(released, leave, script);
    assert(turn_laws::replied(core, world(core.session.step), now) == next) by {
        reveal(turn_laws::replied);
    }
    let left = (fuel - 1) as nat;
    stop_commands_are_done(leaving, released, leave, script, world, now, left);
    turn_goes_on(core, next, world, now, fuel, rest_of_turn(next, world, now, left));
}

/// A session leaves with a look at its core.
proof fn leaving_with_a_look_is_done(
    session: SessionModel,
    shared: SharedState,
    leave: Leave,
    world: World,
    now: Interval,
    fuel: nat,
)
    requires
        session.step is Idle,
        fuel >= 7,
        session.waits_at_breakpoint(),
        !(world(Step::StopCore(leave, session.caught)) is Failed),
        session_model::step_accepts(
            stop_status(session, leave),
            world(stop_status(session, leave)),
        ),
    ensures
        rest_of_turn(session.leaving(shared, leave), world, now, fuel) == (Turn {
            commands: seq![Command::AttachCore(session.target_cfg.core)] + (
            seq![Command::ReadStatus] + (session.stop_script(
                session.is_last(shared),
                session.resumes(session.caught, leave) || found_halted(session, leave, world),
            ) + closing(leave))),
            end: session_left(session, leave).rest(
                shared.released(session.cleared, session.caught),
            ),
        }),
{
    let core = session.leaving(shared, leave);
    let leaving = session_leaving(session);
    let released = shared.released(session.cleared, session.caught);
    let resume = session.resumes(session.caught, leave) || found_halted(session, leave, world);
    let script = session.stop_script(session.is_last(shared), resume);
    let look = leaving.ask(released, stop_status(session, leave), Command::ReadStatus);
    let next = leaving.stop_next(released, leave, script);
    assert(turn_laws::replied(core, world(core.session.step), now) == look) by {
        reveal(turn_laws::replied);
    }
    assert(turn_laws::replied(look, world(look.session.step), now) == next) by {
        reveal(turn_laws::replied);
    }
    let left = (fuel - 2) as nat;
    stop_commands_are_done(leaving, released, leave, script, world, now, left);
    let rest = rest_of_turn(next, world, now, left);
    turn_goes_on(look, next, world, now, (fuel - 1) as nat, rest);
    turn_goes_on(core, look, world, now, fuel, after(seq![look.command], rest));
}

proof fn three_parts_are_put_together(a: Seq<Command>, b: Seq<Command>, c: Seq<Command>)
    ensures
        a + (b + c) == a + b + c,
        Seq::<Command>::empty() + a == a,
{
    assert(a + (b + c) =~= a + b + c);
    assert(Seq::<Command>::empty() + a =~= a);
}

/// What a session does when it leaves its core. It does not matter whether any of
/// that fails. If the core can be reached, the vector catch is disabled if nobody else
/// holds it, a running session that controls the target stops tracing on it, one that
/// drives the core clears its breakpoints, and a core runs on that a stopping condition
/// has halted or that waits where the channel mode was to be set up. The session gives
/// back just what it has counted itself in for.
pub proof fn leaving_follows_its_plan(
    session: SessionModel,
    shared: SharedState,
    leave: Leave,
    world: World,
    now: Interval,
)
    requires
        session.step is Idle,
        session.is_on_core(),
        session_model::step_accepts(
            stop_status(session, leave),
            world(stop_status(session, leave)),
        ),
    ensures
        ({
            let reached = !(world(Step::StopCore(leave, session.caught)) is Failed);
            let halted = found_halted(session, leave, world);
            rest_of_turn(session.leaving(shared, leave), world, now, 7) == (Turn {
                commands: seq![Command::AttachCore(session.target_cfg.core)]
                    + session_model::only_if(
                    reached,
                    stop_plan(session, shared, leave, halted),
                ) + closing(leave),
                end: session_left(session, leave).rest(
                    shared.released(session.cleared, session.caught),
                ),
            })
        }),
{
    let core = seq![Command::AttachCore(session.target_cfg.core)];
    let look = seq![Command::ReadStatus];
    let halted = found_halted(session, leave, world);
    let script = session.stop_script(
        session.is_last(shared),
        session.resumes(session.caught, leave) || halted,
    );
    let none = Seq::<Command>::empty();
    if session.waits_at_breakpoint() && !(world(Step::StopCore(leave, session.caught)) is Failed) {
        leaving_with_a_look_is_done(session, shared, leave, world, now, 7);
        three_parts_are_put_together(look, script, closing(leave));
        three_parts_are_put_together(core, look + script, closing(leave));
    } else {
        leaving_at_once_is_done(session, shared, leave, world, now, 7);
        three_parts_are_put_together(script, none, none);
        three_parts_are_put_together(core, script, closing(leave));
        three_parts_are_put_together(core, none, closing(leave));
    }
}

/// Where the core runs and no data came in time, the look at the core ends with a stop.
proof fn look_at_the_core_ends_the_session(
    session: SessionModel,
    shared: SharedState,
    world: World,
    now: Interval,
    fuel: nat,
)
    requires
        session.step is Idle,
        session.state is Run,
        session.is_out_of_data(now),
        world(Step::RunStatus) == Reply::Status(CoreStatus::Running),
        fuel >= 8,
    ensures
        ({
            let end = rest_of_turn(session.check_core(shared, now), world, now, fuel).end;
            &&& end.session.step is Idle
            &&& end.session.state == RttSessionState::Stopped(StoppedReason::NoData)
            &&& end.shared == shared.released(session.cleared, session.caught)
        }),
{
    let leave = Leave::Stop(StoppedReason::NoData);
    let asked = session.check_core(shared, now);
    let checked = SessionModel {
        stopping_condition: session.stopping_condition.checked(now.total()),
        ..session
    };
    let next = checked.leaving(shared, leave);
    assert(turn_laws::replied(asked, world(asked.session.step), now) == next) by {
        reveal(turn_laws::replied);
    }
    let left = (fuel - 1) as nat;
    turn_goes_on(asked, next, world, now, fuel, rest_of_turn(next, world, now, left));
    leaving_at_once_is_done(checked, shared, leave, world, now, left);
}

/// Where no data came in time, a running session whose core runs stops for that reason
/// in its next turn, if no data comes with that one either: whether or not a read is
/// due, and whether or not the reads are noted for the metrics.
#[verifier::rlimit(30)]
pub proof fn session_out_of_data_stops_in_its_turn(
    session: SessionModel,
    shared: SharedState,
    world: World,
    now: Interval,
)
    requires
        session.step is Idle,
        session.state is Run,
        session.is_out_of_data(now),
        is_kind(world),
        world(Step::RunRead) == Reply::Read(0),
        world(Step::RunStatus) == Reply::Status(CoreStatus::Running),
    ensures
        ({
            let end = rest_of_turn(session.updated(shared, now), world, now, 22).end;
            &&& end.session.step is Idle
            &&& end.session.state == RttSessionState::Stopped(StoppedReason::NoData)
            &&& end.shared == shared.released(session.cleared, session.caught)
        }),
{
    let core = session.updated(shared, now);
    let polled = session.poll(shared, now);
    assert(turn_laws::replied(core, world(core.session.step), now) == polled) by {
        reveal(turn_laws::replied);
    }
    turn_goes_on(core, polled, world, now, 22, rest_of_turn(polled, world, now, 21));
    let unread = if session.last_rtt_read_had_data {
        SessionModel { rtt_poll: session.rtt_poll.checked(now.total()), ..session }
    } else {
        SessionModel { idle_poll: session.idle_poll.checked(now.total()), ..session }
    };
    if polled.command is ReadUp {
        let read = unread.read(shared, 0, now);
        assert(turn_laws::replied(polled, world(polled.session.step), now) == read) by {
            reveal(turn_laws::replied);
        }
        turn_goes_on(polled, read, world, now, 21, rest_of_turn(read, world, now, 20));
        let noted = SessionModel { last_rtt_read_had_data: false, ..unread };
        if session.log_rtt_metrics {
            let counted = SessionModel { metrics: unread.metrics.updated(0, now), ..noted };
            let next = counted.check_core(shared, now);
            assert(turn_laws::replied(read, world(read.session.step), now) == next) by {
                reveal(turn_laws::replied);
            }
            turn_goes_on(read, next, world, now, 20, rest_of_turn(next, world, now, 19));
            look_at_the_core_ends_the_session(counted, shared, world, now, 19);
        } else {
            look_at_the_core_ends_the_session(noted, shared, world, now, 20);
        }
    } else {
        look_at_the_core_ends_the_session(unread, shared, world, now, 21);
    }
}

/// A session that leaves its core gives back all that it took of the shared state, and
/// no more: whether it leaves before its core is set up, after that, or when it has
/// attached, and whether or not the core can be reached.
pub proof fn leaving_gives_back_what_was_taken(
    session: SessionModel,
    shared: SharedState,
    leave: Leave,
)
    requires
        session.is_on_core(),
        !session.cleared,
        !session.caught,
        shared.clear_vector_catch_and_breakpoints < usize::MAX,
        shared.vector_catch_enabled < usize::MAX,
    ensures
        ({
            let set_up = counted_after_setup(session);
            let taken = shared_after_setup(session, shared);
            let attached = counted_after_attach(set_up);
            let all = shared_after_attach(set_up, taken);
            &&& session.leaving(shared, leave).shared == shared
            &&& session.cut_off(shared).shared == shared
            &&& set_up.leaving(taken, leave).shared == shared
            &&& set_up.cut_off(taken).shared == shared
            &&& attached.caught
            &&& attached.leaving(all, leave).shared == shared
            &&& attached.cut_off(all).shared == shared
        }),
{
}

/// A session disables the vector catch when it leaves just if nobody else holds it: it is
/// then held by nobody once the session has given up its part.
pub proof fn the_last_one_disables_the_catch(
    session: SessionModel,
    shared: SharedState,
    leave: Leave,
    halted: bool,
    i: int,
)
    ensures
        session.is_last(shared) <==> shared.released(
            session.cleared,
            session.caught,
        ).vector_catch_enabled == 0,
        ({
            let plan = stop_plan(session, shared, leave, halted);
            0 <= i < plan.len() && plan[i] is DisableVectorCatch ==> session.is_last(shared)
        }),
{
}

/// The companion of a bootloader does not drive the core when it sets it up, even if
/// the core is halted, nor when it attaches, whatever it is configured to do: it neither
/// resets nor runs the core, and it leaves all breakpoints alone. When it leaves, all
/// that it may do is to let a core run on whose reset was caught, if it caught resets
/// itself.
pub proof fn companion_does_not_drive_the_core(
    session: SessionModel,
    shared: SharedState,
    halted: bool,
    leave: Leave,
    i: int,
)
    requires
        session.target_cfg.bootloader_companion_application,
    ensures
        ({
            let plan = setup_plan(session, shared, halted);
            0 <= i < plan.len() ==> !session_model::drives_the_core(plan[i])
        }),
        ({
            let plan = attach_plan(session, shared, halted);
            0 <= i < plan.len() ==> !session_model::drives_the_core(plan[i])
        }),
        ({
            let plan = stop_plan(session, shared, leave, false);
            0 <= i < plan.len() && session_model::drives_the_core(plan[i]) ==> plan[i] is Run
                && leave.reason() is ResetCatch && session.caught
        }),
        !session.waits_at_breakpoint(),
{
}

/// A core that a caught reset has halted runs on when a session that catches resets
/// stops for that, whoever it is.
pub proof fn caught_core_runs_on(session: SessionModel, shared: SharedState, leave: Leave)
    requires
        session.caught,
        leave.reason() is ResetCatch,
    ensures
        stop_plan(session, shared, leave, false).last() is Run,
{
}

} // verus!
