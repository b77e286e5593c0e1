//! What a session does to its core in a turn, command by command.
use crate::clock::Interval;
use crate::command::{Command, Reply, ScanRegion};
use crate::data_laws;
use crate::plan_laws;
use crate::plan_laws::World;
use crate::session_model;
use crate::session_model::{Leave, SessionModel, Step};
use crate::session_types::{RttHandles, RttSessionState, StoppedReason};
use crate::shared_state::SharedState;
use crate::target::CoreStatus;
use crate::trc_command::TrcCommand;
use vstd::prelude::*;

verus! {

/// Where a command belongs in a turn, if that matters.
pub type Places = spec_fn(Command) -> Option<nat>;

/// Whether the commands stand in the order of their places, each place taken once. Only
/// breakpoints may share a place.
pub open spec fn ordered(commands: Seq<Command>, places: Places) -> bool {
    forall|i: int, j: int|
        0 <= i < j < commands.len() ==> match (
            places(#[trigger] commands[i]),
            places(#[trigger] commands[j]),
        ) {
            (Some(a), Some(b)) => a < b || a == b && (commands[i] is SetBreakpoint
                || commands[i] is ClearBreakpoint),
            _ => true,
        }
}

/// Whether all places lie within those bounds.
pub open spec fn within(commands: Seq<Command>, places: Places, low: nat, high: nat) -> bool {
    forall|i: int|
        0 <= i < commands.len() ==> (places(#[trigger] commands[i]) matches Some(a) ==> low <= a
            <= high)
}

/// Two lists of which the one comes before the other make up one in order.
proof fn ordered_lists_add_up(
    a: Seq<Command>,
    b: Seq<Command>,
    places: Places,
    low: nat,
    middle: nat,
    high: nat,
)
    requires
        ordered(a, places),
        ordered(b, places),
        within(a, places, low, middle),
        within(b, places, middle + 1, high),
        low <= middle < high,
    ensures
        ordered(a + b, places),
        within(a + b, places, low, high),
{
    let sum = a + b;
    assert forall|i: int| 0 <= i < sum.len() implies (places(#[trigger] sum[i]) matches Some(p)
        ==> low <= p <= high) by {
        if i < a.len() {
            assert(sum[i] == a[i]);
        } else {
            assert(sum[i] == b[i - a.len()]);
        }
    }
    assert forall|i: int, j: int| 0 <= i < j < sum.len() implies match (
        places(#[trigger] sum[i]),
        places(#[trigger] sum[j]),
    ) {
        (Some(p), Some(q)) => p < q || p == q && (sum[i] is SetBreakpoint
            || sum[i] is ClearBreakpoint),
        _ => true,
    } by {
        if j < a.len() {
            assert(sum[i] == a[i] && sum[j] == a[j]);
        } else if i >= a.len() {
            assert(sum[i] == b[i - a.len()] && sum[j] == b[j - a.len()]);
        } else {
            assert(sum[i] == a[i] && sum[j] == b[j - a.len()]);
        }
    }
}

/// What is in a sum is in one of its parts.
proof fn sum_contains(a: Seq<Command>, b: Seq<Command>, command: Command)
    ensures
        (a + b).contains(command) <==> a.contains(command) || b.contains(command),
{
    let sum = a + b;
    if a.contains(command) {
        let i = a.index_of(command);
        assert(sum[i] == command);
    }
    if b.contains(command) {
        let i = b.index_of(command);
        assert(sum[a.len() + i] == command);
    }
    if sum.contains(command) {
        let i = sum.index_of(command);
        if i < a.len() {
            assert(a[i] == command);
        } else {
            assert(b[i - a.len()] == command);
        }
    }
}

/// What short lists contain.
proof fn short_list_contains(a: Command, b: Command, c: Command, command: Command)
    ensures
        !Seq::<Command>::empty().contains(command),
        seq![a].contains(command) <==> command == a,
        seq![a, b].contains(command) <==> command == a || command == b,
        seq![a, b, c].contains(command) <==> command == a || command == b || command == c,
{
    assert(seq![a][0] == a);
    assert(seq![a, b][0] == a && seq![a, b][1] == b);
    assert(seq![a, b, c][0] == a && seq![a, b, c][1] == b && seq![a, b, c][2] == c);
}

/// The order of core setup. The checks of the core's status and the reading of its
/// registers come at several places.
pub open spec fn setup_places() -> Places {
    |command: Command|
        match command {
            Command::AttachCore(_) => Some(0),
            Command::ResetAndHalt(_) => Some(1),
            Command::DisableVectorCatch => Some(2),
            Command::ClearAllBreakpoints => Some(3),
            Command::EnableVectorCatch => Some(4),
            Command::Run => Some(5),
            Command::CountBreakpoints => Some(7),
            Command::SetBreakpoint(_) => Some(8),
            _ => None,
        }
}

/// Each part of core setup is in order by itself.
proof fn setup_parts_have_places(session: SessionModel, shared: SharedState, halted: bool)
    ensures
        ({
            let places = setup_places();
            let core = Command::AttachCore(session.target_cfg.core);
            let begin = seq![core, Command::ReadStatus];
            let reset = session_model::reset_script(session.target_cfg);
            let clear = plan_laws::clear_part(session, shared);
            let catch = session_model::only_if(
                session_model::catches_early(session.target_cfg),
                session_model::catch_script(shared.vector_catch_enabled == 0),
            );
            let start = session_model::start_script(session.target_cfg, halted);
            let check = seq![Command::ReadStatus];
            &&& ordered(begin, places) && within(begin, places, 0, 0)
            &&& ordered(reset, places) && within(reset, places, 1, 1)
            &&& ordered(clear, places) && within(clear, places, 2, 3)
            &&& ordered(catch, places) && within(catch, places, 4, 4)
            &&& ordered(start, places) && within(start, places, 5, 5)
            &&& ordered(check, places) && within(check, places, 6, 6)
        }),
{
}

/// Setting the breakpoints is in order by itself.
proof fn breakpoints_have_places(session: SessionModel)
    ensures
        ({
            let places = setup_places();
            let breakpoints = session_model::breakpoint_script(
                session.target_cfg,
                session.rtt_cfg,
            );
            ordered(breakpoints, places) && within(breakpoints, places, 7, 8)
        }),
{
}

/// The parts of core setup come one after the other.
proof fn setup_parts_are_ordered(session: SessionModel, shared: SharedState, halted: bool)
    ensures
        ordered(plan_laws::setup_plan(session, shared, halted), setup_places()),
{
    let core = Command::AttachCore(session.target_cfg.core);
    setup_parts_have_places(session, shared, halted);
    breakpoints_have_places(session);
    seven_parts_are_ordered(
        setup_places(),
        seq![core, Command::ReadStatus],
        session_model::reset_script(session.target_cfg),
        plan_laws::clear_part(session, shared),
        session_model::only_if(
            session_model::catches_early(session.target_cfg),
            session_model::catch_script(shared.vector_catch_enabled == 0),
        ),
        session_model::start_script(session.target_cfg, halted),
        seq![Command::ReadStatus],
        session_model::breakpoint_script(session.target_cfg, session.rtt_cfg),
    );
}

proof fn seven_parts_are_ordered(
    places: Places,
    a: Seq<Command>,
    b: Seq<Command>,
    c: Seq<Command>,
    d: Seq<Command>,
    e: Seq<Command>,
    f: Seq<Command>,
    g: Seq<Command>,
)
    requires
        ordered(a, places) && within(a, places, 0, 0),
        ordered(b, places) && within(b, places, 1, 1),
        ordered(c, places) && within(c, places, 2, 3),
        ordered(d, places) && within(d, places, 4, 4),
        ordered(e, places) && within(e, places, 5, 5),
        ordered(f, places) && within(f, places, 6, 6),
        ordered(g, places) && within(g, places, 7, 8),
    ensures
        ordered(a + b + c + d + e + f + g, places),
{
    ordered_lists_add_up(a, b, places, 0, 0, 1);
    ordered_lists_add_up(a + b, c, places, 0, 1, 3);
    ordered_lists_add_up(a + b + c, d, places, 0, 3, 4);
    ordered_lists_add_up(a + b + c + d, e, places, 0, 4, 5);
    ordered_lists_add_up(a + b + c + d + e, f, places, 0, 5, 6);
    ordered_lists_add_up(a + b + c + d + e + f, g, places, 0, 6, 8);
}

/// What core setup consists of.
proof fn setup_parts_contain(
    session: SessionModel,
    shared: SharedState,
    halted: bool,
    command: Command,
)
    ensures
        ({
            let cfg = session.target_cfg;
            let companion = cfg.bootloader_companion_application;
            let first = shared.clear_vector_catch_and_breakpoints == 0;
            let uncaught = shared.vector_catch_enabled == 0;
            plan_laws::setup_plan(session, shared, halted).contains(command) <==> match command {
                Command::AttachCore(core) => core == cfg.core,
                Command::ReadStatus => true,
                Command::ResetAndHalt(ms) => ms == 100 && !companion && cfg.reset,
                Command::ReadStackPointer => !companion && (cfg.reset || halted),
                Command::ReadProgramCounter => !companion && (cfg.reset || halted),
                Command::DisableVectorCatch => !companion && first && uncaught,
                Command::ClearAllBreakpoints => !companion && first,
                Command::EnableVectorCatch => (cfg.bootloader || companion) && uncaught,
                Command::Run => !companion && (cfg.reset || halted),
                Command::CountBreakpoints => !companion && (
                session.rtt_cfg.stop_on_breakpoint_address is Some
                    || session.rtt_cfg.setup_on_breakpoint_address is Some),
                Command::SetBreakpoint(address) => !companion && (
                session.rtt_cfg.stop_on_breakpoint_address == Some(address)
                    || session.rtt_cfg.setup_on_breakpoint_address == Some(address)),
                _ => false,
            }
        }),
{
    let cfg = session.target_cfg;
    let rtt = session.rtt_cfg;
    let core = Command::AttachCore(cfg.core);
    let begin = seq![core, Command::ReadStatus];
    let reset = session_model::reset_script(cfg);
    let clear = plan_laws::clear_part(session, shared);
    let catch = session_model::only_if(
        session_model::catches_early(cfg),
        session_model::catch_script(shared.vector_catch_enabled == 0),
    );
    let start = session_model::start_script(cfg, halted);
    let check = seq![Command::ReadStatus];
    let breakpoints = session_model::breakpoint_script(cfg, rtt);
    sum_contains(begin, reset, command);
    sum_contains(begin + reset, clear, command);
    sum_contains(begin + reset + clear, catch, command);
    sum_contains(begin + reset + clear + catch, start, command);
    sum_contains(begin + reset + clear + catch + start, check, command);
    sum_contains(begin + reset + clear + catch + start + check, breakpoints, command);
    short_list_contains(core, Command::ReadStatus, core, command);
    short_list_contains(
        Command::ResetAndHalt(100),
        Command::ReadStackPointer,
        Command::ReadProgramCounter,
        command,
    );
    short_list_contains(
        Command::ReadStackPointer,
        Command::ReadProgramCounter,
        Command::Run,
        command,
    );
    short_list_contains(Command::ReadStatus, core, core, command);
    short_list_contains(Command::EnableVectorCatch, core, core, command);
    short_list_contains(Command::DisableVectorCatch, core, core, command);
    short_list_contains(Command::ClearAllBreakpoints, core, core, command);
    short_list_contains(Command::CountBreakpoints, core, core, command);
    sum_contains(
        session_model::only_if(
            shared.vector_catch_enabled == 0,
            seq![Command::DisableVectorCatch],
        ),
        seq![Command::ClearAllBreakpoints],
        command,
    );
    let count = session_model::only_if(
        rtt.setup_on_breakpoint_address is Some || rtt.stop_on_breakpoint_address is Some,
        seq![Command::CountBreakpoints],
    );
    let stop = session_model::set_breakpoint(rtt.stop_on_breakpoint_address);
    let setup = session_model::set_breakpoint(rtt.setup_on_breakpoint_address);
    sum_contains(count, stop, command);
    sum_contains(count + stop, setup, command);
    if let Some(address) = rtt.stop_on_breakpoint_address {
        short_list_contains(Command::SetBreakpoint(address), core, core, command);
    }
    if let Some(address) = rtt.setup_on_breakpoint_address {
        short_list_contains(Command::SetBreakpoint(address), core, core, command);
    }
}

/// Whether a status check comes after every command that lets the core run.
pub open spec fn run_is_checked(commands: Seq<Command>) -> bool {
    forall|i: int|
        0 <= i < commands.len() && #[trigger] commands[i] is Run ==> exists|k: int|
            i < k < commands.len() && #[trigger] commands[k] is ReadStatus
}

/// In core setup the run is checked.
proof fn setup_checks_the_run(session: SessionModel, shared: SharedState, halted: bool)
    ensures
        run_is_checked(plan_laws::setup_plan(session, shared, halted)),
        plan_laws::setup_plan(session, shared, halted)[0] == Command::AttachCore(
            session.target_cfg.core,
        ),
        plan_laws::setup_plan(session, shared, halted)[1] is ReadStatus,
{
    let plan = plan_laws::setup_plan(session, shared, halted);
    let begin = seq![Command::AttachCore(session.target_cfg.core), Command::ReadStatus];
    let before = begin + session_model::reset_script(session.target_cfg) + plan_laws::clear_part(
        session,
        shared,
    ) + session_model::only_if(
        session_model::catches_early(session.target_cfg),
        session_model::catch_script(shared.vector_catch_enabled == 0),
    ) + session_model::start_script(session.target_cfg, halted);
    let check = seq![Command::ReadStatus];
    let breakpoints = session_model::breakpoint_script(session.target_cfg, session.rtt_cfg);
    let k = before.len() as int;
    assert(plan == before + check + breakpoints);
    assert(plan[k] == Command::ReadStatus);
    assert(before[0] == begin[0] && before[1] == begin[1]);
    assert forall|i: int| 0 <= i < plan.len() && #[trigger] plan[i] is Run implies exists|j: int|
        i < j < plan.len() && #[trigger] plan[j] is ReadStatus by {
        if i > k {
            assert(plan[i] == breakpoints[i - k - 1]);
        }
        assert(plan[k] is ReadStatus);
    }
}

/// Whether the registers are read after every reset, and before every command that lets
/// the core run.
pub open spec fn registers_are_read(commands: Seq<Command>) -> bool {
    &&& forall|i: int|
        0 <= i < commands.len() && #[trigger] commands[i] is ResetAndHalt ==> i + 2
            < commands.len() && commands[i + 1] is ReadStackPointer && commands[i
            + 2] is ReadProgramCounter
    &&& forall|i: int|
        0 <= i < commands.len() && #[trigger] commands[i] is Run ==> i >= 2 && commands[i
            - 2] is ReadStackPointer && commands[i - 1] is ReadProgramCounter
}

proof fn registers_are_read_in_both(a: Seq<Command>, b: Seq<Command>)
    requires
        registers_are_read(a),
        registers_are_read(b),
    ensures
        registers_are_read(a + b),
{
    let sum = a + b;
    assert forall|i: int| 0 <= i < sum.len() && #[trigger] sum[i] is ResetAndHalt implies i + 2
        < sum.len() && sum[i + 1] is ReadStackPointer && sum[i + 2] is ReadProgramCounter by {
        if i < a.len() {
            assert(sum[i] == a[i]);
        } else {
            assert(sum[i] == b[i - a.len()]);
        }
    }
    assert forall|i: int| 0 <= i < sum.len() && #[trigger] sum[i] is Run implies i >= 2 && sum[i
        - 2] is ReadStackPointer && sum[i - 1] is ReadProgramCounter by {
        if i < a.len() {
            assert(sum[i] == a[i]);
        } else {
            assert(sum[i] == b[i - a.len()]);
        }
    }
}

/// In core setup the registers are read around a reset and a run.
proof fn setup_reads_the_registers(session: SessionModel, shared: SharedState, halted: bool)
    ensures
        registers_are_read(plan_laws::setup_plan(session, shared, halted)),
{
    let cfg = session.target_cfg;
    let begin = seq![Command::AttachCore(cfg.core), Command::ReadStatus];
    let reset = session_model::reset_script(cfg);
    let clear = plan_laws::clear_part(session, shared);
    let catch = session_model::only_if(
        session_model::catches_early(cfg),
        session_model::catch_script(shared.vector_catch_enabled == 0),
    );
    let start = session_model::start_script(cfg, halted);
    let check = seq![Command::ReadStatus];
    let breakpoints = session_model::breakpoint_script(cfg, session.rtt_cfg);
    registers_are_read_in_both(begin, reset);
    registers_are_read_in_both(begin + reset, clear);
    registers_are_read_in_both(begin + reset + clear, catch);
    registers_are_read_in_both(begin + reset + clear + catch, start);
    registers_are_read_in_both(begin + reset + clear + catch + start, check);
    registers_are_read_in_both(begin + reset + clear + catch + start + check, breakpoints);
}

/// Whether the last commands are those that set these breakpoints, where they are asked
/// for, in that order.
pub open spec fn ends_with_breakpoints(
    commands: Seq<Command>,
    stop: Option<u64>,
    setup: Option<u64>,
) -> bool {
    let len = commands.len() as int;
    match (stop, setup) {
        (Some(a), Some(b)) => {
            &&& len >= 2
            &&& commands[len - 2] == Command::SetBreakpoint(a)
            &&& commands[len - 1] == Command::SetBreakpoint(b)
        },
        (Some(a), None) => len >= 1 && commands[len - 1] == Command::SetBreakpoint(a),
        (None, Some(b)) => len >= 1 && commands[len - 1] == Command::SetBreakpoint(b),
        (None, None) => true,
    }
}

/// Core setup ends with the breakpoints.
proof fn setup_ends_with_breakpoints(session: SessionModel, shared: SharedState, halted: bool)
    requires
        !session.target_cfg.bootloader_companion_application,
    ensures
        ends_with_breakpoints(
            plan_laws::setup_plan(session, shared, halted),
            session.rtt_cfg.stop_on_breakpoint_address,
            session.rtt_cfg.setup_on_breakpoint_address,
        ),
{
    let plan = plan_laws::setup_plan(session, shared, halted);
    let breakpoints = session_model::breakpoint_script(session.target_cfg, session.rtt_cfg);
    let len = plan.len() as int;
    let count = breakpoints.len() as int;
    assert forall|k: int| 0 <= k < count implies plan[len - count + k] == #[trigger] breakpoints[k]
        by {}
    if count >= 1 {
        assert(plan[len - 1] == breakpoints[count - 1]);
    }
    if count >= 2 {
        assert(plan[len - 2] == breakpoints[count - 2]);
    }
}

/// Where nothing fails and the core runs in the end, core setup does in one turn just what
/// the session was configured for, each thing once and in order. A companion only looks
/// at the core and catches resets. Any other session resets the core if it is told to,
/// clears what was left behind if nobody did so before (but for a vector catch that
/// somebody holds), catches resets now if it belongs to a bootloader, and sets its
/// breakpoints in the end, the one where the channel mode is set up last. A core that it
/// has reset, or that was halted at first, it lets run again, and then it checks that the
/// core runs. The session then attaches, and may begin with it at once.
pub proof fn core_setup_does_what_it_is_for(
    session: SessionModel,
    shared: SharedState,
    world: World,
    now: Interval,
)
    requires
        session.step is Idle,
        session.state is Init,
        plan_laws::is_kind(world),
        world(Step::SetupStatus) is Status,
        world(Step::SetupRunning) == Reply::Status(CoreStatus::Running),
        shared.clear_vector_catch_and_breakpoints < usize::MAX,
        shared.vector_catch_enabled < usize::MAX,
    ensures
        ({
            let turn = plan_laws::rest_of_turn(session.updated(shared, now), world, now, 22);
            let commands = turn.commands;
            let cfg = session.target_cfg;
            let rtt = session.rtt_cfg;
            let companion = cfg.bootloader_companion_application;
            let halted = world(Step::SetupStatus)->Status_0 is Halted;
            let first = shared.clear_vector_catch_and_breakpoints == 0;
            let uncaught = shared.vector_catch_enabled == 0;
            &&& commands[0] == Command::AttachCore(cfg.core)
            &&& commands[1] is ReadStatus
            &&& commands.contains(Command::ResetAndHalt(100)) <==> !companion && cfg.reset
            &&& commands.contains(Command::DisableVectorCatch) <==> !companion && first && uncaught
            &&& commands.contains(Command::ClearAllBreakpoints) <==> !companion && first
            &&& commands.contains(Command::EnableVectorCatch) <==> (cfg.bootloader || companion)
                && uncaught
            &&& commands.contains(Command::Run) <==> !companion && (cfg.reset || halted)
            &&& forall|address: u64| #[trigger]
                commands.contains(Command::SetBreakpoint(address)) <==> !companion && (
                rtt.stop_on_breakpoint_address == Some(address) || rtt.setup_on_breakpoint_address
                    == Some(address))
            &&& forall|i: int|
                0 <= i < commands.len() ==> match #[trigger] commands[i] {
                    Command::AttachCore(core) => core == cfg.core,
                    Command::ResetAndHalt(ms) => ms == 100,
                    Command::ReadStatus | Command::ReadStackPointer => true,
                    Command::ReadProgramCounter | Command::DisableVectorCatch => true,
                    Command::ClearAllBreakpoints | Command::EnableVectorCatch => true,
                    Command::Run | Command::CountBreakpoints | Command::SetBreakpoint(_) => true,
                    _ => false,
                }
            &&& ordered(commands, setup_places())
            &&& run_is_checked(commands)
            &&& turn.end.command is EndTurn
            &&& turn.end.session.step is Idle
            &&& turn.end.session.state == RttSessionState::RttAttach(now)
            &&& turn.end.shared.clear_vector_catch_and_breakpoints
                == shared.clear_vector_catch_and_breakpoints + (if companion {
                0int
            } else {
                1
            })
            &&& turn.end.shared.vector_catch_enabled == shared.vector_catch_enabled + (
            if cfg.bootloader || companion {
                1int
            } else {
                0
            })
        }),
{
    let halted = world(Step::SetupStatus)->Status_0 is Halted;
    let commands = plan_laws::setup_plan(session, shared, halted);
    plan_laws::core_setup_follows_its_plan(session, shared, world, now);
    setup_parts_are_ordered(session, shared, halted);
    setup_checks_the_run(session, shared, halted);
    setup_parts_contain(session, shared, halted, Command::ResetAndHalt(100));
    setup_parts_contain(session, shared, halted, Command::DisableVectorCatch);
    setup_parts_contain(session, shared, halted, Command::ClearAllBreakpoints);
    setup_parts_contain(session, shared, halted, Command::EnableVectorCatch);
    setup_parts_contain(session, shared, halted, Command::Run);
    assert forall|address: u64| #[trigger]
        commands.contains(Command::SetBreakpoint(address)) <==> !(
    session.target_cfg.bootloader_companion_application) && (
    session.rtt_cfg.stop_on_breakpoint_address == Some(address)
        || session.rtt_cfg.setup_on_breakpoint_address == Some(address)) by {
        setup_parts_contain(session, shared, halted, Command::SetBreakpoint(address));
    }
    assert forall|i: int| 0 <= i < commands.len() implies match #[trigger] commands[i] {
        Command::AttachCore(core) => core == session.target_cfg.core,
        Command::ResetAndHalt(ms) => ms == 100,
        Command::ReadStatus | Command::ReadStackPointer => true,
        Command::ReadProgramCounter | Command::DisableVectorCatch => true,
        Command::ClearAllBreakpoints | Command::EnableVectorCatch => true,
        Command::Run | Command::CountBreakpoints | Command::SetBreakpoint(_) => true,
        _ => false,
    } by {
        assert(commands.contains(commands[i]));
        setup_parts_contain(session, shared, halted, commands[i]);
    }
}

/// Core setup reads the registers around a reset and a run, and ends with the breakpoints
/// that are asked for, after their number was looked at. The attach that follows is due at
/// once.
pub proof fn core_setup_ends_with_breakpoints(
    session: SessionModel,
    shared: SharedState,
    world: World,
    now: Interval,
)
    requires
        session.step is Idle,
        session.state is Init,
        plan_laws::is_kind(world),
        world(Step::SetupStatus) is Status,
        world(Step::SetupRunning) == Reply::Status(CoreStatus::Running),
        session.attach_retry.read <= now.total(),
    ensures
        ({
            let turn = plan_laws::rest_of_turn(session.updated(shared, now), world, now, 22);
            let commands = turn.commands;
            let rtt = session.rtt_cfg;
            let companion = session.target_cfg.bootloader_companion_application;
            &&& commands.contains(Command::CountBreakpoints) <==> !companion && (
            rtt.stop_on_breakpoint_address is Some || rtt.setup_on_breakpoint_address is Some)
            &&& !companion ==> ends_with_breakpoints(
                commands,
                rtt.stop_on_breakpoint_address,
                rtt.setup_on_breakpoint_address,
            )
            &&& registers_are_read(commands)
            &&& data_laws::interval_is_up(turn.end.session.attach_retry, now)
            &&& turn.end.session.attach_retry.limit == session.attach_retry.limit
            &&& turn.end.session.completed == session.completed
        }),
{
    let halted = world(Step::SetupStatus)->Status_0 is Halted;
    plan_laws::core_setup_follows_its_plan(session, shared, world, now);
    setup_parts_contain(session, shared, halted, Command::CountBreakpoints);
    setup_reads_the_registers(session, shared, halted);
    if !session.target_cfg.bootloader_companion_application {
        setup_ends_with_breakpoints(session, shared, halted);
    }
}

/// The order of the attach routine.
pub open spec fn attach_places() -> Places {
    |command: Command|
        match command {
            Command::AttachCore(_) => Some(0),
            Command::AttachRtt(_) => Some(1),
            Command::OpenChannels(..) => Some(2),
            Command::SetBlockIfFull => Some(3),
            Command::ClearBreakpoint(_) => Some(4),
            Command::ReadStatus => Some(5),
            Command::Run => Some(6),
            Command::WriteDown(TrcCommand::StopTracing) => Some(7),
            Command::Sleep(_) => Some(8),
            Command::WriteDown(TrcCommand::StartTracing) => Some(9),
            Command::EnableVectorCatch => Some(10),
            Command::SendStarted(_) => Some(11),
            _ => None,
        }
}

/// Each part of the attach routine is in order by itself.
proof fn attach_parts_have_places(session: SessionModel, shared: SharedState, halted: bool)
    ensures
        ({
            let places = attach_places();
            let opening = plan_laws::opening(session);
            let mode = plan_laws::mode_plan(session, halted);
            let control = session_model::control_script(session.rtt_cfg);
            let end = plan_laws::attach_end(session, shared);
            &&& ordered(opening, places) && within(opening, places, 0, 2)
            &&& ordered(mode, places) && within(mode, places, 3, 6)
            &&& ordered(control, places) && within(control, places, 7, 9)
            &&& ordered(end, places) && within(end, places, 10, 11)
        }),
{
}

/// The parts of the attach routine come one after the other.
proof fn attach_parts_are_ordered(session: SessionModel, shared: SharedState, halted: bool)
    ensures
        ordered(plan_laws::attach_plan(session, shared, halted), attach_places()),
{
    let places = attach_places();
    attach_parts_have_places(session, shared, halted);
    four_parts_are_ordered(
        places,
        plan_laws::opening(session),
        plan_laws::mode_plan(session, halted),
        session_model::control_script(session.rtt_cfg),
        plan_laws::attach_end(session, shared),
    );
}

proof fn four_parts_are_ordered(
    places: Places,
    a: Seq<Command>,
    b: Seq<Command>,
    c: Seq<Command>,
    d: Seq<Command>,
)
    requires
        ordered(a, places) && within(a, places, 0, 2),
        ordered(b, places) && within(b, places, 3, 6),
        ordered(c, places) && within(c, places, 7, 9),
        ordered(d, places) && within(d, places, 10, 11),
    ensures
        ordered(a + b + c + d, places),
{
    ordered_lists_add_up(a, b, places, 0, 2, 6);
    ordered_lists_add_up(a + b, c, places, 0, 6, 9);
    ordered_lists_add_up(a + b + c, d, places, 0, 9, 11);
}

/// What setting the channel mode up consists of.
proof fn mode_parts_contain(session: SessionModel, halted: bool, command: Command)
    ensures
        ({
            let rtt = session.rtt_cfg;
            let sets_up = !session.target_cfg.bootloader_companion_application
                && rtt.setup_on_breakpoint_address is Some;
            plan_laws::mode_plan(session, halted).contains(command) <==> sets_up && match command {
                Command::SetBlockIfFull | Command::ReadStatus => true,
                Command::ClearBreakpoint(address) => rtt.setup_on_breakpoint_address == Some(
                    address,
                ),
                Command::Run => halted,
                _ => false,
            }
        }),
{
    let set = seq![Command::SetBlockIfFull];
    let clear = session_model::clear_breakpoint(session.rtt_cfg.setup_on_breakpoint_address);
    let look = seq![Command::ReadStatus];
    let run = session_model::only_if(halted, seq![Command::Run]);
    sum_contains(set, clear, command);
    sum_contains(set + clear, look, command);
    sum_contains(set + clear + look, run, command);
    short_list_contains(Command::SetBlockIfFull, Command::Run, Command::Run, command);
    short_list_contains(Command::ReadStatus, Command::Run, Command::Run, command);
    short_list_contains(Command::Run, Command::Run, Command::Run, command);
    if let Some(address) = session.rtt_cfg.setup_on_breakpoint_address {
        short_list_contains(
            Command::ClearBreakpoint(address),
            Command::Run,
            Command::Run,
            command,
        );
    }
}

/// What the attach routine consists of.
proof fn attach_parts_contain(
    session: SessionModel,
    shared: SharedState,
    halted: bool,
    command: Command,
)
    ensures
        ({
            let cfg = session.target_cfg;
            let rtt = session.rtt_cfg;
            let companion = cfg.bootloader_companion_application;
            let sets_up = !companion && rtt.setup_on_breakpoint_address is Some;
            plan_laws::attach_plan(session, shared, halted).contains(command) <==> match command {
                Command::AttachCore(core) => core == cfg.core,
                Command::AttachRtt(ScanRegion::Exact(address)) => rtt.control_block_address == Some(
                    address,
                ),
                Command::AttachRtt(ScanRegion::Target) => rtt.control_block_address is None,
                Command::OpenChannels(up, down) => up == rtt.up_channel && down == rtt.down_channel,
                Command::SetBlockIfFull | Command::ReadStatus => sets_up,
                Command::ClearBreakpoint(address) => !companion && rtt.setup_on_breakpoint_address
                    == Some(address),
                Command::Run => sets_up && halted,
                Command::WriteDown(TrcCommand::StopTracing) => !rtt.disable_control_plane
                    && rtt.restart,
                Command::Sleep(ms) => ms == 10 && !rtt.disable_control_plane && rtt.restart,
                Command::WriteDown(TrcCommand::StartTracing) => !rtt.disable_control_plane,
                Command::EnableVectorCatch => !cfg.bootloader && !companion
                    && shared.vector_catch_enabled == 0,
                Command::SendStarted(id) => id == session.id && !session.client_response_sent,
                _ => false,
            }
        }),
{
    let core = Command::AttachCore(session.target_cfg.core);
    let opening = plan_laws::opening(session);
    let mode = plan_laws::mode_plan(session, halted);
    let control = session_model::control_script(session.rtt_cfg);
    let end = plan_laws::attach_end(session, shared);
    let start = Command::WriteDown(TrcCommand::StartTracing);
    let stop = Command::WriteDown(TrcCommand::StopTracing);
    sum_contains(opening, mode, command);
    sum_contains(opening + mode, control, command);
    sum_contains(opening + mode + control, end, command);
    short_list_contains(opening[0], opening[1], opening[2], command);
    mode_parts_contain(session, halted, command);
    sum_contains(
        session_model::only_if(session.rtt_cfg.restart, seq![stop, Command::Sleep(10)]),
        seq![start],
        command,
    );
    short_list_contains(stop, Command::Sleep(10), core, command);
    short_list_contains(start, core, core, command);
    sum_contains(
        session_model::only_if(
            !session_model::catches_early(session.target_cfg),
            session_model::catch_script(shared.vector_catch_enabled == 0),
        ),
        session_model::only_if(
            !session.client_response_sent,
            seq![Command::SendStarted(session.id)],
        ),
        command,
    );
    short_list_contains(Command::EnableVectorCatch, core, core, command);
    short_list_contains(Command::SendStarted(session.id), core, core, command);
}

/// Where nothing fails, the control block is found and it has the channels, the attach
/// routine does in one turn just what the session was configured for, each thing once
/// and in order. It looks for the control block where it is said to be, opens the
/// channels that are asked for, sets their mode up if there is a breakpoint for that,
/// starts tracing unless it is not to control the target (after a stop, if a restart is
/// wanted), catches resets if it did not do so before and nobody does, and tells the
/// client that its session has started, unless it was told. The session then runs.
pub proof fn attach_does_what_it_is_for(
    session: SessionModel,
    shared: SharedState,
    control_block: u64,
    up: usize,
    down: usize,
    status: CoreStatus,
    world: World,
    now: Interval,
)
    requires
        session.step is Idle,
        session.state is RttAttach,
        session.attach_retry.reached(now.total()),
        plan_laws::is_kind(world),
        world(Step::AttachRegion) == Reply::Attached(control_block, up, down),
        session.rtt_cfg.up_channel < up,
        session.rtt_cfg.down_channel < down,
        forall|handles: RttHandles|
            #[trigger] world(Step::AttachStatus(handles)) == Reply::Status(status),
        shared.vector_catch_enabled < usize::MAX,
    ensures
        ({
            let turn = plan_laws::rest_of_turn(session.updated(shared, now), world, now, 22);
            let commands = turn.commands;
            let cfg = session.target_cfg;
            let rtt = session.rtt_cfg;
            let companion = cfg.bootloader_companion_application;
            let sets_up = !companion && rtt.setup_on_breakpoint_address is Some;
            let controls = !rtt.disable_control_plane;
            &&& match rtt.control_block_address {
                Some(address) => commands.contains(Command::AttachRtt(ScanRegion::Exact(address))),
                None => commands.contains(Command::AttachRtt(ScanRegion::Target)),
            }
            &&& commands.contains(Command::OpenChannels(rtt.up_channel, rtt.down_channel))
            &&& commands.contains(Command::SetBlockIfFull) <==> sets_up
            &&& forall|address: u64| #[trigger]
                commands.contains(Command::ClearBreakpoint(address)) <==> !companion
                    && rtt.setup_on_breakpoint_address == Some(address)
            &&& commands.contains(Command::Run) <==> sets_up && status is Halted
            &&& commands.contains(Command::WriteDown(TrcCommand::StartTracing)) <==> controls
            &&& commands.contains(Command::WriteDown(TrcCommand::StopTracing)) <==> controls
                && rtt.restart
            &&& commands.contains(Command::Sleep(10)) <==> controls && rtt.restart
            &&& commands.contains(Command::EnableVectorCatch) <==> !cfg.bootloader && !companion
                && shared.vector_catch_enabled == 0
            &&& commands.contains(Command::SendStarted(session.id))
                <==> !session.client_response_sent
            &&& forall|i: int|
                0 <= i < commands.len() ==> match #[trigger] commands[i] {
                    Command::AttachCore(core) => core == cfg.core,
                    Command::AttachRtt(_) | Command::SetBlockIfFull => true,
                    Command::OpenChannels(u, d) => u == rtt.up_channel && d == rtt.down_channel,
                    Command::ClearBreakpoint(_) | Command::ReadStatus | Command::Run => true,
                    Command::WriteDown(_) | Command::Sleep(_) => true,
                    Command::EnableVectorCatch => true,
                    Command::SendStarted(id) => id == session.id,
                    _ => false,
                }
            &&& ordered(commands, attach_places())
            &&& turn.end.command is EndTurn
            &&& turn.end.session.step is Idle
            &&& turn.end.session.client_response_sent
            &&& turn.end.session.last_data == now
            &&& turn.end.session.state == RttSessionState::Run(
                RttHandles {
                    control_block,
                    up_channel: rtt.up_channel,
                    down_channel: rtt.down_channel,
                },
            )
            &&& turn.end.shared.clear_vector_catch_and_breakpoints
                == shared.clear_vector_catch_and_breakpoints
            &&& turn.end.shared.vector_catch_enabled == shared.vector_catch_enabled + (
            if cfg.bootloader || companion {
                0int
            } else {
                1
            })
        }),
{
    let rtt = session.rtt_cfg;
    let halted = status is Halted;
    let commands = plan_laws::attach_plan(session, shared, halted);
    let handles = RttHandles {
        control_block,
        up_channel: rtt.up_channel,
        down_channel: rtt.down_channel,
    };
    assert(world(Step::AttachStatus(handles)) == Reply::Status(status));
    plan_laws::attach_follows_its_plan(session, shared, control_block, up, down, world, now);
    attach_parts_are_ordered(session, shared, halted);
    let start = Command::WriteDown(TrcCommand::StartTracing);
    let stop = Command::WriteDown(TrcCommand::StopTracing);
    if let Some(address) = rtt.control_block_address {
        let exact = Command::AttachRtt(ScanRegion::Exact(address));
        attach_parts_contain(session, shared, halted, exact);
    }
    attach_parts_contain(session, shared, halted, Command::AttachRtt(ScanRegion::Target));
    let open = Command::OpenChannels(rtt.up_channel, rtt.down_channel);
    attach_parts_contain(session, shared, halted, open);
    attach_parts_contain(session, shared, halted, Command::SetBlockIfFull);
    attach_parts_contain(session, shared, halted, Command::Run);
    attach_parts_contain(session, shared, halted, start);
    attach_parts_contain(session, shared, halted, stop);
    attach_parts_contain(session, shared, halted, Command::Sleep(10));
    attach_parts_contain(session, shared, halted, Command::EnableVectorCatch);
    attach_parts_contain(session, shared, halted, Command::SendStarted(session.id));
    assert forall|address: u64| #[trigger]
        commands.contains(Command::ClearBreakpoint(address)) <==> !(
    session.target_cfg.bootloader_companion_application) && rtt.setup_on_breakpoint_address == Some(
        address,
    ) by {
        attach_parts_contain(session, shared, halted, Command::ClearBreakpoint(address));
    }
    assert forall|i: int| 0 <= i < commands.len() implies match #[trigger] commands[i] {
        Command::AttachCore(core) => core == session.target_cfg.core,
        Command::AttachRtt(_) | Command::SetBlockIfFull => true,
        Command::OpenChannels(u, d) => u == rtt.up_channel && d == rtt.down_channel,
        Command::ClearBreakpoint(_) | Command::ReadStatus | Command::Run => true,
        Command::WriteDown(_) | Command::Sleep(_) => true,
        Command::EnableVectorCatch => true,
        Command::SendStarted(id) => id == session.id,
        _ => false,
    } by {
        assert(commands.contains(commands[i]));
        attach_parts_contain(session, shared, halted, commands[i]);
    }
}

/// For a session that has attached, all that it does at intervals is due at once.
pub proof fn attached_session_is_due(
    session: SessionModel,
    shared: SharedState,
    control_block: u64,
    up: usize,
    down: usize,
    status: CoreStatus,
    world: World,
    now: Interval,
)
    requires
        session.step is Idle,
        session.state is RttAttach,
        session.attach_retry.reached(now.total()),
        plan_laws::is_kind(world),
        world(Step::AttachRegion) == Reply::Attached(control_block, up, down),
        session.rtt_cfg.up_channel < up,
        session.rtt_cfg.down_channel < down,
        forall|handles: RttHandles|
            #[trigger] world(Step::AttachStatus(handles)) == Reply::Status(status),
        session.rtt_poll.read <= now.total(),
        session.idle_poll.read <= now.total(),
        session.recovery.read <= now.total(),
        session.stopping_condition.read <= now.total(),
    ensures
        ({
            let turn = plan_laws::rest_of_turn(session.updated(shared, now), world, now, 22);
            &&& data_laws::interval_is_up(turn.end.session.rtt_poll, now)
            &&& data_laws::interval_is_up(turn.end.session.idle_poll, now)
            &&& data_laws::interval_is_up(turn.end.session.recovery, now)
            &&& data_laws::interval_is_up(turn.end.session.stopping_condition, now)
            &&& turn.end.session.completed == session.completed
            &&& turn.end.session.last_rtt_read_had_data == session.last_rtt_read_had_data
        }),
{
    let handles = RttHandles {
        control_block,
        up_channel: session.rtt_cfg.up_channel,
        down_channel: session.rtt_cfg.down_channel,
    };
    assert(world(Step::AttachStatus(handles)) == Reply::Status(status));
    plan_laws::attach_follows_its_plan(session, shared, control_block, up, down, world, now);
}

/// The order in which a session leaves.
pub open spec fn stop_places() -> Places {
    |command: Command|
        match command {
            Command::AttachCore(_) => Some(0),
            Command::ReadStatus => Some(1),
            Command::DisableVectorCatch => Some(2),
            Command::WriteDown(_) => Some(3),
            Command::ClearBreakpoint(_) => Some(4),
            Command::Run => Some(5),
            Command::CloseStream => Some(6),
            _ => None,
        }
}

/// The commands with which a session leaves are in order.
proof fn stop_script_is_ordered(session: SessionModel, nobody_catches: bool, resume: bool)
    ensures
        ordered(session.stop_script(nobody_catches, resume), stop_places()),
        within(session.stop_script(nobody_catches, resume), stop_places(), 2, 5),
{
    let places = stop_places();
    let catch = session_model::only_if(nobody_catches, seq![Command::DisableVectorCatch]);
    let tracing = session_model::only_if(
        session.state is Run && !session.rtt_cfg.disable_control_plane,
        seq![Command::WriteDown(TrcCommand::StopTracing)],
    );
    let mode = session_model::only_if(
        session.waits_at_breakpoint(),
        session_model::clear_breakpoint(session.rtt_cfg.setup_on_breakpoint_address),
    );
    let stop = session_model::only_if(
        session_model::drives(session.target_cfg),
        session_model::clear_breakpoint(session.rtt_cfg.stop_on_breakpoint_address),
    );
    let run = session_model::only_if(resume, seq![Command::Run]);
    assert(ordered(catch, places) && within(catch, places, 2, 2));
    assert(ordered(tracing, places) && within(tracing, places, 3, 3));
    assert(ordered(mode + stop, places) && within(mode + stop, places, 4, 4));
    assert(ordered(run, places) && within(run, places, 5, 5));
    ordered_lists_add_up(catch, tracing, places, 2, 2, 3);
    ordered_lists_add_up(catch + tracing, mode + stop, places, 2, 3, 4);
    ordered_lists_add_up(catch + tracing + (mode + stop), run, places, 2, 4, 5);
    assert(catch + tracing + mode + stop =~= catch + tracing + (mode + stop));
}

/// What the commands with which a session leaves consist of.
proof fn stop_script_contains(
    session: SessionModel,
    nobody_catches: bool,
    resume: bool,
    command: Command,
)
    ensures
        ({
            let rtt = session.rtt_cfg;
            let companion = session.target_cfg.bootloader_companion_application;
            session.stop_script(nobody_catches, resume).contains(command) <==> match command {
                Command::DisableVectorCatch => nobody_catches,
                Command::WriteDown(written) => written is StopTracing && session.state is Run
                    && !rtt.disable_control_plane,
                Command::ClearBreakpoint(address) => !companion && (rtt.stop_on_breakpoint_address
                    == Some(address) || session.state is RttAttach
                    && rtt.setup_on_breakpoint_address == Some(address)),
                Command::Run => resume,
                _ => false,
            }
        }),
{
    let run_command = Command::Run;
    let catch = session_model::only_if(nobody_catches, seq![Command::DisableVectorCatch]);
    let tracing = session_model::only_if(
        session.state is Run && !session.rtt_cfg.disable_control_plane,
        seq![Command::WriteDown(TrcCommand::StopTracing)],
    );
    let mode = session_model::only_if(
        session.waits_at_breakpoint(),
        session_model::clear_breakpoint(session.rtt_cfg.setup_on_breakpoint_address),
    );
    let stop = session_model::only_if(
        session_model::drives(session.target_cfg),
        session_model::clear_breakpoint(session.rtt_cfg.stop_on_breakpoint_address),
    );
    let run = session_model::only_if(resume, seq![Command::Run]);
    sum_contains(catch, tracing, command);
    sum_contains(catch + tracing, mode, command);
    sum_contains(catch + tracing + mode, stop, command);
    sum_contains(catch + tracing + mode + stop, run, command);
    short_list_contains(Command::DisableVectorCatch, run_command, run_command, command);
    short_list_contains(
        Command::WriteDown(TrcCommand::StopTracing),
        run_command,
        run_command,
        command,
    );
    short_list_contains(run_command, run_command, run_command, command);
    if let Some(address) = session.rtt_cfg.setup_on_breakpoint_address {
        let clear = Command::ClearBreakpoint(address);
        short_list_contains(clear, run_command, run_command, command);
    }
    if let Some(address) = session.rtt_cfg.stop_on_breakpoint_address {
        let clear = Command::ClearBreakpoint(address);
        short_list_contains(clear, run_command, run_command, command);
    }
}

/// What a session that leaves does in all.
pub open spec fn way_out(
    session: SessionModel,
    shared: SharedState,
    leave: Leave,
    reached: bool,
    halted: bool,
) -> Seq<Command> {
    seq![Command::AttachCore(session.target_cfg.core)] + session_model::only_if(
        reached,
        plan_laws::stop_plan(session, shared, leave, halted),
    ) + plan_laws::closing(leave)
}

/// The way out is in order.
proof fn way_out_is_ordered(
    session: SessionModel,
    shared: SharedState,
    leave: Leave,
    reached: bool,
    halted: bool,
)
    ensures
        ordered(way_out(session, shared, leave, reached, halted), stop_places()),
{
    let places = stop_places();
    let core = seq![Command::AttachCore(session.target_cfg.core)];
    let look = session_model::only_if(session.waits_at_breakpoint(), seq![Command::ReadStatus]);
    let resume = session.resumes(session.caught, leave) || halted;
    let script = session.stop_script(session.is_last(shared), resume);
    let plan = session_model::only_if(
        reached,
        plan_laws::stop_plan(session, shared, leave, halted),
    );
    let close = plan_laws::closing(leave);
    stop_script_is_ordered(session, session.is_last(shared), resume);
    assert(ordered(core, places) && within(core, places, 0, 0));
    assert(ordered(look, places) && within(look, places, 1, 1));
    assert(ordered(close, places) && within(close, places, 6, 6));
    ordered_lists_add_up(look, script, places, 1, 1, 5);
    assert(ordered(plan, places) && within(plan, places, 1, 5));
    ordered_lists_add_up(core, plan, places, 0, 0, 5);
    ordered_lists_add_up(core + plan, close, places, 0, 5, 6);
}

/// What the way out consists of.
proof fn way_out_contains(
    session: SessionModel,
    shared: SharedState,
    leave: Leave,
    reached: bool,
    halted: bool,
    command: Command,
)
    ensures
        ({
            let rtt = session.rtt_cfg;
            let companion = session.target_cfg.bootloader_companion_application;
            way_out(session, shared, leave, reached, halted).contains(command) <==> match command {
                Command::AttachCore(core) => core == session.target_cfg.core,
                Command::ReadStatus => reached && session.state is RttAttach && !companion
                    && rtt.setup_on_breakpoint_address is Some,
                Command::DisableVectorCatch => reached && shared.vector_catch_enabled <= (
                if session.caught {
                    1int
                } else {
                    0
                }),
                Command::WriteDown(written) => reached && written is StopTracing
                    && session.state is Run && !rtt.disable_control_plane,
                Command::ClearBreakpoint(address) => reached && !companion && (
                rtt.stop_on_breakpoint_address == Some(address) || session.state is RttAttach
                    && rtt.setup_on_breakpoint_address == Some(address)),
                Command::Run => reached && (halted || match leave {
                    Leave::Stop(StoppedReason::Breakpoint(_)) => !companion,
                    Leave::Stop(StoppedReason::ResetCatch) => !companion || session.caught,
                    _ => false,
                }),
                Command::CloseStream => leave is Shutdown,
                _ => false,
            }
        }),
{
    let core = Command::AttachCore(session.target_cfg.core);
    let look = session_model::only_if(session.waits_at_breakpoint(), seq![Command::ReadStatus]);
    let resume = session.resumes(session.caught, leave) || halted;
    let script = session.stop_script(session.is_last(shared), resume);
    let plan = session_model::only_if(
        reached,
        plan_laws::stop_plan(session, shared, leave, halted),
    );
    sum_contains(seq![core], plan, command);
    sum_contains(seq![core] + plan, plan_laws::closing(leave), command);
    sum_contains(look, script, command);
    stop_script_contains(session, session.is_last(shared), resume, command);
    short_list_contains(core, core, core, command);
    short_list_contains(Command::ReadStatus, core, core, command);
    short_list_contains(Command::CloseStream, core, core, command);
}

/// A session that leaves its core does just what it has to, each thing once and in order,
/// whatever fails. If the core can be reached, it disables the vector catch if nobody
/// else holds it, stops tracing if it runs and is to control the target, and clears its
/// breakpoints unless it is a companion. It lets a core run on that has halted at a
/// breakpoint, was caught in a reset, or waits where the channel mode was to be set up.
/// If it shuts down, it closes the client's connection in the end. It gives back what it
/// has counted itself in for, and has stopped or shut down then.
pub proof fn leaving_does_what_it_is_for(
    session: SessionModel,
    shared: SharedState,
    leave: Leave,
    status: Reply,
    world: World,
    now: Interval,
)
    requires
        session.step is Idle,
        !(session.state is Stopped),
        !(session.state is Shutdown),
        forall|resume: bool| #[trigger] world(Step::StopStatus(leave, resume)) == status,
        status is Status || status is Failed,
        session.cleared ==> shared.clear_vector_catch_and_breakpoints > 0,
        session.caught ==> shared.vector_catch_enabled > 0,
    ensures
        ({
            let turn = plan_laws::rest_of_turn(session.leaving(shared, leave), world, now, 7);
            let commands = turn.commands;
            let rtt = session.rtt_cfg;
            let companion = session.target_cfg.bootloader_companion_application;
            let reached = !(world(Step::StopCore(leave, session.caught)) is Failed);
            let waits = session.state is RttAttach && !companion
                && rtt.setup_on_breakpoint_address is Some;
            let holds = if session.caught {
                1int
            } else {
                0
            };
            &&& commands.contains(Command::DisableVectorCatch) <==> reached
                && shared.vector_catch_enabled == holds
            &&& commands.contains(Command::WriteDown(TrcCommand::StopTracing)) <==> reached
                && session.state is Run && !rtt.disable_control_plane
            &&& forall|address: u64| #[trigger]
                commands.contains(Command::ClearBreakpoint(address)) <==> reached && !companion && (
                rtt.stop_on_breakpoint_address == Some(address) || session.state is RttAttach
                    && rtt.setup_on_breakpoint_address == Some(address))
            &&& commands.contains(Command::Run) <==> reached && (waits && status
                matches Reply::Status(CoreStatus::Halted(_)) || match leave {
                Leave::Stop(StoppedReason::Breakpoint(_)) => !companion,
                Leave::Stop(StoppedReason::ResetCatch) => !companion || session.caught,
                _ => false,
            })
            &&& commands.contains(Command::CloseStream) <==> leave is Shutdown
            &&& forall|i: int|
                0 <= i < commands.len() ==> match #[trigger] commands[i] {
                    Command::AttachCore(core) => core == session.target_cfg.core,
                    Command::ReadStatus | Command::DisableVectorCatch => true,
                    Command::WriteDown(written) => written is StopTracing,
                    Command::ClearBreakpoint(_) | Command::Run | Command::CloseStream => true,
                    _ => false,
                }
            &&& ordered(commands, stop_places())
            &&& turn.end.command is EndTurn
            &&& turn.end.session.step is Idle
            &&& turn.end.session.state == (match leave {
                Leave::Stop(reason) => RttSessionState::Stopped(reason),
                Leave::Shutdown => RttSessionState::Shutdown,
            })
            &&& turn.end.session.completed
            &&& turn.end.session.last_rtt_read_had_data
            &&& !turn.end.session.cleared && !turn.end.session.caught
            &&& turn.end.shared.vector_catch_enabled == shared.vector_catch_enabled - holds
            &&& turn.end.shared.clear_vector_catch_and_breakpoints
                == shared.clear_vector_catch_and_breakpoints - (if session.cleared {
                1int
            } else {
                0
            })
        }),
{
    let rtt = session.rtt_cfg;
    let reached = !(world(Step::StopCore(leave, session.caught)) is Failed);
    assert(world(plan_laws::stop_status(session, leave)) == status);
    let halted = plan_laws::found_halted(session, leave, world);
    plan_laws::leaving_follows_its_plan(session, shared, leave, world, now);
    let commands = way_out(session, shared, leave, reached, halted);
    way_out_is_ordered(session, shared, leave, reached, halted);
    let tracing = Command::WriteDown(TrcCommand::StopTracing);
    way_out_contains(session, shared, leave, reached, halted, Command::DisableVectorCatch);
    way_out_contains(session, shared, leave, reached, halted, tracing);
    way_out_contains(session, shared, leave, reached, halted, Command::Run);
    way_out_contains(session, shared, leave, reached, halted, Command::CloseStream);
    assert forall|address: u64| #[trigger]
        commands.contains(Command::ClearBreakpoint(address)) <==> reached && !(
    session.target_cfg.bootloader_companion_application) && (rtt.stop_on_breakpoint_address == Some(
        address,
    ) || session.state is RttAttach && rtt.setup_on_breakpoint_address == Some(address)) by {
        let clear = Command::ClearBreakpoint(address);
        way_out_contains(session, shared, leave, reached, halted, clear);
    }
    assert forall|i: int| 0 <= i < commands.len() implies match #[trigger] commands[i] {
        Command::AttachCore(core) => core == session.target_cfg.core,
        Command::ReadStatus | Command::DisableVectorCatch => true,
        Command::WriteDown(written) => written is StopTracing,
        Command::ClearBreakpoint(_) | Command::Run | Command::CloseStream => true,
        _ => false,
    } by {
        assert(commands.contains(commands[i]));
        way_out_contains(session, shared, leave, reached, halted, commands[i]);
    }
}

} // verus!
