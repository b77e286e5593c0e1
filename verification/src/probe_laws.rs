//! What holds of probes whatever happens to them.
use crate::clock::Interval;
use crate::command::{Command, Reply};
use crate::probe_model;
use crate::probe_model::{ProbeAction, ProbeModel, ProbeOutcome, ProbeTurn};
use crate::protocol::ProxySessionId;
use crate::session_laws;
use crate::session_model::{Outcome, SessionModel};
use crate::setup::SetupStep;
use crate::shared_state::SharedState;
use crate::turn_laws;
use vstd::prelude::*;

verus! {

/// Giving the connection up keeps a probe well-formed, and it still seems to be lost.
proof fn recovery_keeps_wf(probe: ProbeModel)
    requires
        probe.wf(),
        probe.turn is Idle,
    ensures
        probe.enter_recovery().probe.wf(),
        probe.enter_recovery().probe.sessions.dom() == probe.sessions.dom(),
        probe.seems_lost() ==> probe.enter_recovery().probe.seems_lost(),
{
    let next = probe.enter_recovery().probe;
    assert(next.sessions.dom() =~= probe.sessions.dom());
    assert forall|id: ProxySessionId| #[trigger] next.sessions.contains_key(id) implies {
        &&& probe.sessions.contains_key(id)
        &&& next.sessions[id] == probe.sessions[id].forgotten()
    } by {}
    if probe.seems_lost() {
        let recoverable = choose|id: ProxySessionId| #[trigger]
            probe.sessions.contains_key(id) && probe_model::is_recoverable(probe.sessions[id]);
        assert(next.sessions.contains_key(recoverable));
        let unreached = choose|id: ProxySessionId| #[trigger]
            probe.sessions.contains_key(id) && probe.sessions[id].is_stopped_due_to_core_attach();
        assert(next.sessions.contains_key(unreached));
    }
}

/// Moving the schedule on keeps a probe well-formed.
proof fn advance_keeps_wf(probe: ProbeModel, now: Interval)
    requires
        probe.wf(),
        probe.turn is Idle,
    ensures
        probe.advance(now).probe.wf(),
        probe.turn_over(now).probe.wf(),
{
    let less = ProbeModel {
        to_service: if probe.to_service == 0 {
            0
        } else {
            (probe.to_service - 1) as nat
        },
        ..probe
    };
    let next = probe_model::advanced(probe.next, probe.schedule.len());
    let check = probe.recovery_check.checked(now.total());
    recovery_keeps_wf(ProbeModel { next, recovery_check: check, ..probe });
    recovery_keeps_wf(ProbeModel { next, recovery_check: check, ..less });
}

/// A step of a session in its turn keeps a probe well-formed.
proof fn step_keeps_wf(probe: ProbeModel, id: ProxySessionId, outcome: Outcome, now: Interval)
    requires
        probe.wf(),
        probe.active,
        probe.sessions.contains_key(id),
        probe.turn is Idle || probe.turn == ProbeTurn::<SessionModel>::Update(id),
        outcome.session.wf(),
        outcome.session.id == id,
    ensures
        (ProbeModel { turn: ProbeTurn::Idle, ..probe }).session_stepped(
            id,
            outcome,
            now,
        ).probe.wf(),
{
    let stepped = (ProbeModel { turn: ProbeTurn::Idle, ..probe }).stepped(id, outcome);
    if outcome.session.step is Idle {
        assert(stepped.wf());
        advance_keeps_wf(stepped, now);
    }
}

/// A step of a session that leaves keeps a probe well-formed.
proof fn leave_keeps_wf(probe: ProbeModel, outcome: Outcome, all: bool)
    requires
        probe.wf(),
        probe.turn is Idle,
        outcome.session.wf(),
        outcome.session.step is Idle || probe_model::is_leaving(outcome.session),
        probe.active || outcome.session.step is Idle || outcome.session.step is Close,
    ensures
        probe.leave_stepped(outcome, all).probe.wf(),
{
}

/// A probe that gets its turn stays well-formed.
pub proof fn serviced_probe_is_wf(probe: ProbeModel, now: Interval)
    requires
        probe.wf(),
        probe.turn is Idle,
    ensures
        probe.serviced(now).probe.wf(),
{
    if probe.active {
        if let Some(id) = probe.scheduled() {
            let session = probe.sessions[id];
            let shared = probe.shared_of(session.target_cfg.core);
            session_laws::steps_keep_the_session(session, shared, Reply::Done, now);
            session_laws::steps_are_sound(session, shared, Reply::Done, now);
            step_keeps_wf(probe, id, session.updated(shared, now), now);
            assert((ProbeModel { turn: ProbeTurn::Idle, ..probe }) == probe);
        } else {
            advance_keeps_wf(probe, now);
        }
    }
}

/// A probe that gets an answer stays well-formed.
pub proof fn resumed_probe_is_wf(probe: ProbeModel, reply: Reply, now: Interval)
    requires
        probe.wf(),
    ensures
        probe.resumed(reply, now).probe.wf(),
{
    let idle = ProbeModel { turn: ProbeTurn::Idle, ..probe };
    match probe.turn {
        ProbeTurn::Dropping(_) => {
            shut_down_probe_is_wf(idle, 0);
        },
        ProbeTurn::Leave(session, all) => {
            let shared = probe.shared_of(session.target_cfg.core);
            let outcome = session.resumed(shared, reply, now);
            session_laws::steps_are_sound(session, shared, reply, now);
            assert(outcome.session.step is Idle || probe_model::is_leaving(outcome.session));
            assert(probe.active || outcome.session.step is Idle);
            leave_keeps_wf(idle, outcome, all);
        },
        ProbeTurn::Update(id) => {
            let session = probe.sessions[id];
            let shared = probe.shared_of(session.target_cfg.core);
            session_laws::steps_keep_the_session(session, shared, reply, now);
            session_laws::steps_are_sound(session, shared, reply, now);
            step_keeps_wf(probe, id, session.resumed(shared, reply, now), now);
        },
        _ => {},
    }
}

/// The first session that is present is one that is scheduled and present. If
/// there is none, no scheduled session is present.
pub proof fn first_present_is_present<V>(
    schedule: Seq<ProxySessionId>,
    sessions: Map<ProxySessionId, V>,
)
    ensures
        match probe_model::first_present(schedule, sessions) {
            Some(id) => schedule.contains(id) && sessions.contains_key(id),
            None => forall|id: ProxySessionId| #[trigger]
                schedule.contains(id) ==> !sessions.contains_key(id),
        },
    decreases schedule.len(),
{
    if schedule.len() > 0 {
        if sessions.contains_key(schedule[0]) {
            assert(schedule.contains(schedule[0]));
        } else {
            let rest = schedule.drop_first();
            first_present_is_present(rest, sessions);
            if let Some(id) = probe_model::first_present(rest, sessions) {
                let j = rest.index_of(id);
                assert(schedule[j + 1] == id);
            } else {
                assert forall|id: ProxySessionId| #[trigger]
                    schedule.contains(id) implies !sessions.contains_key(id) by {
                    let j = schedule.index_of(id);
                    if j > 0 {
                        assert(rest[j - 1] == id);
                        assert(rest.contains(id));
                    }
                }
            }
        }
    }
}

/// Taking one entry off a schedule keeps the others.
pub proof fn others_stay_scheduled(schedule: Seq<ProxySessionId>, i: int, id: ProxySessionId)
    requires
        0 <= i < schedule.len(),
        schedule.contains(id),
        schedule[i] != id,
    ensures
        schedule.remove(i).contains(id),
{
    let j = schedule.index_of(id);
    if j < i {
        assert(schedule.remove(i)[j] == id);
    } else {
        assert(schedule.remove(i)[j - 1] == id);
    }
}

/// A probe that has sessions shut down stays well-formed.
pub proof fn shut_down_probe_is_wf(probe: ProbeModel, id: ProxySessionId)
    requires
        probe.wf(),
        probe.turn is Idle,
    ensures
        probe.session_shut_down(id).probe.wf(),
        probe.all_shut_down().probe.wf(),
{
    let now = Interval { secs: 0, nanos: 0 };
    if let Some(first) = probe_model::first_present(probe.schedule, probe.sessions) {
        first_present_is_present(probe.schedule, probe.sessions);
        let session = probe.sessions[first];
        let shared = probe.shared_of(session.target_cfg.core);
        session_laws::steps_are_sound(session, shared, Reply::Done, now);
    }
    if probe.sessions.contains_key(id) {
        let session = probe.sessions[id];
        let shared = probe.shared_of(session.target_cfg.core);
        session_laws::steps_are_sound(session, shared, Reply::Done, now);
        let i = probe.schedule.index_of_first(id)->0;
        probe.schedule.index_of_first_ensures(id);
        assert forall|other: ProxySessionId| #[trigger]
            probe.sessions.remove(id).contains_key(
                other,
            ) implies probe.schedule.remove(i).contains(other) by {
            others_stay_scheduled(probe.schedule, i, other);
        }
    }
}

/// Whatever is done for a probe, it keeps its identity and its configuration.
pub proof fn steps_keep_the_probe(
    probe: ProbeModel,
    id: ProxySessionId,
    reply: Reply,
    now: Interval,
)
    ensures
        probe.serviced(now).probe.id == probe.id,
        probe.serviced(now).probe.cfg == probe.cfg,
        probe.resumed(reply, now).probe.id == probe.id,
        probe.resumed(reply, now).probe.cfg == probe.cfg,
        probe.session_shut_down(id).probe.id == probe.id,
        probe.session_shut_down(id).probe.cfg == probe.cfg,
        probe.all_shut_down().probe.id == probe.id,
        probe.all_shut_down().probe.cfg == probe.cfg,
{
}

/// A probe that gets one session more stays well-formed.
pub proof fn added_session_keeps_wf(probe: ProbeModel, session: SessionModel)
    requires
        probe.wf(),
        probe.turn is Idle,
        session.step is Idle,
        session.wf(),
    ensures
        probe.with_session(session).wf(),
{
    let with = probe.with_session(session);
    assert forall|id: ProxySessionId| #[trigger]
        with.sessions.contains_key(id) implies with.schedule.contains(id) by {
        if id == session.id {
            assert(with.schedule[with.schedule.len() - 1] == id);
        } else {
            let j = probe.schedule.index_of(id);
            assert(with.schedule[j] == id);
        }
    }
}

/// Something is under way for a probe exactly as long as there is something to be
/// done.
pub proof fn probe_rests_when_done(
    probe: ProbeModel,
    id: ProxySessionId,
    reply: Reply,
    now: Interval,
)
    ensures
        probe.serviced(now).action is Done <==> probe.serviced(now).probe.turn is Idle,
        probe.resumed(reply, now).action is Done <==> probe.resumed(reply, now).probe.turn is Idle,
        probe.session_shut_down(id).action is Done <==> probe.session_shut_down(
            id,
        ).probe.turn is Idle,
        probe.all_shut_down().action is Done <==> probe.all_shut_down().probe.turn is Idle,
{
}

/// The place in a schedule of that length after so many turns.
pub open spec fn advanced_by(next: nat, len: nat, turns: nat) -> nat
    decreases turns,
{
    if turns == 0 {
        next
    } else {
        probe_model::advanced(advanced_by(next, len, (turns - 1) as nat), len)
    }
}

/// The turns go round: the schedule is gone through from the current place on, and
/// after the last place comes the first.
pub proof fn turns_go_round(next: nat, len: nat, turns: nat)
    requires
        next < len,
    ensures
        advanced_by(next, len, turns) == (next + turns) as int % len as int,
    decreases turns,
{
    if turns == 0 {
        vstd::arithmetic::div_mod::lemma_small_mod(next, len);
    } else {
        turns_go_round(next, len, (turns - 1) as nat);
        let before = (next + turns - 1) as int % len as int;
        vstd::arithmetic::div_mod::lemma_mod_bound(next + turns - 1, len as int);
        vstd::arithmetic::div_mod::lemma_add_mod_noop(next + turns - 1, 1, len as int);
        if before + 1 < len {
            vstd::arithmetic::div_mod::lemma_small_mod((before + 1) as nat, len);
        } else {
            vstd::arithmetic::div_mod::lemma_mod_self_0(len as int);
        }
        if len == 1 {
            vstd::arithmetic::div_mod::lemma_mod_self_0(1);
        } else {
            vstd::arithmetic::div_mod::lemma_small_mod(1, len);
        }
    }
}

/// Every place in the schedule has its turn before any has it twice.
pub proof fn every_place_has_its_turn(next: nat, len: nat, place: nat)
    requires
        next < len,
        place < len,
    ensures
        exists|turns: nat| turns < len && #[trigger] advanced_by(next, len, turns) == place,
        forall|a: nat, b: nat|
            a < b < len ==> #[trigger] advanced_by(next, len, a) != #[trigger] advanced_by(
                next,
                len,
                b,
            ),
{
    let turns: nat = if next <= place {
        (place - next) as nat
    } else {
        (place + len - next) as nat
    };
    turns_go_round(next, len, turns);
    if next <= place {
        vstd::arithmetic::div_mod::lemma_small_mod(place, len);
    } else {
        vstd::arithmetic::div_mod::lemma_mod_add_multiples_vanish(place as int, len as int);
        vstd::arithmetic::div_mod::lemma_small_mod(place, len);
    }
    assert forall|a: nat, b: nat| a < b < len implies #[trigger] advanced_by(next, len, a)
        != #[trigger] advanced_by(next, len, b) by {
        turns_go_round(next, len, a);
        turns_go_round(next, len, b);
        wrapped(next, len, a);
        wrapped(next, len, b);
    }
}

/// A place less than once round.
proof fn wrapped(next: nat, len: nat, turns: nat)
    requires
        next < len,
        turns < len,
    ensures
        (next + turns) as int % len as int == (if next + turns < len {
            next + turns as int
        } else {
            next + turns - len
        }),
{
    if next + turns < len {
        vstd::arithmetic::div_mod::lemma_small_mod((next + turns) as nat, len);
    } else {
        vstd::arithmetic::div_mod::lemma_mod_add_multiples_vanish(
            next + turns - len,
            len as int,
        );
        vstd::arithmetic::div_mod::lemma_small_mod((next + turns - len) as nat, len);
    }
}

/// A session that is suspended is passed over: it stays as it is, and the schedule moves
/// on.
pub proof fn suspended_session_waits(probe: ProbeModel, now: Interval)
    requires
        probe.wf(),
        probe.turn is Idle,
        probe.active,
        probe.next < probe.schedule.len(),
        probe.suspended(probe.next as int),
    ensures
        probe.serviced(now) == probe.advance(now),
        !(probe.serviced(now).action is Session),
{
}

/// While a bootloader has not signalled completion, no other session on its core has a
/// turn, unless it is that of a bootloader which came first.
pub proof fn bootloader_has_its_core_to_itself(
    probe: ProbeModel,
    id: ProxySessionId,
    bootloader: ProxySessionId,
)
    requires
        probe.wf(),
        probe.scheduled() == Some(id),
        probe.sessions.contains_key(bootloader),
        probe_model::boots(probe.sessions[bootloader], probe.sessions[id].target_cfg.core),
    ensures
        id == bootloader || probe.sessions[id].target_cfg.bootloader && probe.next
            < probe.schedule.index_of(bootloader),
{
    let k = probe.schedule.index_of(bootloader);
    if id != bootloader {
        assert(!probe.waits_for(probe.next as int, k));
    }
}

/// A session is not suspended any more once every other bootloader on its core has
/// signalled completion: it has stopped once or shut down, or is gone.
pub proof fn completion_ends_the_suspension(probe: ProbeModel, place: int)
    requires
        0 <= place < probe.schedule.len(),
        probe.sessions.contains_key(probe.schedule[place]),
        forall|id: ProxySessionId| #[trigger]
            probe.sessions.contains_key(id) && id != probe.schedule[place]
                && probe.sessions[id].target_cfg.core
                == probe.sessions[probe.schedule[place]].target_cfg.core
                && probe.sessions[id].target_cfg.bootloader ==> probe.sessions[id].completed
                || probe.sessions[id].state is Stopped || probe.sessions[id].state is Shutdown,
    ensures
        !probe.suspended(place),
{
}

/// Whether the session at that place of the schedule is that of a bootloader which has
/// not signalled completion.
pub open spec fn boots_at(probe: ProbeModel, place: int, core: u32) -> bool {
    &&& 0 <= place < probe.schedule.len()
    &&& probe.sessions.contains_key(probe.schedule[place])
    &&& probe_model::boots(probe.sessions[probe.schedule[place]], core)
}

/// Somebody always goes on: where a session is suspended, there is a bootloader on its
/// core that is not.
pub proof fn suspension_leaves_somebody(probe: ProbeModel, place: int)
    requires
        0 <= place < probe.schedule.len(),
        probe.suspended(place),
    ensures
        exists|first: int|
            #[trigger] boots_at(
                probe,
                first,
                probe.sessions[probe.schedule[place]].target_cfg.core,
            ) && !probe.suspended(first),
{
    let core = probe.sessions[probe.schedule[place]].target_cfg.core;
    let k = choose|k: int| 0 <= k < probe.schedule.len() && #[trigger] probe.waits_for(place, k);
    assert(boots_at(probe, k, core));
    first_bootloader_goes_on(probe, k, core);
}

proof fn first_bootloader_goes_on(probe: ProbeModel, place: int, core: u32)
    requires
        boots_at(probe, place, core),
    ensures
        exists|first: int| #[trigger]
            boots_at(probe, first, core) && !probe.suspended(first),
    decreases place,
{
    if probe.suspended(place) {
        let k = choose|k: int|
            0 <= k < probe.schedule.len() && #[trigger] probe.waits_for(place, k);
        assert(boots_at(probe, k, core));
        first_bootloader_goes_on(probe, k, core);
    }
}

/// While the connection is lost nothing is asked of a core: all that is done for a
/// session is to close its client's connection, which is done for every one that
/// leaves and is not shut down already.
pub proof fn lost_probe_touches_no_core(
    probe: ProbeModel,
    id: ProxySessionId,
    reply: Reply,
    now: Interval,
)
    requires
        probe.wf(),
        !probe.active,
    ensures
        probe.turn is Idle ==> only_closes(probe.serviced(now)),
        probe.turn is Idle ==> only_closes(probe.session_shut_down(id)),
        probe.turn is Idle ==> only_closes(probe.all_shut_down()),
        only_closes(probe.resumed(reply, now)),
        probe.turn is Idle && probe.sessions.contains_key(id) && !(
        probe.sessions[id].state is Shutdown) ==> probe.session_shut_down(id).action
            == ProbeAction::Session(id, Command::CloseStream),
        probe.turn is Idle ==> match probe_model::first_present(probe.schedule, probe.sessions) {
            Some(first) => !(probe.sessions[first].state is Shutdown)
                ==> probe.all_shut_down().action == ProbeAction::Session(
                first,
                Command::CloseStream,
            ),
            None => true,
        },
{
    first_present_is_present(probe.schedule, probe.sessions);
}

/// A session that shuts down is dropped only when its client's connection was closed:
/// right after that, or because it had shut down before.
pub proof fn dropped_session_has_its_stream_closed(
    probe: ProbeModel,
    id: ProxySessionId,
    dropped: ProxySessionId,
    reply: Reply,
    now: Interval,
)
    requires
        probe.wf(),
    ensures
        probe.turn is Idle && probe.session_shut_down(id).action == ProbeAction::DropSession(
            dropped,
        ) ==> probe.sessions.contains_key(dropped) && probe.sessions[dropped].state is Shutdown,
        probe.turn is Idle && probe.all_shut_down().action == ProbeAction::DropSession(dropped)
            ==> probe.sessions.contains_key(dropped) && probe.sessions[dropped].state is Shutdown,
        probe.resumed(reply, now).action == ProbeAction::DropSession(dropped) ==> {
            ||| probe.turn matches ProbeTurn::Leave(session, _) && session.step is Close
                && session.id == dropped
            ||| probe.sessions.contains_key(dropped) && probe.sessions[dropped].state is Shutdown
        },
{
    first_present_is_present(probe.schedule, probe.sessions);
    if let ProbeTurn::Leave(session, _) = probe.turn {
        let shared = probe.shared_of(session.target_cfg.core);
        session_laws::steps_keep_the_session(session, shared, reply, now);
    }
}

/// Whether nothing is asked of a core: of what sessions ask for, only the end of the
/// client's connection.
pub open spec fn only_closes(outcome: ProbeOutcome) -> bool {
    outcome.action matches ProbeAction::Session(_, command) ==> command is CloseStream
}

/// Whether a session is the same after a step as before it, but for what it holds of
/// its core where the connection was given up.
pub open spec fn is_left_alone(
    probe: ProbeModel,
    next: ProbeModel,
    other: ProxySessionId,
) -> bool {
    probe.sessions.contains_key(other) ==> next.sessions[other] == (if probe.active
        && !next.active {
        probe.sessions[other].forgotten()
    } else {
        probe.sessions[other]
    })
}

/// A probe's turn is one turn of the session that is scheduled. No other session
/// changes, and where none is scheduled none does; only when the connection is given
/// up, nobody holds anything of a core any more.
pub proof fn other_sessions_are_left_alone(
    probe: ProbeModel,
    other: ProxySessionId,
    reply: Reply,
    now: Interval,
)
    requires
        probe.wf(),
    ensures
        probe.turn is Idle && probe.scheduled() != Some(other) ==> {
            let next = probe.serviced(now).probe;
            &&& next.sessions.contains_key(other) == probe.sessions.contains_key(other)
            &&& is_left_alone(probe, next, other)
        },
        probe.turn is Update && probe.turn->Update_0 != other ==> {
            let next = probe.resumed(reply, now).probe;
            &&& next.sessions.contains_key(other) == probe.sessions.contains_key(other)
            &&& is_left_alone(probe, next, other)
        },
{
}

/// The connection is given up only when it seems to be lost, and then only once as
/// many turns were had since the last time as there were sessions then. Nothing
/// is done for a session while it is gone.
pub proof fn recovery_waits_for_every_session(probe: ProbeModel, reply: Reply, now: Interval)
    requires
        probe.wf(),
    ensures
        probe.turn is Idle ==> gives_up_rightly(probe, probe.serviced(now)),
        probe.turn is Update ==> gives_up_rightly(probe, probe.resumed(reply, now)),
        probe.turn is Idle && !probe.active ==> {
            let next = probe.serviced(now);
            &&& next.action is Setup || next.action is Done
            &&& next.probe.sessions == probe.sessions
            &&& next.probe.next == probe.next
        },
{
    if probe.turn is Idle && probe.active {
        if let Some(id) = probe.scheduled() {
            let session = probe.sessions[id];
            let shared = probe.shared_of(session.target_cfg.core);
            session_laws::steps_keep_the_session(session, shared, reply, now);
            session_laws::steps_are_sound(session, shared, reply, now);
            step_gives_up_rightly(probe, id, session.updated(shared, now), now);
            assert((ProbeModel { turn: ProbeTurn::Idle, ..probe }) == probe);
        } else {
            let checked = ProbeModel {
                next: probe_model::advanced(probe.next, probe.schedule.len()),
                recovery_check: probe.recovery_check.checked(now.total()),
                ..probe
            };
            assert(checked.wf());
            recovery_keeps_wf(checked);
        }
    }
    if let ProbeTurn::Update(id) = probe.turn {
        let session = probe.sessions[id];
        let shared = probe.shared_of(session.target_cfg.core);
        session_laws::steps_keep_the_session(session, shared, reply, now);
        session_laws::steps_are_sound(session, shared, reply, now);
        step_gives_up_rightly(probe, id, session.resumed(shared, reply, now), now);
    }
}

/// If a step gives the connection up, it does so rightly; otherwise at most one
/// turn less is to be waited for.
pub open spec fn gives_up_rightly(probe: ProbeModel, next: ProbeOutcome) -> bool {
    if next.action is DropDebugSession {
        &&& probe.active
        &&& probe.to_service <= 1
        &&& !next.probe.active
        &&& next.probe.seems_lost()
        &&& next.probe.to_service == probe.sessions.len()
        &&& next.probe.next == 0
        &&& next.probe.shared == Map::<u32, SharedState>::empty()
    } else {
        &&& next.probe.to_service + 1 >= probe.to_service
        &&& probe.active ==> next.probe.active
    }
}

proof fn step_gives_up_rightly(
    probe: ProbeModel,
    id: ProxySessionId,
    outcome: Outcome,
    now: Interval,
)
    requires
        probe.wf(),
        probe.active,
        probe.sessions.contains_key(id),
        probe.turn is Idle || probe.turn == ProbeTurn::<SessionModel>::Update(id),
        outcome.session.wf(),
        outcome.session.id == id,
    ensures
        gives_up_rightly(
            probe,
            (ProbeModel { turn: ProbeTurn::Idle, ..probe }).session_stepped(id, outcome, now),
        ),
{
    let idle = ProbeModel { turn: ProbeTurn::Idle, ..probe };
    assert(probe.sessions.insert(id, outcome.session).dom() =~= probe.sessions.dom());
    if outcome.session.step is Idle {
        let stepped = idle.stepped(id, outcome);
        let checked = ProbeModel {
            to_service: if probe.to_service == 0 {
                0
            } else {
                (probe.to_service - 1) as nat
            },
            next: probe_model::advanced(probe.next, probe.schedule.len()),
            recovery_check: probe.recovery_check.checked(now.total()),
            ..stepped
        };
        assert(checked.wf());
        assert(stepped.seems_lost() == checked.seems_lost());
        recovery_keeps_wf(checked);
    }
}

/// When the shutdown of all sessions is over, no session is left.
pub proof fn nobody_is_left(probe: ProbeModel, reply: Reply, now: Interval)
    requires
        probe.wf(),
    ensures
        probe.all_shut_down().probe.turn is Idle ==> probe.all_shut_down().probe.sessions.dom()
            == Set::<ProxySessionId>::empty(),
        probe.turn == ProbeTurn::<SessionModel>::Dropping(true) && probe.resumed(
            reply,
            now,
        ).probe.turn is Idle ==> probe.resumed(reply, now).probe.sessions.dom() == Set::<
            ProxySessionId,
        >::empty(),
{
    first_present_is_present(probe.schedule, probe.sessions);
    if probe_model::first_present(probe.schedule, probe.sessions) is None {
        assert(probe.sessions.dom() =~= Set::<ProxySessionId>::empty());
    }
}

/// Once all sessions are to shut down, that goes on until it is over.
pub proof fn shutdown_of_all_goes_on(probe: ProbeModel, reply: Reply, now: Interval)
    ensures
        ({
            let begun = probe.all_shut_down().probe;
            begun.turn is Idle || begun.is_emptied()
        }),
        probe.is_emptied() ==> {
            let next = probe.resumed(reply, now).probe;
            next.turn is Idle && probe.turn is Dropping || next.is_emptied()
        },
{
}

/// No two sessions of a probe come to read the same place.
pub proof fn places_stay_distinct(
    probe: ProbeModel,
    id: ProxySessionId,
    reply: Reply,
    now: Interval,
)
    requires
        probe.wf(),
        probe.has_distinct_places(),
    ensures
        probe.turn is Idle ==> probe.serviced(now).probe.has_distinct_places(),
        probe.resumed(reply, now).probe.has_distinct_places(),
        probe.session_shut_down(id).probe.has_distinct_places(),
        probe.all_shut_down().probe.has_distinct_places(),
{
    if probe.active {
        if let Some(next) = probe.scheduled() {
            let session = probe.sessions[next];
            let shared = probe.shared_of(session.target_cfg.core);
            session_laws::steps_keep_the_session(session, shared, reply, now);
        }
    }
    if let ProbeTurn::Update(current) = probe.turn {
        let session = probe.sessions[current];
        let shared = probe.shared_of(session.target_cfg.core);
        session_laws::steps_keep_the_session(session, shared, reply, now);
    }
}

/// How many answers there can be, at most, until nothing is left to do for a probe.
/// A session that shuts down takes at most nine.
pub open spec fn probe_answers_left(probe: ProbeModel) -> nat {
    match probe.turn {
        ProbeTurn::Idle => 0,
        ProbeTurn::DropDebugSession => 1,
        ProbeTurn::Recover(step) => setup_answers_left(step),
        ProbeTurn::Update(id) => turn_laws::answers_left(probe.sessions[id].step) + 1,
        ProbeTurn::Leave(session, all) => turn_laws::answers_left(session.step) + 1 + (if all {
            9 * probe.sessions.len()
        } else {
            0
        }),
        ProbeTurn::Dropping(all) => 1 + (if all {
            9 * probe.sessions.len()
        } else {
            0
        }),
    }
}

/// How many answers there can be, at most, until the setup of a probe is over.
pub open spec fn setup_answers_left(step: SetupStep) -> nat {
    match step {
        SetupStep::Open(_) => 5,
        SetupStep::Protocol => 4,
        SetupStep::Speed => 3,
        SetupStep::Voltage => 2,
        SetupStep::Attach => 1,
    }
}

/// What is begun for a probe does not take long: a turn at most as long as that of
/// a session and what follows it, and a shutdown nine answers for each session.
pub proof fn probe_work_is_bounded(probe: ProbeModel, id: ProxySessionId, now: Interval)
    requires
        probe.wf(),
        probe.turn is Idle,
    ensures
        probe_answers_left(probe.serviced(now).probe) <= 23,
        probe_answers_left(probe.session_shut_down(id).probe) <= 8,
        probe_answers_left(probe.all_shut_down().probe) <= 9 * probe.sessions.len(),
{
    if let Some(current) = probe.scheduled() {
        let session = probe.sessions[current];
        turn_laws::turns_are_short(session, probe.shared_of(session.target_cfg.core), now);
    }
    if probe.sessions.contains_key(id) {
        let session = probe.sessions[id];
        turn_laws::turns_are_short(session, probe.shared_of(session.target_cfg.core), now);
    }
    first_present_is_present(probe.schedule, probe.sessions);
    if let Some(first) = probe_model::first_present(probe.schedule, probe.sessions) {
        let session = probe.sessions[first];
        turn_laws::turns_are_short(session, probe.shared_of(session.target_cfg.core), now);
        assert(probe.sessions.remove(first).len() == probe.sessions.len() - 1);
    }
}

/// A probe that has something under way has an answer to wait for.
pub proof fn busy_probe_waits(probe: ProbeModel)
    requires
        probe.wf(),
        !(probe.turn is Idle),
    ensures
        probe_answers_left(probe) >= 1,
{
}

/// Every answer brings what is under way for a probe closer to its end.
pub proof fn probes_move_on(probe: ProbeModel, reply: Reply, now: Interval)
    requires
        probe.wf(),
        !(probe.turn is Idle),
    ensures
        probe_answers_left(probe.resumed(reply, now).probe) < probe_answers_left(probe),
{
    match probe.turn {
        ProbeTurn::Update(id) => {
            let session = probe.sessions[id];
            let shared = probe.shared_of(session.target_cfg.core);
            turn_laws::turns_move_on(session, shared, reply, now);
        },
        ProbeTurn::Leave(session, _) => {
            let shared = probe.shared_of(session.target_cfg.core);
            turn_laws::turns_move_on(session, shared, reply, now);
        },
        ProbeTurn::Dropping(all) => {
            if all {
                let idle = ProbeModel { turn: ProbeTurn::Idle, ..probe };
                assert(idle.wf());
                probe_work_is_bounded(idle, 0, now);
            }
        },
        _ => {},
    }
}

} // verus!
