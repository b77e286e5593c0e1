//! What the sessions on a core hold of it, all of them together.
use crate::clock::Interval;
use crate::command::Reply;
use crate::probe_id::ProbeId;
use crate::probe_laws;
use crate::probe_model;
use crate::probe_model::{ProbeModel, ProbeTurn};
use crate::protocol::{ProbeConfig, ProxySessionId};
use crate::session_laws;
use crate::session_model::{Outcome, SessionModel};
use crate::shared_state::SharedState;
use vstd::prelude::*;

verus! {

/// The sessions of which that holds.
pub open spec fn holders(
    sessions: Map<ProxySessionId, SessionModel>,
    holds: spec_fn(SessionModel) -> bool,
) -> Set<ProxySessionId> {
    sessions.dom().filter(|id: ProxySessionId| holds(sessions[id]))
}

/// Whether a session has counted itself in among those that cleared that core.
pub open spec fn clearing(core: u32) -> spec_fn(SessionModel) -> bool {
    |session: SessionModel| session.target_cfg.core == core && session.cleared
}

/// Whether a session has counted itself in among those that catch resets of that core.
pub open spec fn catching(core: u32) -> spec_fn(SessionModel) -> bool {
    |session: SessionModel| session.target_cfg.core == core && session.caught
}

/// Whether the counts are those of the sessions that have counted themselves in.
pub open spec fn counts_are(
    sessions: Map<ProxySessionId, SessionModel>,
    shared: SharedState,
    core: u32,
) -> bool {
    &&& shared.clear_vector_catch_and_breakpoints == holders(sessions, clearing(core)).len()
    &&& shared.vector_catch_enabled == holders(sessions, catching(core)).len()
}

/// Whether the counts of every core are those of the sessions that have counted
/// themselves in.
pub open spec fn counts_match(probe: ProbeModel) -> bool {
    forall|core: u32| counts_are(probe.sessions, #[trigger] probe.shared_of(core), core)
}

/// A session counts for one among the others.
proof fn session_counts_for_one(
    sessions: Map<ProxySessionId, SessionModel>,
    id: ProxySessionId,
    holds: spec_fn(SessionModel) -> bool,
)
    requires
        sessions.dom().finite(),
        sessions.contains_key(id),
    ensures
        holders(sessions, holds).len() == holders(sessions.remove(id), holds).len()
            + session_laws::held(holds(sessions[id])),
        holders(sessions, holds).len() <= sessions.len(),
{
    let with = holders(sessions, holds);
    let without = holders(sessions.remove(id), holds);
    sessions.dom().lemma_len_filter(|id: ProxySessionId| holds(sessions[id]));
    assert(without =~= with.remove(id));
}

/// One step of a session changes the counts of its core by just what the session
/// takes or gives up, and those of other cores not at all.
proof fn step_keeps_counts(probe: ProbeModel, id: ProxySessionId, outcome: Outcome)
    requires
        probe.sessions.dom().finite(),
        probe.sessions.contains_key(id),
        probe.sessions.len() < usize::MAX,
        counts_match(probe),
        outcome.session.target_cfg.core == probe.sessions[id].target_cfg.core,
        session_laws::counts_follow(
            probe.sessions[id],
            probe.shared_of(outcome.session.target_cfg.core),
            outcome,
        ),
    ensures
        counts_match(probe.stepped(id, outcome)),
        !outcome.session.cleared && !outcome.session.caught ==> counts_match(
            ProbeModel {
                sessions: probe.sessions.remove(id),
                shared: probe.shared.insert(outcome.session.target_cfg.core, outcome.shared),
                ..probe
            },
        ),
{
    let own = outcome.session.target_cfg.core;
    let stepped = probe.stepped(id, outcome);
    let without = ProbeModel {
        sessions: probe.sessions.remove(id),
        shared: probe.shared.insert(own, outcome.shared),
        ..probe
    };
    assert(stepped.sessions.remove(id) =~= probe.sessions.remove(id));
    assert(counts_are(probe.sessions, probe.shared_of(own), own));
    session_counts_for_one(probe.sessions, id, clearing(own));
    session_counts_for_one(probe.sessions, id, catching(own));
    assert(stepped.shared_of(own) == outcome.shared);
    assert forall|core: u32| counts_are(
        stepped.sessions,
        #[trigger] stepped.shared_of(core),
        core,
    ) by {
        session_counts_for_one(probe.sessions, id, clearing(core));
        session_counts_for_one(probe.sessions, id, catching(core));
        session_counts_for_one(stepped.sessions, id, clearing(core));
        session_counts_for_one(stepped.sessions, id, catching(core));
        assert(counts_are(probe.sessions, probe.shared_of(core), core));
    }
    if !outcome.session.cleared && !outcome.session.caught {
        assert forall|core: u32| counts_are(
            without.sessions,
            #[trigger] without.shared_of(core),
            core,
        ) by {
            session_counts_for_one(probe.sessions, id, clearing(core));
            session_counts_for_one(probe.sessions, id, catching(core));
            assert(counts_are(probe.sessions, probe.shared_of(core), core));
        }
    }
}

/// Where the connection is given up, nobody holds anything.
proof fn recovery_keeps_counts(probe: ProbeModel)
    ensures
        counts_match(probe.enter_recovery().probe),
{
    let next = probe.enter_recovery().probe;
    assert forall|core: u32| counts_are(next.sessions, #[trigger] next.shared_of(core), core) by {
        assert(holders(next.sessions, clearing(core)) =~= Set::empty());
        assert(holders(next.sessions, catching(core)) =~= Set::empty());
    }
}

/// The counts only depend on the sessions and on what they share.
proof fn counts_match_alike(a: ProbeModel, b: ProbeModel)
    requires
        counts_match(a),
        a.sessions == b.sessions,
        a.shared == b.shared,
    ensures
        counts_match(b),
{
    assert forall|core: u32| counts_are(b.sessions, #[trigger] b.shared_of(core), core) by {
        assert(counts_are(a.sessions, a.shared_of(core), core));
    }
}

/// A session in its turn keeps the counts.
proof fn turn_keeps_counts(probe: ProbeModel, id: ProxySessionId, outcome: Outcome, now: Interval)
    requires
        counts_match(probe.stepped(id, outcome)),
    ensures
        counts_match(probe.session_stepped(id, outcome, now).probe),
{
    let stepped = probe.stepped(id, outcome);
    let next = probe.session_stepped(id, outcome, now).probe;
    if outcome.session.step is Idle {
        advance_keeps_counts(stepped, now);
    } else {
        counts_match_alike(stepped, next);
    }
}

/// Moving the schedule on keeps the counts.
proof fn advance_keeps_counts(probe: ProbeModel, now: Interval)
    requires
        counts_match(probe),
    ensures
        counts_match(probe.advance(now).probe),
        counts_match(probe.turn_over(now).probe),
{
    let next = probe_model::advanced(probe.next, probe.schedule.len());
    let check = probe.recovery_check.checked(now.total());
    let less = ProbeModel {
        to_service: if probe.to_service == 0 {
            0
        } else {
            (probe.to_service - 1) as nat
        },
        ..probe
    };
    recovery_keeps_counts(ProbeModel { next, recovery_check: check, ..probe });
    recovery_keeps_counts(ProbeModel { next, recovery_check: check, ..less });
    if probe.advance(now).probe.shared == probe.shared && probe.advance(now).probe.sessions
        == probe.sessions {
        counts_match_alike(probe, probe.advance(now).probe);
    }
    if probe.turn_over(now).probe.shared == probe.shared && probe.turn_over(now).probe.sessions
        == probe.sessions {
        counts_match_alike(probe, probe.turn_over(now).probe);
    }
}

/// A session that starts to leave keeps the counts.
proof fn leave_keeps_counts(probe: ProbeModel, id: ProxySessionId, all: bool)
    requires
        probe.wf(),
        probe.turn is Idle,
        probe.sessions.contains_key(id),
        probe.sessions.len() < usize::MAX,
        counts_match(probe),
    ensures
        counts_match(probe.leave(id, all).probe),
{
    let now = Interval { secs: 0, nanos: 0 };
    let session = probe.sessions[id];
    let shared = probe.shared_of(session.target_cfg.core);
    let outcome = if probe.active {
        session.shut_down(shared)
    } else {
        session.cut_off(shared)
    };
    session_laws::steps_keep_the_session(session, shared, Reply::Done, now);
    session_laws::counts_follow_the_session(session, shared, Reply::Done, now);
    session_laws::steps_are_sound(session, shared, Reply::Done, now);
    assert(!outcome.session.cleared && !outcome.session.caught);
    step_keeps_counts(probe, id, outcome);
    let left = ProbeModel {
        sessions: probe.sessions.remove(id),
        shared: probe.shared.insert(outcome.session.target_cfg.core, outcome.shared),
        ..probe
    };
    counts_match_alike(left, probe.leave(id, all).probe);
}

/// The counts that the sessions on a core share are always those of the sessions that
/// have counted themselves in and not left: whichever way a session leaves, it takes
/// itself out of the counts and nobody else.
pub proof fn counts_are_kept(probe: ProbeModel, id: ProxySessionId, reply: Reply, now: Interval)
    requires
        probe.wf(),
        counts_match(probe),
        probe.sessions.len() < usize::MAX,
    ensures
        probe.turn is Idle ==> counts_match(probe.serviced(now).probe),
        probe.turn is Idle ==> counts_match(probe.session_shut_down(id).probe),
        probe.turn is Idle ==> counts_match(probe.all_shut_down().probe),
        counts_match(probe.resumed(reply, now).probe),
{
    if probe.turn is Idle {
        turns_keep_counts(probe, now);
        shutdowns_keep_counts(probe, id);
    }
    answers_keep_counts(probe, reply, now);
}

proof fn turns_keep_counts(probe: ProbeModel, now: Interval)
    requires
        probe.wf(),
        probe.turn is Idle,
        counts_match(probe),
        probe.sessions.len() < usize::MAX,
    ensures
        counts_match(probe.serviced(now).probe),
{
    if probe.active {
        match probe.scheduled() {
            Some(id) => {
                let session = probe.sessions[id];
                let shared = probe.shared_of(session.target_cfg.core);
                let outcome = session.updated(shared, now);
                session_laws::steps_keep_the_session(session, shared, Reply::Done, now);
                session_laws::counts_follow_the_session(session, shared, Reply::Done, now);
                step_keeps_counts(probe, id, outcome);
                turn_keeps_counts(probe, id, outcome, now);
            },
            None => {
                advance_keeps_counts(probe, now);
            },
        }
    } else {
        counts_match_alike(probe, probe.serviced(now).probe);
    }
}

proof fn shutdowns_keep_counts(probe: ProbeModel, id: ProxySessionId)
    requires
        probe.wf(),
        probe.turn is Idle,
        counts_match(probe),
        probe.sessions.len() < usize::MAX,
    ensures
        counts_match(probe.session_shut_down(id).probe),
        counts_match(probe.all_shut_down().probe),
{
    if probe.sessions.contains_key(id) {
        leave_keeps_counts(probe, id, false);
        counts_match_alike(
            probe.leave(id, false).probe,
            probe.session_shut_down(id).probe,
        );
    } else {
        counts_match_alike(probe, probe.session_shut_down(id).probe);
    }
    probe_laws::first_present_is_present(probe.schedule, probe.sessions);
    match probe_model::first_present(probe.schedule, probe.sessions) {
        Some(first) => {
            leave_keeps_counts(probe, first, true);
        },
        None => {
            counts_match_alike(probe, probe.all_shut_down().probe);
        },
    }
}

proof fn answers_keep_counts(probe: ProbeModel, reply: Reply, now: Interval)
    requires
        probe.wf(),
        counts_match(probe),
        probe.sessions.len() < usize::MAX,
    ensures
        counts_match(probe.resumed(reply, now).probe),
{
    let idle = ProbeModel { turn: ProbeTurn::Idle, ..probe };
    counts_match_alike(probe, idle);
    match probe.turn {
        ProbeTurn::Update(id) => {
            let session = probe.sessions[id];
            let shared = probe.shared_of(session.target_cfg.core);
            let outcome = session.resumed(shared, reply, now);
            session_laws::steps_keep_the_session(session, shared, reply, now);
            session_laws::counts_follow_the_session(session, shared, reply, now);
            step_keeps_counts(idle, id, outcome);
            turn_keeps_counts(idle, id, outcome, now);
        },
        ProbeTurn::Leave(session, all) => {
            let core = session.target_cfg.core;
            let shared = probe.shared_of(core);
            let outcome = session.resumed(shared, reply, now);
            session_laws::steps_keep_the_session(session, shared, reply, now);
            assert(outcome.shared == shared);
            let next = probe.resumed(reply, now).probe;
            assert forall|c: u32| counts_are(
                next.sessions,
                #[trigger] next.shared_of(c),
                c,
            ) by {
                assert(counts_are(probe.sessions, probe.shared_of(c), c));
            }
        },
        ProbeTurn::Dropping(all) => {
            if all {
                shutdowns_keep_counts(idle, 0);
            }
        },
        _ => {
            counts_match_alike(probe, probe.resumed(reply, now).probe);
        },
    }
}

/// A probe starts with counts that match, and they still do when it gets to know a core
/// or a session that holds nothing yet.
pub proof fn counts_match_at_first(
    probe: ProbeModel,
    core: u32,
    session: SessionModel,
    id: ProbeId,
    cfg: ProbeConfig,
    now: Interval,
)
    requires
        counts_match(probe),
        !probe.sessions.contains_key(session.id),
        !session.cleared,
        !session.caught,
    ensures
        counts_match(ProbeModel::fresh(id, cfg, now)),
        counts_match(probe.with_core(core)),
        counts_match(probe.with_session(session)),
{
    let fresh = ProbeModel::fresh(id, cfg, now);
    assert forall|c: u32| counts_are(fresh.sessions, #[trigger] fresh.shared_of(c), c) by {
        assert(holders(fresh.sessions, clearing(c)) =~= Set::empty());
        assert(holders(fresh.sessions, catching(c)) =~= Set::empty());
    }
    let known = probe.with_core(core);
    assert forall|c: u32| counts_are(known.sessions, #[trigger] known.shared_of(c), c) by {
        assert(counts_are(probe.sessions, probe.shared_of(c), c));
    }
    let with = probe.with_session(session);
    assert forall|c: u32| counts_are(with.sessions, #[trigger] with.shared_of(c), c) by {
        assert(counts_are(probe.sessions, probe.shared_of(c), c));
        assert(holders(with.sessions, clearing(c)) =~= holders(probe.sessions, clearing(c)));
        assert(holders(with.sessions, catching(c)) =~= holders(probe.sessions, catching(c)));
    }
}

} // verus!
