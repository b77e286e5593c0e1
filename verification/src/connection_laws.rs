//! What is done for the probes, and whose turn it is.
use crate::clock::Interval;
use crate::command::{Command, Reply};
use crate::manager_model::{ActionView, Job, ManagerModel};
use crate::probe_id::ProbeId;
use crate::probe_model;
use crate::probe_model::{ProbeAction, ProbeModel, ProbeTurn};
use crate::protocol::{ProbeConfig, ProxySessionId};
use crate::rate_limiter::LimiterView;
use crate::session_laws;
use crate::session_model::SessionModel;
use crate::session_types::{Error, RttSessionState, StoppedReason};
use crate::setup;
use crate::setup::{SetupCommand, SetupStep};
use vstd::prelude::*;

verus! {

/// Whether the connection to a probe seems to be lost: a session that may recover has not
/// shut down, no session runs, and one has stopped since its core could not be reached.
pub open spec fn connection_seems_lost(sessions: Map<ProxySessionId, SessionModel>) -> bool {
    &&& exists|id: ProxySessionId| #[trigger]
        sessions.contains_key(id) && sessions[id].target_cfg.auto_recover
            && sessions[id].state != RttSessionState::Shutdown
    &&& forall|id: ProxySessionId| #[trigger]
        sessions.contains_key(id) ==> !(sessions[id].state matches RttSessionState::Run(_))
    &&& exists|id: ProxySessionId| #[trigger]
        sessions.contains_key(id) && (sessions[id].state matches RttSessionState::Stopped(
            StoppedReason::Error(Error::CoreAttach(_)),
        ))
}

/// Whether a full interval has gone by since a limiter last found so.
pub open spec fn interval_is_up(limiter: LimiterView, now: Interval) -> bool {
    now.total() - limiter.last >= limiter.limit
}

/// After a turn, the connection is given up just if it seems to be lost, the interval for
/// that look is up, and as many turns were had since the last time as there were sessions
/// then. All sessions stay, and have their turns from the first on once the connection is
/// there again. Otherwise nothing more is done.
pub proof fn connection_is_given_up_just_if_it_seems_lost(probe: ProbeModel, now: Interval)
    requires
        probe.recovery_check.read <= now.total(),
    ensures
        ({
            let next = probe.turn_over(now);
            let given_up = interval_is_up(probe.recovery_check, now) && probe.to_service <= 1
                && connection_seems_lost(probe.sessions);
            &&& next.action is DropDebugSession <==> given_up
            &&& !given_up ==> next.action is Done && next.probe.active == probe.active
                && next.probe.sessions == probe.sessions
            &&& given_up ==> {
                &&& !next.probe.active
                &&& next.probe.next == 0
                &&& next.probe.to_service == probe.sessions.len()
                &&& next.probe.sessions.dom() == probe.sessions.dom()
            }
            &&& next.probe.schedule == probe.schedule
        }),
{
    let next = probe.turn_over(now);
    assert(probe.seems_lost() <==> connection_seems_lost(probe.sessions));
    assert(next.probe.sessions.dom() =~= probe.sessions.dom());
}

/// A probe whose connection is lost is set up again at intervals, with the configuration
/// that it was opened with. It is connected once the attach is done; a failure leaves it
/// to the next attempt. The sessions wait all the while.
pub proof fn lost_connection_is_set_up_again(probe: ProbeModel, reply: Reply, now: Interval)
    requires
        probe.wf(),
        !probe.active,
        probe.recovery.read <= now.total(),
    ensures
        probe.turn is Idle ==> {
            let next = probe.serviced(now);
            let due = interval_is_up(probe.recovery, now);
            &&& due && setup::wire_protocol(probe.cfg.protocol@) is Some ==> next.action
                == ProbeAction::Setup(SetupCommand::Open)
            &&& !due || setup::wire_protocol(probe.cfg.protocol@) is None ==> next.action is Done
            &&& !next.probe.active
            &&& next.probe.sessions == probe.sessions
            &&& due ==> next.probe.recovery.last == now.total()
        },
        probe.turn matches ProbeTurn::Recover(step) ==> {
            let next = probe.resumed(reply, now);
            let unpowered = step is Voltage && reply == Reply::Powered(false);
            &&& reply is Failed ==> next.action is Done && !next.probe.active
            &&& !(reply is Failed) && unpowered ==> next.action is Done && !next.probe.active
            &&& !(reply is Failed) && step is Attach ==> next.action is Done && next.probe.active
            &&& setup::setup_accepts(step, reply) && !(reply is Failed) && !unpowered && !(
            step is Attach) ==> !next.probe.active && next.action == ProbeAction::Setup(
                match step {
                    SetupStep::Open(protocol) => SetupCommand::SelectProtocol(protocol),
                    SetupStep::Protocol => SetupCommand::SetSpeed(probe.cfg.speed_khz),
                    SetupStep::Speed => SetupCommand::ReadVoltage,
                    _ => if probe.cfg.attach_under_reset {
                        SetupCommand::AttachUnderReset(probe.cfg.target)
                    } else {
                        SetupCommand::Attach(probe.cfg.target)
                    },
                },
            )
            &&& next.probe.sessions == probe.sessions
            &&& next.probe.schedule == probe.schedule
        },
{
}

/// Whether a session keeps others off its core: it is that of a bootloader that has not
/// stopped or shut down, not even once.
pub open spec fn keeps_its_core(session: SessionModel) -> bool {
    &&& session.target_cfg.bootloader
    &&& !session.completed
    &&& !(session.state matches RttSessionState::Stopped(_))
    &&& session.state != RttSessionState::Shutdown
}

/// Whose turn it is: that of the session at the next place of the schedule, if it is
/// there. It is passed over just if another session keeps it off its core; of two that
/// would do so to each other, the one that is scheduled first goes.
pub proof fn turn_is_that_of_the_next_session(probe: ProbeModel, id: ProxySessionId)
    requires
        0 <= probe.next < probe.schedule.len(),
        probe.schedule[probe.next as int] == id,
    ensures
        ({
            let waits = exists|k: int|
                #![trigger probe.schedule[k]]
                {
                    let other = probe.schedule[k];
                    &&& 0 <= k < probe.schedule.len()
                    &&& other != id
                    &&& probe.sessions.contains_key(other)
                    &&& keeps_its_core(probe.sessions[other])
                    &&& probe.sessions[other].target_cfg.core
                        == probe.sessions[id].target_cfg.core
                    &&& !probe.sessions[id].target_cfg.bootloader || k < probe.next
                };
            probe.scheduled() == (if probe.sessions.contains_key(id) && !waits {
                Some(id)
            } else {
                None
            })
        }),
{
    let place = probe.next as int;
    assert forall|k: int| 0 <= k < probe.schedule.len() implies #[trigger] probe.waits_for(
        place,
        k,
    ) == ({
        let other = probe.schedule[k];
        &&& other != id
        &&& probe.sessions.contains_key(other)
        &&& keeps_its_core(probe.sessions[other])
        &&& probe.sessions[other].target_cfg.core == probe.sessions[id].target_cfg.core
        &&& !probe.sessions[id].target_cfg.bootloader || k < probe.next
    }) by {}
    if probe.suspended(place) {
        let k = choose|k: int|
            0 <= k < probe.schedule.len() && #[trigger] probe.waits_for(place, k);
        assert(probe.schedule[k] == probe.schedule[k]);
    } else {
        assert forall|k: int|
            #![trigger probe.schedule[k]]
            0 <= k < probe.schedule.len() implies !probe.waits_for(place, k) by {}
    }
}

/// A connected probe gives the session whose turn it is a turn, and moves on at once where
/// it is nobody's.
pub proof fn connected_probe_gives_turns(probe: ProbeModel, now: Interval)
    requires
        probe.turn is Idle,
        probe.active,
    ensures
        match probe.scheduled() {
            Some(id) => {
                let session = probe.sessions[id];
                let begun = session.updated(probe.shared_of(session.target_cfg.core), now);
                !(begun.session.step is Idle) ==> {
                    let next = probe.serviced(now);
                    &&& next.action == ProbeAction::Session(id, begun.command)
                    &&& next.probe.sessions == probe.sessions.insert(id, begun.session)
                    &&& next.probe.turn == ProbeTurn::<SessionModel>::Update(id)
                }
            },
            None => !(probe.serviced(now).action is Session),
        },
{
}

/// An answer for the session that has its turn goes to that session, with what the
/// sessions on its core share.
pub proof fn answers_go_to_the_session(
    probe: ProbeModel,
    id: ProxySessionId,
    reply: Reply,
    now: Interval,
)
    requires
        probe.turn == ProbeTurn::<SessionModel>::Update(id),
    ensures
        ({
            let session = probe.sessions[id];
            let after = session.resumed(probe.shared_of(session.target_cfg.core), reply, now);
            let next = probe.resumed(reply, now);
            !(after.session.step is Idle) ==> {
                &&& next.action == ProbeAction::Session(id, after.command)
                &&& next.probe.sessions == probe.sessions.insert(id, after.session)
                &&& next.probe.shared_of(after.session.target_cfg.core) == after.shared
                &&& forall|core: u32|
                    core != after.session.target_cfg.core ==> #[trigger] next.probe.shared_of(core)
                        == probe.shared_of(core)
                &&& next.probe.turn == probe.turn
            }
        }),
{
}

/// A session that is told to shut down leaves its core where the probe is connected. Where
/// it is not, or where the session has left its core already, only the client's connection
/// is closed. What it gives up of the core, the sessions on that core see, and those on
/// other cores do not.
pub proof fn session_leaves_its_core_if_it_can_be_reached(probe: ProbeModel, id: ProxySessionId)
    requires
        probe.wf(),
        probe.turn is Idle,
        probe.sessions.contains_key(id),
    ensures
        ({
            let session = probe.sessions[id];
            let shared = probe.shared_of(session.target_cfg.core);
            let next = probe.session_shut_down(id);
            let left = if probe.active {
                session.shut_down(shared)
            } else {
                session.cut_off(shared)
            };
            &&& next.action == (match session.state {
                RttSessionState::Shutdown => ProbeAction::DropSession(id),
                RttSessionState::Stopped(_) => ProbeAction::Session(id, Command::CloseStream),
                _ => ProbeAction::Session(
                    id,
                    if probe.active {
                        Command::AttachCore(session.target_cfg.core)
                    } else {
                        Command::CloseStream
                    },
                ),
            })
            &&& next.probe.turn == (if session.state is Shutdown {
                ProbeTurn::<SessionModel>::Dropping(false)
            } else {
                ProbeTurn::<SessionModel>::Leave(left.session, false)
            })
            &&& next.probe.shared_of(session.target_cfg.core) == left.shared
            &&& forall|core: u32|
                core != session.target_cfg.core ==> #[trigger] next.probe.shared_of(core)
                    == probe.shared_of(core)
        }),
{
}

/// An answer for a session that leaves goes to that session, with what the sessions on its
/// core share. When it has shut down it is let go of, and no other session has changed.
pub proof fn answers_go_to_the_session_that_leaves(
    probe: ProbeModel,
    session: SessionModel,
    all: bool,
    reply: Reply,
    now: Interval,
)
    requires
        probe.turn == ProbeTurn::<SessionModel>::Leave(session, all),
    ensures
        ({
            let after = session.resumed(probe.shared_of(session.target_cfg.core), reply, now);
            let next = probe.resumed(reply, now);
            &&& after.session.step is Idle ==> {
                &&& next.action == ProbeAction::DropSession(after.session.id)
                &&& next.probe.turn == ProbeTurn::<SessionModel>::Dropping(all)
            }
            &&& !(after.session.step is Idle) ==> {
                &&& next.action == ProbeAction::Session(after.session.id, after.command)
                &&& next.probe.turn == ProbeTurn::<SessionModel>::Leave(after.session, all)
            }
            &&& next.probe.sessions == probe.sessions
            &&& next.probe.schedule == probe.schedule
            &&& next.probe.shared_of(after.session.target_cfg.core) == after.shared
            &&& forall|core: u32|
                core != after.session.target_cfg.core ==> #[trigger] next.probe.shared_of(core)
                    == probe.shared_of(core)
        }),
{
}

/// When a session is let go of, the next one leaves if all are to, and otherwise nothing
/// more is done.
pub proof fn next_session_leaves_if_all_are_to(probe: ProbeModel, reply: Reply, now: Interval)
    requires
        probe.wf(),
    ensures
        probe.turn == ProbeTurn::<SessionModel>::Dropping(false) ==> {
            let next = probe.resumed(reply, now);
            &&& next.action is Done
            &&& next.probe.turn is Idle
            &&& next.probe.sessions == probe.sessions
        },
        probe.turn == ProbeTurn::<SessionModel>::Dropping(true) ==> {
            let next = probe.resumed(reply, now);
            &&& next.action is Done ==> forall|id: ProxySessionId|
                !#[trigger] probe.sessions.contains_key(id)
            &&& !(next.action is Done) ==> exists|id: ProxySessionId| #[trigger]
                probe.sessions.contains_key(id) && next.probe.sessions == probe.sessions.remove(id)
        },
{
    let idle = ProbeModel { turn: ProbeTurn::Idle, ..probe };
    if probe.turn == ProbeTurn::<SessionModel>::Dropping(true) {
        first_present_is_there(probe.schedule, probe.sessions);
        match probe_model::first_present(probe.schedule, probe.sessions) {
            Some(id) => {
                let session = probe.sessions[id];
                let shared = probe.shared_of(session.target_cfg.core);
                assert(session.step is Idle);
                assert(idle.leave(id, true).probe.sessions == probe.sessions.remove(id));
            },
            None => {
                assert forall|id: ProxySessionId| !#[trigger] probe.sessions.contains_key(id) by {
                    if probe.sessions.contains_key(id) {
                        assert(probe.schedule.contains(id));
                    }
                }
            },
        }
    }
}

proof fn first_present_is_there(
    schedule: Seq<ProxySessionId>,
    sessions: Map<ProxySessionId, SessionModel>,
)
    ensures
        match probe_model::first_present(schedule, sessions) {
            Some(id) => sessions.contains_key(id),
            None => forall|id: ProxySessionId| #[trigger]
                schedule.contains(id) ==> !sessions.contains_key(id),
        },
    decreases schedule.len(),
{
    if schedule.len() > 0 && !sessions.contains_key(schedule[0]) {
        let rest = schedule.drop_first();
        first_present_is_there(rest, sessions);
        if probe_model::first_present(rest, sessions) is None {
            assert forall|id: ProxySessionId| #[trigger]
                schedule.contains(id) implies !sessions.contains_key(id) by {
                let k = schedule.index_of(id);
                if k > 0 {
                    assert(rest[k - 1] == id);
                    assert(rest.contains(id));
                }
            }
        }
    }
}

/// A session that comes to a probe has its turn after all others. It and what it needs to
/// be known of its core change nothing for those that are there.
pub proof fn new_session_comes_last(probe: ProbeModel, session: SessionModel, core: u32)
    ensures
        probe.with_core(core).sessions == probe.sessions,
        forall|c: u32| #[trigger] probe.with_core(core).shared_of(c) == probe.shared_of(c),
        ({
            let next = probe.with_session(session);
            &&& next.schedule.len() == probe.schedule.len() + 1
            &&& next.schedule.last() == session.id
            &&& forall|k: int|
                0 <= k < probe.schedule.len() ==> #[trigger] next.schedule[k] == probe.schedule[k]
            &&& next.sessions == probe.sessions.insert(session.id, session)
            &&& forall|c: u32| #[trigger] next.shared_of(c) == probe.shared_of(c)
            &&& next.next == probe.next
            &&& next.active == probe.active
        }),
{
}

/// A session that is shut down is taken out of the sessions and off the schedule, which
/// keeps all others in their order and starts over. No other session changes.
pub proof fn session_that_is_shut_down_is_taken_out(probe: ProbeModel, id: ProxySessionId, i: int)
    requires
        probe.wf(),
        probe.turn is Idle,
        probe.sessions.contains_key(id),
        0 <= i < probe.schedule.len(),
        probe.schedule[i] == id,
        forall|j: int| 0 <= j < i ==> probe.schedule[j] != id,
    ensures
        ({
            let next = probe.session_shut_down(id).probe;
            &&& next.sessions == probe.sessions.remove(id)
            &&& next.schedule == probe.schedule.remove(i)
            &&& next.next == 0
            &&& next.active == probe.active
        }),
{
    probe.schedule.index_of_first_ensures(id);
}

/// All sessions are shut down one after the other in the order of the schedule: the first
/// of those that are there is taken out, and what is done is done for it.
pub proof fn first_session_is_shut_down_first(probe: ProbeModel, k: int)
    requires
        probe.wf(),
        probe.turn is Idle,
        0 <= k < probe.schedule.len(),
        probe.sessions.contains_key(probe.schedule[k]),
        forall|j: int|
            0 <= j < k ==> !probe.sessions.contains_key(#[trigger] probe.schedule[j]),
    ensures
        ({
            let id = probe.schedule[k];
            let next = probe.all_shut_down();
            &&& next.probe.sessions == probe.sessions.remove(id)
            &&& next.probe.schedule == probe.schedule
            &&& match next.action {
                ProbeAction::Session(session, _) => session == id,
                ProbeAction::DropSession(session) => session == id,
                _ => false,
            }
        }),
{
    present_session_is_first(probe.schedule, probe.sessions, k);
    let session = probe.sessions[probe.schedule[k]];
    let shared = probe.shared_of(session.target_cfg.core);
    let now = Interval { secs: 0, nanos: 0 };
    session_laws::steps_keep_the_session(session, shared, Reply::Done, now);
}

proof fn present_session_is_first(
    schedule: Seq<ProxySessionId>,
    sessions: Map<ProxySessionId, SessionModel>,
    k: int,
)
    requires
        0 <= k < schedule.len(),
        sessions.contains_key(schedule[k]),
        forall|j: int| 0 <= j < k ==> !sessions.contains_key(#[trigger] schedule[j]),
    ensures
        probe_model::first_present(schedule, sessions) == Some(schedule[k]),
    decreases schedule.len(),
{
    if k > 0 {
        assert(!sessions.contains_key(schedule[0]));
        let rest = schedule.drop_first();
        assert forall|j: int| 0 <= j < k - 1 implies !sessions.contains_key(
            #[trigger] rest[j],
        ) by {
            assert(rest[j] == schedule[j + 1]);
        }
        present_session_is_first(rest, sessions, k - 1);
    }
}

/// A probe that was just set up is connected and has no sessions. It looks for a lost
/// connection every 100 milliseconds and tries to get it back every 50; both are due at
/// once.
pub proof fn new_probe_is_connected(id: ProbeId, cfg: ProbeConfig, now: Interval)
    ensures
        ({
            let probe = ProbeModel::fresh(id, cfg, now);
            &&& probe.id == id
            &&& probe.cfg == cfg
            &&& probe.active
            &&& probe.turn is Idle
            &&& probe.sessions == Map::<ProxySessionId, SessionModel>::empty()
            &&& probe.schedule == Seq::<ProxySessionId>::empty()
            &&& probe.next == 0 && probe.to_service == 0
            &&& probe.recovery.limit == 50_000_000
            &&& probe.recovery_check.limit == 100_000_000
            &&& interval_is_up(probe.recovery, now)
            &&& interval_is_up(probe.recovery_check, now)
        }),
{
}

/// A round of turns goes from probe to probe in their order: one that has something to be
/// done is waited for, all before it have had their turn, and none after it has. The
/// round is over when every probe has had its turn.
pub proof fn round_goes_from_probe_to_probe(manager: ManagerModel, i: int, now: Interval)
    requires
        manager.job is Idle,
        0 <= i <= manager.probes.len() <= usize::MAX,
    ensures
        ({
            let next = manager.served_from(i, now);
            &&& next.manager.probes.len() == manager.probes.len()
            &&& forall|j: int|
                0 <= j < i ==> #[trigger] next.manager.probes[j] == manager.probes[j]
            &&& match next.manager.job {
                Job::Service(k) => {
                    &&& i <= k < manager.probes.len()
                    &&& next.action == ActionView::Probe(
                        manager.probes[k as int].serviced(now).probe.id,
                        manager.probes[k as int].serviced(now).action,
                    )
                    &&& forall|j: int|
                        i <= j <= k ==> #[trigger] next.manager.probes[j]
                            == manager.probes[j].serviced(now).probe
                    &&& forall|j: int|
                        i <= j < k ==> (#[trigger] next.manager.probes[j]).turn is Idle
                    &&& forall|j: int|
                        k < j < manager.probes.len() ==> #[trigger] next.manager.probes[j]
                            == manager.probes[j]
                },
                _ => {
                    &&& next.action is Finished
                    &&& next.manager.job is Idle
                    &&& forall|j: int|
                        i <= j < manager.probes.len() ==> #[trigger] next.manager.probes[j]
                            == manager.probes[j].serviced(now).probe
                },
            }
        }),
    decreases manager.probes.len() - i,
{
    if i < manager.probes.len() {
        let outcome = manager.probes[i].serviced(now);
        if outcome.probe.turn is Idle {
            let with = manager.with_probe(i, outcome.probe);
            round_goes_from_probe_to_probe(with, i + 1, now);
            let next = manager.served_from(i, now);
            assert(next.manager.probes[i] == with.probes[i]);
            assert forall|j: int| i < j < manager.probes.len() implies #[trigger] with.probes[j]
                == manager.probes[j] by {}
        }
    }
}

/// An answer in a round goes to the probe that is waited for, and the round goes on with
/// the one after it when that has had its turn.
pub proof fn round_goes_on(
    manager: ManagerModel,
    i: usize,
    reply: Reply,
    id: ProxySessionId,
    now: Interval,
)
    requires
        manager.job == Job::Service(i),
        i < manager.probes.len() <= usize::MAX,
    ensures
        ({
            let outcome = manager.probes[i as int].resumed(reply, now);
            let next = manager.resumed(reply, id, now);
            &&& next.manager.probes[i as int] == outcome.probe
            &&& !(outcome.probe.turn is Idle) ==> {
                &&& next.manager.job == Job::Service(i)
                &&& next.action == ActionView::Probe(outcome.probe.id, outcome.action)
                &&& next.manager.probes == manager.probes.update(i as int, outcome.probe)
            }
            &&& outcome.probe.turn is Idle ==> match next.manager.job {
                Job::Service(k) => k > i,
                _ => next.action is Finished,
            }
        }),
{
    let outcome = manager.probes[i as int].resumed(reply, now);
    let idle = ManagerModel { job: Job::Idle, ..manager };
    if outcome.probe.turn is Idle {
        round_goes_from_probe_to_probe(idle.with_probe(i as int, outcome.probe), i + 1, now);
    }
}

} // verus!
