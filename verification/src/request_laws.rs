//! What clients can count on when they ask for a session.
use crate::clock::Interval;
use crate::command::Reply;
use crate::manager_laws;
use crate::manager_model;
use crate::manager_model::{ActionView, Job, ManagerModel};
use crate::probe_id;
use crate::probe_id::ProbeId;
use crate::probe_laws;
use crate::probe_model::{ProbeAction, ProbeModel, ProbeTurn};
use crate::protocol::{ProxySessionConfig, ProxySessionId, RttConfig, TargetConfig};
use crate::session_model::SessionModel;
use crate::setup;
use crate::setup::{SetupProgress, SetupStep};
use vstd::prelude::*;

verus! {

/// Whether a request for a session is being dealt with.
pub open spec fn is_request(job: Job) -> bool {
    match job {
        Job::RequestPrune(_) | Job::RequestList(_) | Job::RequestDrop(..) => true,
        Job::RequestExclusive(..) | Job::RequestSetup(..) | Job::RequestControl(..) => true,
        _ => false,
    }
}

/// A request is never dropped: as long as it is dealt with there is something to
/// be done for it, and in the end either the client is told why it gets no
/// session, or the session is there, waiting for its first turn on a connected
/// probe.
pub proof fn requests_are_answered(
    manager: ManagerModel,
    reply: Reply,
    id: ProxySessionId,
    now: Interval,
)
    requires
        manager.wf(),
        is_request(manager.job),
    ensures
        ({
            let next = manager.resumed(reply, id, now);
            ||| is_request(next.manager.job) && !(next.action is Finished)
            ||| next.manager.job is Refuse && next.action is Refuse
            ||| {
                &&& next.manager.job is Idle
                &&& next.action is Finished
                &&& manager.job matches Job::RequestControl(i, target, rtt, new)
                &&& {
                    let probe = next.manager.probes[i as int];
                    &&& probe.active
                    &&& probe.sessions.contains_key(new)
                    &&& probe.sessions[new] == SessionModel::fresh(
                        new,
                        manager_model::session_name(probe.cfg.target, target),
                        target,
                        rtt,
                        manager.log_rtt_metrics,
                        now,
                    )
                }
            }
        }),
{
    if let Job::RequestControl(i, target, rtt, new) = manager.job {
        assert(i < manager.probes.len());
    }
}

/// A request that is refused leaves no session behind.
pub proof fn refusal_adds_no_session(
    manager: ManagerModel,
    reply: Reply,
    id: ProxySessionId,
    now: Interval,
    i: int,
)
    requires
        manager.wf(),
        is_request(manager.job),
        manager.resumed(reply, id, now).action is Refuse,
        0 <= i < manager.resumed(reply, id, now).manager.probes.len(),
    ensures
        ({
            let probe = manager.resumed(reply, id, now).manager.probes[i];
            ||| i < manager.probes.len() && probe.sessions == manager.probes[i].sessions
            ||| probe.sessions == Map::<ProxySessionId, SessionModel>::empty()
        }),
{
    let idle = ManagerModel { job: Job::Idle, ..manager };
    match manager.job {
        Job::RequestList(cfg) => {
            let available = reply->Probes_0@;
            let chosen = manager_model::selected(
                probe_id::requested(cfg.probe),
                probe_id::keys(available),
            );
            if let Ok(index) = chosen {
                idle.probes.map_values(
                    |probe: ProbeModel| probe.id@,
                ).index_of_first_ensures(available[index]@);
            }
        },
        _ => {},
    }
}

/// The configuration of a probe is that of the first request for it; a later
/// request is admitted to the probe as it is.
pub proof fn first_request_configures_the_probe(
    manager: ManagerModel,
    i: int,
    target: TargetConfig,
    rtt: RttConfig,
    id: ProxySessionId,
    reply: Reply,
    now: Interval,
)
    requires
        0 <= i < manager.probes.len(),
    ensures
        manager.admitted(i, target, rtt, id).manager.probes[i].cfg == manager.probes[i].cfg,
        manager.control_started(i, target, rtt, id, reply, now).manager.probes[i].cfg
            == manager.probes[i].cfg,
{
}

/// A probe that a request wants for itself is let go of only when none of its
/// sessions is left.
pub proof fn exclusive_request_ends_the_other_sessions(
    manager: ManagerModel,
    i: usize,
    cfg: ProxySessionConfig,
    probe: ProbeId,
    reply: Reply,
    id: ProxySessionId,
    now: Interval,
)
    requires
        manager.wf(),
        manager.job == Job::RequestExclusive(i, cfg, probe),
        manager.resumed(reply, id, now).manager.job is RequestDrop,
    ensures
        manager.probes[i as int].id@ == probe@,
        manager.probes[i as int].resumed(reply, now).probe.sessions.dom() == Set::<
            ProxySessionId,
        >::empty(),
        manager.resumed(reply, id, now).manager.probes == manager.probes.remove(i as int),
        manager.resumed(reply, id, now).manager.lacks(probe@),
{
    probe_laws::nobody_is_left(manager.probes[i as int], reply, now);
    probe_laws::shutdown_of_all_goes_on(manager.probes[i as int], reply, now);
}

/// An exclusive request shuts the sessions of its probe down, whether or not the probe
/// is connected: each of them is dropped only when its client's connection was closed,
/// and the other probes with their sessions stay as they are.
pub proof fn exclusive_request_closes_the_streams(
    manager: ManagerModel,
    i: usize,
    cfg: ProxySessionConfig,
    probe: ProbeId,
    reply: Reply,
    id: ProxySessionId,
    now: Interval,
)
    requires
        manager.wf(),
        manager.job == Job::RequestExclusive(i, cfg, probe),
    ensures
        ({
            let held = manager.probes[i as int];
            let next = manager.resumed(reply, id, now);
            &&& next.action matches ActionView::Probe(_, ProbeAction::DropSession(dropped)) ==> {
                ||| held.turn matches ProbeTurn::Leave(session, _) && session.id == dropped
                    && session.step is Close
                ||| held.sessions.contains_key(dropped) && held.sessions[dropped].state is Shutdown
            }
            &&& forall|j: int|
                0 <= j < manager.probes.len() && j != i ==> next.manager.probes.contains(
                    #[trigger] manager.probes[j],
                )
        }),
{
    let held = manager.probes[i as int];
    let next = manager.resumed(reply, id, now);
    if let ActionView::Probe(_, ProbeAction::DropSession(dropped)) = next.action {
        probe_laws::dropped_session_has_its_stream_closed(held, id, dropped, reply, now);
    }
    assert forall|j: int|
        0 <= j < manager.probes.len() && j != i implies next.manager.probes.contains(
        #[trigger] manager.probes[j],
    ) by {
        if next.manager.job is RequestDrop {
            let k = if j < i {
                j
            } else {
                j - 1
            };
            assert(next.manager.probes[k] == manager.probes[j]);
        } else {
            assert(next.manager.probes[j] == manager.probes[j]);
        }
    }
}

/// A probe that was set up for a request is new: it has the configuration of the
/// request and no sessions yet, and the session is admitted to it right away.
pub proof fn new_probe_admits_its_request(
    manager: ManagerModel,
    cfg: ProxySessionConfig,
    probe: ProbeId,
    step: SetupStep,
    reply: Reply,
    id: ProxySessionId,
    now: Interval,
)
    requires
        manager.wf(),
        manager.probes.len() <= usize::MAX,
        manager.job == Job::RequestSetup(cfg, probe, step),
        setup::setup_resumed(cfg.probe, step, reply) is Ready,
    ensures
        ({
            let next = manager.resumed(reply, id, now);
            let opened = next.manager.probes.last();
            &&& next.manager.probes.drop_last() == manager.probes
            &&& opened == ProbeModel::fresh(probe, cfg.probe, now).with_core(cfg.target.core)
            &&& next.action == ActionView::StartControl(
                probe,
                id,
                manager_model::session_name(cfg.probe.target, cfg.target) + ":control"@,
            )
        }),
{
    let fresh = ProbeModel::fresh(probe, cfg.probe, now);
    assert(!fresh.has_session_on(cfg.target, cfg.rtt));
    let next = manager.resumed(reply, id, now);
    assert(next.manager.probes.drop_last() =~= manager.probes);
}

/// Whether no two sessions of any probe read the same place.
pub open spec fn places_are_distinct(manager: ManagerModel) -> bool {
    forall|i: int|
        0 <= i < manager.probes.len() ==> (#[trigger] manager.probes[i]).has_distinct_places()
}

/// Giving the probes their turns keeps the places of their sessions distinct.
pub proof fn turns_keep_places_distinct(manager: ManagerModel, i: int, now: Interval)
    requires
        manager.wf(),
        manager.job is Idle,
        places_are_distinct(manager),
        0 <= i <= manager.probes.len() <= usize::MAX,
    ensures
        places_are_distinct(manager.served_from(i, now).manager),
    decreases manager.probes.len() - i,
{
    if i < manager.probes.len() {
        let probe = manager.probes[i];
        let outcome = probe.serviced(now);
        probe_laws::places_stay_distinct(probe, 0, Reply::Done, now);
        probe_laws::serviced_probe_is_wf(probe, now);
        probe_laws::steps_keep_the_probe(probe, 0, Reply::Done, now);
        if outcome.probe.turn is Idle {
            turns_keep_places_distinct(manager.with_probe(i, outcome.probe), i + 1, now);
        }
    }
}

/// Letting go of unused probes keeps the places distinct.
proof fn pruning_keeps_places_distinct(manager: ManagerModel, job: Job)
    requires
        manager.wf(),
        manager.busy() is None,
        places_are_distinct(manager),
    ensures
        places_are_distinct(manager.pruned(job).manager),
{
    manager_laws::pruning_keeps_the_probes_in_use(manager, manager.probes.len() as int);
    assert(manager.probes.take(manager.probes.len() as int) =~= manager.probes);
    let kept = manager_model::in_use(manager.probes);
    assert forall|i: int| 0 <= i < kept.len() implies (
    #[trigger] kept[i]).has_distinct_places() by {
        let j = manager.probes.index_of(kept[i]);
        assert(manager.probes[j].has_distinct_places());
    }
}

/// No two sessions of a probe ever read the same up channel of the same control
/// block on the same core: whatever the manager is told to do keeps it so.
pub proof fn orders_keep_places_distinct(
    manager: ManagerModel,
    id: ProxySessionId,
    cfg: ProxySessionConfig,
)
    requires
        manager.wf(),
        manager.job is Idle,
        places_are_distinct(manager),
        manager.probes.len() <= usize::MAX,
    ensures
        places_are_distinct(manager.session_shut_down(id).manager),
        places_are_distinct(manager.shut_down().manager),
        places_are_distinct(manager.session_requested(cfg).manager),
{
    let now = Interval { secs: 0, nanos: 0 };
    pruning_keeps_places_distinct(manager, Job::RequestPrune(cfg));
    if manager.probes.len() > 0 {
        probe_laws::places_stay_distinct(manager.probes[0], id, Reply::Done, now);
    }
    manager.probes.map_values(
        |probe: ProbeModel| probe.sessions.contains_key(id),
    ).index_of_first_ensures(true);
    match manager_model::holder(manager.probes, id) {
        Some(i) => {
            let probe = manager.probes[i];
            probe_laws::places_stay_distinct(probe, id, Reply::Done, now);
            probe_laws::shut_down_probe_is_wf(probe, id);
            probe_laws::steps_keep_the_probe(probe, id, Reply::Done, now);
            let outcome = probe.session_shut_down(id);
            if outcome.probe.turn is Idle {
                pruning_keeps_places_distinct(manager.with_probe(i, outcome.probe), Job::Prune);
            }
        },
        None => {
            pruning_keeps_places_distinct(manager, Job::Prune);
        },
    }
}

/// Admitting a session keeps the places distinct.
proof fn admission_keeps_places_distinct(
    manager: ManagerModel,
    i: int,
    target: TargetConfig,
    rtt: RttConfig,
    id: ProxySessionId,
)
    requires
        places_are_distinct(manager),
        0 <= i < manager.probes.len(),
    ensures
        places_are_distinct(manager.admitted(i, target, rtt, id).manager),
{
    let known = manager.probes[i].with_core(target.core);
    assert(known.sessions == manager.probes[i].sessions);
    assert(known.has_distinct_places());
}

/// Setting a probe up keeps the places distinct.
proof fn opening_keeps_places_distinct(
    manager: ManagerModel,
    cfg: ProxySessionConfig,
    probe: ProbeId,
    progress: SetupProgress,
    id: ProxySessionId,
    now: Interval,
)
    requires
        places_are_distinct(manager),
    ensures
        places_are_distinct(manager.opened(cfg, probe, progress, id, now).manager),
{
    if progress is Ready {
        let with = ManagerModel {
            probes: manager.probes.push(ProbeModel::fresh(probe, cfg.probe, now)),
            ..manager
        };
        assert forall|i: int| 0 <= i < with.probes.len() implies (
        #[trigger] with.probes[i]).has_distinct_places() by {
            if i < manager.probes.len() {
                assert(manager.probes[i].has_distinct_places());
            }
        }
        admission_keeps_places_distinct(
            with,
            manager.probes.len() as int,
            cfg.target,
            cfg.rtt,
            id,
        );
    }
}

/// No two sessions of a probe ever read the same up channel of the same control
/// block on the same core: whatever answers the manager gets, it stays so.
pub proof fn answers_keep_places_distinct(
    manager: ManagerModel,
    reply: Reply,
    id: ProxySessionId,
    now: Interval,
)
    requires
        manager.wf(),
        places_are_distinct(manager),
        manager.probes.len() <= usize::MAX,
    ensures
        places_are_distinct(manager.resumed(reply, id, now).manager),
{
    let idle = ManagerModel { job: Job::Idle, ..manager };
    if let Some(i) = manager.busy() {
        let probe = manager.probes[i];
        let outcome = probe.resumed(reply, now);
        probe_laws::places_stay_distinct(probe, id, reply, now);
        probe_laws::resumed_probe_is_wf(probe, reply, now);
        probe_laws::steps_keep_the_probe(probe, id, reply, now);
        if outcome.probe.turn is Idle {
            let with = idle.with_probe(i, outcome.probe);
            assert(with.wf());
            assert(places_are_distinct(with));
            turns_keep_places_distinct(with, i + 1, now);
            pruning_keeps_places_distinct(with, Job::Prune);
        }
    } else {
        assert(idle.wf());
        assert(places_are_distinct(idle));
        match manager.job {
            Job::ShutdownDrop => {
                if idle.probes.len() > 0 {
                    probe_laws::places_stay_distinct(idle.probes[0], id, reply, now);
                }
            },
            Job::RequestList(cfg) => {
                let available = reply->Probes_0@;
                let chosen = manager_model::selected(
                    probe_id::requested(cfg.probe),
                    probe_id::keys(available),
                );
                if let Ok(index) = chosen {
                    let probe = available[index];
                    idle.probes.map_values(
                        |probe: ProbeModel| probe.id@,
                    ).index_of_first_ensures(probe@);
                    match manager_model::position(idle.probes, probe@) {
                        Some(i) => {
                            probe_laws::places_stay_distinct(idle.probes[i], id, reply, now);
                            admission_keeps_places_distinct(idle, i, cfg.target, cfg.rtt, id);
                        },
                        None => {
                            let begun = setup::setup_begun(cfg.probe);
                            opening_keeps_places_distinct(idle, cfg, probe, begun, id, now);
                        },
                    }
                }
            },
            Job::RequestDrop(cfg, probe) => {
                let begun = setup::setup_begun(cfg.probe);
                opening_keeps_places_distinct(idle, cfg, probe, begun, id, now);
            },
            Job::RequestSetup(cfg, probe, step) => {
                let progress = setup::setup_resumed(cfg.probe, step, reply);
                opening_keeps_places_distinct(idle, cfg, probe, progress, id, now);
            },
            Job::RequestControl(i, target, rtt, new) => {
                let probe = idle.probes[i as int];
                let session = SessionModel::fresh(
                    new,
                    manager_model::session_name(probe.cfg.target, target),
                    target,
                    rtt,
                    idle.log_rtt_metrics,
                    now,
                );
                assert(probe.with_session(session).has_distinct_places());
            },
            _ => {},
        }
    }
}

} // verus!
