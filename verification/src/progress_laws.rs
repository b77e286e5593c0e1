//! Whatever the manager is told to do comes to an end.
use crate::clock::Interval;
use crate::command::Reply;
use crate::manager_model;
use crate::manager_model::{Job, ManagerModel};
use crate::probe_id;
use crate::probe_laws;
use crate::probe_model::ProbeModel;
use crate::protocol::{ProxySessionConfig, ProxySessionId};
use crate::setup;
use vstd::prelude::*;

verus! {

/// How many answers it can take, at most, to shut all sessions on these probes down
/// and to let go of the probes.
pub open spec fn shutdown_work(probes: Seq<ProbeModel>) -> nat
    decreases probes.len(),
{
    if probes.len() == 0 {
        0
    } else {
        3 + 9 * probes[0].sessions.len() + shutdown_work(probes.drop_first())
    }
}

/// How many answers there can be, at most, until the manager is finished.
pub open spec fn work_left(manager: ManagerModel) -> int {
    let probes = manager.probes;
    match manager.job {
        Job::Idle => 0,
        Job::Refuse | Job::Prune => 1,
        Job::Service(i) => left(probes[i as int]) + 23 * (probes.len() - i - 1),
        Job::ShutdownSession(i) => left(probes[i as int]) + 1,
        Job::Shutdown => left(probes[0]) + 2 + shutdown_work(probes.drop_first()),
        Job::ShutdownDrop => 1int + shutdown_work(probes),
        Job::RequestPrune(_) => 10int + shutdown_work(probes),
        Job::RequestList(_) => 9int + shutdown_work(probes),
        Job::RequestExclusive(i, ..) => left(probes[i as int]) + 8,
        Job::RequestDrop(..) => 8,
        Job::RequestSetup(_, _, step) => probe_laws::setup_answers_left(step) as int + 2,
        Job::RequestControl(..) => 2,
    }
}

/// How many answers there can be, at most, until nothing is left to do for a probe.
pub open spec fn left(probe: ProbeModel) -> int {
    probe_laws::probe_answers_left(probe) as int
}

/// Shutting down one of the probes is part of shutting all of them down.
proof fn one_probe_is_part_of_the_work(probes: Seq<ProbeModel>, i: int)
    requires
        0 <= i < probes.len(),
    ensures
        3 + 9 * probes[i].sessions.len() <= shutdown_work(probes),
    decreases probes.len(),
{
    if i > 0 {
        one_probe_is_part_of_the_work(probes.drop_first(), i - 1);
    }
}

/// The turns of the probes from that place on take so many answers for each of them.
proof fn service_is_bounded(manager: ManagerModel, i: int, now: Interval)
    requires
        manager.wf(),
        manager.job is Idle,
        0 <= i <= manager.probes.len() <= usize::MAX,
    ensures
        0 <= work_left(manager.served_from(i, now).manager) <= 23 * (manager.probes.len() - i),
    decreases manager.probes.len() - i,
{
    if i < manager.probes.len() {
        let probe = manager.probes[i];
        let outcome = probe.serviced(now);
        probe_laws::probe_work_is_bounded(probe, 0, now);
        probe_laws::serviced_probe_is_wf(probe, now);
        probe_laws::steps_keep_the_probe(probe, 0, Reply::Done, now);
        if outcome.probe.turn is Idle {
            service_is_bounded(manager.with_probe(i, outcome.probe), i + 1, now);
        }
    }
}

/// What the manager is told to do takes a bounded number of answers: a round of
/// turns so many for each probe, and a request or a shutdown so many for each probe
/// and each session.
pub proof fn orders_are_bounded(
    manager: ManagerModel,
    id: ProxySessionId,
    cfg: ProxySessionConfig,
    now: Interval,
)
    requires
        manager.wf(),
        manager.job is Idle,
        manager.probes.len() <= usize::MAX,
    ensures
        work_left(manager.served_from(0, now).manager) <= 23 * manager.probes.len(),
        work_left(manager.session_shut_down(id).manager) <= 9,
        work_left(manager.shut_down().manager) <= shutdown_work(manager.probes),
        work_left(manager.session_requested(cfg).manager) == 10 + shutdown_work(
            manager_model::in_use(manager.probes),
        ),
{
    service_is_bounded(manager, 0, now);
    manager.probes.map_values(
        |probe: ProbeModel| probe.sessions.contains_key(id),
    ).index_of_first_ensures(true);
    if let Some(i) = manager_model::holder(manager.probes, id) {
        probe_laws::probe_work_is_bounded(manager.probes[i], id, now);
    }
    if manager.probes.len() > 0 {
        shutdown_begins(manager, now);
    }
}

/// A shutdown of everything begins with the first probe.
proof fn shutdown_begins(manager: ManagerModel, now: Interval)
    requires
        manager.wf(),
        manager.job is Idle,
        manager.probes.len() > 0,
    ensures
        work_left(manager.shut_down().manager) < 1 + shutdown_work(manager.probes),
{
    let probe = manager.probes[0];
    let outcome = probe.all_shut_down();
    probe_laws::probe_work_is_bounded(probe, 0, now);
    let rest = manager.probes.drop_first();
    assert(manager.probes.update(0, outcome.probe).drop_first() =~= rest);
}

/// Every answer brings the manager closer to being finished.
pub proof fn manager_moves_on(
    manager: ManagerModel,
    reply: Reply,
    id: ProxySessionId,
    now: Interval,
)
    requires
        manager.wf(),
        !(manager.job is Idle),
        manager.probes.len() <= usize::MAX,
    ensures
        0 <= work_left(manager.resumed(reply, id, now).manager) < work_left(manager),
{
    let idle = ManagerModel { job: Job::Idle, ..manager };
    if let Some(i) = manager.busy() {
        let probe = manager.probes[i];
        let outcome = probe.resumed(reply, now);
        probe_laws::busy_probe_waits(probe);
        probe_laws::probes_move_on(probe, reply, now);
        probe_laws::resumed_probe_is_wf(probe, reply, now);
        probe_laws::steps_keep_the_probe(probe, id, reply, now);
        if manager.job is Service && outcome.probe.turn is Idle {
            let with = idle.with_probe(i, outcome.probe);
            assert(with.wf());
            service_is_bounded(with, i + 1, now);
        }
        if manager.job is Shutdown {
            let rest = manager.probes.drop_first();
            assert(manager.probes.update(0, outcome.probe).drop_first() =~= rest);
        }
    } else {
        assert(idle.wf());
        match manager.job {
            Job::ShutdownDrop => {
                if idle.probes.len() > 0 {
                    shutdown_begins(idle, now);
                }
            },
            Job::RequestList(cfg) => {
                let available = reply->Probes_0@;
                let chosen = manager_model::selected(
                    probe_id::requested(cfg.probe),
                    probe_id::keys(available),
                );
                if let Ok(index) = chosen {
                    let probe = available[index];
                    idle.probes.map_values(
                        |probe: ProbeModel| probe.id@,
                    ).index_of_first_ensures(probe@);
                    if let Some(i) = manager_model::position(idle.probes, probe@) {
                        probe_laws::probe_work_is_bounded(idle.probes[i], id, now);
                        one_probe_is_part_of_the_work(idle.probes, i);
                    }
                }
            },
            _ => {},
        }
    }
}

} // verus!
