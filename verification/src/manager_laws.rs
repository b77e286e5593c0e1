//! What holds of the manager whatever happens to it.
use crate::clock::Interval;
use crate::command::Reply;
use crate::manager_error::ManagerError;
use crate::manager_model;
use crate::manager_model::{Job, ManagerModel};
use crate::probe_id;
use crate::probe_id::{ProbeId, ProbeKey};
use crate::probe_laws;
use crate::probe_model::ProbeModel;
use crate::protocol::{ProxySessionConfig, ProxySessionId, RttConfig, TargetConfig};
use crate::session_model::SessionModel;
use crate::setup;
use crate::setup::SetupProgress;
use vstd::prelude::*;

verus! {

/// The first place that holds a value is the one before which none does.
pub proof fn first_is_first<A>(items: Seq<A>, needle: A, i: int)
    requires
        0 <= i < items.len(),
        items[i] == needle,
        forall|j: int| 0 <= j < i ==> items[j] != needle,
    ensures
        items.index_of_first(needle) == Some(i),
{
    items.index_of_first_ensures(needle);
}

/// One probe more is either one in use or an unused one.
pub proof fn filters_extend(probes: Seq<ProbeModel>, n: int)
    requires
        0 <= n < probes.len(),
    ensures
        manager_model::in_use(probes.take(n + 1)) == (if probes[n].sessions.len() > 0 {
            manager_model::in_use(probes.take(n)).push(probes[n])
        } else {
            manager_model::in_use(probes.take(n))
        }),
        manager_model::unused(probes.take(n + 1)) == (if probes[n].sessions.len() == 0 {
            manager_model::unused(probes.take(n)).push(probes[n].id)
        } else {
            manager_model::unused(probes.take(n))
        }),
{
    reveal(Seq::filter);
    assert(probes.take(n + 1).drop_last() =~= probes.take(n));
    assert(manager_model::unused(probes.take(n + 1)) =~= (if probes[n].sessions.len() == 0 {
        manager_model::unused(probes.take(n)).push(probes[n].id)
    } else {
        manager_model::unused(probes.take(n))
    }));
}

/// The choice of a probe is the one that the selector makes, or the refusal
/// that it leads to.
pub proof fn the_selected_probe_is_chosen(
    selector: Option<Result<ProbeKey, Seq<char>>>,
    available: Seq<ProbeKey>,
    chosen: Result<usize, ManagerError>,
)
    requires
        probe_id::chooses(selector, available, chosen),
    ensures
        match chosen {
            Ok(index) => {
                &&& manager_model::selected(selector, available) == Ok::<int, Seq<char>>(
                    index as int,
                )
                &&& index < available.len()
            },
            Err(error) => manager_model::selected(selector, available) == Err::<int, Seq<char>>(
                error.text(),
            ),
        },
{
    if let Some(Ok(key)) = selector {
        let names = available.map_values(|probe: ProbeKey| probe_id::named(key, probe));
        match chosen {
            Ok(index) => {
                first_is_first(names, true, index as int);
            },
            Err(_) => {
                assert(!names.contains(true));
                names.index_of_first_ensures(true);
            },
        }
    }
}

/// The probes that are kept are probes that were there, in use, and every probe in
/// use is kept; what was true of every probe still is.
pub proof fn pruning_keeps_the_probes_in_use(manager: ManagerModel, n: int)
    requires
        manager.wf(),
        manager.busy() is None,
        0 <= n <= manager.probes.len(),
    ensures
        ({
            let kept = manager_model::in_use(manager.probes.take(n));
            &&& forall|k: int|
                0 <= k < kept.len() ==> (#[trigger] kept[k]).sessions.len() > 0
                    && manager.probes.take(n).contains(kept[k])
            &&& forall|j: int|
                0 <= j < n && (#[trigger] manager.probes[j]).sessions.len() > 0 ==> kept.contains(
                    manager.probes[j],
                )
            &&& forall|i: int, j: int|
                0 <= i < j < kept.len() ==> (#[trigger] kept[i]).id@ != (#[trigger] kept[j]).id@
        }),
    decreases n,
{
    if n > 0 {
        pruning_keeps_the_probes_in_use(manager, n - 1);
        filters_extend(manager.probes, n - 1);
        let before = manager_model::in_use(manager.probes.take(n - 1));
        let kept = manager_model::in_use(manager.probes.take(n));
        let last = manager.probes[n - 1];
        assert forall|k: int| 0 <= k < kept.len() implies (#[trigger] kept[k]).sessions.len() > 0
            && manager.probes.take(n).contains(kept[k]) by {
            if k < before.len() {
                let j = manager.probes.take(n - 1).index_of(before[k]);
                assert(manager.probes.take(n)[j] == kept[k]);
            } else {
                assert(manager.probes.take(n)[n - 1] == kept[k]);
            }
        }
        assert forall|j: int|
            0 <= j < n && (#[trigger] manager.probes[j]).sessions.len() > 0 implies kept.contains(
            manager.probes[j],
        ) by {
            if j < n - 1 {
                let k = before.index_of(manager.probes[j]);
                assert(kept[k] == manager.probes[j]);
            } else {
                assert(kept[kept.len() - 1] == last);
            }
        }
        assert forall|i: int, j: int| 0 <= i < j < kept.len() implies (#[trigger] kept[i]).id@ != (
        #[trigger] kept[j]).id@ by {
            if j < before.len() {
                assert(before[i].id@ != before[j].id@);
            } else {
                let at = manager.probes.take(n - 1).index_of(before[i]);
                assert(manager.probes[at] == before[i]);
            }
        }
    } else {
        reveal(Seq::filter);
    }
}

/// Letting go of the probes without sessions leaves the manager well-formed.
pub proof fn pruned_manager_is_wf(manager: ManagerModel, job: Job)
    requires
        manager.wf(),
        manager.busy() is None,
        job is Prune || job is RequestPrune,
    ensures
        manager.pruned(job).manager.wf(),
{
    pruning_keeps_the_probes_in_use(manager, manager.probes.len() as int);
    assert(manager.probes.take(manager.probes.len() as int) =~= manager.probes);
    let kept = manager_model::in_use(manager.probes);
    assert forall|i: int| 0 <= i < kept.len() implies (#[trigger] kept[i]).wf()
        && kept[i].turn is Idle by {
        let j = manager.probes.index_of(kept[i]);
        assert(manager.probes[j].wf());
    }
}

/// The turns of the probes leave the manager well-formed.
proof fn served_manager_is_wf(manager: ManagerModel, i: int, now: Interval)
    requires
        manager.wf(),
        manager.job is Idle,
        0 <= i <= manager.probes.len() <= usize::MAX,
    ensures
        manager.served_from(i, now).manager.wf(),
    decreases manager.probes.len() - i,
{
    if i < manager.probes.len() {
        let probe = manager.probes[i];
        let outcome = probe.serviced(now);
        probe_laws::serviced_probe_is_wf(probe, now);
        probe_laws::steps_keep_the_probe(probe, 0, Reply::Done, now);
        if outcome.probe.turn is Idle {
            served_manager_is_wf(manager.with_probe(i, outcome.probe), i + 1, now);
        }
    }
}

/// A manager that gives every probe its turn stays well-formed.
pub proof fn serviced_manager_is_wf(manager: ManagerModel, now: Interval)
    requires
        manager.wf(),
        manager.job is Idle,
        manager.probes.len() <= usize::MAX,
    ensures
        manager.served_from(0, now).manager.wf(),
{
    served_manager_is_wf(manager, 0, now);
}

/// A manager that is told to shut one session or all of them down stays
/// well-formed.
pub proof fn told_manager_is_wf(manager: ManagerModel, id: ProxySessionId)
    requires
        manager.wf(),
        manager.job is Idle,
        manager.probes.len() <= usize::MAX,
    ensures
        manager.session_shut_down(id).manager.wf(),
        manager.shut_down().manager.wf(),
{
    manager.probes.map_values(
        |probe: ProbeModel| probe.sessions.contains_key(id),
    ).index_of_first_ensures(true);
    match manager_model::holder(manager.probes, id) {
        Some(i) => {
            session_left_is_wf(manager, i, id);
        },
        None => {
            pruned_manager_is_wf(manager, Job::Prune);
        },
    }
    if manager.probes.len() > 0 {
        let now = Interval { secs: 0, nanos: 0 };
        probe_laws::shut_down_probe_is_wf(manager.probes[0], id);
        probe_laws::shutdown_of_all_goes_on(manager.probes[0], Reply::Done, now);
        probe_laws::steps_keep_the_probe(manager.probes[0], id, Reply::Done, now);
    }
}

/// The first step of shutting a session down leaves the manager well-formed.
proof fn session_left_is_wf(manager: ManagerModel, i: int, id: ProxySessionId)
    requires
        manager.wf(),
        manager.job is Idle,
        0 <= i < manager.probes.len() <= usize::MAX,
    ensures
        manager.session_left(i, manager.probes[i].session_shut_down(id)).manager.wf(),
{
    let outcome = manager.probes[i].session_shut_down(id);
    probe_laws::shut_down_probe_is_wf(manager.probes[i], id);
    let now = Interval { secs: 0, nanos: 0 };
    probe_laws::steps_keep_the_probe(manager.probes[i], id, Reply::Done, now);
    if outcome.probe.turn is Idle {
        pruned_manager_is_wf(manager.with_probe(i, outcome.probe), Job::Prune);
    }
}

/// Setting a probe up leaves the manager well-formed.
proof fn opened_manager_is_wf(
    manager: ManagerModel,
    cfg: ProxySessionConfig,
    probe: ProbeId,
    progress: SetupProgress,
    id: ProxySessionId,
    now: Interval,
)
    requires
        manager.wf(),
        manager.job is Idle,
        manager.lacks(probe@),
        manager.probes.len() <= usize::MAX,
    ensures
        manager.opened(cfg, probe, progress, id, now).manager.wf(),
{
    if progress is Ready {
        let with = ManagerModel {
            probes: manager.probes.push(ProbeModel::fresh(probe, cfg.probe, now)),
            ..manager
        };
        assert(with.wf());
        admitted_manager_is_wf(with, manager.probes.len() as int, cfg.target, cfg.rtt, id);
    }
}

/// Admitting a session leaves the manager well-formed.
proof fn admitted_manager_is_wf(
    manager: ManagerModel,
    i: int,
    target: TargetConfig,
    rtt: RttConfig,
    id: ProxySessionId,
)
    requires
        manager.wf(),
        manager.job is Idle,
        0 <= i < manager.probes.len(),
        i <= usize::MAX,
    ensures
        manager.admitted(i, target, rtt, id).manager.wf(),
{
    let probe = manager.probes[i];
    let known = probe.with_core(target.core);
    assert(known.wf());
}

/// A manager that gets an answer stays well-formed.
pub proof fn resumed_manager_is_wf(
    manager: ManagerModel,
    reply: Reply,
    id: ProxySessionId,
    now: Interval,
)
    requires
        manager.wf(),
        manager.probes.len() <= usize::MAX,
    ensures
        manager.resumed(reply, id, now).manager.wf(),
{
    let idle = ManagerModel { job: Job::Idle, ..manager };
    if let Some(i) = manager.busy() {
        let probe = manager.probes[i];
        let outcome = probe.resumed(reply, now);
        probe_laws::resumed_probe_is_wf(probe, reply, now);
        probe_laws::shutdown_of_all_goes_on(probe, reply, now);
        probe_laws::steps_keep_the_probe(probe, id, reply, now);
        if outcome.probe.turn is Idle {
            let with = idle.with_probe(i, outcome.probe);
            assert(with.wf());
            served_manager_is_wf(with, i + 1, now);
            pruned_manager_is_wf(with, Job::Prune);
        }
    } else {
        assert(idle.wf());
        match manager.job {
            Job::ShutdownDrop => {
                if idle.probes.len() > 0 {
                    probe_laws::shut_down_probe_is_wf(idle.probes[0], id);
                    probe_laws::shutdown_of_all_goes_on(idle.probes[0], reply, now);
                    probe_laws::steps_keep_the_probe(idle.probes[0], id, reply, now);
                }
            },
            Job::RequestList(cfg) => {
                let available = reply->Probes_0@;
                let chosen = manager_model::selected(
                    probe_id::requested(cfg.probe),
                    probe_id::keys(available),
                );
                if let Ok(index) = chosen {
                    let probe = available[index];
                    let keys = idle.probes.map_values(|probe: ProbeModel| probe.id@);
                    keys.index_of_first_ensures(probe@);
                    match manager_model::position(idle.probes, probe@) {
                        Some(i) => {
                            assert(keys[i] == probe@);
                            probe_laws::shut_down_probe_is_wf(idle.probes[i], id);
                            probe_laws::shutdown_of_all_goes_on(idle.probes[i], reply, now);
                            probe_laws::steps_keep_the_probe(idle.probes[i], id, reply, now);
                            admitted_manager_is_wf(idle, i, cfg.target, cfg.rtt, id);
                        },
                        None => {
                            assert forall|i: int|
                                0 <= i < idle.probes.len() implies (#[trigger] idle.probes[i]).id@
                                != probe@ by {
                                assert(keys[i] == idle.probes[i].id@);
                            }
                            opened_manager_is_wf(
                                idle,
                                cfg,
                                probe,
                                setup::setup_begun(cfg.probe),
                                id,
                                now,
                            );
                        },
                    }
                }
            },
            Job::RequestDrop(cfg, probe) => {
                opened_manager_is_wf(idle, cfg, probe, setup::setup_begun(cfg.probe), id, now);
            },
            Job::RequestSetup(cfg, probe, step) => {
                opened_manager_is_wf(
                    idle,
                    cfg,
                    probe,
                    setup::setup_resumed(cfg.probe, step, reply),
                    id,
                    now,
                );
            },
            Job::RequestControl(i, target, rtt, new) => {
                let probe = idle.probes[i as int];
                let session = SessionModel::fresh(
                    new,
                    manager_model::session_name(probe.cfg.target, target),
                    target,
                    rtt,
                    idle.log_rtt_metrics,
                    now,
                );
                probe_laws::added_session_keeps_wf(probe, session);
            },
            _ => {},
        }
    }
}

/// Giving the probes their turns is finished exactly when nothing is under way.
proof fn served_manager_rests_when_finished(manager: ManagerModel, i: int, now: Interval)
    requires
        0 <= i,
    ensures
        manager.served_from(i, now).action is Finished <==> manager.served_from(
            i,
            now,
        ).manager.job is Idle,
    decreases manager.probes.len() - i,
{
    if i < manager.probes.len() {
        let outcome = manager.probes[i].serviced(now);
        if outcome.probe.turn is Idle {
            served_manager_rests_when_finished(manager.with_probe(i, outcome.probe), i + 1, now);
        }
    }
}

/// The manager is in the middle of something exactly as long as there is something
/// to be done.
pub proof fn manager_rests_when_finished(
    manager: ManagerModel,
    reply: Reply,
    id: ProxySessionId,
    cfg: ProxySessionConfig,
    now: Interval,
)
    ensures
        manager.served_from(0, now).action is Finished <==> manager.served_from(
            0,
            now,
        ).manager.job is Idle,
        manager.session_shut_down(id).action is Finished <==> manager.session_shut_down(
            id,
        ).manager.job is Idle,
        manager.shut_down().action is Finished <==> manager.shut_down().manager.job is Idle,
        manager.session_requested(cfg).action is Finished <==> manager.session_requested(
            cfg,
        ).manager.job is Idle,
        manager.resumed(reply, id, now).action is Finished <==> manager.resumed(
            reply,
            id,
            now,
        ).manager.job is Idle,
{
    served_manager_rests_when_finished(manager, 0, now);
    if let Job::Service(i) = manager.job {
        let idle = ManagerModel { job: Job::Idle, ..manager };
        let outcome = manager.probes[i as int].resumed(reply, now);
        served_manager_rests_when_finished(
            idle.with_probe(i as int, outcome.probe),
            i + 1,
            now,
        );
    }
}

/// A shutdown lets go of a probe only when none of its sessions is left, and it is
/// finished only when no probe is left.
pub proof fn nothing_is_left_after_shutdown(
    manager: ManagerModel,
    reply: Reply,
    id: ProxySessionId,
    now: Interval,
)
    requires
        manager.wf(),
        manager.job is Shutdown || manager.job is ShutdownDrop,
    ensures
        ({
            let next = manager.resumed(reply, id, now);
            &&& next.action is Finished ==> next.manager.probes.len() == 0
            &&& manager.job is Shutdown && next.manager.job is ShutdownDrop
                ==> manager.probes[0].resumed(reply, now).probe.sessions.dom() == Set::<
                ProxySessionId,
            >::empty()
        }),
{
    if manager.job is Shutdown {
        probe_laws::nobody_is_left(manager.probes[0], reply, now);
        probe_laws::shutdown_of_all_goes_on(manager.probes[0], reply, now);
    }
}

} // verus!
