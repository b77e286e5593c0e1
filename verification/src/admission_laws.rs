//! How clients get to share probes.
use crate::clock::Interval;
use crate::command::Reply;
use crate::manager_error::ManagerError;
use crate::manager_laws;
use crate::manager_model;
use crate::manager_model::{ActionView, Job, ManagerModel};
use crate::probe_id;
use crate::probe_id::{ProbeId, ProbeKey};
use crate::probe_model::{ProbeAction, ProbeModel};
use crate::protocol::{
    ProbeConfig, ProxySessionConfig, ProxySessionId, RttConfig, Target, TargetConfig,
};
use crate::session_model::SessionModel;
use crate::session_types::RttFault;
use crate::setup;
use crate::setup::{SetupCommand, SetupStep};
use crate::text;
use vstd::prelude::*;

verus! {

/// Whether a probe has the vendor and the product of a selector, and its serial number
/// too if the selector gives one.
pub open spec fn has_what_is_asked_for(selector: ProbeKey, probe: ProbeKey) -> bool {
    &&& probe.0 == selector.0
    &&& probe.1 == selector.1
    &&& selector.2 is None || probe.2 == selector.2
}

/// Whether a request asks for that one of the available probes: the first that has what
/// its selector asks for, or the only one where it has no selector.
pub open spec fn asks_for(cfg: ProbeConfig, available: Seq<ProbeId>, index: int) -> bool {
    &&& 0 <= index < available.len()
    &&& match cfg.probe_selector {
        Some(text) => match probe_id::parsed_selector(text@) {
            Ok(key) => {
                &&& has_what_is_asked_for(key, available[index]@)
                &&& forall|j: int|
                    0 <= j < index ==> !has_what_is_asked_for(key, (#[trigger] available[j])@)
            },
            Err(_) => false,
        },
        None => available.len() == 1,
    }
}

/// The probe that a request asks for is the one that is selected. If it asks for none,
/// none is.
pub proof fn request_selects_what_it_asks_for(
    cfg: ProbeConfig,
    available: Seq<ProbeId>,
    index: int,
)
    ensures
        manager_model::selected(probe_id::requested(cfg), probe_id::keys(available)) == Ok::<
            int,
            Seq<char>,
        >(index) <==> asks_for(cfg, available, index),
{
    let keys = probe_id::keys(available);
    if let Some(text) = cfg.probe_selector {
        if let Ok(key) = probe_id::parsed_selector(text@) {
            let names = keys.map_values(|probe: ProbeKey| probe_id::named(key, probe));
            names.index_of_first_ensures(true);
            assert forall|j: int| 0 <= j < available.len() implies #[trigger] names[j]
                == has_what_is_asked_for(key, available[j]@) by {}
            if asks_for(cfg, available, index) {
                manager_laws::first_is_first(names, true, index);
            }
            if let Some(first) = manager_model::first_named(key, keys) {
                assert forall|j: int| 0 <= j < first implies !has_what_is_asked_for(
                    key,
                    (#[trigger] available[j])@,
                ) by {
                    assert(!names[j]);
                }
                assert(names[first]);
            }
        }
    }
}

/// A request whose selector cannot be read, or that asks for no probe that is there, is
/// refused. Without a selector there must be exactly one probe.
pub proof fn request_for_no_probe_is_refused(
    manager: ManagerModel,
    cfg: ProxySessionConfig,
    available: Vec<ProbeId>,
    id: ProxySessionId,
    now: Interval,
)
    requires
        manager.job == Job::RequestList(cfg),
        forall|index: int| !asks_for(cfg.probe, available@, index),
    ensures
        ({
            let next = manager.resumed(Reply::Probes(available), id, now);
            &&& next.manager.job is Refuse
            &&& next.action is Refuse
            &&& next.manager.probes == manager.probes
        }),
{
    let chosen = manager_model::selected(
        probe_id::requested(cfg.probe),
        probe_id::keys(available@),
    );
    if let Ok(index) = chosen {
        request_selects_what_it_asks_for(cfg.probe, available@, index);
    }
}

/// The place of a probe that is in use.
proof fn probe_is_found(manager: ManagerModel, i: int)
    requires
        manager.wf(),
        0 <= i < manager.probes.len(),
    ensures
        manager_model::position(manager.probes, manager.probes[i].id@) == Some(i),
{
    let keys = manager.probes.map_values(|probe: ProbeModel| probe.id@);
    assert forall|j: int| 0 <= j < i implies keys[j] != keys[i] by {
        assert(manager.probes[j].id@ != manager.probes[i].id@);
    }
    manager_laws::first_is_first(keys, manager.probes[i].id@, i);
}

/// An exclusive request for a probe that is in use takes the probe over, whatever core,
/// control block and channel it asks for: the sessions on the probe are shut down first,
/// or the probe is let go of at once if it has none. The other probes stay as they are.
pub proof fn exclusive_request_takes_the_probe_over(
    manager: ManagerModel,
    cfg: ProxySessionConfig,
    available: Vec<ProbeId>,
    index: int,
    i: int,
    id: ProxySessionId,
    now: Interval,
)
    requires
        manager.wf(),
        manager.probes.len() <= usize::MAX,
        manager.job == Job::RequestList(cfg),
        cfg.probe.force_exclusive,
        asks_for(cfg.probe, available@, index),
        0 <= i < manager.probes.len(),
        manager.probes[i].id@ == available@[index]@,
    ensures
        ({
            let probe = available@[index];
            let next = manager.resumed(Reply::Probes(available), id, now);
            ||| {
                &&& next.manager.job == Job::RequestExclusive(i as usize, cfg, probe)
                &&& next.manager.probes.len() == manager.probes.len()
                &&& next.manager.probes[i] == manager.probes[i].all_shut_down().probe
                &&& next.action == ActionView::Probe(
                    manager.probes[i].id,
                    manager.probes[i].all_shut_down().action,
                )
                &&& forall|j: int|
                    0 <= j < manager.probes.len() && j != i ==> #[trigger] next.manager.probes[j]
                        == manager.probes[j]
            }
            ||| {
                &&& next.manager.job == Job::RequestDrop(cfg, probe)
                &&& manager.probes[i].all_shut_down().probe.turn is Idle
                &&& next.manager.probes == manager.probes.remove(i)
                &&& next.action matches ActionView::DropProbes(ids)
                &&& ids.len() == 1 && ids[0] == manager.probes[i].id
            }
        }),
        !(manager.resumed(Reply::Probes(available), id, now).action is StartControl),
        !(manager.resumed(Reply::Probes(available), id, now).action is Refuse),
{
    request_selects_what_it_asks_for(cfg.probe, available@, index);
    probe_is_found(manager, i);
}

/// The session of an exclusive request is alone on its probe: whenever the client of such
/// a request is to be listened to, its probe has no sessions.
pub proof fn exclusive_session_is_alone(
    manager: ManagerModel,
    cfg: ProxySessionConfig,
    reply: Reply,
    id: ProxySessionId,
    now: Interval,
)
    requires
        manager.wf(),
        manager.probes.len() < usize::MAX,
        cfg.probe.force_exclusive,
        match manager.job {
            Job::RequestPrune(other) | Job::RequestList(other) => other == cfg,
            Job::RequestExclusive(_, other, _) => other == cfg,
            Job::RequestDrop(other, _) => other == cfg,
            Job::RequestSetup(other, _, _) => other == cfg,
            _ => false,
        },
        manager.resumed(reply, id, now).action is StartControl,
    ensures
        ({
            let next = manager.resumed(reply, id, now);
            next.manager.job matches Job::RequestControl(i, target, rtt, _) && target == cfg.target
                && rtt == cfg.rtt && i < next.manager.probes.len()
                && next.manager.probes[i as int].sessions == Map::<
                ProxySessionId,
                SessionModel,
            >::empty()
        }),
{
    let idle = ManagerModel { job: Job::Idle, ..manager };
    if let Job::RequestList(_) = manager.job {
        let available = reply->Probes_0@;
        let chosen = manager_model::selected(
            probe_id::requested(cfg.probe),
            probe_id::keys(available),
        );
        assert(chosen is Ok);
        assert(!(setup::setup_begun(cfg.probe) is Ready));
    }
    assert(!(setup::setup_begun(cfg.probe) is Ready));
}

/// Whether a session reads the up channel that is asked for: the same one of the same
/// control block on the same core.
pub open spec fn reads_it_already(
    session: SessionModel,
    target: TargetConfig,
    rtt: RttConfig,
) -> bool {
    &&& session.target_cfg.core == target.core
    &&& session.rtt_cfg.control_block_address == rtt.control_block_address
    &&& session.rtt_cfg.up_channel == rtt.up_channel
}

/// The name of a session as its client's thread has it.
pub open spec fn thread_name(target: Target, cfg: TargetConfig) -> Seq<char> {
    let chip = match target {
        Target::Auto => "AUTO"@,
        Target::Specific(name) => name@,
    };
    let part = if cfg.bootloader {
        ":bl"@
    } else if cfg.bootloader_companion_application {
        ":app"@
    } else {
        ""@
    };
    chip + ":"@ + text::decimal(cfg.core as nat) + part + ":control"@
}

/// A request for a probe that is in use and connected is refused just if one of the
/// sessions there reads the same up channel of the same control block on the same core.
/// Any other is admitted, so one whose control block address differs from that of every
/// session on its core. Where the connection to the probe is lost, nobody is admitted.
/// The sessions that are there stay as they are.
pub proof fn request_is_refused_just_if_its_place_is_taken(
    manager: ManagerModel,
    cfg: ProxySessionConfig,
    available: Vec<ProbeId>,
    index: int,
    i: int,
    id: ProxySessionId,
    now: Interval,
)
    requires
        manager.wf(),
        manager.probes.len() <= usize::MAX,
        manager.job == Job::RequestList(cfg),
        !cfg.probe.force_exclusive,
        asks_for(cfg.probe, available@, index),
        0 <= i < manager.probes.len(),
        manager.probes[i].id@ == available@[index]@,
    ensures
        ({
            let probe = manager.probes[i];
            let next = manager.resumed(Reply::Probes(available), id, now);
            let taken = exists|other: ProxySessionId| #[trigger]
                probe.sessions.contains_key(other) && reads_it_already(
                    probe.sessions[other],
                    cfg.target,
                    cfg.rtt,
                );
            &&& taken ==> next.action == ActionView::Refuse(
                ManagerError::RttSessionAlreadyStarted.text(),
            )
            &&& !taken && probe.active ==> {
                &&& next.action == ActionView::StartControl(
                    probe.id,
                    id,
                    thread_name(probe.cfg.target, cfg.target),
                )
                &&& next.manager.job == Job::RequestControl(i as usize, cfg.target, cfg.rtt, id)
            }
            &&& !taken && !probe.active ==> next.action == ActionView::Refuse(
                ManagerError::ProbeInRecovery.text(),
            )
            &&& next.manager.probes.len() == manager.probes.len()
            &&& forall|j: int|
                0 <= j < manager.probes.len() ==> {
                    &&& (#[trigger] next.manager.probes[j]).sessions == manager.probes[j].sessions
                    &&& next.manager.probes[j].cfg == manager.probes[j].cfg
                    &&& next.manager.probes[j].schedule == manager.probes[j].schedule
                }
        }),
{
    request_selects_what_it_asks_for(cfg.probe, available@, index);
    probe_is_found(manager, i);
    let probe = manager.probes[i];
    assert forall|other: ProxySessionId| #[trigger]
        probe.sessions.contains_key(other) implies reads_it_already(
        probe.sessions[other],
        cfg.target,
        cfg.rtt,
    ) == crate::probe_model::same_place(probe.sessions[other], cfg.target, cfg.rtt) by {}
}

/// A request for a probe that is not in use opens the probe, if its protocol is known;
/// otherwise it is refused. The probes in use stay as they are.
pub proof fn request_for_another_probe_opens_it(
    manager: ManagerModel,
    cfg: ProxySessionConfig,
    available: Vec<ProbeId>,
    index: int,
    id: ProxySessionId,
    now: Interval,
)
    requires
        manager.wf(),
        manager.job == Job::RequestList(cfg),
        asks_for(cfg.probe, available@, index),
        forall|i: int|
            0 <= i < manager.probes.len() ==> (#[trigger] manager.probes[i]).id@
                != available@[index]@,
    ensures
        ({
            let next = manager.resumed(Reply::Probes(available), id, now);
            &&& next.manager.probes == manager.probes
            &&& match setup::wire_protocol(cfg.probe.protocol@) {
                Some(_) => next.action == ActionView::Setup(
                    available@[index],
                    SetupCommand::Open,
                ) && next.manager.job is RequestSetup,
                None => next.action == ActionView::Refuse(
                    "Unsupported wire protocol '"@ + cfg.probe.protocol@
                        + "'. Only SWD and JTAG are supported."@,
                ),
            }
        }),
{
    request_selects_what_it_asks_for(cfg.probe, available@, index);
    let keys = manager.probes.map_values(|probe: ProbeModel| probe.id@);
    keys.index_of_first_ensures(available@[index]@);
    assert(!keys.contains(available@[index]@)) by {
        if keys.contains(available@[index]@) {
            let i = keys.index_of(available@[index]@);
            assert(manager.probes[i].id@ == available@[index]@);
        }
    }
}

/// A request first lets go of the probes without sessions and then asks which probes
/// there are. What it asks for stays the same all the while.
pub proof fn request_begins_with_a_list(
    manager: ManagerModel,
    cfg: ProxySessionConfig,
    reply: Reply,
    id: ProxySessionId,
    now: Interval,
)
    requires
        manager.job is Idle,
    ensures
        ({
            let begun = manager.session_requested(cfg);
            let next = begun.manager.resumed(reply, id, now);
            &&& begun.action is DropProbes
            &&& next.action is ListProbes
            &&& next.manager.job == Job::RequestList(cfg)
            &&& next.manager.probes == begun.manager.probes
        }),
{
}

/// Once its client is listened to, the session that was asked for is there, the last to
/// have its turn and just as it was asked for; otherwise the request is refused. No other
/// session changes.
pub proof fn session_is_there_as_it_was_asked_for(
    manager: ManagerModel,
    i: usize,
    target: TargetConfig,
    rtt: RttConfig,
    new: ProxySessionId,
    reply: Reply,
    id: ProxySessionId,
    now: Interval,
)
    requires
        manager.wf(),
        manager.job == Job::RequestControl(i, target, rtt, new),
    ensures
        ({
            let next = manager.resumed(reply, id, now);
            let before = manager.probes[i as int];
            let after = next.manager.probes[i as int];
            &&& next.manager.probes.len() == manager.probes.len()
            &&& forall|j: int|
                0 <= j < manager.probes.len() && j != i ==> #[trigger] next.manager.probes[j]
                    == manager.probes[j]
            &&& match reply {
                Reply::Failed(fault) => next.action == ActionView::Refuse(
                    "Manager IO error. "@ + fault.text(),
                ) && after == before,
                _ => {
                    &&& next.action is Finished
                    &&& after.schedule == before.schedule.push(new)
                    &&& after.next == before.next
                    &&& after.sessions.dom() == before.sessions.dom().insert(new)
                    &&& after.sessions[new].id == new
                    &&& after.sessions[new].target_cfg == target
                    &&& after.sessions[new].rtt_cfg == rtt
                    &&& after.sessions[new].log_rtt_metrics == manager.log_rtt_metrics
                    &&& after.sessions[new].name + ":control"@ == thread_name(
                        before.cfg.target,
                        target,
                    )
                    &&& after.sessions[new].state is Init
                    &&& forall|other: ProxySessionId| #[trigger]
                        before.sessions.contains_key(other) && other != new
                            ==> after.sessions[other] == before.sessions[other]
                },
            }
        }),
{
}

/// A session is shut down on the first probe that has it, and on no other: it is taken
/// out at once, and what is done is done for it. Where no probe has it, all that happens
/// is that unused probes are let go of.
pub proof fn session_is_shut_down_where_it_is(
    manager: ManagerModel,
    id: ProxySessionId,
    i: int,
)
    requires
        manager.wf(),
        manager.job is Idle,
        manager.probes.len() <= usize::MAX,
    ensures
        0 <= i < manager.probes.len() && manager.probes[i].sessions.contains_key(id) && (forall|
            j: int,
        |
            0 <= j < i ==> !(#[trigger] manager.probes[j]).sessions.contains_key(id)) ==> {
            let next = manager.session_shut_down(id);
            &&& next.manager.job == Job::ShutdownSession(i as usize)
            &&& next.manager.probes.len() == manager.probes.len()
            &&& next.manager.probes[i].sessions == manager.probes[i].sessions.remove(id)
            &&& next.action matches ActionView::Probe(probe, action) && probe
                == manager.probes[i].id && match action {
                ProbeAction::Session(session, _) => session == id,
                ProbeAction::DropSession(session) => session == id,
                _ => false,
            }
            &&& forall|j: int|
                0 <= j < manager.probes.len() && j != i ==> #[trigger] next.manager.probes[j]
                    == manager.probes[j]
        },
        (forall|j: int|
            0 <= j < manager.probes.len() ==> !(
            #[trigger] manager.probes[j]).sessions.contains_key(id)) ==> {
            let next = manager.session_shut_down(id);
            &&& next.action is DropProbes
            &&& next.manager.job is Prune
        },
{
    let found = manager.probes.map_values(|probe: ProbeModel| probe.sessions.contains_key(id));
    found.index_of_first_ensures(true);
    if 0 <= i < manager.probes.len() && manager.probes[i].sessions.contains_key(id) && (forall|
        j: int,
    |
        0 <= j < i ==> !(#[trigger] manager.probes[j]).sessions.contains_key(id)) {
        assert forall|j: int| 0 <= j < i implies !found[j] by {
            assert(!manager.probes[j].sessions.contains_key(id));
        }
        manager_laws::first_is_first(found, true, i);
        assert(manager.probes[i].wf());
        let session = manager.probes[i].sessions[id];
        assert(session.id == id);
        let shared = manager.probes[i].shared_of(session.target_cfg.core);
        let now = Interval { secs: 0, nanos: 0 };
        crate::session_laws::steps_keep_the_session(session, shared, Reply::Done, now);
    }
}

/// Those probes are let go of that have no sessions, and no others; the rest stay as they
/// are.
pub proof fn only_unused_probes_are_let_go_of(manager: ManagerModel, job: Job, probe: ProbeModel)
    ensures
        ({
            let next = manager.pruned(job);
            &&& next.manager.job == job
            &&& next.manager.probes.contains(probe) <==> manager.probes.contains(probe)
                && probe.sessions.len() > 0
            &&& next.action matches ActionView::DropProbes(ids)
            &&& manager.probes.contains(probe) && probe.sessions.len() == 0 ==> ids.contains(
                probe.id,
            )
            &&& forall|k: int|
                0 <= k < ids.len() ==> exists|i: int|
                    0 <= i < manager.probes.len() && (#[trigger] manager.probes[i]).sessions.len()
                        == 0 && manager.probes[i].id == #[trigger] ids[k]
        }),
{
    let keeps = |probe: ProbeModel| probe.sessions.len() > 0;
    let kept = manager_model::in_use(manager.probes);
    assert(kept == manager.probes.filter(keeps));
    if kept.contains(probe) {
        let k = kept.index_of(probe);
        manager.probes.lemma_filter_pred(keeps, k);
        manager.probes.lemma_filter_contains_rev(keeps, probe);
    }
    if manager.probes.contains(probe) && probe.sessions.len() > 0 {
        let i = manager.probes.index_of(probe);
        manager.probes.lemma_filter_contains(keeps, i);
    }
    let drops = |probe: ProbeModel| probe.sessions.len() == 0;
    let dropped = manager.probes.filter(drops);
    let ids = manager_model::unused(manager.probes);
    assert(ids == dropped.map_values(|probe: ProbeModel| probe.id));
    if manager.probes.contains(probe) && probe.sessions.len() == 0 {
        let i = manager.probes.index_of(probe);
        manager.probes.lemma_filter_contains(drops, i);
        let k = dropped.index_of(probe);
        assert(ids[k] == probe.id);
    }
    assert forall|k: int| 0 <= k < ids.len() implies exists|i: int|
        0 <= i < manager.probes.len() && (#[trigger] manager.probes[i]).sessions.len() == 0
            && manager.probes[i].id == #[trigger] ids[k] by {
        manager.probes.lemma_filter_pred(drops, k);
        manager.probes.lemma_filter_contains_rev(drops, dropped[k]);
        let i = manager.probes.index_of(dropped[k]);
        assert(manager.probes[i].sessions.len() == 0);
        assert(ids[k] == dropped[k].id);
    }
}

/// An answer for a session that is shut down goes to its probe. When the session is gone,
/// the probes that have no sessions left are let go of. They are so too where nobody has
/// the session.
pub proof fn unused_probes_are_let_go_of_in_the_end(
    manager: ManagerModel,
    i: usize,
    reply: Reply,
    id: ProxySessionId,
    now: Interval,
)
    ensures
        manager.job == Job::ShutdownSession(i) && i < manager.probes.len() ==> {
            let outcome = manager.probes[i as int].resumed(reply, now);
            let next = manager.resumed(reply, id, now);
            if outcome.probe.turn is Idle {
                &&& next.action is DropProbes
                &&& next.manager.job is Prune
                &&& forall|k: int|
                    0 <= k < next.manager.probes.len() ==> (
                    #[trigger] next.manager.probes[k]).sessions.len() > 0
            } else {
                &&& next.action == ActionView::Probe(outcome.probe.id, outcome.action)
                &&& next.manager.job == manager.job
                &&& next.manager.probes == manager.probes.update(i as int, outcome.probe)
            }
        },
        (forall|k: int|
            0 <= k < manager.probes.len() ==> !(#[trigger] manager.probes[k]).sessions.contains_key(
                id,
            )) ==> {
            let next = manager.session_shut_down(id);
            &&& next.action is DropProbes
            &&& next.manager.job is Prune
            &&& forall|k: int|
                0 <= k < next.manager.probes.len() ==> (
                #[trigger] next.manager.probes[k]).sessions.len() > 0
        },
{
    let keeps = |probe: ProbeModel| probe.sessions.len() > 0;
    let probes = manager.probes;
    let outcome = probes[i as int].resumed(reply, now);
    if manager.job == Job::ShutdownSession(i) && i < probes.len() {
        let changed = probes.update(i as int, outcome.probe);
        assert forall|k: int| 0 <= k < changed.filter(keeps).len() implies (
        #[trigger] changed.filter(keeps)[k]).sessions.len() > 0 by {
            changed.lemma_filter_pred(keeps, k);
        }
    }
    assert forall|k: int| 0 <= k < probes.filter(keeps).len() implies (
    #[trigger] probes.filter(keeps)[k]).sessions.len() > 0 by {
        probes.lemma_filter_pred(keeps, k);
    }
    let holders = probes.map_values(|probe: ProbeModel| probe.sessions.contains_key(id));
    holders.index_of_first_ensures(true);
    if holders.contains(true) {
        let k = holders.index_of(true);
        assert(holders[k]);
        assert(probes[k].sessions.contains_key(id));
    }
}

/// A probe that is taken over is let go of, it and no other, once its sessions are gone, and
/// is set up from the start then. A protocol that is not known is an error.
pub proof fn probe_that_is_taken_over_is_set_up_anew(
    manager: ManagerModel,
    i: usize,
    cfg: ProxySessionConfig,
    probe: ProbeId,
    reply: Reply,
    id: ProxySessionId,
    now: Interval,
)
    ensures
        manager.job == Job::RequestExclusive(i, cfg, probe) && i < manager.probes.len() ==> {
            let outcome = manager.probes[i as int].resumed(reply, now);
            let next = manager.resumed(reply, id, now);
            if outcome.probe.turn is Idle {
                &&& next.action matches ActionView::DropProbes(ids)
                &&& ids.len() == 1 && ids[0] == outcome.probe.id
                &&& next.manager.job == Job::RequestDrop(cfg, probe)
                &&& next.manager.probes == manager.probes.remove(i as int)
            } else {
                &&& next.action == ActionView::Probe(outcome.probe.id, outcome.action)
                &&& next.manager.job == manager.job
                &&& next.manager.probes == manager.probes.update(i as int, outcome.probe)
            }
        },
        manager.job == Job::RequestDrop(cfg, probe) ==> {
            let next = manager.resumed(reply, id, now);
            &&& next.manager.probes == manager.probes
            &&& if setup::wire_protocol(cfg.probe.protocol@) is Some {
                next.action == ActionView::Setup(probe, SetupCommand::Open)
            } else {
                next.action == ActionView::Refuse(
                    "Unsupported wire protocol '"@ + cfg.probe.protocol@
                        + "'. Only SWD and JTAG are supported."@,
                )
            }
        },
{
}

/// What goes wrong while a probe is set up for a request is told to the client, and the
/// probe is not kept.
pub proof fn failed_setup_is_told_to_the_client(
    manager: ManagerModel,
    cfg: ProxySessionConfig,
    probe: ProbeId,
    step: SetupStep,
    reply: Reply,
    id: ProxySessionId,
    now: Interval,
)
    requires
        manager.job == Job::RequestSetup(cfg, probe, step),
    ensures
        ({
            let next = manager.resumed(reply, id, now);
            &&& reply matches Reply::Failed(fault) ==> next.action == ActionView::Refuse(
                "Encountered an error with the debug probe. "@ + match fault {
                    RttFault::ControlBlockNotFound(text) => text@,
                    RttFault::Other(text) => text@,
                },
            ) && next.manager.probes == manager.probes
            &&& step is Voltage && reply == Reply::Powered(false) ==> next.action
                == ActionView::Refuse("Target not powered (VTref less than threshold)"@)
                && next.manager.probes == manager.probes
        }),
{
}

/// When everything is shut down, that is done for one probe after the other: each is let go
/// of once its sessions are gone, and the next one follows.
pub proof fn probes_are_shut_down_one_after_the_other(
    manager: ManagerModel,
    reply: Reply,
    id: ProxySessionId,
    now: Interval,
)
    ensures
        manager.job is Shutdown && manager.probes.len() > 0 ==> {
            let outcome = manager.probes[0].resumed(reply, now);
            let next = manager.resumed(reply, id, now);
            if outcome.probe.turn is Idle {
                &&& next.action matches ActionView::DropProbes(ids)
                &&& ids.len() == 1 && ids[0] == outcome.probe.id
                &&& next.manager.job is ShutdownDrop
                &&& next.manager.probes == manager.probes.drop_first()
            } else {
                &&& next.action == ActionView::Probe(outcome.probe.id, outcome.action)
                &&& next.manager.job is Shutdown
                &&& next.manager.probes == manager.probes.update(0, outcome.probe)
            }
        },
        manager.job is ShutdownDrop || manager.job is Idle ==> {
            let next = if manager.job is Idle {
                manager.shut_down()
            } else {
                manager.resumed(reply, id, now)
            };
            &&& next.action is Finished <==> manager.probes.len() == 0
            &&& manager.probes.len() > 0 ==> {
                let outcome = manager.probes[0].all_shut_down();
                if outcome.probe.turn is Idle {
                    &&& next.action matches ActionView::DropProbes(ids)
                    &&& ids.len() == 1 && ids[0] == outcome.probe.id
                    &&& next.manager.job is ShutdownDrop
                    &&& next.manager.probes == manager.probes.drop_first()
                } else {
                    &&& next.action == ActionView::Probe(outcome.probe.id, outcome.action)
                    &&& next.manager.job is Shutdown
                    &&& next.manager.probes == manager.probes.update(0, outcome.probe)
                }
            }
        },
{
}

/// A client that cannot be listened to is told so and gets no session; one that can be gets
/// the session that it was told of.
pub proof fn client_that_cannot_be_heard_gets_no_session(
    manager: ManagerModel,
    i: usize,
    target: TargetConfig,
    rtt: RttConfig,
    admitted: ProxySessionId,
    reply: Reply,
    id: ProxySessionId,
    now: Interval,
)
    requires
        manager.job == Job::RequestControl(i, target, rtt, admitted),
        i < manager.probes.len(),
    ensures
        ({
            let next = manager.resumed(reply, id, now);
            match reply {
                Reply::Failed(fault) => {
                    &&& next.action == ActionView::Refuse(
                        "Manager IO error. "@ + match fault {
                            RttFault::ControlBlockNotFound(text) => text@,
                            RttFault::Other(text) => text@,
                        },
                    )
                    &&& next.manager.probes == manager.probes
                },
                _ => {
                    &&& next.action is Finished
                    &&& next.manager.probes[i as int].sessions.contains_key(admitted)
                    &&& next.manager.probes[i as int].sessions[admitted].id == admitted
                },
            }
        }),
{
}

} // verus!
