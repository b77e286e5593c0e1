//! The manager: requests of clients, and all the probes and sessions.
use crate::clock::{Interval, Stopwatch};
use crate::command::Reply;
use crate::manager_error::ManagerError;
use crate::manager_laws;
use crate::manager_model;
use crate::manager_model::{ActionView, Job, ManagerModel, ManagerOutcome};
use crate::probe_id;
use crate::probe_id::{find_probe_info, ProbeId, ProbeKey};
use crate::probe_model::{ProbeAction, ProbeModel};
use crate::probe_state;
use crate::probe_state::ProbeState;
use crate::protocol;
use crate::protocol::{
    new_session_id, ProxySessionConfig, ProxySessionId, RttConfig, Target, TargetConfig,
};
use crate::rtt_session::{control_thread_name, RttSession};
use crate::setup::{can_resume_setup, resume_setup, setup_probe, SetupCommand, SetupProgress};
use crate::text::append_decimal;
use vstd::prelude::*;

verus! {

/// What the manager is told to do.
#[derive(Debug)]
pub enum Operation {
    Shutdown,
    ShutdownSession(ProxySessionId),
    /// A client has sent its request, or something that is none
    HandleClient(Result<ProxySessionConfig, String>),
}

impl Operation {
    pub const OPERATION_CHANNEL_SIZE: usize = 8;
}

/// One thing to be done for the manager.
#[derive(Debug)]
pub enum Action {
    /// Let go of all that belongs to these probes
    DropProbes(Vec<ProbeId>),
    /// List the available probes
    ListProbes,
    /// Something to be done for a probe
    Probe(ProbeId, ProbeAction),
    /// A step of setting up a probe that is not in use yet
    Setup(ProbeId, SetupCommand),
    /// Start to listen to the client of a new session, in a thread of that name
    StartControl(ProbeId, ProxySessionId, String),
    /// Tell the client why it gets no session
    Refuse(String),
    /// Nothing more is to be done
    Finished,
}

impl View for Action {
    type V = ActionView;

    open spec fn view(&self) -> ActionView {
        match *self {
            Action::DropProbes(ids) => ActionView::DropProbes(ids@),
            Action::ListProbes => ActionView::ListProbes,
            Action::Probe(id, action) => ActionView::Probe(id, action),
            Action::Setup(id, command) => ActionView::Setup(id, command),
            Action::StartControl(probe, id, name) => ActionView::StartControl(probe, id, name@),
            Action::Refuse(text) => ActionView::Refuse(text@),
            Action::Finished => ActionView::Finished,
        }
    }
}

/// All the probes that are in use. The manager decides what is to be done; the
/// caller does it and hands the answer back with `resume`, until nothing is left
/// to do.
#[derive(Debug)]
pub struct Manager {
    log_rtt_metrics: bool,
    clock: Stopwatch,
    probe_states: Vec<ProbeState>,
    job: Job,
}

/// The probes by what they are about.
pub open spec fn probes_view(probes: Seq<ProbeState>) -> Seq<ProbeModel> {
    probes.map_values(|probe: ProbeState| probe@)
}

impl View for Manager {
    type V = ManagerModel;

    closed spec fn view(&self) -> ManagerModel {
        ManagerModel {
            log_rtt_metrics: self.log_rtt_metrics,
            probes: probes_view(self.probe_states@),
            job: self.job,
        }
    }
}

/// What came of a step of the manager.
pub open spec fn manager_outcome(manager: Manager, action: Action) -> ManagerOutcome {
    ManagerOutcome { manager: manager@, action: action@ }
}

/// The name of a session.
pub fn session_name(target: &Target, cfg: &TargetConfig) -> (name: String)
    ensures
        name@ == manager_model::session_name(*target, *cfg),
{
    let mut name = target.display();
    name.append(":");
    append_decimal(&mut name, cfg.core as u64);
    name.append(
        if cfg.bootloader {
            ":bl"
        } else if cfg.bootloader_companion_application {
            ":app"
        } else {
            ""
        },
    );
    assert(name@ =~= manager_model::session_name(*target, *cfg));
    name
}

impl Manager {
    /// A manager without probes.
    pub fn new(log_rtt_metrics: bool) -> (manager: Self)
        ensures
            manager@ == ManagerModel::fresh(log_rtt_metrics),
            manager@.wf(),
    {
        let manager = Manager {
            log_rtt_metrics,
            clock: Stopwatch::start(),
            probe_states: Vec::new(),
            job: Job::Idle,
        };
        assert(manager@.probes =~= Seq::empty());
        manager
    }

    /// Whether nothing is under way.
    pub fn is_idle(&self) -> (yes: bool)
        ensures
            yes == (self@.job is Idle),
    {
        matches!(self.job, Job::Idle)
    }

    fn ask(&mut self, job: Job, action: Action) -> (asked: Action)
        ensures
            asked == action,
            final(self)@ == (ManagerModel { job, ..old(self)@ }),
    {
        self.job = job;
        action
    }

    fn finish(&mut self) -> (action: Action)
        ensures
            manager_outcome(*final(self), action) == old(self)@.finished(),
    {
        self.ask(Job::Idle, Action::Finished)
    }

    fn refuse(&mut self, text: String) -> (action: Action)
        ensures
            manager_outcome(*final(self), action) == old(self)@.refused(text@),
    {
        self.ask(Job::Refuse, Action::Refuse(text))
    }

    /// Gives the probes their turns, one after the other from that place on.
    fn service_from(&mut self, start: usize, now: Interval) -> (action: Action)
        requires
            forall|j: int|
                start <= j < old(self)@.probes.len() ==> (#[trigger] old(self)@.probes[j]).wf()
                    && old(self)@.probes[j].turn is Idle,
        ensures
            manager_outcome(*final(self), action) == old(self)@.served_from(start as int, now),
    {
        let mut i: usize = start;
        #[verifier::loop_isolation(false)]
        while i < self.probe_states.len()
            invariant
                start <= i,
                self@.probes.len() == old(self)@.probes.len(),
                forall|j: int|
                    i <= j < self@.probes.len() ==> self@.probes[j] == old(self)@.probes[j],
                self@.served_from(i as int, now) == old(self)@.served_from(start as int, now),
            decreases self.probe_states.len() - i,
        {
            let ghost before = self@;
            assert(before.probes[i as int] == old(self)@.probes[i as int]);
            let action = self.probe_states[i].service_at(now);
            assert(self@.probes =~= before.probes.update(i as int, self.probe_states@[i as int]@));
            if !self.probe_states[i].is_idle() {
                let id = self.probe_states[i].id().duplicate();
                return self.ask(Job::Service(i), Action::Probe(id, action));
            }
            i += 1;
        }
        self.finish()
    }

    /// Goes on with the turns of the probes after one of them has taken a step.
    fn served(
        &mut self,
        Ghost(before): Ghost<ManagerModel>,
        i: usize,
        action: ProbeAction,
        now: Interval,
    ) -> (next: Action)
        requires
            i < old(self)@.probes.len() == before.probes.len(),
            old(self)@ == before.with_probe(i as int, old(self)@.probes[i as int]),
            forall|j: int|
                i < j < old(self)@.probes.len() ==> (#[trigger] old(self)@.probes[j]).wf()
                    && old(self)@.probes[j].turn is Idle,
        ensures
            manager_outcome(*final(self), next) == before.served(
                i as int,
                probe_state::probe_outcome(old(self).probe_at(i as int), action),
                now,
            ),
    {
        if self.probe_states[i].is_idle() {
            assert(i < self.probe_states.len());
            self.service_from(i + 1, now)
        } else {
            let id = self.probe_states[i].id().duplicate();
            self.ask(Job::Service(i), Action::Probe(id, action))
        }
    }

    /// The probe at that place.
    spec fn probe_at(self, i: int) -> ProbeState {
        self.probe_states@[i]
    }

    /// Lets go of the probes that have no sessions.
    fn prune_inactive_probes(&mut self, job: Job) -> (action: Action)
        ensures
            manager_outcome(*final(self), action) == old(self)@.pruned(job),
    {
        let ghost all = self@.probes;
        let mut probes: Vec<ProbeState> = Vec::new();
        std::mem::swap(&mut self.probe_states, &mut probes);
        let mut kept: Vec<ProbeState> = Vec::new();
        let mut dropped: Vec<ProbeId> = Vec::new();
        let ghost mut n: int = 0;
        proof {
            reveal(Seq::filter);
            assert(probes_view(kept@) =~= manager_model::in_use(all.take(0)));
            assert(dropped@ =~= manager_model::unused(all.take(0)));
            assert(probes_view(probes@) =~= all.skip(0));
        }
        #[verifier::loop_isolation(false)]
        while probes.len() > 0
            invariant
                0 <= n <= all.len(),
                probes_view(probes@) == all.skip(n),
                probes_view(kept@) == manager_model::in_use(all.take(n)),
                dropped@ == manager_model::unused(all.take(n)),
            decreases probes.len(),
        {
            let ghost rest = probes@;
            let probe = probes.remove(0);
            proof {
                assert(probe@ == probes_view(rest)[0]);
                assert(probe@ == all[n]);
                assert(probes_view(probes@) =~= all.skip(n).drop_first());
                assert(all.skip(n).drop_first() =~= all.skip(n + 1));
                manager_laws::filters_extend(all, n);
            }
            if probe.is_empty() {
                // Pruning probe
                dropped.push(probe.id().duplicate());
            } else {
                let ghost before = kept@;
                kept.push(probe);
                assert(probes_view(kept@) =~= probes_view(before).push(probe@));
            }
            proof {
                n = n + 1;
            }
        }
        assert(all.take(n) =~= all);
        self.probe_states = kept;
        self.ask(job, Action::DropProbes(dropped))
    }

    /// Goes on with shutting a session down after it has taken a step.
    fn session_left(
        &mut self,
        Ghost(before): Ghost<ManagerModel>,
        i: usize,
        action: ProbeAction,
    ) -> (next: Action)
        requires
            i < old(self)@.probes.len() == before.probes.len(),
            old(self)@ == before.with_probe(i as int, old(self)@.probes[i as int]),
        ensures
            manager_outcome(*final(self), next) == before.session_left(
                i as int,
                probe_state::probe_outcome(old(self).probe_at(i as int), action),
            ),
    {
        if self.probe_states[i].is_idle() {
            self.prune_inactive_probes(Job::Prune)
        } else {
            let id = self.probe_states[i].id().duplicate();
            self.ask(Job::ShutdownSession(i), Action::Probe(id, action))
        }
    }

    /// The place of the first probe that has that session.
    fn find_session(&self, id: ProxySessionId) -> (found: Option<usize>)
        ensures
            match found {
                Some(i) => manager_model::holder(self@.probes, id) == Some(i as int) && i
                    < self@.probes.len(),
                None => manager_model::holder(self@.probes, id) is None,
            },
    {
        let ghost holds = self@.probes.map_values(
            |probe: ProbeModel| probe.sessions.contains_key(id),
        );
        let mut i: usize = 0;
        #[verifier::loop_isolation(false)]
        while i < self.probe_states.len()
            invariant
                i <= self.probe_states.len(),
                forall|j: int| 0 <= j < i ==> !holds[j],
            decreases self.probe_states.len() - i,
        {
            if self.probe_states[i].session(id).is_some() {
                proof {
                    manager_laws::first_is_first(holds, true, i as int);
                }
                return Some(i);
            }
            i += 1;
        }
        proof {
            assert(!holds.contains(true));
            holds.index_of_first_ensures(true);
        }
        None
    }

    /// The place of the first probe with that identity.
    fn find_probe(&self, id: &ProbeId) -> (found: Option<usize>)
        ensures
            match found {
                Some(i) => manager_model::position(self@.probes, id@) == Some(i as int) && i
                    < self@.probes.len(),
                None => manager_model::position(self@.probes, id@) is None,
            },
    {
        let ghost keys = self@.probes.map_values(|probe: ProbeModel| probe.id@);
        let mut i: usize = 0;
        #[verifier::loop_isolation(false)]
        while i < self.probe_states.len()
            invariant
                i <= self.probe_states.len(),
                forall|j: int| 0 <= j < i ==> keys[j] != id@,
            decreases self.probe_states.len() - i,
        {
            if self.probe_states[i].id().same(id) {
                proof {
                    manager_laws::first_is_first(keys, id@, i as int);
                }
                return Some(i);
            }
            i += 1;
        }
        proof {
            assert(!keys.contains(id@));
            keys.index_of_first_ensures(id@);
        }
        None
    }

    /// Goes on with shutting everything down after the first probe has taken a
    /// step.
    fn all_left(&mut self, Ghost(before): Ghost<ManagerModel>, action: ProbeAction) -> (next:
        Action)
        requires
            0 < old(self)@.probes.len() == before.probes.len(),
            old(self)@ == before.with_probe(0, old(self)@.probes[0]),
        ensures
            manager_outcome(*final(self), next) == before.all_left(
                probe_state::probe_outcome(old(self).probe_at(0), action),
            ),
    {
        let id = self.probe_states[0].id().duplicate();
        if self.probe_states[0].is_idle() {
            let ghost probes = self@.probes;
            let _ = self.probe_states.remove(0);
            assert(self@.probes =~= probes.drop_first());
            assert(probes =~= before.probes.update(0, probes[0]));
            assert(probes.drop_first() =~= before.probes.drop_first());
            let mut ids: Vec<ProbeId> = Vec::new();
            ids.push(id);
            assert(ids@ =~= seq![id]);
            self.ask(Job::ShutdownDrop, Action::DropProbes(ids))
        } else {
            self.ask(Job::Shutdown, Action::Probe(id, action))
        }
    }

    /// Goes on with making a probe free for one request after it has taken a step.
    fn made_exclusive(
        &mut self,
        Ghost(before): Ghost<ManagerModel>,
        i: usize,
        cfg: ProxySessionConfig,
        probe: ProbeId,
        action: ProbeAction,
    ) -> (next: Action)
        requires
            i < old(self)@.probes.len() == before.probes.len(),
            old(self)@ == before.with_probe(i as int, old(self)@.probes[i as int]),
        ensures
            manager_outcome(*final(self), next) == before.made_exclusive(
                i as int,
                cfg,
                probe,
                probe_state::probe_outcome(old(self).probe_at(i as int), action),
            ),
    {
        let id = self.probe_states[i].id().duplicate();
        if self.probe_states[i].is_idle() {
            let ghost probes = self@.probes;
            let _ = self.probe_states.remove(i);
            assert(self@.probes =~= probes.remove(i as int));
            assert(probes =~= before.probes.update(i as int, probes[i as int]));
            assert(probes.remove(i as int) =~= before.probes.remove(i as int));
            let mut ids: Vec<ProbeId> = Vec::new();
            ids.push(id);
            assert(ids@ =~= seq![id]);
            self.ask(Job::RequestDrop(cfg, probe), Action::DropProbes(ids))
        } else {
            self.ask(Job::RequestExclusive(i, cfg, probe), Action::Probe(id, action))
        }
    }

    /// Goes on with setting a probe up.
    fn opened(
        &mut self,
        cfg: ProxySessionConfig,
        probe: ProbeId,
        progress: SetupProgress,
        id: ProxySessionId,
        now: Interval,
    ) -> (action: Action)
        requires
            forall|j: int|
                0 <= j < old(self)@.probes.len() ==> (#[trigger] old(self)@.probes[j]).wf(),
        ensures
            manager_outcome(*final(self), action) == old(self)@.opened(
                cfg,
                probe,
                progress,
                id,
                now,
            ),
    {
        match progress {
            SetupProgress::Ask(step, command) => {
                let shown = probe.duplicate();
                self.ask(Job::RequestSetup(cfg, probe, step), Action::Setup(shown, command))
            },
            SetupProgress::Failed(error) => self.refuse(error.display()),
            SetupProgress::Ready => {
                let i: usize = self.probe_states.len();
                let state = ProbeState::new(probe, cfg.probe, self.clock, now);
                let ghost probes = self@.probes;
                self.probe_states.push(state);
                assert(self@.probes =~= probes.push(state@));
                self.admit_session(i, cfg.target, cfg.rtt, id)
            },
        }
    }

    /// Admits a session to a probe, or refuses it.
    fn admit_session(
        &mut self,
        i: usize,
        target: TargetConfig,
        rtt: RttConfig,
        id: ProxySessionId,
    ) -> (action: Action)
        requires
            i < old(self)@.probes.len(),
            old(self)@.probes[i as int].wf(),
        ensures
            manager_outcome(*final(self), action) == old(self)@.admitted(
                i as int,
                target,
                rtt,
                id,
            ),
    {
        // Check if we already have an RTT session attached to the core at the
        // same control block address, and same up channel
        if self.probe_states[i].has_session_on(&target, &rtt) {
            return self.refuse(ManagerError::RttSessionAlreadyStarted.display());
        }
        self.probe_states[i].shared_state_for_core(target.core);
        assert(self@.probes =~= old(self)@.with_probe(
            i as int,
            old(self)@.probes[i as int].with_core(target.core),
        ).probes);
        if self.probe_states[i].is_active() {
            let name = session_name(&self.probe_states[i].config().target, &target);
            let probe = self.probe_states[i].id().duplicate();
            self.ask(
                Job::RequestControl(i, target, rtt, id),
                Action::StartControl(probe, id, control_thread_name(&name)),
            )
        } else {
            // Rejecting new client request due to probe being in recovery state
            self.refuse(ManagerError::ProbeInRecovery.display())
        }
    }

    /// Makes the session once its client is listened to.
    fn control_started(
        &mut self,
        i: usize,
        target: TargetConfig,
        rtt: RttConfig,
        id: ProxySessionId,
        reply: Reply,
        now: Interval,
    ) -> (action: Action)
        requires
            i < old(self)@.probes.len(),
        ensures
            manager_outcome(*final(self), action) == old(self)@.control_started(
                i as int,
                target,
                rtt,
                id,
                reply,
                now,
            ),
    {
        match reply {
            Reply::Failed(fault) => self.refuse(
                ManagerError::Io(fault.into_message()).display(),
            ),
            _ => {
                let name = session_name(&self.probe_states[i].config().target, &target);
                let session = RttSession::new(
                    id,
                    name,
                    target,
                    rtt,
                    self.log_rtt_metrics,
                    self.clock,
                    now,
                );
                self.probe_states[i].add_rtt_session(session);
                assert(self@.probes =~= old(self)@.with_probe(
                    i as int,
                    old(self)@.probes[i as int].with_session(session@),
                ).probes);
                self.finish()
            },
        }
    }

    /// Takes up a request once the available probes are known.
    fn probes_listed(
        &mut self,
        cfg: ProxySessionConfig,
        available: Vec<ProbeId>,
        id: ProxySessionId,
        now: Interval,
    ) -> (action: Action)
        requires
            old(self)@.wf(),
            old(self)@.job is Idle,
        ensures
            manager_outcome(*final(self), action) == old(self)@.probes_listed(
                cfg,
                available@,
                id,
                now,
            ),
    {
        let chosen = find_probe_info(&cfg.probe, &available);
        proof {
            manager_laws::the_selected_probe_is_chosen(
                probe_id::requested(cfg.probe),
                probe_id::keys(available@),
                chosen,
            );
        }
        match chosen {
            Ok(index) => {
                let probe = available[index].duplicate();
                self.probe_found(cfg, probe, id, now)
            },
            Err(error) => self.refuse(error.display()),
        }
    }

    /// Takes up a request once its probe is known.
    fn probe_found(
        &mut self,
        cfg: ProxySessionConfig,
        probe: ProbeId,
        id: ProxySessionId,
        now: Interval,
    ) -> (action: Action)
        requires
            old(self)@.wf(),
            old(self)@.job is Idle,
        ensures
            manager_outcome(*final(self), action) == old(self)@.probe_found(cfg, probe, id, now),
    {
        match self.find_probe(&probe) {
            Some(i) => {
                if cfg.probe.force_exclusive {
                    // Shutting down sessions for exclusive probe request
                    let ghost before = self@;
                    let action = self.probe_states[i].shutdown_all_rtt_sessions();
                    assert(self@.probes =~= before.with_probe(
                        i as int,
                        self@.probes[i as int],
                    ).probes);
                    self.made_exclusive(Ghost(before), i, cfg, probe, action)
                } else {
                    // Found existing probe
                    self.admit_session(i, cfg.target, cfg.rtt, id)
                }
            },
            None => {
                // Opening probe
                let progress = setup_probe(&cfg.probe);
                self.opened(cfg, probe, progress, id, now)
            },
        }
    }

    /// Gives every probe its turn.
    pub fn service_probes(&mut self) -> (action: Action)
        requires
            old(self)@.wf(),
            old(self)@.job is Idle,
        ensures
            exists|now: Interval|
                manager_outcome(*final(self), action) == #[trigger] old(self)@.served_from(0, now),
            final(self)@.wf(),
    {
        let now = self.clock.elapsed();
        self.service_probes_at(now)
    }

    /// Gives every probe its turn when the clock reads `now`.
    pub fn service_probes_at(&mut self, now: Interval) -> (action: Action)
        requires
            old(self)@.wf(),
            old(self)@.job is Idle,
        ensures
            manager_outcome(*final(self), action) == old(self)@.served_from(0, now),
            final(self)@.wf(),
    {
        proof {
            assert(self@.probes.len() == self.probe_states.len());
            manager_laws::serviced_manager_is_wf(self@, now);
        }
        self.service_from(0, now)
    }

    /// Starts to shut one session down.
    pub fn shutdown_session(&mut self, id: ProxySessionId) -> (action: Action)
        requires
            old(self)@.wf(),
            old(self)@.job is Idle,
        ensures
            manager_outcome(*final(self), action) == old(self)@.session_shut_down(id),
            final(self)@.wf(),
    {
        proof {
            assert(self@.probes.len() == self.probe_states.len());
            manager_laws::told_manager_is_wf(self@, id);
        }
        match self.find_session(id) {
            Some(i) => {
                let ghost before = self@;
                let action = self.probe_states[i].shutdown_rtt_session(id);
                assert(self@.probes =~= before.with_probe(i as int, self@.probes[i as int]).probes);
                self.session_left(Ghost(before), i, action)
            },
            None => self.prune_inactive_probes(Job::Prune),
        }
    }

    /// Starts to shut everything down.
    pub fn shutdown(&mut self) -> (action: Action)
        requires
            old(self)@.wf(),
            old(self)@.job is Idle,
        ensures
            manager_outcome(*final(self), action) == old(self)@.shut_down(),
            final(self)@.wf(),
    {
        proof {
            assert(self@.probes.len() == self.probe_states.len());
            manager_laws::told_manager_is_wf(self@, 0);
        }
        if self.probe_states.len() > 0 {
            let ghost before = self@;
            let action = self.probe_states[0].shutdown_all_rtt_sessions();
            assert(self@.probes =~= before.with_probe(0, self@.probes[0]).probes);
            self.all_left(Ghost(before), action)
        } else {
            self.finish()
        }
    }

    /// Takes up a client's request for a session.
    pub fn handle_new_session_req(&mut self, req_cfg: ProxySessionConfig) -> (action: Action)
        requires
            old(self)@.wf(),
            old(self)@.job is Idle,
        ensures
            manager_outcome(*final(self), action) == old(self)@.session_requested(req_cfg),
            final(self)@.wf(),
    {
        proof {
            manager_laws::pruned_manager_is_wf(self@, Job::RequestPrune(req_cfg));
        }
        self.prune_inactive_probes(Job::RequestPrune(req_cfg))
    }

    /// Starts to do what the manager is told to.
    pub fn handle(&mut self, op: Operation) -> (action: Action)
        requires
            old(self)@.wf(),
            old(self)@.job is Idle,
        ensures
            manager_outcome(*final(self), action) == match op {
                Operation::Shutdown => old(self)@.shut_down(),
                Operation::ShutdownSession(id) => old(self)@.session_shut_down(id),
                Operation::HandleClient(Ok(cfg)) => old(self)@.session_requested(cfg),
                Operation::HandleClient(Err(text)) => old(self)@.refused(text@),
            },
            final(self)@.wf(),
    {
        match op {
            Operation::Shutdown => self.shutdown(),
            Operation::ShutdownSession(id) => self.shutdown_session(id),
            Operation::HandleClient(Ok(cfg)) => self.handle_new_session_req(cfg),
            // Invalid session config
            Operation::HandleClient(Err(text)) => self.refuse(text),
        }
    }

    /// Whether this answer can be gone on with.
    pub fn accepts(&self, reply: &Reply) -> (yes: bool)
        requires
            self@.wf(),
        ensures
            yes == self@.accepts(*reply),
    {
        proof {
            if let Some(i) = self@.busy() {
                assert(self@.probes[i] == self.probe_states@[i]@);
            }
        }
        match &self.job {
            Job::Service(i) => self.probe_states[*i].accepts(reply),
            Job::ShutdownSession(i) => self.probe_states[*i].accepts(reply),
            Job::Shutdown => self.probe_states[0].accepts(reply),
            Job::RequestList(_) => matches!(reply, Reply::Probes(_)),
            Job::RequestExclusive(i, ..) => self.probe_states[*i].accepts(reply),
            Job::RequestSetup(_, _, step) => can_resume_setup(step, reply),
            _ => true,
        }
    }

    /// Goes on with what is under way, given what came of the last action.
    pub fn resume(&mut self, reply: Reply) -> (action: Action)
        requires
            old(self)@.wf(),
            old(self)@.accepts(reply),
        ensures
            exists|id: ProxySessionId, now: Interval|
                {
                    &&& old(self)@.may_admit() ==> protocol::is_random_id(id)
                    &&& manager_outcome(*final(self), action) == #[trigger] old(self)@.resumed(
                        reply,
                        id,
                        now,
                    )
                },
            final(self)@.wf(),
    {
        let may_admit: bool = match &self.job {
            Job::RequestList(_) | Job::RequestSetup(..) => true,
            _ => false,
        };
        let id: ProxySessionId = if may_admit {
            new_session_id()
        } else {
            0
        };
        let now = self.clock.elapsed();
        self.resume_at(reply, id, now)
    }

    /// Goes on with what is under way when the clock reads `now`. A session that
    /// is admitted gets the id that is given.
    pub fn resume_at(&mut self, reply: Reply, id: ProxySessionId, now: Interval) -> (action: Action)
        requires
            old(self)@.wf(),
            old(self)@.accepts(reply),
        ensures
            manager_outcome(*final(self), action) == old(self)@.resumed(reply, id, now),
            final(self)@.wf(),
    {
        proof {
            assert(self@.probes.len() == self.probe_states.len());
            manager_laws::resumed_manager_is_wf(self@, reply, id, now);
        }
        let mut job: Job = Job::Idle;
        std::mem::swap(&mut self.job, &mut job);
        let ghost idle = self@;
        match job {
            Job::Service(i) => {
                let action = self.probe_states[i].resume_at(reply, now);
                assert(self@.probes =~= idle.with_probe(i as int, self@.probes[i as int]).probes);
                self.served(Ghost(idle), i, action, now)
            },
            Job::ShutdownSession(i) => {
                let action = self.probe_states[i].resume_at(reply, now);
                assert(self@.probes =~= idle.with_probe(i as int, self@.probes[i as int]).probes);
                self.session_left(Ghost(idle), i, action)
            },
            Job::Shutdown => {
                let action = self.probe_states[0].resume_at(reply, now);
                assert(self@.probes =~= idle.with_probe(0, self@.probes[0]).probes);
                self.all_left(Ghost(idle), action)
            },
            Job::ShutdownDrop => self.shutdown(),
            Job::RequestPrune(cfg) => self.ask(Job::RequestList(cfg), Action::ListProbes),
            Job::RequestList(cfg) => match reply {
                Reply::Probes(available) => self.probes_listed(cfg, available, id, now),
                _ => self.finish(),
            },
            Job::RequestExclusive(i, cfg, probe) => {
                let action = self.probe_states[i].resume_at(reply, now);
                assert(self@.probes =~= idle.with_probe(i as int, self@.probes[i as int]).probes);
                self.made_exclusive(Ghost(idle), i, cfg, probe, action)
            },
            Job::RequestDrop(cfg, probe) => {
                let progress = setup_probe(&cfg.probe);
                self.opened(cfg, probe, progress, id, now)
            },
            Job::RequestSetup(cfg, probe, step) => {
                let progress = resume_setup(&cfg.probe, step, reply);
                self.opened(cfg, probe, progress, id, now)
            },
            Job::RequestControl(i, target, rtt, new) => self.control_started(
                i,
                target,
                rtt,
                new,
                reply,
                now,
            ),
            Job::Idle | Job::Prune | Job::Refuse => self.finish(),
        }
    }

    /// The session with that id.
    pub fn session(&self, id: ProxySessionId) -> (session: Option<&RttSession>)
        ensures
            match session {
                Some(session) => {
                    &&& manager_model::holder(self@.probes, id) matches Some(i)
                    &&& session@ == self@.probes[i].sessions[id]
                },
                None => manager_model::holder(self@.probes, id) is None,
            },
    {
        match self.find_session(id) {
            Some(i) => {
                proof {
                    self@.probes.map_values(
                        |probe: ProbeModel| probe.sessions.contains_key(id),
                    ).index_of_first_ensures(true);
                }
                self.probe_states[i].session(id)
            },
            None => None,
        }
    }
}

} // verus!
