//! What the manager does, step by step.
use crate::clock::Interval;
use crate::command::Reply;
use crate::manager_error::ManagerError;
use crate::probe_id;
use crate::probe_id::{ProbeId, ProbeKey};
use crate::probe_model::{ProbeAction, ProbeModel, ProbeOutcome};
use crate::protocol::{ProxySessionConfig, ProxySessionId, RttConfig, Target, TargetConfig};
use crate::session_model::SessionModel;
use crate::setup;
use crate::setup::{SetupCommand, SetupProgress, SetupStep};
use crate::text;
use vstd::prelude::*;

verus! {

/// What the manager is in the middle of. Probes are named by their place among
/// those of the manager.
#[derive(Debug)]
pub enum Job {
    Idle,
    /// The probes have their turns
    Service(usize),
    /// A session on that probe shuts down
    ShutdownSession(usize),
    /// The probes that have no sessions left are dropped
    Prune,
    /// The sessions on the first probe shut down
    Shutdown,
    /// The first probe was taken out and is dropped
    ShutdownDrop,
    /// A request for a session: the probes that have no sessions left are
    /// dropped
    RequestPrune(ProxySessionConfig),
    /// A request for a session: the available probes are listed
    RequestList(ProxySessionConfig),
    /// A request for a session: the sessions on its probe shut down
    RequestExclusive(usize, ProxySessionConfig, ProbeId),
    /// A request for a session: its probe was taken out and is dropped
    RequestDrop(ProxySessionConfig, ProbeId),
    /// A request for a session: its probe is set up
    RequestSetup(ProxySessionConfig, ProbeId, SetupStep),
    /// A request for a session: the client is listened to
    RequestControl(usize, TargetConfig, RttConfig, ProxySessionId),
    /// The client is told why it gets no session
    Refuse,
}

/// What is to be done next, with texts and lists as sequences.
pub enum ActionView {
    DropProbes(Seq<ProbeId>),
    ListProbes,
    Probe(ProbeId, ProbeAction),
    Setup(ProbeId, SetupCommand),
    StartControl(ProbeId, ProxySessionId, Seq<char>),
    Refuse(Seq<char>),
    Finished,
}

/// The whole state of the manager.
pub struct ManagerModel {
    pub log_rtt_metrics: bool,
    pub probes: Seq<ProbeModel>,
    pub job: Job,
}

/// What one step leads to.
pub struct ManagerOutcome {
    pub manager: ManagerModel,
    pub action: ActionView,
}

/// The place of the first probe with that key.
pub open spec fn position(probes: Seq<ProbeModel>, key: ProbeKey) -> Option<int> {
    probes.map_values(|probe: ProbeModel| probe.id@).index_of_first(key)
}

/// The place of the first probe that has that session.
pub open spec fn holder(probes: Seq<ProbeModel>, id: ProxySessionId) -> Option<int> {
    probes.map_values(|probe: ProbeModel| probe.sessions.contains_key(id)).index_of_first(true)
}

/// The probes that have sessions.
pub open spec fn in_use(probes: Seq<ProbeModel>) -> Seq<ProbeModel> {
    probes.filter(|probe: ProbeModel| probe.sessions.len() > 0)
}

/// Those of the probes that have no sessions.
pub open spec fn unused(probes: Seq<ProbeModel>) -> Seq<ProbeId> {
    probes.filter(|probe: ProbeModel| probe.sessions.len() == 0).map_values(
        |probe: ProbeModel| probe.id,
    )
}

/// The place of the first probe that a selector names.
pub open spec fn first_named(selector: ProbeKey, available: Seq<ProbeKey>) -> Option<int> {
    available.map_values(|probe: ProbeKey| probe_id::named(selector, probe)).index_of_first(true)
}

/// What comes of a request's probe selector: the place among the available probes
/// of the one that is asked for, or why there is none. With a selector it is the
/// first probe that the selector names. Without one there must be exactly one
/// probe.
pub open spec fn selected(
    selector: Option<Result<ProbeKey, Seq<char>>>,
    available: Seq<ProbeKey>,
) -> Result<int, Seq<char>> {
    match selector {
        Some(Err(text)) => Err(text),
        Some(Ok(key)) => match first_named(key, available) {
            Some(index) => Ok(index),
            None => Err(
                "No debug probe found matching the provided selector '"@ + probe_id::probe_text(key)
                    + "'"@,
            ),
        },
        None => if available.len() > 1 {
            Err(ManagerError::NoProbeSelector.text())
        } else if available.len() == 1 {
            Ok(0)
        } else {
            Err(ManagerError::NoProbesAvailable.text())
        },
    }
}

/// The name of a session: target and core, and what part it plays in booting.
pub open spec fn session_name(target: Target, cfg: TargetConfig) -> Seq<char> {
    target.text() + ":"@ + text::decimal(cfg.core as nat) + (if cfg.bootloader {
        ":bl"@
    } else if cfg.bootloader_companion_application {
        ":app"@
    } else {
        ""@
    })
}

impl ManagerModel {
    /// A manager without probes.
    pub open spec fn fresh(log_rtt_metrics: bool) -> ManagerModel {
        ManagerModel { log_rtt_metrics, probes: Seq::empty(), job: Job::Idle }
    }

    /// Something is to be done.
    pub open spec fn ask(self, job: Job, action: ActionView) -> ManagerOutcome {
        ManagerOutcome { manager: ManagerModel { job, ..self }, action }
    }

    /// Nothing more is to be done.
    pub open spec fn finished(self) -> ManagerOutcome {
        self.ask(Job::Idle, ActionView::Finished)
    }

    /// The client is told why it gets no session.
    pub open spec fn refused(self, text: Seq<char>) -> ManagerOutcome {
        self.ask(Job::Refuse, ActionView::Refuse(text))
    }

    /// One of the probes has changed.
    pub open spec fn with_probe(self, i: int, probe: ProbeModel) -> ManagerModel {
        ManagerModel { probes: self.probes.update(i, probe), ..self }
    }

    /// Something is to be done for one of the probes.
    pub open spec fn ask_probe(self, job: Job, i: int, outcome: ProbeOutcome) -> ManagerOutcome {
        self.with_probe(i, outcome.probe).ask(
            job,
            ActionView::Probe(outcome.probe.id, outcome.action),
        )
    }

    /// The probes have their turns, one after the other from that place on.
    pub open spec fn served_from(self, i: int, now: Interval) -> ManagerOutcome
        decreases self.probes.len() - i,
    {
        if 0 <= i < self.probes.len() {
            let outcome = self.probes[i].serviced(now);
            if outcome.probe.turn is Idle {
                self.with_probe(i, outcome.probe).served_from(i + 1, now)
            } else {
                self.ask_probe(Job::Service(i as usize), i, outcome)
            }
        } else {
            self.finished()
        }
    }

    /// A probe has taken a step in its turn.
    pub open spec fn served(self, i: int, outcome: ProbeOutcome, now: Interval) -> ManagerOutcome {
        if outcome.probe.turn is Idle {
            self.with_probe(i, outcome.probe).served_from(i + 1, now)
        } else {
            self.ask_probe(Job::Service(i as usize), i, outcome)
        }
    }

    /// The probes without sessions are let go of.
    pub open spec fn pruned(self, job: Job) -> ManagerOutcome {
        ManagerModel { probes: in_use(self.probes), ..self }.ask(
            job,
            ActionView::DropProbes(unused(self.probes)),
        )
    }

    /// A session has taken a step of its shutdown.
    pub open spec fn session_left(self, i: int, outcome: ProbeOutcome) -> ManagerOutcome {
        if outcome.probe.turn is Idle {
            self.with_probe(i, outcome.probe).pruned(Job::Prune)
        } else {
            self.ask_probe(Job::ShutdownSession(i as usize), i, outcome)
        }
    }

    /// One session is to shut down.
    pub open spec fn session_shut_down(self, id: ProxySessionId) -> ManagerOutcome {
        match holder(self.probes, id) {
            Some(i) => self.session_left(i, self.probes[i].session_shut_down(id)),
            None => self.pruned(Job::Prune),
        }
    }

    /// The sessions on the first probe have taken a step of their shutdown. When
    /// it is over, the probe is let go of.
    pub open spec fn all_left(self, outcome: ProbeOutcome) -> ManagerOutcome {
        if outcome.probe.turn is Idle {
            ManagerModel { probes: self.probes.drop_first(), ..self }.ask(
                Job::ShutdownDrop,
                ActionView::DropProbes(seq![outcome.probe.id]),
            )
        } else {
            self.ask_probe(Job::Shutdown, 0, outcome)
        }
    }

    /// All sessions are to shut down, and all probes are let go of.
    pub open spec fn shut_down(self) -> ManagerOutcome {
        if self.probes.len() > 0 {
            self.all_left(self.probes[0].all_shut_down())
        } else {
            self.finished()
        }
    }

    /// A client asks for a session.
    pub open spec fn session_requested(self, cfg: ProxySessionConfig) -> ManagerOutcome {
        self.pruned(Job::RequestPrune(cfg))
    }

    /// The available probes are known.
    pub open spec fn probes_listed(
        self,
        cfg: ProxySessionConfig,
        available: Seq<ProbeId>,
        id: ProxySessionId,
        now: Interval,
    ) -> ManagerOutcome {
        match selected(probe_id::requested(cfg.probe), probe_id::keys(available)) {
            Ok(index) => self.probe_found(cfg, available[index], id, now),
            Err(text) => self.refused(text),
        }
    }

    /// The probe that is asked for is known. It may be in use already.
    pub open spec fn probe_found(
        self,
        cfg: ProxySessionConfig,
        probe: ProbeId,
        id: ProxySessionId,
        now: Interval,
    ) -> ManagerOutcome {
        match position(self.probes, probe@) {
            Some(i) => if cfg.probe.force_exclusive {
                self.made_exclusive(i, cfg, probe, self.probes[i].all_shut_down())
            } else {
                self.admitted(i, cfg.target, cfg.rtt, id)
            },
            None => self.opened(cfg, probe, setup::setup_begun(cfg.probe), id, now),
        }
    }

    /// The sessions of a probe that is wanted exclusively have taken a step of
    /// their shutdown. When it is over, the probe is let go of.
    pub open spec fn made_exclusive(
        self,
        i: int,
        cfg: ProxySessionConfig,
        probe: ProbeId,
        outcome: ProbeOutcome,
    ) -> ManagerOutcome {
        if outcome.probe.turn is Idle {
            ManagerModel { probes: self.probes.remove(i), ..self }.ask(
                Job::RequestDrop(cfg, probe),
                ActionView::DropProbes(seq![outcome.probe.id]),
            )
        } else {
            self.ask_probe(Job::RequestExclusive(i as usize, cfg, probe), i, outcome)
        }
    }

    /// The setup of a probe has taken a step. Once it is ready, the session is
    /// admitted to it.
    pub open spec fn opened(
        self,
        cfg: ProxySessionConfig,
        probe: ProbeId,
        progress: SetupProgress,
        id: ProxySessionId,
        now: Interval,
    ) -> ManagerOutcome {
        match progress {
            SetupProgress::Ask(step, command) => self.ask(
                Job::RequestSetup(cfg, probe, step),
                ActionView::Setup(probe, command),
            ),
            SetupProgress::Failed(error) => self.refused(error.text()),
            SetupProgress::Ready => ManagerModel {
                probes: self.probes.push(ProbeModel::fresh(probe, cfg.probe, now)),
                ..self
            }.admitted(self.probes.len() as int, cfg.target, cfg.rtt, id),
        }
    }

    /// A session is admitted to a probe, unless the same place is read already or
    /// the connection to the probe is lost.
    pub open spec fn admitted(
        self,
        i: int,
        target: TargetConfig,
        rtt: RttConfig,
        id: ProxySessionId,
    ) -> ManagerOutcome {
        let probe = self.probes[i];
        if probe.has_session_on(target, rtt) {
            self.refused(ManagerError::RttSessionAlreadyStarted.text())
        } else {
            let known = self.with_probe(i, probe.with_core(target.core));
            if probe.active {
                known.ask(
                    Job::RequestControl(i as usize, target, rtt, id),
                    ActionView::StartControl(
                        probe.id,
                        id,
                        session_name(probe.cfg.target, target) + ":control"@,
                    ),
                )
            } else {
                known.refused(ManagerError::ProbeInRecovery.text())
            }
        }
    }

    /// The client is listened to, or that failed.
    pub open spec fn control_started(
        self,
        i: int,
        target: TargetConfig,
        rtt: RttConfig,
        id: ProxySessionId,
        reply: Reply,
        now: Interval,
    ) -> ManagerOutcome {
        match reply {
            Reply::Failed(fault) => self.refused(ManagerError::Io(fault.message()).text()),
            _ => {
                let probe = self.probes[i];
                let session = SessionModel::fresh(
                    id,
                    session_name(probe.cfg.target, target),
                    target,
                    rtt,
                    self.log_rtt_metrics,
                    now,
                );
                self.with_probe(i, probe.with_session(session)).finished()
            },
        }
    }

    /// Whether the next answer may lead to the admission of a session.
    pub open spec fn may_admit(self) -> bool {
        self.job is RequestList || self.job is RequestSetup
    }

    /// Whether this answer can be gone on with.
    pub open spec fn accepts(self, reply: Reply) -> bool {
        match self.job {
            Job::Service(i) => self.probes[i as int].accepts(reply),
            Job::ShutdownSession(i) => self.probes[i as int].accepts(reply),
            Job::Shutdown => self.probes[0].accepts(reply),
            Job::RequestList(_) => reply is Probes,
            Job::RequestExclusive(i, ..) => self.probes[i as int].accepts(reply),
            Job::RequestSetup(_, _, step) => setup::setup_accepts(step, reply),
            _ => true,
        }
    }

    /// Goes on with the answer to what was asked for. A session that is admitted
    /// gets the id that is given.
    pub open spec fn resumed(
        self,
        reply: Reply,
        id: ProxySessionId,
        now: Interval,
    ) -> ManagerOutcome {
        let idle = ManagerModel { job: Job::Idle, ..self };
        match self.job {
            Job::Service(i) => idle.served(
                i as int,
                self.probes[i as int].resumed(reply, now),
                now,
            ),
            Job::ShutdownSession(i) => idle.session_left(
                i as int,
                self.probes[i as int].resumed(reply, now),
            ),
            Job::Shutdown => idle.all_left(self.probes[0].resumed(reply, now)),
            Job::ShutdownDrop => idle.shut_down(),
            Job::RequestPrune(cfg) => idle.ask(Job::RequestList(cfg), ActionView::ListProbes),
            Job::RequestList(cfg) => idle.probes_listed(cfg, reply->Probes_0@, id, now),
            Job::RequestExclusive(i, cfg, probe) => idle.made_exclusive(
                i as int,
                cfg,
                probe,
                self.probes[i as int].resumed(reply, now),
            ),
            Job::RequestDrop(cfg, probe) => idle.opened(
                cfg,
                probe,
                setup::setup_begun(cfg.probe),
                id,
                now,
            ),
            Job::RequestSetup(cfg, probe, step) => idle.opened(
                cfg,
                probe,
                setup::setup_resumed(cfg.probe, step, reply),
                id,
                now,
            ),
            Job::RequestControl(i, target, rtt, new) => idle.control_started(
                i as int,
                target,
                rtt,
                new,
                reply,
                now,
            ),
            Job::Idle | Job::Prune | Job::Refuse => idle.finished(),
        }
    }

    /// The place of the probe that something is under way for.
    pub open spec fn busy(self) -> Option<int> {
        match self.job {
            Job::Service(i) => Some(i as int),
            Job::ShutdownSession(i) => Some(i as int),
            Job::Shutdown => Some(0),
            Job::RequestExclusive(i, ..) => Some(i as int),
            _ => None,
        }
    }

    /// No two probes are the same; each is well-formed, and nothing is under way
    /// for any but the one that the manager is busy with. A probe that is being
    /// set up is not there yet.
    pub open spec fn wf(self) -> bool {
        &&& forall|i: int|
            0 <= i < self.probes.len() ==> {
                &&& (#[trigger] self.probes[i]).wf()
                &&& self.busy() == Some(i) <==> !(self.probes[i].turn is Idle)
            }
        &&& forall|i: int, j: int|
            0 <= i < j < self.probes.len() ==> (#[trigger] self.probes[i]).id@ != (
            #[trigger] self.probes[j]).id@
        &&& self.busy() matches Some(i) ==> 0 <= i < self.probes.len()
        &&& match self.job {
            Job::Shutdown => self.probes[0].is_emptied(),
            Job::RequestExclusive(i, _, probe) => {
                &&& self.probes[i as int].id@ == probe@
                &&& self.probes[i as int].is_emptied()
            },
            Job::RequestDrop(_, probe) => self.lacks(probe@),
            Job::RequestSetup(_, probe, _) => self.lacks(probe@),
            Job::RequestControl(i, target, rtt, _) => {
                &&& i < self.probes.len()
                &&& self.probes[i as int].active
                &&& !self.probes[i as int].has_session_on(target, rtt)
            },
            _ => true,
        }
    }

    /// Whether no probe has that key.
    pub open spec fn lacks(self, key: ProbeKey) -> bool {
        forall|i: int| 0 <= i < self.probes.len() ==> (#[trigger] self.probes[i]).id@ != key
    }
}

} // verus!
