//! What is done for one debug probe, step by step.
use crate::clock::Interval;
use crate::command::{Command, Reply};
use crate::probe_id::ProbeId;
use crate::protocol::{ProbeConfig, ProxySessionId, RttConfig, TargetConfig};
use crate::rate_limiter::LimiterView;
use crate::session_model::{Outcome, SessionModel, Step};
use crate::setup;
use crate::setup::{SetupCommand, SetupProgress, SetupStep};
use crate::shared_state::SharedState;
use vstd::prelude::*;

verus! {

/// What is under way for a probe. `S` is a session.
#[derive(Debug)]
pub enum ProbeTurn<S> {
    Idle,
    /// The probe is set up once more
    Recover(SetupStep),
    /// A session has its turn
    Update(ProxySessionId),
    /// A session shuts down; the flag says whether the others follow
    Leave(S, bool),
    /// A session that has shut down is dropped
    Dropping(bool),
    /// The connection to the probe is dropped
    DropDebugSession,
}

/// One thing to be done for a probe.
#[derive(Debug)]
pub enum ProbeAction {
    /// Something that one of its sessions asks for
    Session(ProxySessionId, Command),
    /// Let go of all that belongs to a session
    DropSession(ProxySessionId),
    /// A step of setting the probe up
    Setup(SetupCommand),
    /// Let go of the connection to the probe, but not of its sessions
    DropDebugSession,
    /// Nothing more is to be done
    Done,
}

/// The whole state of a probe.
pub struct ProbeModel {
    pub id: ProbeId,
    pub cfg: ProbeConfig,
    /// Whether the connection to the probe is there
    pub active: bool,
    /// What the sessions on a core share. A core without an entry is one that
    /// nobody holds anything of.
    pub shared: Map<u32, SharedState>,
    pub sessions: Map<ProxySessionId, SessionModel>,
    /// The sessions in the order in which they have their turns
    pub schedule: Seq<ProxySessionId>,
    pub next: nat,
    /// How many turns there are to be before the probe may be recovered again
    pub to_service: nat,
    pub recovery: LimiterView,
    pub recovery_check: LimiterView,
    pub turn: ProbeTurn<SessionModel>,
}

/// What one step for a probe leads to.
pub struct ProbeOutcome {
    pub probe: ProbeModel,
    pub action: ProbeAction,
}

/// The first scheduled session that is still there.
pub open spec fn first_present<V>(
    schedule: Seq<ProxySessionId>,
    sessions: Map<ProxySessionId, V>,
) -> Option<ProxySessionId>
    decreases schedule.len(),
{
    if schedule.len() == 0 {
        None
    } else if sessions.contains_key(schedule[0]) {
        Some(schedule[0])
    } else {
        first_present(schedule.drop_first(), sessions)
    }
}

/// The place after `next` in a schedule of that length; after the last one
/// comes the first.
pub open spec fn advanced(next: nat, len: nat) -> nat {
    if next + 1 >= len {
        0
    } else {
        next + 1
    }
}

impl ProbeModel {
    /// A probe that was just set up.
    pub open spec fn fresh(id: ProbeId, cfg: ProbeConfig, now: Interval) -> ProbeModel {
        ProbeModel {
            id,
            cfg,
            active: true,
            shared: Map::empty(),
            sessions: Map::empty(),
            schedule: Seq::empty(),
            next: 0,
            to_service: 0,
            recovery: LimiterView::fresh(50_000_000, now.total()),
            recovery_check: LimiterView::fresh(100_000_000, now.total()),
            turn: ProbeTurn::Idle,
        }
    }

    /// Whether every session is scheduled.
    pub open spec fn all_scheduled(self) -> bool {
        forall|id: ProxySessionId| #[trigger]
            self.sessions.contains_key(id) ==> self.schedule.contains(id)
    }

    /// Every session is scheduled, is known by its own id, is well-formed and rests
    /// between its turns; the schedule does not point past its end. Sessions only
    /// have turns while the connection is there; without it, all that is left to do
    /// for one that leaves is to close its client's connection.
    pub open spec fn wf(self) -> bool {
        &&& self.next < self.schedule.len() || self.next == 0
        &&& self.sessions.dom().finite()
        &&& self.all_scheduled()
        &&& forall|id: ProxySessionId| #[trigger]
            self.sessions.contains_key(id) ==> {
                &&& self.sessions[id].id == id
                &&& self.sessions[id].wf()
                &&& self.turn != ProbeTurn::<SessionModel>::Update(id) ==> self.sessions[id].step
                    is Idle
            }
        &&& self.turn matches ProbeTurn::Update(id) ==> self.sessions.contains_key(id) && !(
        self.sessions[id].step is Idle)
        &&& self.turn matches ProbeTurn::Leave(session, _) ==> session.wf() && is_leaving(session)
        &&& self.turn is Update ==> self.active
        &&& self.turn matches ProbeTurn::Leave(session, _) ==> self.active || session.step is Close
        &&& self.turn is Recover || self.turn is DropDebugSession ==> !self.active
    }

    /// What the sessions on a core share.
    pub open spec fn shared_of(self, core: u32) -> SharedState {
        if self.shared.contains_key(core) {
            self.shared[core]
        } else {
            SharedState::zero()
        }
    }

    /// Something is to be done.
    pub open spec fn ask(self, turn: ProbeTurn<SessionModel>, action: ProbeAction) -> ProbeOutcome {
        ProbeOutcome { probe: ProbeModel { turn, ..self }, action }
    }

    /// Nothing more is to be done.
    pub open spec fn done(self) -> ProbeOutcome {
        self.ask(ProbeTurn::Idle, ProbeAction::Done)
    }

    /// A step of one of the sessions has been taken.
    pub open spec fn stepped(self, id: ProxySessionId, outcome: Outcome) -> ProbeModel {
        ProbeModel {
            sessions: self.sessions.insert(id, outcome.session),
            shared: self.shared.insert(outcome.session.target_cfg.core, outcome.shared),
            ..self
        }
    }

    /// A session in its turn has taken a step: it asks for something, or its turn
    /// is over.
    pub open spec fn session_stepped(
        self,
        id: ProxySessionId,
        outcome: Outcome,
        now: Interval,
    ) -> ProbeOutcome {
        if outcome.session.step is Idle {
            self.stepped(id, outcome).turn_over(now)
        } else {
            self.stepped(id, outcome).ask(
                ProbeTurn::Update(id),
                ProbeAction::Session(id, outcome.command),
            )
        }
    }

    /// A session has had its turn.
    pub open spec fn turn_over(self, now: Interval) -> ProbeOutcome {
        ProbeModel {
            to_service: if self.to_service == 0 {
                0
            } else {
                (self.to_service - 1) as nat
            },
            ..self
        }.advance(now)
    }

    /// The schedule moves on, and the probe is looked after.
    pub open spec fn advance(self, now: Interval) -> ProbeOutcome {
        ProbeModel { next: advanced(self.next, self.schedule.len()), ..self }.look_after(now)
    }

    /// Whether the connection seems to be lost, most likely since the target had
    /// its power cycled: a session that may recover is not shut down, none is
    /// running, and one is stopped because its core could not be reached.
    pub open spec fn seems_lost(self) -> bool {
        &&& exists|id: ProxySessionId| #[trigger]
            self.sessions.contains_key(id) && is_recoverable(self.sessions[id])
        &&& !exists|id: ProxySessionId| #[trigger]
            self.sessions.contains_key(id) && self.sessions[id].state is Run
        &&& exists|id: ProxySessionId| #[trigger]
            self.sessions.contains_key(id) && self.sessions[id].is_stopped_due_to_core_attach()
    }

    /// Checks from time to time whether the connection is lost, once every
    /// session has had its turn since the last recovery.
    pub open spec fn look_after(self, now: Interval) -> ProbeOutcome {
        let checked = ProbeModel {
            recovery_check: self.recovery_check.checked(now.total()),
            ..self
        };
        if self.recovery_check.reached(now.total()) && self.to_service == 0 && self.seems_lost() {
            checked.enter_recovery()
        } else {
            checked.done()
        }
    }

    /// The connection is given up, and nobody holds anything of a core any more.
    pub open spec fn enter_recovery(self) -> ProbeOutcome {
        ProbeModel {
            active: false,
            shared: Map::empty(),
            sessions: self.sessions.map_values(|session: SessionModel| session.forgotten()),
            next: 0,
            to_service: self.sessions.len(),
            ..self
        }.ask(ProbeTurn::DropDebugSession, ProbeAction::DropDebugSession)
    }

    /// A step of setting the probe up once more. If that fails it is tried again
    /// later.
    pub open spec fn recovering(self, progress: SetupProgress) -> ProbeOutcome {
        match progress {
            SetupProgress::Ask(step, command) => self.ask(
                ProbeTurn::Recover(step),
                ProbeAction::Setup(command),
            ),
            SetupProgress::Ready => ProbeModel { active: true, ..self }.done(),
            SetupProgress::Failed(_) => self.done(),
        }
    }

    /// Whether the session at that place of the schedule has to wait for the one at
    /// place `k`, which is that of a bootloader on the same core. Of several
    /// bootloaders the one that is scheduled first goes first.
    pub open spec fn waits_for(self, place: int, k: int) -> bool {
        let id = self.schedule[place];
        let other = self.schedule[k];
        &&& other != id
        &&& self.sessions.contains_key(other)
        &&& boots(self.sessions[other], self.sessions[id].target_cfg.core)
        &&& k < place || !self.sessions[id].target_cfg.bootloader
    }

    /// Whether the session at that place of the schedule is suspended: a bootloader on
    /// the same core has not signalled completion yet.
    pub open spec fn suspended(self, place: int) -> bool {
        exists|k: int| 0 <= k < self.schedule.len() && #[trigger] self.waits_for(place, k)
    }

    /// The session whose turn it is. One that is suspended is passed over.
    pub open spec fn scheduled(self) -> Option<ProxySessionId> {
        if self.next < self.schedule.len() && self.sessions.contains_key(
            self.schedule[self.next as int],
        ) && !self.suspended(self.next as int) {
            Some(self.schedule[self.next as int])
        } else {
            None
        }
    }

    /// The probe has its turn: one session is updated, or a lost connection is
    /// set up once more.
    pub open spec fn serviced(self, now: Interval) -> ProbeOutcome {
        if self.active {
            match self.scheduled() {
                Some(id) => {
                    let session = self.sessions[id];
                    self.session_stepped(
                        id,
                        session.updated(self.shared_of(session.target_cfg.core), now),
                        now,
                    )
                },
                None => self.advance(now),
            }
        } else {
            let checked = ProbeModel { recovery: self.recovery.checked(now.total()), ..self };
            if self.recovery.reached(now.total()) {
                checked.recovering(setup::setup_begun(self.cfg))
            } else {
                checked.done()
            }
        }
    }

    /// A session that leaves has taken a step. When its shutdown is over it is
    /// dropped.
    pub open spec fn leave_stepped(self, outcome: Outcome, all: bool) -> ProbeOutcome {
        let stepped = ProbeModel {
            shared: self.shared.insert(outcome.session.target_cfg.core, outcome.shared),
            ..self
        };
        if outcome.session.step is Idle {
            stepped.ask(
                ProbeTurn::Dropping(all),
                ProbeAction::DropSession(outcome.session.id),
            )
        } else {
            stepped.ask(
                ProbeTurn::Leave(outcome.session, all),
                ProbeAction::Session(outcome.session.id, outcome.command),
            )
        }
    }

    /// A session is taken out and shuts down. Where the connection is lost it does
    /// so without its core.
    pub open spec fn leave(self, id: ProxySessionId, all: bool) -> ProbeOutcome {
        let session = self.sessions[id];
        let without = ProbeModel { sessions: self.sessions.remove(id), ..self };
        let shared = self.shared_of(session.target_cfg.core);
        if self.active {
            without.leave_stepped(session.shut_down(shared), all)
        } else {
            without.leave_stepped(session.cut_off(shared), all)
        }
    }

    /// One session leaves for good: it is taken off the schedule too, which then
    /// starts over.
    pub open spec fn session_shut_down(self, id: ProxySessionId) -> ProbeOutcome {
        if self.sessions.contains_key(id) {
            ProbeModel {
                schedule: self.schedule.remove(self.schedule.index_of_first(id)->0),
                next: 0,
                ..self
            }.leave(id, false)
        } else {
            self.done()
        }
    }

    /// All sessions leave, one after the other in the order of the schedule.
    pub open spec fn all_shut_down(self) -> ProbeOutcome {
        match first_present(self.schedule, self.sessions) {
            Some(id) => self.leave(id, true),
            None => self.done(),
        }
    }

    /// Whether the shutdown of all sessions is under way.
    pub open spec fn is_emptied(self) -> bool {
        match self.turn {
            ProbeTurn::Leave(_, all) => all,
            ProbeTurn::Dropping(all) => all,
            _ => false,
        }
    }

    /// Whether no two sessions read the same up channel of the same control block
    /// on the same core.
    pub open spec fn has_distinct_places(self) -> bool {
        forall|a: ProxySessionId, b: ProxySessionId|
            a != b && #[trigger] self.sessions.contains_key(a)
                && #[trigger] self.sessions.contains_key(b) ==> !same_place(
                self.sessions[a],
                self.sessions[b].target_cfg,
                self.sessions[b].rtt_cfg,
            )
    }

    /// Whether this answer can be gone on with.
    pub open spec fn accepts(self, reply: Reply) -> bool {
        match self.turn {
            ProbeTurn::Recover(step) => setup::setup_accepts(step, reply),
            ProbeTurn::Update(id) => self.sessions[id].accepts(reply),
            ProbeTurn::Leave(session, _) => session.accepts(reply),
            _ => true,
        }
    }

    /// Goes on with the answer to what was asked for.
    pub open spec fn resumed(self, reply: Reply, now: Interval) -> ProbeOutcome {
        let idle = ProbeModel { turn: ProbeTurn::Idle, ..self };
        match self.turn {
            ProbeTurn::Idle => idle.done(),
            ProbeTurn::Recover(step) => idle.recovering(
                setup::setup_resumed(self.cfg, step, reply),
            ),
            ProbeTurn::Update(id) => {
                let session = self.sessions[id];
                idle.session_stepped(
                    id,
                    session.resumed(self.shared_of(session.target_cfg.core), reply, now),
                    now,
                )
            },
            ProbeTurn::Leave(session, all) => idle.leave_stepped(
                session.resumed(self.shared_of(session.target_cfg.core), reply, now),
                all,
            ),
            ProbeTurn::Dropping(all) => if all {
                idle.all_shut_down()
            } else {
                idle.done()
            },
            ProbeTurn::DropDebugSession => idle.done(),
        }
    }

    /// Whether a session with the same core, control block address and up channel
    /// is there already.
    pub open spec fn has_session_on(self, target: TargetConfig, rtt: RttConfig) -> bool {
        is_taken(self.sessions, target, rtt)
    }

    /// The core has an entry for what its sessions share.
    pub open spec fn with_core(self, core: u32) -> ProbeModel {
        if self.shared.contains_key(core) {
            self
        } else {
            ProbeModel { shared: self.shared.insert(core, SharedState::zero()), ..self }
        }
    }

    /// One session more, which has its turn last.
    pub open spec fn with_session(self, session: SessionModel) -> ProbeModel {
        ProbeModel {
            sessions: self.sessions.insert(session.id, session),
            schedule: self.schedule.push(session.id),
            ..self
        }
    }
}

/// Whether a session is on its way out for good.
pub open spec fn is_leaving(session: SessionModel) -> bool {
    match session.step {
        Step::StopCore(leave, _) => leave is Shutdown,
        Step::StopStatus(leave, _) => leave is Shutdown,
        Step::Stop(leave, _) => leave is Shutdown,
        Step::Close => true,
        _ => false,
    }
}

/// Whether a session is that of a bootloader on that core which has not signalled
/// completion: it is neither stopped nor shut down, and was not so before either.
pub open spec fn boots(session: SessionModel, core: u32) -> bool {
    &&& session.target_cfg.bootloader
    &&& session.target_cfg.core == core
    &&& session.is_on_core()
    &&& !session.completed
}

/// Whether a session may recover and is not shut down.
pub open spec fn is_recoverable(session: SessionModel) -> bool {
    session.target_cfg.auto_recover && !(session.state is Shutdown)
}

/// Whether a session reads the same up channel of the same control block on the
/// same core as another one would.
pub open spec fn same_place(session: SessionModel, target: TargetConfig, rtt: RttConfig) -> bool {
    &&& session.target_cfg.core == target.core
    &&& session.rtt_cfg.control_block_address == rtt.control_block_address
    &&& session.rtt_cfg.up_channel == rtt.up_channel
}

/// Whether one of the sessions reads that up channel of that control block on
/// that core.
pub open spec fn is_taken(
    sessions: Map<ProxySessionId, SessionModel>,
    target: TargetConfig,
    rtt: RttConfig,
) -> bool {
    exists|id: ProxySessionId| #[trigger]
        sessions.contains_key(id) && same_place(sessions[id], target, rtt)
}

} // verus!
