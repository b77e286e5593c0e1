//! Debug probes: whose turn it is among the sessions on a probe, and what to do
//! when the connection to the probe is lost.
use crate::clock::{Interval, Stopwatch};
use crate::command::{Command, Reply};
use crate::probe_id::ProbeId;
use crate::probe_laws;
use crate::probe_model;
use crate::probe_model::{ProbeAction, ProbeModel, ProbeOutcome, ProbeTurn};
use crate::protocol::{ProbeConfig, ProxySessionId, RttConfig, TargetConfig};
use crate::rate_limiter::RateLimiter;
use crate::rtt_session;
use crate::rtt_session::RttSession;
use crate::session_laws;
use crate::session_model::SessionModel;
use crate::setup::{can_resume_setup, resume_setup, setup_probe, SetupProgress};
use crate::shared_state::SharedState;
use std::collections::HashMap;
use vstd::prelude::*;

verus! {

broadcast use vstd::std_specs::hash::group_hash_axioms;

/// Whether the connection to a probe is there.
#[derive(Clone, Copy, Debug, PartialEq, Eq, Structural)]
pub enum ProbeSessionState {
    Active,
    NeedsRecovered,
}

/// One debug probe and its sessions. It decides what is to be done; the caller
/// does it and hands the answer back with `resume`, until nothing is left to do.
#[derive(Debug)]
pub struct ProbeState {
    id: ProbeId,
    cfg: ProbeConfig,
    session: ProbeSessionState,
    per_core_shared_state: HashMap<u32, SharedState>,
    rtt_sessions: HashMap<ProxySessionId, RttSession>,
    schedule: Vec<ProxySessionId>,
    next_schedule_idx: usize,
    num_sessions_needing_serviced_before_recovery_rentry: usize,
    clock: Stopwatch,
    recovery_limiter: RateLimiter,
    recovery_check_limiter: RateLimiter,
    turn: ProbeTurn<RttSession>,
}

/// The sessions by what they are about.
pub open spec fn sessions_view(sessions: Map<ProxySessionId, RttSession>) -> Map<
    ProxySessionId,
    SessionModel,
> {
    sessions.map_values(|session: RttSession| session@)
}

/// The turn with its session by what it is about.
pub open spec fn turn_view(turn: ProbeTurn<RttSession>) -> ProbeTurn<SessionModel> {
    match turn {
        ProbeTurn::Idle => ProbeTurn::Idle,
        ProbeTurn::Recover(step) => ProbeTurn::Recover(step),
        ProbeTurn::Update(id) => ProbeTurn::Update(id),
        ProbeTurn::Leave(session, all) => ProbeTurn::Leave(session@, all),
        ProbeTurn::Dropping(all) => ProbeTurn::Dropping(all),
        ProbeTurn::DropDebugSession => ProbeTurn::DropDebugSession,
    }
}

impl View for ProbeState {
    type V = ProbeModel;

    closed spec fn view(&self) -> ProbeModel {
        ProbeModel {
            id: self.id,
            cfg: self.cfg,
            active: self.session == ProbeSessionState::Active,
            shared: self.per_core_shared_state@,
            sessions: sessions_view(self.rtt_sessions@),
            schedule: self.schedule@,
            next: self.next_schedule_idx as nat,
            to_service: self.num_sessions_needing_serviced_before_recovery_rentry as nat,
            recovery: self.recovery_limiter@,
            recovery_check: self.recovery_check_limiter@,
            turn: turn_view(self.turn),
        }
    }
}

/// What came of a step for a probe.
pub open spec fn probe_outcome(probe: ProbeState, action: ProbeAction) -> ProbeOutcome {
    ProbeOutcome { probe: probe@, action }
}

fn same_address(a: Option<u64>, b: Option<u64>) -> (same: bool)
    ensures
        same == (a == b),
{
    match (a, b) {
        (Some(a), Some(b)) => a == b,
        (None, None) => true,
        _ => false,
    }
}

fn same_place(session: &RttSession, target: &TargetConfig, rtt: &RttConfig) -> (same: bool)
    ensures
        same == probe_model::same_place(session@, *target, *rtt),
{
    session.target_config().core == target.core && same_address(
        session.rtt_config().control_block_address,
        rtt.control_block_address,
    ) && session.rtt_config().up_channel == rtt.up_channel
}

impl ProbeState {
    /// Time between two attempts to set a lost probe up, in milliseconds
    pub const RECOVERY_RETRY_INTERVAL_MS: u64 = 50;

    /// Time between two looks for a lost probe, in milliseconds
    pub const RECOVERY_CHECK_INTERVAL_MS: u64 = 100;

    /// A probe that was just set up, when `clock` reads `now`.
    pub fn new(id: ProbeId, cfg: ProbeConfig, clock: Stopwatch, now: Interval) -> (probe: Self)
        ensures
            probe@ == ProbeModel::fresh(id, cfg, now),
            probe@.wf(),
    {
        let probe = ProbeState {
            id,
            cfg,
            session: ProbeSessionState::Active,
            per_core_shared_state: HashMap::new(),
            rtt_sessions: HashMap::new(),
            schedule: Vec::new(),
            next_schedule_idx: 0,
            num_sessions_needing_serviced_before_recovery_rentry: 0,
            clock,
            recovery_limiter: RateLimiter::new_at(
                Interval::from_millis(Self::RECOVERY_RETRY_INTERVAL_MS),
                clock,
                now,
            ),
            recovery_check_limiter: RateLimiter::new_at(
                Interval::from_millis(Self::RECOVERY_CHECK_INTERVAL_MS),
                clock,
                now,
            ),
            turn: ProbeTurn::Idle,
        };
        assert(probe@.sessions =~= Map::empty());
        assert(probe@.shared =~= Map::empty());
        assert(probe@.schedule =~= Seq::empty());
        probe
    }

    pub fn id(&self) -> (id: &ProbeId)
        ensures
            *id == self@.id,
    {
        &self.id
    }

    pub fn config(&self) -> (cfg: &ProbeConfig)
        ensures
            *cfg == self@.cfg,
    {
        &self.cfg
    }

    /// Whether the connection to the probe is there.
    pub fn is_active(&self) -> (yes: bool)
        ensures
            yes == self@.active,
    {
        matches!(self.session, ProbeSessionState::Active)
    }

    /// Whether nothing is under way.
    pub fn is_idle(&self) -> (yes: bool)
        ensures
            yes == (self@.turn is Idle),
    {
        matches!(self.turn, ProbeTurn::Idle)
    }

    /// Whether the probe has no sessions.
    pub fn is_empty(&self) -> (yes: bool)
        ensures
            yes == (self@.sessions.len() == 0),
    {
        assert(self@.sessions.dom() =~= self.rtt_sessions@.dom());
        self.rtt_sessions.len() == 0
    }

    /// The session with that id.
    pub fn session(&self, id: ProxySessionId) -> (session: Option<&RttSession>)
        ensures
            session is Some == self@.sessions.contains_key(id),
            session matches Some(session) ==> session@ == self@.sessions[id],
    {
        self.rtt_sessions.get(&id)
    }

    fn ask(&mut self, turn: ProbeTurn<RttSession>, action: ProbeAction) -> (asked: ProbeAction)
        ensures
            asked == action,
            final(self)@ == (ProbeModel { turn: turn_view(turn), ..old(self)@ }),
    {
        self.turn = turn;
        action
    }

    fn done(&mut self) -> (action: ProbeAction)
        ensures
            probe_outcome(*final(self), action) == old(self)@.done(),
    {
        self.ask(ProbeTurn::Idle, ProbeAction::Done)
    }

    /// Takes what the sessions on a core share.
    fn take_shared(&mut self, core: u32) -> (shared: SharedState)
        ensures
            shared == old(self)@.shared_of(core),
            final(self)@ == (ProbeModel { shared: old(self)@.shared.remove(core), ..old(self)@ }),
    {
        match self.per_core_shared_state.remove(&core) {
            Some(shared) => shared,
            None => {
                assert(self@.shared =~= old(self)@.shared);
                SharedState::new_rc()
            },
        }
    }

    /// Takes a session out.
    fn take_session(&mut self, id: ProxySessionId) -> (session: Option<RttSession>)
        ensures
            session is Some == old(self)@.sessions.contains_key(id),
            session matches Some(session) ==> session@ == old(self)@.sessions[id],
            final(self)@ == (ProbeModel {
                sessions: old(self)@.sessions.remove(id),
                ..old(self)@
            }),
    {
        let session = self.rtt_sessions.remove(&id);
        assert(self@.sessions =~= old(self)@.sessions.remove(id));
        session
    }

    /// Whether a session that may recover is not shut down.
    fn any_session_using_recovery(&self) -> (found: bool)
        requires
            self@.all_scheduled(),
        ensures
            found == exists|id: ProxySessionId| #[trigger]
                self@.sessions.contains_key(id) && probe_model::is_recoverable(self@.sessions[id]),
    {
        let mut i: usize = 0;
        #[verifier::loop_isolation(false)]
        while i < self.schedule.len()
            invariant
                i <= self.schedule.len(),
                forall|j: int|
                    0 <= j < i && #[trigger] self@.sessions.contains_key(self.schedule@[j]) ==> {
                        let id = self.schedule@[j];
                        !(probe_model::is_recoverable(self@.sessions[id]))
                    },
            decreases self.schedule.len() - i,
        {
            if let Some(session) = self.session(self.schedule[i]) {
                if session.target_config().auto_recover && !session.is_shutdown() {
                    return true;
                }
            }
            i += 1;
        }
        proof {
            assert forall|id: ProxySessionId| #[trigger] self@.sessions.contains_key(id) implies !(
            probe_model::is_recoverable(self@.sessions[id])) by {
                let j = self.schedule@.index_of(id);
                assert(self@.sessions.contains_key(self.schedule@[j]));
            }
        }
        false
    }

    /// Whether a session is running.
    fn any_sessions_running(&self) -> (found: bool)
        requires
            self@.all_scheduled(),
        ensures
            found == exists|id: ProxySessionId| #[trigger]
                self@.sessions.contains_key(id) && self@.sessions[id].state is Run,
    {
        let mut i: usize = 0;
        #[verifier::loop_isolation(false)]
        while i < self.schedule.len()
            invariant
                i <= self.schedule.len(),
                forall|j: int|
                    0 <= j < i && #[trigger] self@.sessions.contains_key(self.schedule@[j]) ==> {
                        let id = self.schedule@[j];
                        !(self@.sessions[id].state is Run)
                    },
            decreases self.schedule.len() - i,
        {
            if let Some(session) = self.session(self.schedule[i]) {
                if session.is_running() {
                    return true;
                }
            }
            i += 1;
        }
        proof {
            assert forall|id: ProxySessionId| #[trigger] self@.sessions.contains_key(id) implies !(
            self@.sessions[id].state is Run) by {
                let j = self.schedule@.index_of(id);
                assert(self@.sessions.contains_key(self.schedule@[j]));
            }
        }
        false
    }

    /// Whether a session is stopped because its core could not be reached.
    fn any_session_stopped_due_to_core_attach(&self) -> (found: bool)
        requires
            self@.all_scheduled(),
        ensures
            found == exists|id: ProxySessionId|
                #![trigger self@.sessions.contains_key(id)]
                {
                    &&& self@.sessions.contains_key(id)
                    &&& self@.sessions[id].is_stopped_due_to_core_attach()
                },
    {
        let mut i: usize = 0;
        #[verifier::loop_isolation(false)]
        while i < self.schedule.len()
            invariant
                i <= self.schedule.len(),
                forall|j: int|
                    0 <= j < i && #[trigger] self@.sessions.contains_key(self.schedule@[j]) ==> {
                        let id = self.schedule@[j];
                        !(self@.sessions[id].is_stopped_due_to_core_attach())
                    },
            decreases self.schedule.len() - i,
        {
            if let Some(session) = self.session(self.schedule[i]) {
                if session.is_stopped_due_to_core_attach() {
                    return true;
                }
            }
            i += 1;
        }
        proof {
            assert forall|id: ProxySessionId| #[trigger] self@.sessions.contains_key(id) implies !(
            self@.sessions[id].is_stopped_due_to_core_attach()) by {
                let j = self.schedule@.index_of(id);
                assert(self@.sessions.contains_key(self.schedule@[j]));
            }
        }
        false
    }

    /// Whether a session with the same core, control block address and up channel
    /// is there already.
    pub fn has_session_on(&self, target: &TargetConfig, rtt: &RttConfig) -> (found: bool)
        requires
            self@.wf(),
        ensures
            found == self@.has_session_on(*target, *rtt),
    {
        let mut i: usize = 0;
        #[verifier::loop_isolation(false)]
        while i < self.schedule.len()
            invariant
                i <= self.schedule.len(),
                forall|j: int|
                    0 <= j < i && #[trigger] self@.sessions.contains_key(self.schedule@[j]) ==> {
                        let id = self.schedule@[j];
                        !(probe_model::same_place(self@.sessions[id], *target, *rtt))
                    },
            decreases self.schedule.len() - i,
        {
            if let Some(session) = self.session(self.schedule[i]) {
                if same_place(session, target, rtt) {
                    return true;
                }
            }
            i += 1;
        }
        proof {
            assert forall|id: ProxySessionId| #[trigger] self@.sessions.contains_key(id) implies !(
            probe_model::same_place(self@.sessions[id], *target, *rtt)) by {
                let j = self.schedule@.index_of(id);
                assert(self@.sessions.contains_key(self.schedule@[j]));
            }
        }
        false
    }

    /// Whether the connection seems to be lost. This is a heuristic check to see
    /// if the debug probe needs to be re-attached (likely due to a target power
    /// cycle). The debug sequences need to be re-run when that occurs.
    fn seems_lost(&self) -> (yes: bool)
        requires
            self@.all_scheduled(),
        ensures
            yes == self@.seems_lost(),
    {
        // No sessions are running, and at least 1 is stopped due to a core attach error
        self.any_session_using_recovery() && !self.any_sessions_running()
            && self.any_session_stopped_due_to_core_attach()
    }

    /// Makes every session forget what it holds of its core.
    fn forget_all(&mut self)
        requires
            old(self)@.all_scheduled(),
        ensures
            final(self)@ == (ProbeModel {
                sessions: old(self)@.sessions.map_values(
                    |session: SessionModel| session.forgotten(),
                ),
                ..old(self)@
            }),
    {
        let ghost before = self@;
        let mut i: usize = 0;
        #[verifier::loop_isolation(false)]
        while i < self.schedule.len()
            invariant
                i <= self.schedule.len(),
                self@ == (ProbeModel { sessions: self@.sessions, ..before }),
                self@.sessions.dom() == before.sessions.dom(),
                forall|id: ProxySessionId| #[trigger]
                    self@.sessions.contains_key(id) ==> self@.sessions[id] == before.sessions[id]
                        || self@.sessions[id] == before.sessions[id].forgotten(),
                forall|j: int|
                    0 <= j < i && #[trigger] self@.sessions.contains_key(self.schedule@[j])
                        ==> self@.sessions[self.schedule@[j]]
                        == before.sessions[self.schedule@[j]].forgotten(),
            decreases self.schedule.len() - i,
        {
            let id: ProxySessionId = self.schedule[i];
            let ghost round = self@;
            if let Some(taken) = self.take_session(id) {
                let mut session = taken;
                session.forget();
                let ghost forgotten = session@;
                let ghost without = self@;
                self.rtt_sessions.insert(id, session);
                assert(self@.sessions =~= without.sessions.insert(id, forgotten));
                assert(self@.sessions =~= round.sessions.insert(id, forgotten));
                assert(self@.sessions.dom() =~= before.sessions.dom());
            } else {
                assert(self@.sessions =~= round.sessions);
            }
            i += 1;
        }
        proof {
            assert forall|id: ProxySessionId| #[trigger]
                self@.sessions.contains_key(id) implies self@.sessions[id]
                == before.sessions[id].forgotten() by {
                assert(before.sessions.contains_key(id));
                let j = self.schedule@.index_of(id);
                assert(self@.sessions.contains_key(self.schedule@[j]));
            }
            assert(self@.sessions =~= before.sessions.map_values(
                |session: SessionModel| session.forgotten(),
            ));
        }
    }

    /// Gives the connection up.
    fn enter_recovery(&mut self) -> (action: ProbeAction)
        requires
            old(self)@.all_scheduled(),
        ensures
            probe_outcome(*final(self), action) == old(self)@.enter_recovery(),
    {
        self.forget_all();
        assert(self@.sessions.dom() =~= old(self)@.sessions.dom());
        self.session = ProbeSessionState::NeedsRecovered;
        self.per_core_shared_state.clear();
        self.next_schedule_idx = 0;
        self.num_sessions_needing_serviced_before_recovery_rentry = self.rtt_sessions.len();
        assert(self@.sessions.dom() =~= self.rtt_sessions@.dom());
        assert(self@.shared =~= Map::empty());
        self.ask(ProbeTurn::DropDebugSession, ProbeAction::DropDebugSession)
    }

    /// Moves the schedule on and looks after the probe.
    fn advance(&mut self, now: Interval) -> (action: ProbeAction)
        requires
            old(self)@.all_scheduled(),
        ensures
            probe_outcome(*final(self), action) == old(self)@.advance(now),
    {
        // Increment the scheduler
        self.next_schedule_idx = if self.next_schedule_idx < self.schedule.len()
            && self.next_schedule_idx + 1 < self.schedule.len() {
            self.next_schedule_idx + 1
        } else {
            0
        };
        let ghost moved = self@;
        if self.recovery_check_limiter.check_at(now)
            && self.num_sessions_needing_serviced_before_recovery_rentry == 0 {
            // We've serviced every RTT session at least once following
            // a previous recovery
            if self.seems_lost() {
                assert(moved.seems_lost());
                return self.enter_recovery();
            }
            assert(!moved.seems_lost());
        }
        self.done()
    }

    /// Puts a session back that has taken a step in its turn.
    fn session_stepped(
        &mut self,
        id: ProxySessionId,
        session: RttSession,
        shared: SharedState,
        command: Command,
        now: Interval,
    ) -> (action: ProbeAction)
        requires
            old(self)@.all_scheduled(),
            old(self)@.schedule.contains(id),
        ensures
            probe_outcome(*final(self), action) == old(self)@.session_stepped(
                id,
                rtt_session::outcome(session, shared, command),
                now,
            ),
    {
        let over = session.is_idle();
        let core: u32 = session.target_config().core;
        let ghost stepped = self@.stepped(id, rtt_session::outcome(session, shared, command));
        self.per_core_shared_state.insert(core, shared);
        self.rtt_sessions.insert(id, session);
        assert(self@.sessions =~= stepped.sessions);
        assert(self@ == stepped);
        if over {
            self.num_sessions_needing_serviced_before_recovery_rentry =
            self.num_sessions_needing_serviced_before_recovery_rentry.saturating_sub(1);
            self.advance(now)
        } else {
            self.ask(ProbeTurn::Update(id), ProbeAction::Session(id, command))
        }
    }

    /// Whether the session at that place of the schedule, if it is there, has to wait
    /// for a bootloader on the same core.
    fn is_suspended(&self, place: usize) -> (yes: bool)
        requires
            place < self@.schedule.len(),
        ensures
            self@.sessions.contains_key(self@.schedule[place as int]) ==> yes == self@.suspended(
                place as int,
            ),
            !self@.sessions.contains_key(self@.schedule[place as int]) ==> !yes,
    {
        let id: ProxySessionId = self.schedule[place];
        let session = match self.session(id) {
            Some(session) => session,
            None => {
                return false;
            },
        };
        let core: u32 = session.target_config().core;
        let bootloader = session.target_config().bootloader;
        let mut k: usize = 0;
        #[verifier::loop_isolation(false)]
        while k < self.schedule.len()
            invariant
                k <= self.schedule.len(),
                forall|j: int| 0 <= j < k ==> !#[trigger] self@.waits_for(place as int, j),
            decreases self.schedule.len() - k,
        {
            let other: ProxySessionId = self.schedule[k];
            if other != id && (k < place || !bootloader) {
                if let Some(session) = self.session(other) {
                    if session.target_config().bootloader && session.target_config().core == core
                        && !session.is_stopped() && !session.is_shutdown()
                        && !session.has_completed() {
                        assert(self@.waits_for(place as int, k as int));
                        return true;
                    }
                }
            }
            k += 1;
        }
        false
    }

    /// Goes on with setting the probe up once more.
    fn recovering(&mut self, progress: SetupProgress) -> (action: ProbeAction)
        ensures
            probe_outcome(*final(self), action) == old(self)@.recovering(progress),
    {
        match progress {
            SetupProgress::Ask(step, command) => self.ask(
                ProbeTurn::Recover(step),
                ProbeAction::Setup(command),
            ),
            SetupProgress::Ready => {
                self.session = ProbeSessionState::Active;
                self.done()
            },
            // Debug probe recovery failed
            SetupProgress::Failed(_) => self.done(),
        }
    }

    /// Tries from time to time to set the probe up once more.
    fn recover(&mut self, now: Interval) -> (action: ProbeAction)
        requires
            !old(self)@.active,
        ensures
            probe_outcome(*final(self), action) == old(self)@.serviced(now),
    {
        if self.recovery_limiter.check_at(now) {
            let progress = setup_probe(&self.cfg);
            self.recovering(progress)
        } else {
            self.done()
        }
    }

    /// Gives the probe its turn.
    pub fn service(&mut self) -> (action: ProbeAction)
        requires
            old(self)@.wf(),
            old(self)@.turn is Idle,
        ensures
            exists|now: Interval|
                probe_outcome(*final(self), action) == #[trigger] old(self)@.serviced(now),
            final(self)@.wf(),
    {
        let now = self.clock.elapsed();
        self.service_at(now)
    }

    /// Gives the probe its turn when the clock reads `now`.
    pub fn service_at(&mut self, now: Interval) -> (action: ProbeAction)
        requires
            old(self)@.wf(),
            old(self)@.turn is Idle,
        ensures
            probe_outcome(*final(self), action) == old(self)@.serviced(now),
            final(self)@.wf(),
    {
        proof {
            probe_laws::serviced_probe_is_wf(self@, now);
        }
        match self.session {
            ProbeSessionState::NeedsRecovered => self.recover(now),
            ProbeSessionState::Active => {
                if self.next_schedule_idx < self.schedule.len() && !self.is_suspended(
                    self.next_schedule_idx,
                ) {
                    let id: ProxySessionId = self.schedule[self.next_schedule_idx];
                    if let Some(taken) = self.take_session(id) {
                        let mut session = taken;
                        let core: u32 = session.target_config().core;
                        let mut shared = self.take_shared(core);
                        proof {
                            let reply = Reply::Done;
                            session_laws::steps_keep_the_session(session@, shared, reply, now);
                        }
                        let command = session.update_at(&mut shared, now);
                        proof {
                            self.put_back(*old(self), id, session, shared, command, now);
                        }
                        return self.session_stepped(id, session, shared, command, now);
                    }
                    assert(self@.sessions =~= old(self)@.sessions);
                }
                self.advance(now)
            },
        }
    }

    /// Taking a session and what it shares out and putting them back comes to
    /// the same as replacing them.
    proof fn put_back(
        self,
        before: ProbeState,
        id: ProxySessionId,
        session: RttSession,
        shared: SharedState,
        command: Command,
        now: Interval,
    )
        requires
            self@ == (ProbeModel {
                sessions: before@.sessions.remove(id),
                shared: before@.shared.remove(session@.target_cfg.core),
                turn: ProbeTurn::Idle,
                ..before@
            }),
        ensures
            self@.session_stepped(id, rtt_session::outcome(session, shared, command), now) == (
            ProbeModel { turn: ProbeTurn::Idle, ..before@ }).session_stepped(
                id,
                rtt_session::outcome(session, shared, command),
                now,
            ),
    {
        let outcome = rtt_session::outcome(session, shared, command);
        assert(self@.stepped(id, outcome).sessions =~= before@.stepped(id, outcome).sessions);
        assert(self@.stepped(id, outcome).shared =~= before@.stepped(id, outcome).shared);
        assert(self@.stepped(id, outcome) == (ProbeModel {
            turn: ProbeTurn::Idle,
            ..before@
        }).stepped(id, outcome));
    }

    /// Goes on with a session that leaves, which has taken a step.
    fn leave_stepped(
        &mut self,
        session: RttSession,
        shared: SharedState,
        command: Command,
        all: bool,
    ) -> (action: ProbeAction)
        ensures
            probe_outcome(*final(self), action) == old(self)@.leave_stepped(
                rtt_session::outcome(session, shared, command),
                all,
            ),
    {
        let id: ProxySessionId = session.id();
        let core: u32 = session.target_config().core;
        self.per_core_shared_state.insert(core, shared);
        if session.is_idle() {
            self.ask(ProbeTurn::Dropping(all), ProbeAction::DropSession(id))
        } else {
            self.ask(ProbeTurn::Leave(session, all), ProbeAction::Session(id, command))
        }
    }

    /// Lets a session go that was taken out.
    fn leave(&mut self, session: RttSession, all: bool) -> (action: ProbeAction)
        requires
            session@.step is Idle,
        ensures
            ({
                let before = ProbeModel {
                    sessions: old(self)@.sessions.insert(session@.id, session@),
                    ..old(self)@
                };
                old(self)@.sessions == before.sessions.remove(session@.id) ==> probe_outcome(
                    *final(self),
                    action,
                ) == before.leave(session@.id, all)
            }),
    {
        let mut session = session;
        let core: u32 = session.target_config().core;
        let mut shared = self.take_shared(core);
        proof {
            session_laws::steps_keep_the_session(
                session@,
                shared,
                Reply::Done,
                Interval { secs: 0, nanos: 0 },
            );
        }
        let command = match self.session {
            ProbeSessionState::Active => session.shutdown(&mut shared),
            ProbeSessionState::NeedsRecovered => session.abandon(&mut shared),
        };
        assert(self@.shared.insert(core, shared) =~= old(self)@.shared.insert(core, shared));
        self.leave_stepped(session, shared, command, all)
    }

    /// Starts to shut one session down.
    pub fn shutdown_rtt_session(&mut self, id: ProxySessionId) -> (action: ProbeAction)
        requires
            old(self)@.wf(),
            old(self)@.turn is Idle,
        ensures
            probe_outcome(*final(self), action) == old(self)@.session_shut_down(id),
            final(self)@.wf(),
    {
        proof {
            probe_laws::shut_down_probe_is_wf(self@, id);
        }
        match self.take_session(id) {
            Some(session) => {
                // Remove it from the scheduler
                let idx: usize = self.scheduled_at(id);
                self.schedule.remove(idx);
                // Reset the scheduler
                // NOTE: could be smarter about this and preserve the next item
                self.next_schedule_idx = 0;
                assert(self@.schedule =~= old(self)@.schedule.remove(idx as int));
                assert(self@.sessions.insert(id, session@) =~= old(self)@.sessions);
                self.leave(session, false)
            },
            None => {
                assert(self@.sessions =~= old(self)@.sessions);
                self.done()
            },
        }
    }

    /// The first place of a session in the schedule.
    fn scheduled_at(&self, id: ProxySessionId) -> (idx: usize)
        requires
            self@.schedule.contains(id),
        ensures
            self@.schedule.index_of_first(id) == Some(idx as int),
            idx < self@.schedule.len(),
    {
        let mut idx: usize = 0;
        #[verifier::loop_isolation(false)]
        while self.schedule[idx] != id
            invariant
                idx < self.schedule.len(),
                forall|j: int| 0 <= j < idx ==> self.schedule@[j] != id,
            decreases self.schedule.len() - idx,
        {
            proof {
                let j = self.schedule@.index_of(id);
                assert(j > idx);
            }
            idx += 1;
        }
        proof {
            self.schedule@.index_of_first_ensures(id);
        }
        idx
    }

    /// Starts to shut all sessions down, one after the other.
    pub fn shutdown_all_rtt_sessions(&mut self) -> (action: ProbeAction)
        requires
            old(self)@.wf(),
            old(self)@.turn is Idle,
        ensures
            probe_outcome(*final(self), action) == old(self)@.all_shut_down(),
            final(self)@.wf(),
    {
        proof {
            probe_laws::shut_down_probe_is_wf(self@, 0);
            assert(self@.schedule.skip(0) =~= self@.schedule);
        }
        let mut i: usize = 0;
        #[verifier::loop_isolation(false)]
        while i < self.schedule.len()
            invariant
                i <= self.schedule.len(),
                self@ == old(self)@,
                probe_model::first_present(self@.schedule, self@.sessions)
                    == probe_model::first_present(self@.schedule.skip(i as int), self@.sessions),
            decreases self.schedule.len() - i,
        {
            let id: ProxySessionId = self.schedule[i];
            proof {
                assert(self@.schedule.skip(i as int)[0] == id);
                assert(self@.schedule.skip(i as int).drop_first() =~= self@.schedule.skip(i + 1));
            }
            if let Some(session) = self.take_session(id) {
                assert(self@.sessions.insert(id, session@) =~= old(self)@.sessions);
                return self.leave(session, true);
            }
            assert(self@.sessions =~= old(self)@.sessions);
            i += 1;
        }
        self.done()
    }

    /// Whether this answer can be gone on with.
    pub fn accepts(&self, reply: &Reply) -> (yes: bool)
        requires
            self@.wf(),
        ensures
            yes == self@.accepts(*reply),
    {
        match &self.turn {
            ProbeTurn::Recover(step) => can_resume_setup(step, reply),
            ProbeTurn::Update(id) => match self.session(*id) {
                Some(session) => session.accepts(reply),
                None => true,
            },
            ProbeTurn::Leave(session, _) => session.accepts(reply),
            _ => true,
        }
    }

    /// Goes on with what is under way, given what came of the last action.
    pub fn resume(&mut self, reply: Reply) -> (action: ProbeAction)
        requires
            old(self)@.wf(),
            old(self)@.accepts(reply),
        ensures
            exists|now: Interval|
                probe_outcome(*final(self), action) == #[trigger] old(self)@.resumed(reply, now),
            final(self)@.wf(),
    {
        let now = self.clock.elapsed();
        self.resume_at(reply, now)
    }

    /// Goes on with what is under way when the clock reads `now`.
    pub fn resume_at(&mut self, reply: Reply, now: Interval) -> (action: ProbeAction)
        requires
            old(self)@.wf(),
            old(self)@.accepts(reply),
        ensures
            probe_outcome(*final(self), action) == old(self)@.resumed(reply, now),
            final(self)@.wf(),
    {
        proof {
            probe_laws::resumed_probe_is_wf(self@, reply, now);
        }
        let mut turn: ProbeTurn<RttSession> = ProbeTurn::Idle;
        std::mem::swap(&mut self.turn, &mut turn);
        match turn {
            ProbeTurn::Idle => self.done(),
            ProbeTurn::Recover(step) => {
                let progress = resume_setup(&self.cfg, step, reply);
                self.recovering(progress)
            },
            ProbeTurn::Update(id) => match self.take_session(id) {
                Some(taken) => {
                    let mut session = taken;
                    let core: u32 = session.target_config().core;
                    let mut shared = self.take_shared(core);
                    proof {
                        session_laws::steps_keep_the_session(session@, shared, reply, now);
                    }
                    let command = session.resume_at(&mut shared, reply, now);
                    proof {
                        self.put_back(*old(self), id, session, shared, command, now);
                    }
                    self.session_stepped(id, session, shared, command, now)
                },
                None => self.done(),
            },
            ProbeTurn::Leave(leaving, all) => {
                let mut session = leaving;
                let core: u32 = session.target_config().core;
                let mut shared = self.take_shared(core);
                proof {
                    session_laws::steps_keep_the_session(session@, shared, reply, now);
                }
                let command = session.resume_at(&mut shared, reply, now);
                assert(self@.shared.insert(core, shared) =~= old(self)@.shared.insert(
                    core,
                    shared,
                ));
                self.leave_stepped(session, shared, command, all)
            },
            ProbeTurn::Dropping(all) => {
                if all {
                    self.shutdown_all_rtt_sessions()
                } else {
                    self.done()
                }
            },
            ProbeTurn::DropDebugSession => self.done(),
        }
    }

    /// Makes sure that a core has a record of what its sessions share.
    pub fn shared_state_for_core(&mut self, core: u32)
        ensures
            final(self)@ == old(self)@.with_core(core),
            old(self)@.wf() ==> final(self)@.wf(),
    {
        if !self.per_core_shared_state.contains_key(&core) {
            self.per_core_shared_state.insert(core, SharedState::new_rc());
        }
    }

    /// Adds a session, which has its turn last.
    pub fn add_rtt_session(&mut self, rtt_session: RttSession)
        requires
            rtt_session@.step is Idle,
        ensures
            final(self)@ == old(self)@.with_session(rtt_session@),
            old(self)@.wf() && old(self)@.turn is Idle && rtt_session@.wf() ==> final(self)@.wf(),
    {
        let id: ProxySessionId = rtt_session.id();
        let ghost session = rtt_session@;
        self.rtt_sessions.insert(id, rtt_session);
        self.schedule.push(id);
        assert(self@.sessions =~= old(self)@.with_session(session).sessions);
        proof {
            if old(self)@.wf() && old(self)@.turn is Idle && session.wf() {
                probe_laws::added_session_keeps_wf(old(self)@, session);
            }
        }
    }
}

} // verus!
