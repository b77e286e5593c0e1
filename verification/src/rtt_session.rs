//! Sessions: reading the RTT data of one core for one client.
use crate::clock::{Interval, Stopwatch};
use crate::command::{Command, Reply, ScanRegion};
use crate::metrics::Metrics;
use crate::protocol::{ProxySessionId, RttConfig, TargetConfig};
use crate::rate_limiter::RateLimiter;
use crate::session_model;
use crate::session_model::{
    AttachPhase, Leave, Outcome, SessionModel, SetupPhase, Step, RESET_TIMEOUT_MS,
    RESTART_DELAY_MS,
};
use crate::session_types::{Error, RttFault, RttHandles, RttSessionState, StoppedReason};
use crate::shared_state::SharedState;
use crate::target::{CoreStatus, HaltReason};
use crate::trc_command::TrcCommand;
use vstd::prelude::*;

verus! {

/// One session. It decides what is to be done; the caller does it and hands the
/// answer back with `resume`, until the turn is over.
#[derive(Debug)]
pub struct RttSession {
    id: ProxySessionId,
    name: String,
    target_cfg: TargetConfig,
    rtt_cfg: RttConfig,
    log_rtt_metrics: bool,
    client_response_sent: bool,
    state: RttSessionState,
    buffer_size: usize,
    metrics: Metrics,
    last_rtt_read_had_data: bool,
    last_data: Interval,
    completed: bool,
    cleared: bool,
    caught: bool,
    clock: Stopwatch,
    rtt_poll_limiter: RateLimiter,
    idle_poll_limiter: RateLimiter,
    recovery_limiter: RateLimiter,
    attach_retry_limiter: RateLimiter,
    stopping_condition_limiter: RateLimiter,
    step: Step<Vec<Command>>,
}

/// The step with its list of commands as a sequence.
pub open spec fn step_view(step: Step<Vec<Command>>) -> Step<Seq<Command>> {
    match step {
        Step::Idle => Step::Idle,
        Step::RecoverCore => Step::RecoverCore,
        Step::RecoverStatus => Step::RecoverStatus,
        Step::SetupCore => Step::SetupCore,
        Step::SetupStatus => Step::SetupStatus,
        Step::Setup(phase, halted, todo) => Step::Setup(phase, halted, todo@),
        Step::SetupRunning => Step::SetupRunning,
        Step::AttachCore => Step::AttachCore,
        Step::AttachRegion => Step::AttachRegion,
        Step::Attach(phase, handles, todo) => Step::Attach(phase, handles, todo@),
        Step::AttachStatus(handles) => Step::AttachStatus(handles),
        Step::Respond(handles) => Step::Respond(handles),
        Step::RunCore => Step::RunCore,
        Step::RunRead => Step::RunRead,
        Step::RunMetrics(bytes) => Step::RunMetrics(bytes),
        Step::RunWrite => Step::RunWrite,
        Step::RunStatus => Step::RunStatus,
        Step::RunStack(reason) => Step::RunStack(reason),
        Step::RunCounter(reason) => Step::RunCounter(reason),
        Step::StopCore(leave, held) => Step::StopCore(leave, held),
        Step::StopStatus(leave, resume) => Step::StopStatus(leave, resume),
        Step::Stop(leave, todo) => Step::Stop(leave, todo@),
        Step::Close => Step::Close,
    }
}

impl View for RttSession {
    type V = SessionModel;

    closed spec fn view(&self) -> SessionModel {
        SessionModel {
            id: self.id,
            name: self.name@,
            target_cfg: self.target_cfg,
            rtt_cfg: self.rtt_cfg,
            log_rtt_metrics: self.log_rtt_metrics,
            client_response_sent: self.client_response_sent,
            state: self.state,
            buffer_size: self.buffer_size,
            metrics: self.metrics,
            last_rtt_read_had_data: self.last_rtt_read_had_data,
            last_data: self.last_data,
            completed: self.completed,
            cleared: self.cleared,
            caught: self.caught,
            rtt_poll: self.rtt_poll_limiter@,
            idle_poll: self.idle_poll_limiter@,
            recovery: self.recovery_limiter@,
            attach_retry: self.attach_retry_limiter@,
            stopping_condition: self.stopping_condition_limiter@,
            step: step_view(self.step),
        }
    }
}

/// What came of a step of a session.
pub open spec fn outcome(session: RttSession, shared: SharedState, command: Command) -> Outcome {
    Outcome { session: session@, shared, command }
}

/// The name of the thread that waits for the client of a session to end it.
pub fn control_thread_name(name: &String) -> (thread_name: String)
    ensures
        thread_name@ == name@ + ":control"@,
{
    name.clone().concat(":control")
}

/// The error that it is when the thing asked for in a step fails.
fn failure(step: &Step<Vec<Command>>, fault: RttFault) -> (error: Error)
    ensures
        error == session_model::failure(step_view(*step), fault),
{
    match step {
        Step::SetupCore | Step::AttachCore | Step::RunCore => Error::CoreAttach(
            fault.into_message(),
        ),
        Step::SetupStatus | Step::SetupRunning | Step::RunStatus => Error::CoreStatus(
            fault.into_message(),
        ),
        Step::AttachStatus(_) => Error::CoreStatus(fault.into_message()),
        Step::AttachRegion | Step::RunRead => Error::Rtt(fault),
        Step::Attach(phase, ..) => match phase {
            AttachPhase::Open | AttachPhase::Mode | AttachPhase::Control => Error::Rtt(fault),
            _ => Error::Probe(fault.into_message()),
        },
        Step::Respond(_) => Error::ResponseJson(fault.into_message()),
        Step::RunWrite => Error::ClientDisconnected,
        _ => Error::Probe(fault.into_message()),
    }
}

fn take_first(todo: &mut Vec<Command>) -> (first: Command)
    requires
        old(todo)@.len() > 0,
    ensures
        first == old(todo)@[0],
        final(todo)@ == old(todo)@.drop_first(),
{
    let first = todo.remove(0);
    assert(todo@ =~= old(todo)@.drop_first());
    first
}

fn reset_commands(cfg: &TargetConfig) -> (todo: Vec<Command>)
    ensures
        todo@ == session_model::reset_script(*cfg),
{
    let mut todo: Vec<Command> = Vec::new();
    if !cfg.bootloader_companion_application && cfg.reset {
        // This is what probe-rs does
        todo.push(Command::ResetAndHalt(RESET_TIMEOUT_MS));
        todo.push(Command::ReadStackPointer);
        todo.push(Command::ReadProgramCounter);
    }
    assert(todo@ =~= session_model::reset_script(*cfg));
    todo
}

fn clear_commands(first: bool, nobody_catches: bool) -> (todo: Vec<Command>)
    ensures
        todo@ == session_model::clear_script(first, nobody_catches),
{
    let mut todo: Vec<Command> = Vec::new();
    if first {
        if nobody_catches {
            todo.push(Command::DisableVectorCatch);
        }
        todo.push(Command::ClearAllBreakpoints);
    }
    assert(todo@ =~= session_model::clear_script(first, nobody_catches));
    todo
}

fn catch_commands(first: bool) -> (todo: Vec<Command>)
    ensures
        todo@ == session_model::catch_script(first),
{
    let mut todo: Vec<Command> = Vec::new();
    if first {
        todo.push(Command::EnableVectorCatch);
    }
    assert(todo@ =~= session_model::catch_script(first));
    todo
}

fn start_commands(cfg: &TargetConfig, halted: bool) -> (todo: Vec<Command>)
    ensures
        todo@ == session_model::start_script(*cfg, halted),
{
    let mut todo: Vec<Command> = Vec::new();
    // Auxilary cores are expected to not be halted
    if !cfg.bootloader_companion_application && (cfg.reset || halted) {
        todo.push(Command::ReadStackPointer);
        todo.push(Command::ReadProgramCounter);
        todo.push(Command::Run);
    }
    assert(todo@ =~= session_model::start_script(*cfg, halted));
    todo
}

fn breakpoint_commands(target: &TargetConfig, cfg: &RttConfig) -> (todo: Vec<Command>)
    ensures
        todo@ == session_model::breakpoint_script(*target, *cfg),
{
    let mut todo: Vec<Command> = Vec::new();
    if !target.bootloader_companion_application {
        if cfg.setup_on_breakpoint_address.is_some() || cfg.stop_on_breakpoint_address.is_some() {
            todo.push(Command::CountBreakpoints);
        }
        if let Some(address) = cfg.stop_on_breakpoint_address {
            todo.push(Command::SetBreakpoint(address));
        }
        if let Some(address) = cfg.setup_on_breakpoint_address {
            todo.push(Command::SetBreakpoint(address));
        }
    }
    assert(todo@ =~= session_model::breakpoint_script(*target, *cfg));
    todo
}

fn control_commands(cfg: &RttConfig) -> (todo: Vec<Command>)
    ensures
        todo@ == session_model::control_script(*cfg),
{
    let mut todo: Vec<Command> = Vec::new();
    if !cfg.disable_control_plane {
        if cfg.restart {
            todo.push(Command::WriteDown(TrcCommand::StopTracing));
            todo.push(Command::Sleep(RESTART_DELAY_MS));
        }
        todo.push(Command::WriteDown(TrcCommand::StartTracing));
    }
    assert(todo@ =~= session_model::control_script(*cfg));
    todo
}

impl RttSession {
    /// Time between two looks for a stopping condition, in milliseconds
    pub const STOPPING_CONDITION_CHECK_INTERVAL_MS: u64 = 50;

    /// Time between two attempts to recover, in milliseconds
    pub const RECOVERY_CHECK_INTERVAL_MS: u64 = 50;

    /// Time between two attempts to attach, in milliseconds
    pub const ATTACH_RETRY_INTERVAL_MS: u64 = 20;

    /// A new session, made when `clock` reads `now`.
    pub fn new(
        id: ProxySessionId,
        name: String,
        target_cfg: TargetConfig,
        rtt_cfg: RttConfig,
        log_rtt_metrics: bool,
        clock: Stopwatch,
        now: Interval,
    ) -> (session: Self)
        ensures
            session@ == SessionModel::fresh(
                id,
                name@,
                target_cfg,
                rtt_cfg,
                log_rtt_metrics,
                now,
            ),
    {
        let buffer_size: usize = if rtt_cfg.rtt_read_buffer_size < 64 {
            RttConfig::DEFAULT_RTT_BUFFER_SIZE as usize
        } else {
            rtt_cfg.rtt_read_buffer_size as usize
        };
        let poll_ms: u32 = if rtt_cfg.rtt_poll_interval_ms < 1 {
            1
        } else {
            rtt_cfg.rtt_poll_interval_ms
        };
        let idle_poll_ms: u32 = if rtt_cfg.rtt_idle_poll_interval_ms < 1 {
            1
        } else {
            rtt_cfg.rtt_idle_poll_interval_ms
        };
        RttSession {
            id,
            name,
            target_cfg,
            rtt_cfg,
            log_rtt_metrics,
            client_response_sent: false,
            state: RttSessionState::Init,
            buffer_size,
            metrics: Metrics::new(buffer_size, now),
            last_rtt_read_had_data: true,
            last_data: now,
            completed: false,
            cleared: false,
            caught: false,
            clock,
            rtt_poll_limiter: RateLimiter::new_at(
                Interval::from_millis(poll_ms as u64),
                clock,
                now,
            ),
            idle_poll_limiter: RateLimiter::new_at(
                Interval::from_millis(idle_poll_ms as u64),
                clock,
                now,
            ),
            recovery_limiter: RateLimiter::new_at(
                Interval::from_millis(Self::RECOVERY_CHECK_INTERVAL_MS),
                clock,
                now,
            ),
            attach_retry_limiter: RateLimiter::new_at(
                Interval::from_millis(Self::ATTACH_RETRY_INTERVAL_MS),
                clock,
                now,
            ),
            stopping_condition_limiter: RateLimiter::new_at(
                Interval::from_millis(Self::STOPPING_CONDITION_CHECK_INTERVAL_MS),
                clock,
                now,
            ),
            step: Step::Idle,
        }
    }

    pub fn id(&self) -> (id: ProxySessionId)
        ensures
            id == self@.id,
    {
        self.id
    }

    pub fn name(&self) -> (name: &String)
        ensures
            name@ == self@.name,
    {
        &self.name
    }

    pub fn target_config(&self) -> (cfg: &TargetConfig)
        ensures
            *cfg == self@.target_cfg,
    {
        &self.target_cfg
    }

    pub fn rtt_config(&self) -> (cfg: &RttConfig)
        ensures
            *cfg == self@.rtt_cfg,
    {
        &self.rtt_cfg
    }

    /// Where the session stands.
    pub fn state(&self) -> (state: &RttSessionState)
        ensures
            *state == self@.state,
    {
        &self.state
    }

    /// The size of the buffer that is read into.
    pub fn buffer_size(&self) -> (size: usize)
        ensures
            size == self@.buffer_size,
    {
        self.buffer_size
    }

    pub fn is_shutdown(&self) -> (yes: bool)
        ensures
            yes == (self@.state is Shutdown),
    {
        matches!(self.state, RttSessionState::Shutdown)
    }

    pub fn is_running(&self) -> (yes: bool)
        ensures
            yes == (self@.state is Run),
    {
        matches!(self.state, RttSessionState::Run(_))
    }

    pub fn is_stopped(&self) -> (yes: bool)
        ensures
            yes == (self@.state is Stopped),
    {
        matches!(self.state, RttSessionState::Stopped(_))
    }

    pub fn is_stopped_due_to_core_attach(&self) -> (yes: bool)
        ensures
            yes == (self@.is_stopped_due_to_core_attach()),
    {
        matches!(
            self.state,
            RttSessionState::Stopped(StoppedReason::Error(Error::CoreAttach(_)))
        )
    }

    /// Whether the session has left its core once, which for a bootloader signals
    /// completion.
    pub fn has_completed(&self) -> (yes: bool)
        ensures
            yes == self@.completed,
    {
        self.completed
    }

    /// Whether no turn is under way.
    pub fn is_idle(&self) -> (yes: bool)
        ensures
            yes == (self@.step is Idle),
    {
        matches!(self.step, Step::Idle)
    }

    /// Whether the session can go on with this answer.
    pub fn accepts(&self, reply: &Reply) -> (yes: bool)
        ensures
            yes == self@.accepts(*reply),
    {
        match reply {
            Reply::Failed(_) => true,
            _ => match &self.step {
                Step::SetupStatus | Step::SetupRunning | Step::RunStatus => matches!(
                    reply,
                    Reply::Status(_)
                ),
                Step::AttachStatus(_) | Step::StopStatus(..) => matches!(reply, Reply::Status(_)),
                Step::RunCounter(_) => matches!(reply, Reply::Register(_)),
                Step::RunRead => matches!(reply, Reply::Read(_)),
                Step::AttachRegion => matches!(reply, Reply::Attached(..)),
                _ => true,
            },
        }
    }

    /// Starts to shut the session down.
    pub fn shutdown(&mut self, shared: &mut SharedState) -> (command: Command)
        requires
            old(self)@.step is Idle,
        ensures
            outcome(*final(self), *final(shared), command) == old(self)@.shut_down(*old(shared)),
    {
        if self.is_shutdown() {
            self.rest()
        } else {
            self.stop(shared, Leave::Shutdown)
        }
    }

    /// Starts to shut the session down where its core cannot be reached.
    pub fn abandon(&mut self, shared: &mut SharedState) -> (command: Command)
        requires
            old(self)@.step is Idle,
        ensures
            outcome(*final(self), *final(shared), command) == old(self)@.cut_off(*old(shared)),
    {
        if self.is_shutdown() {
            self.rest()
        } else {
            let _ = self.release(shared);
            if !self.is_stopped() {
                self.state = RttSessionState::Stopped(StoppedReason::Shutdown);
            }
            self.ask(Step::Close, Command::CloseStream)
        }
    }

    /// Forgets what the session has counted itself in for, since nobody holds
    /// anything of the core any more.
    pub fn forget(&mut self)
        ensures
            final(self)@ == old(self)@.forgotten(),
    {
        self.cleared = false;
        self.caught = false;
    }

    /// Gives up the session's part of the shared state, and tells whether it caught
    /// resets of the core.
    fn release(&mut self, shared: &mut SharedState) -> (held: bool)
        ensures
            held == old(self)@.caught,
            *final(shared) == old(shared).released(old(self)@.cleared, old(self)@.caught),
            final(self)@ == (SessionModel {
                last_rtt_read_had_data: true,
                completed: true,
                cleared: false,
                caught: false,
                ..old(self)@
            }),
    {
        if self.cleared {
            let _ = shared.dec_clear_vector_catch_and_breakpoints();
        }
        let held = self.caught;
        if held {
            let _ = shared.dec_vector_catch_enabled();
        }
        self.completed = true;
        self.cleared = false;
        self.caught = false;
        self.last_rtt_read_had_data = true;
        held
    }

    /// Starts a turn of the session. The manager does so each scheduled
    /// iteration, regardless of state.
    pub fn update(&mut self, shared: &mut SharedState) -> (command: Command)
        requires
            old(self)@.step is Idle,
        ensures
            exists|now: Interval|
                outcome(*final(self), *final(shared), command) == #[trigger] old(self)@.updated(
                    *old(shared),
                    now,
                ),
    {
        let now = self.clock.elapsed();
        self.update_at(shared, now)
    }

    /// Starts a turn of the session when the clock reads `now`.
    pub fn update_at(&mut self, shared: &mut SharedState, now: Interval) -> (command: Command)
        requires
            old(self)@.step is Idle,
        ensures
            outcome(*final(self), *final(shared), command) == old(self)@.updated(
                *old(shared),
                now,
            ),
    {
        match &self.state {
            RttSessionState::Shutdown => self.rest(),
            RttSessionState::Stopped(_) => {
                // Attempt to recover if we're configured to do so
                if self.target_cfg.auto_recover && self.recovery_limiter.check_at(now) {
                    self.ask_core(Step::RecoverCore)
                } else {
                    // We'll try again on the next cycle
                    self.rest()
                }
            },
            RttSessionState::Init => self.ask_core(Step::SetupCore),
            RttSessionState::RttAttach(_) => {
                if self.attach_retry_limiter.check_at(now) {
                    self.ask_core(Step::AttachCore)
                } else {
                    self.rest()
                }
            },
            RttSessionState::Run(_) => self.ask_core(Step::RunCore),
        }
    }

    /// Goes on with a turn, given what came of the last command.
    pub fn resume(&mut self, shared: &mut SharedState, reply: Reply) -> (command: Command)
        requires
            old(self)@.accepts(reply),
        ensures
            exists|now: Interval|
                outcome(*final(self), *final(shared), command) == #[trigger] old(self)@.resumed(
                    *old(shared),
                    reply,
                    now,
                ),
    {
        let now = self.clock.elapsed();
        self.resume_at(shared, reply, now)
    }

    /// Goes on with a turn when the clock reads `now`.
    pub fn resume_at(&mut self, shared: &mut SharedState, reply: Reply, now: Interval) -> (command:
        Command)
        requires
            old(self)@.accepts(reply),
        ensures
            outcome(*final(self), *final(shared), command) == old(self)@.resumed(
                *old(shared),
                reply,
                now,
            ),
    {
        let mut step: Step<Vec<Command>> = Step::Idle;
        std::mem::swap(&mut self.step, &mut step);
        match reply {
            Reply::Failed(fault) => self.resume_failed(shared, step, fault, now),
            _ => self.resume_done(shared, step, reply, now),
        }
    }

    #[verifier::rlimit(30)]
    fn resume_failed(
        &mut self,
        shared: &mut SharedState,
        step: Step<Vec<Command>>,
        fault: RttFault,
        now: Interval,
    ) -> (command: Command)
        requires
            old(self)@.step is Idle,
        ensures
            outcome(*final(self), *final(shared), command) == old(self)@.resumed_failed(
                step_view(step),
                *old(shared),
                fault,
                now,
            ),
    {
        match step {
            Step::Idle | Step::RecoverStatus => self.rest(),
            Step::RecoverCore => {
                self.state = RttSessionState::Stopped(
                    StoppedReason::Error(Error::CoreAttach(fault.into_message())),
                );
                self.rest()
            },
            Step::RunMetrics(bytes) => self.forward(shared, bytes, now),
            // A core that cannot be reached is left as it is
            Step::StopCore(leave, _) => {
                let todo: Vec<Command> = Vec::new();
                assert(todo@ =~= Seq::<Command>::empty());
                self.stop_next(Ghost(*shared), leave, todo)
            },
            Step::StopStatus(leave, resume) => self.stop_begins(shared, leave, resume),
            Step::Stop(leave, todo) => self.stop_next(Ghost(*shared), leave, todo),
            Step::Close => {
                self.state = RttSessionState::Shutdown;
                self.rest()
            },
            Step::AttachCore | Step::AttachRegion | Step::Attach(..) | Step::AttachStatus(_) => {
                let error = failure(&step, fault);
                self.fail_attach(shared, error, now)
            },
            _ => {
                let error = failure(&step, fault);
                self.fail(shared, error)
            },
        }
    }

    #[verifier::rlimit(30)]
    fn resume_done(
        &mut self,
        shared: &mut SharedState,
        step: Step<Vec<Command>>,
        reply: Reply,
        now: Interval,
    ) -> (command: Command)
        requires
            old(self)@.step is Idle,
            session_model::step_accepts(step_view(step), reply),
            !(reply is Failed),
        ensures
            outcome(*final(self), *final(shared), command) == old(self)@.resumed_done(
                step_view(step),
                *old(shared),
                reply,
                now,
            ),
    {
        match step {
            Step::Idle => self.rest(),
            Step::RecoverCore => self.ask(Step::RecoverStatus, Command::ReadStatus),
            Step::RecoverStatus => {
                self.state = RttSessionState::Init;
                self.rest()
            },
            Step::StopCore(leave, held) => {
                let resume = self.resumes(held, &leave);
                if self.waits_at_breakpoint() {
                    self.ask(Step::StopStatus(leave, resume), Command::ReadStatus)
                } else {
                    self.stop_begins(shared, leave, resume)
                }
            },
            Step::StopStatus(leave, resume) => {
                let halted: bool = match reply {
                    Reply::Status(CoreStatus::Halted(_)) => true,
                    _ => false,
                };
                // The core has halted where the channel mode was to be set up
                self.stop_begins(shared, leave, resume || halted)
            },
            Step::Stop(leave, todo) => self.stop_next(Ghost(*shared), leave, todo),
            Step::Close => {
                self.state = RttSessionState::Shutdown;
                self.rest()
            },
            Step::SetupCore | Step::SetupStatus | Step::Setup(..) | Step::SetupRunning =>
                self.do_init(shared, step, reply, now),
            Step::AttachCore | Step::AttachRegion | Step::Attach(..) => self.do_rtt_attach(
                shared,
                step,
                reply,
                now,
            ),
            Step::AttachStatus(_) | Step::Respond(_) => self.do_rtt_attach(
                shared,
                step,
                reply,
                now,
            ),
            Step::RunCore | Step::RunRead | Step::RunMetrics(_) | Step::RunWrite
            | Step::RunStatus | Step::RunStack(_) | Step::RunCounter(_) => self.do_run(
                shared,
                step,
                reply,
                now,
            ),
        }
    }

    /// Goes on with core setup.
    #[verifier::rlimit(30)]
    fn do_init(
        &mut self,
        shared: &mut SharedState,
        step: Step<Vec<Command>>,
        reply: Reply,
        now: Interval,
    ) -> (command: Command)
        requires
            old(self)@.step is Idle,
            session_model::step_accepts(step_view(step), reply),
            !(reply is Failed),
        ensures
            outcome(*final(self), *final(shared), command) == old(self)@.init_resumed(
                step_view(step),
                *old(shared),
                reply,
                now,
            ),
    {
        match step {
            Step::SetupCore => self.ask(Step::SetupStatus, Command::ReadStatus),
            Step::SetupStatus => {
                let halted: bool = match reply {
                    Reply::Status(CoreStatus::Halted(_)) => true,
                    _ => false,
                };
                self.set_up_reset(shared, halted)
            },
            Step::Setup(phase, halted, todo) => self.setup_next(shared, phase, halted, todo, now),
            Step::SetupRunning => {
                let running: bool = match reply {
                    Reply::Status(CoreStatus::Running) => true,
                    _ => false,
                };
                if running {
                    self.set_up_breakpoint(Ghost(*shared), now)
                } else {
                    self.fail(shared, Error::CoreNotRunning(self.target_cfg.core))
                }
            },
            _ => self.rest(),
        }
    }

    /// Goes on with attaching to RTT.
    #[verifier::rlimit(30)]
    fn do_rtt_attach(
        &mut self,
        shared: &mut SharedState,
        step: Step<Vec<Command>>,
        reply: Reply,
        now: Interval,
    ) -> (command: Command)
        requires
            old(self)@.step is Idle,
            session_model::step_accepts(step_view(step), reply),
            !(reply is Failed),
        ensures
            outcome(*final(self), *final(shared), command) == old(self)@.attach_resumed(
                step_view(step),
                *old(shared),
                reply,
                now,
            ),
    {
        match step {
            Step::AttachCore => {
                let region = match self.rtt_cfg.control_block_address {
                    Some(address) => ScanRegion::Exact(address),
                    None => ScanRegion::Target,
                };
                self.ask(Step::AttachRegion, Command::AttachRtt(region))
            },
            Step::AttachRegion => {
                match reply {
                    Reply::Attached(control_block, up, down) => self.attached(
                        shared,
                        control_block,
                        up,
                        down,
                        now,
                    ),
                    _ => self.rest(),
                }
            },
            Step::Attach(phase, handles, todo) => self.attach_next(
                shared,
                phase,
                handles,
                todo,
                now,
            ),
            Step::AttachStatus(handles) => {
                match reply {
                    Reply::Status(status) => self.attach_resume(shared, handles, status, now),
                    _ => self.rest(),
                }
            },
            Step::Respond(handles) => {
                self.client_response_sent = true;
                self.run(Ghost(*shared), handles, now)
            },
            _ => self.rest(),
        }
    }

    /// Goes on with a turn of a running session.
    #[verifier::rlimit(30)]
    fn do_run(
        &mut self,
        shared: &mut SharedState,
        step: Step<Vec<Command>>,
        reply: Reply,
        now: Interval,
    ) -> (command: Command)
        requires
            old(self)@.step is Idle,
            session_model::step_accepts(step_view(step), reply),
            !(reply is Failed),
        ensures
            outcome(*final(self), *final(shared), command) == old(self)@.run_resumed(
                step_view(step),
                *old(shared),
                reply,
                now,
            ),
    {
        match step {
            Step::RunCore => self.poll(shared, now),
            Step::RunRead => {
                match reply {
                    Reply::Read(bytes) => self.read(shared, bytes, now),
                    _ => self.rest(),
                }
            },
            Step::RunMetrics(bytes) => self.forward(shared, bytes, now),
            Step::RunWrite => self.rest(),
            Step::RunStatus => {
                match reply {
                    Reply::Status(status) => self.core_checked(shared, status, now),
                    _ => self.rest(),
                }
            },
            Step::RunStack(reason) => self.ask(
                Step::RunCounter(reason),
                Command::ReadProgramCounter,
            ),
            Step::RunCounter(reason) => {
                match reply {
                    Reply::Register(counter) => {
                        let stopped = match reason {
                            HaltReason::Breakpoint => StoppedReason::Breakpoint(counter.address()),
                            _ => StoppedReason::ResetCatch,
                        };
                        self.stop(shared, Leave::Stop(stopped))
                    },
                    _ => self.rest(),
                }
            },
            _ => self.rest(),
        }
    }

    fn ask(&mut self, step: Step<Vec<Command>>, command: Command) -> (asked: Command)
        ensures
            asked == command,
            final(self)@ == (SessionModel { step: step_view(step), ..old(self)@ }),
    {
        self.step = step;
        command
    }

    fn rest(&mut self) -> (command: Command)
        ensures
            command == Command::EndTurn,
            final(self)@ == (SessionModel { step: Step::Idle, ..old(self)@ }),
    {
        self.ask(Step::Idle, Command::EndTurn)
    }

    fn ask_core(&mut self, step: Step<Vec<Command>>) -> (command: Command)
        ensures
            command == Command::AttachCore(old(self)@.target_cfg.core),
            final(self)@ == (SessionModel { step: step_view(step), ..old(self)@ }),
    {
        self.ask(step, Command::AttachCore(self.target_cfg.core))
    }

    fn fail(&mut self, shared: &mut SharedState, error: Error) -> (command: Command)
        ensures
            outcome(*final(self), *final(shared), command) == old(self)@.failed(
                *old(shared),
                error,
            ),
    {
        if self.target_cfg.auto_recover && !matches!(error, Error::ClientDisconnected) {
            self.stop(shared, Leave::Stop(StoppedReason::Error(error)))
        } else {
            self.stop(shared, Leave::Shutdown)
        }
    }

    fn stop(&mut self, shared: &mut SharedState, leave: Leave) -> (command: Command)
        ensures
            outcome(*final(self), *final(shared), command) == old(self)@.leaving(
                *old(shared),
                leave,
            ),
    {
        if matches!(self.state, RttSessionState::Stopped(_)) || self.is_shutdown() {
            self.left(Ghost(*shared), leave)
        } else {
            let held = self.release(shared);
            self.ask_core(Step::StopCore(leave, held))
        }
    }

    fn left(&mut self, Ghost(shared): Ghost<SharedState>, leave: Leave) -> (command: Command)
        ensures
            outcome(*final(self), shared, command) == old(self)@.left(
                shared,
                leave,
            ),
    {
        match leave {
            Leave::Shutdown => self.ask(Step::Close, Command::CloseStream),
            Leave::Stop(_) => self.rest(),
        }
    }

    fn waits_at_breakpoint(&self) -> (yes: bool)
        ensures
            yes == self@.waits_at_breakpoint(),
    {
        matches!(self.state, RttSessionState::RttAttach(_))
            && !self.target_cfg.bootloader_companion_application
            && self.rtt_cfg.setup_on_breakpoint_address.is_some()
    }

    fn resumes(&self, held: bool, leave: &Leave) -> (resume: bool)
        ensures
            resume == self@.resumes(held, *leave),
    {
        let drives: bool = !self.target_cfg.bootloader_companion_application;
        match leave {
            Leave::Stop(StoppedReason::Breakpoint(_)) => drives,
            Leave::Stop(StoppedReason::ResetCatch) => drives || held,
            _ => false,
        }
    }

    fn stop_commands(&self, nobody_catches: bool, resume: bool) -> (todo: Vec<Command>)
        ensures
            todo@ == self@.stop_script(nobody_catches, resume),
    {
        let mut todo: Vec<Command> = Vec::new();
        if nobody_catches {
            todo.push(Command::DisableVectorCatch);
        }
        if self.is_running() && !self.rtt_cfg.disable_control_plane {
            todo.push(Command::WriteDown(TrcCommand::StopTracing));
        }
        if self.waits_at_breakpoint() {
            if let Some(address) = self.rtt_cfg.setup_on_breakpoint_address {
                todo.push(Command::ClearBreakpoint(address));
            }
        }
        if !self.target_cfg.bootloader_companion_application {
            if let Some(address) = self.rtt_cfg.stop_on_breakpoint_address {
                todo.push(Command::ClearBreakpoint(address));
            }
        }
        if resume {
            todo.push(Command::Run);
        }
        assert(todo@ =~= self@.stop_script(nobody_catches, resume));
        todo
    }

    fn stop_begins(&mut self, shared: &mut SharedState, leave: Leave, resume: bool) -> (command:
        Command)
        ensures
            outcome(*final(self), *final(shared), command) == old(self)@.stop_begins(
                *old(shared),
                leave,
                resume,
            ),
    {
        let todo = self.stop_commands(shared.vector_catch_enabled == 0, resume);
        self.stop_next(Ghost(*shared), leave, todo)
    }

    fn stop_next(
        &mut self,
        Ghost(shared): Ghost<SharedState>,
        leave: Leave,
        todo: Vec<Command>,
    ) -> (command: Command)
        ensures
            outcome(*final(self), shared, command) == old(self)@.stop_next(
                shared,
                leave,
                todo@,
            ),
    {
        let mut todo = todo;
        if todo.len() > 0 {
            let first = take_first(&mut todo);
            self.ask(Step::Stop(leave, todo), first)
        } else {
            match leave {
                Leave::Shutdown => {
                    self.state = RttSessionState::Stopped(StoppedReason::Shutdown);
                    self.left(Ghost(shared), Leave::Shutdown)
                },
                Leave::Stop(reason) => {
                    self.state = RttSessionState::Stopped(reason);
                    self.rest()
                },
            }
        }
    }

    fn set_up_reset(&mut self, shared: &mut SharedState, halted: bool) -> (command: Command)
        ensures
            outcome(*final(self), *final(shared), command) == old(self)@.set_up_reset(
                *old(shared),
                halted,
            ),
    {
        let mut todo = reset_commands(&self.target_cfg);
        if todo.len() > 0 {
            let first = take_first(&mut todo);
            self.ask(Step::Setup(SetupPhase::Reset, halted, todo), first)
        } else {
            self.set_up_clear(shared, halted)
        }
    }

    fn set_up_clear(&mut self, shared: &mut SharedState, halted: bool) -> (command: Command)
        ensures
            outcome(*final(self), *final(shared), command) == old(self)@.set_up_clear(
                *old(shared),
                halted,
            ),
    {
        if self.target_cfg.bootloader_companion_application {
            return self.set_up_catch(shared, halted);
        }
        // Disable any previous vector catching and breakpoints
        // if we're the first core to do so (possible this is a shared core session)
        let first_on_core = shared.inc_clear_vector_catch_and_breakpoints();
        self.cleared = true;
        let mut todo = clear_commands(first_on_core, shared.vector_catch_enabled == 0);
        if todo.len() > 0 {
            let first = take_first(&mut todo);
            self.ask(Step::Setup(SetupPhase::Clear, halted, todo), first)
        } else {
            self.set_up_catch(shared, halted)
        }
    }

    fn set_up_catch(&mut self, shared: &mut SharedState, halted: bool) -> (command: Command)
        ensures
            outcome(*final(self), *final(shared), command) == old(self)@.set_up_catch(
                *old(shared),
                halted,
            ),
    {
        // If we're the bootloader or companion app core, enable reset vector catching
        // early on, other cores will do the same after RTT attach succeeds
        // since they would otherwise trip the catch immediately if they're
        // waiting to be started by primary core
        if self.target_cfg.bootloader || self.target_cfg.bootloader_companion_application {
            let first_on_core = shared.inc_vector_catch_enabled();
            self.caught = true;
            let mut todo = catch_commands(first_on_core);
            if todo.len() > 0 {
                let first = take_first(&mut todo);
                return self.ask(Step::Setup(SetupPhase::Catch, halted, todo), first);
            }
        }
        self.set_up_start(Ghost(*shared), halted)
    }

    fn set_up_start(
        &mut self,
        Ghost(shared): Ghost<SharedState>,
        halted: bool,
    ) -> (command: Command)
        ensures
            outcome(*final(self), shared, command) == old(self)@.set_up_start(
                shared,
                halted,
            ),
    {
        let mut todo = start_commands(&self.target_cfg, halted);
        if todo.len() > 0 {
            let first = take_first(&mut todo);
            self.ask(Step::Setup(SetupPhase::Start, halted, todo), first)
        } else {
            self.ask(Step::SetupRunning, Command::ReadStatus)
        }
    }

    fn set_up_breakpoint(
        &mut self,
        Ghost(shared): Ghost<SharedState>,
        now: Interval,
    ) -> (command: Command)
        ensures
            outcome(*final(self), shared, command) == old(self)@.set_up_breakpoint(
                shared,
                now,
            ),
    {
        let mut todo = breakpoint_commands(&self.target_cfg, &self.rtt_cfg);
        if todo.len() > 0 {
            let first = take_first(&mut todo);
            self.ask(Step::Setup(SetupPhase::Breakpoint, false, todo), first)
        } else {
            self.set_up(Ghost(shared), now)
        }
    }

    fn set_up(&mut self, Ghost(shared): Ghost<SharedState>, now: Interval) -> (command: Command)
        ensures
            outcome(*final(self), shared, command) == old(self)@.set_up(
                shared,
                now,
            ),
    {
        self.attach_retry_limiter.reset_at(now);
        self.state = RttSessionState::RttAttach(now);
        self.rest()
    }

    fn setup_next(
        &mut self,
        shared: &mut SharedState,
        phase: SetupPhase,
        halted: bool,
        todo: Vec<Command>,
        now: Interval,
    ) -> (command: Command)
        ensures
            outcome(*final(self), *final(shared), command) == old(self)@.setup_next(
                *old(shared),
                phase,
                halted,
                todo@,
                now,
            ),
    {
        let mut todo = todo;
        if todo.len() > 0 {
            let first = take_first(&mut todo);
            self.ask(Step::Setup(phase, halted, todo), first)
        } else {
            match phase {
                SetupPhase::Reset => self.set_up_clear(shared, halted),
                SetupPhase::Clear => self.set_up_catch(shared, halted),
                SetupPhase::Catch => self.set_up_start(Ghost(*shared), halted),
                SetupPhase::Start => self.ask(Step::SetupRunning, Command::ReadStatus),
                SetupPhase::Breakpoint => self.set_up(Ghost(*shared), now),
            }
        }
    }

    fn fail_attach(&mut self, shared: &mut SharedState, error: Error, now: Interval) -> (command:
        Command)
        ensures
            outcome(*final(self), *final(shared), command) == old(self)@.attach_failed(
                *old(shared),
                error,
                now,
            ),
    {
        if let Some(ms) = self.rtt_cfg.attach_timeout_ms {
            if matches!(error, Error::Rtt(RttFault::ControlBlockNotFound(_))) {
                let timed_out: bool = match &self.state {
                    RttSessionState::RttAttach(started) => now.since(started) > ms as u128
                        * 1_000_000,
                    _ => true,
                };
                if !timed_out {
                    // We'll try again on the next schedule
                    return self.rest();
                }
            }
        }
        self.fail(shared, error)
    }

    fn attached(
        &mut self,
        shared: &mut SharedState,
        control_block: u64,
        up: usize,
        down: usize,
        now: Interval,
    ) -> (command: Command)
        ensures
            outcome(*final(self), *final(shared), command) == old(self)@.attached(
                *old(shared),
                control_block,
                up,
                down,
                now,
            ),
    {
        let up_channel: u32 = self.rtt_cfg.up_channel;
        let down_channel: u32 = self.rtt_cfg.down_channel;
        if up_channel as usize >= up {
            self.fail_attach(shared, Error::UpChannelInvalid(up_channel as usize), now)
        } else if down_channel as usize >= down {
            self.fail_attach(shared, Error::DownChannelInvalid(down_channel as usize), now)
        } else {
            let handles = RttHandles { control_block, up_channel, down_channel };
            let todo: Vec<Command> = Vec::new();
            assert(todo@ =~= Seq::<Command>::empty());
            self.ask(
                Step::Attach(AttachPhase::Open, handles, todo),
                Command::OpenChannels(up_channel, down_channel),
            )
        }
    }

    fn attach_mode(&mut self, shared: &mut SharedState, handles: RttHandles, now: Interval) -> (
    command: Command)
        ensures
            outcome(*final(self), *final(shared), command) == old(self)@.attach_mode(
                *old(shared),
                handles,
                now,
            ),
    {
        if !self.target_cfg.bootloader_companion_application
            && self.rtt_cfg.setup_on_breakpoint_address.is_some() {
            let todo: Vec<Command> = Vec::new();
            assert(todo@ =~= Seq::<Command>::empty());
            self.ask(Step::Attach(AttachPhase::Mode, handles, todo), Command::SetBlockIfFull)
        } else {
            self.attach_control(shared, handles, now)
        }
    }

    fn attach_release(&mut self, shared: &mut SharedState, handles: RttHandles, now: Interval) -> (
    command: Command)
        ensures
            outcome(*final(self), *final(shared), command) == old(self)@.attach_release(
                *old(shared),
                handles,
                now,
            ),
    {
        match self.rtt_cfg.setup_on_breakpoint_address {
            Some(address) => {
                let todo: Vec<Command> = Vec::new();
                assert(todo@ =~= Seq::<Command>::empty());
                self.ask(
                    Step::Attach(AttachPhase::Release, handles, todo),
                    Command::ClearBreakpoint(address),
                )
            },
            None => self.attach_control(shared, handles, now),
        }
    }

    fn attach_resume(
        &mut self,
        shared: &mut SharedState,
        handles: RttHandles,
        status: CoreStatus,
        now: Interval,
    ) -> (command: Command)
        ensures
            outcome(*final(self), *final(shared), command) == old(self)@.attach_resume(
                *old(shared),
                handles,
                status,
                now,
            ),
    {
        match status {
            CoreStatus::Halted(_) => {
                let todo: Vec<Command> = Vec::new();
                assert(todo@ =~= Seq::<Command>::empty());
                self.ask(Step::Attach(AttachPhase::Resume, handles, todo), Command::Run)
            },
            _ => self.attach_control(shared, handles, now),
        }
    }

    fn attach_control(&mut self, shared: &mut SharedState, handles: RttHandles, now: Interval) -> (
    command: Command)
        ensures
            outcome(*final(self), *final(shared), command) == old(self)@.attach_control(
                *old(shared),
                handles,
                now,
            ),
    {
        let mut todo = control_commands(&self.rtt_cfg);
        if todo.len() > 0 {
            let first = take_first(&mut todo);
            self.ask(Step::Attach(AttachPhase::Control, handles, todo), first)
        } else {
            self.attach_catch(shared, handles, now)
        }
    }

    fn attach_catch(&mut self, shared: &mut SharedState, handles: RttHandles, now: Interval) -> (
    command: Command)
        ensures
            outcome(*final(self), *final(shared), command) == old(self)@.attach_catch(
                *old(shared),
                handles,
                now,
            ),
    {
        // Auxilary cores get vector catching enabled after we know they're running
        if !self.target_cfg.bootloader && !self.target_cfg.bootloader_companion_application {
            let first_on_core = shared.inc_vector_catch_enabled();
            self.caught = true;
            let mut todo = catch_commands(first_on_core);
            if todo.len() > 0 {
                let first = take_first(&mut todo);
                return self.ask(Step::Attach(AttachPhase::Catch, handles, todo), first);
            }
        }
        self.respond(Ghost(*shared), handles, now)
    }

    fn attach_next(
        &mut self,
        shared: &mut SharedState,
        phase: AttachPhase,
        handles: RttHandles,
        todo: Vec<Command>,
        now: Interval,
    ) -> (command: Command)
        ensures
            outcome(*final(self), *final(shared), command) == old(self)@.attach_next(
                *old(shared),
                phase,
                handles,
                todo@,
                now,
            ),
    {
        let mut todo = todo;
        if todo.len() > 0 {
            let first = take_first(&mut todo);
            self.ask(Step::Attach(phase, handles, todo), first)
        } else {
            match phase {
                AttachPhase::Open => self.attach_mode(shared, handles, now),
                AttachPhase::Mode => self.attach_release(shared, handles, now),
                AttachPhase::Release => self.ask(
                    Step::AttachStatus(handles),
                    Command::ReadStatus,
                ),
                AttachPhase::Resume => self.attach_control(shared, handles, now),
                AttachPhase::Control => self.attach_catch(shared, handles, now),
                AttachPhase::Catch => self.respond(Ghost(*shared), handles, now),
            }
        }
    }

    fn respond(
        &mut self,
        Ghost(shared): Ghost<SharedState>,
        handles: RttHandles,
        now: Interval,
    ) -> (command: Command)
        ensures
            outcome(*final(self), shared, command) == old(self)@.respond(
                shared,
                handles,
                now,
            ),
    {
        // Send the client a success response once we're pretty sure things are
        // working if we haven't already
        if self.client_response_sent {
            self.run(Ghost(shared), handles, now)
        } else {
            self.ask(Step::Respond(handles), Command::SendStarted(self.id))
        }
    }

    fn run(
        &mut self,
        Ghost(shared): Ghost<SharedState>,
        handles: RttHandles,
        now: Interval,
    ) -> (command: Command)
        ensures
            outcome(*final(self), shared, command) == old(self)@.running(
                shared,
                handles,
                now,
            ),
    {
        self.last_data = now;
        self.rtt_poll_limiter.reset_at(now);
        self.idle_poll_limiter.reset_at(now);
        self.recovery_limiter.reset_at(now);
        self.stopping_condition_limiter.reset_at(now);
        self.state = RttSessionState::Run(handles);
        self.rest()
    }

    fn poll(&mut self, shared: &mut SharedState, now: Interval) -> (command: Command)
        ensures
            outcome(*final(self), *final(shared), command) == old(self)@.poll(*old(shared), now),
    {
        let due: bool = if self.last_rtt_read_had_data {
            self.rtt_poll_limiter.check_at(now)
        } else {
            self.idle_poll_limiter.check_at(now)
        };
        if due {
            self.ask(Step::RunRead, Command::ReadUp)
        } else {
            self.check_core(shared, now)
        }
    }

    fn read(&mut self, shared: &mut SharedState, bytes: usize, now: Interval) -> (command: Command)
        ensures
            outcome(*final(self), *final(shared), command) == old(self)@.read(
                *old(shared),
                bytes,
                now,
            ),
    {
        self.last_rtt_read_had_data = bytes != 0;
        if bytes != 0 {
            self.last_data = now;
        }
        if self.log_rtt_metrics {
            let update = self.metrics.update(bytes, now);
            self.ask(Step::RunMetrics(bytes), Command::LogMetrics(update))
        } else {
            self.forward(shared, bytes, now)
        }
    }

    fn forward(&mut self, shared: &mut SharedState, bytes: usize, now: Interval) -> (command:
        Command)
        ensures
            outcome(*final(self), *final(shared), command) == old(self)@.forward(
                *old(shared),
                bytes,
                now,
            ),
    {
        if bytes != 0 {
            self.ask(Step::RunWrite, Command::WriteClient(bytes))
        } else {
            // No data
            self.check_core(shared, now)
        }
    }

    fn check_core(&mut self, shared: &mut SharedState, now: Interval) -> (command: Command)
        ensures
            outcome(*final(self), *final(shared), command) == old(self)@.check_core(
                *old(shared),
                now,
            ),
    {
        // Check for stopping conditions (breakpoint, vector catch)
        let due = self.stopping_condition_limiter.check_at(now);
        if due || self.is_out_of_data(now) {
            self.ask(Step::RunStatus, Command::ReadStatus)
        } else {
            self.rest()
        }
    }

    fn is_out_of_data(&self, now: Interval) -> (yes: bool)
        ensures
            yes == self@.is_out_of_data(now),
    {
        match self.rtt_cfg.no_data_stop_timeout_ms {
            Some(ms) => now.since(&self.last_data) > ms as u128 * 1_000_000,
            None => false,
        }
    }

    fn core_checked(&mut self, shared: &mut SharedState, status: CoreStatus, now: Interval) -> (
    command: Command)
        ensures
            outcome(*final(self), *final(shared), command) == old(self)@.core_checked(
                *old(shared),
                status,
                now,
            ),
    {
        match status {
            CoreStatus::Running => {
                if self.is_out_of_data(now) {
                    self.stop(shared, Leave::Stop(StoppedReason::NoData))
                } else {
                    self.rest()
                }
            },
            CoreStatus::Halted(reason) => self.ask(
                Step::RunStack(reason),
                Command::ReadStackPointer,
            ),
            _ => self.stop(shared, Leave::Stop(StoppedReason::ResetCatch)),
        }
    }
}

} // verus!
