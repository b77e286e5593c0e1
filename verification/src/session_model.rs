//! What a session does, step by step.
use crate::clock::Interval;
use crate::command::{Command, Reply, ScanRegion};
use crate::metrics::Metrics;
use crate::protocol::{ProxySessionId, RttConfig, TargetConfig};
use crate::rate_limiter::LimiterView;
use crate::session_types::{Error, RttFault, RttHandles, RttSessionState, StoppedReason};
use crate::shared_state::SharedState;
use crate::target::{CoreStatus, HaltReason};
use crate::trc_command::TrcCommand;
use vstd::prelude::*;

verus! {

/// The parts of the core setup routine that are lists of commands.
#[derive(Clone, Copy, Debug, PartialEq, Eq, Structural)]
pub enum SetupPhase {
    /// Reset and halt the core
    Reset,
    /// Clear what earlier sessions left behind
    Clear,
    /// Catch resets of the core
    Catch,
    /// Let the core run
    Start,
    /// Set the breakpoints
    Breakpoint,
}

/// The parts of the RTT attach routine that are lists of commands.
#[derive(Clone, Copy, Debug, PartialEq, Eq, Structural)]
pub enum AttachPhase {
    /// Open the channels
    Open,
    /// Make the target wait where the up channel is full
    Mode,
    /// Clear the breakpoint that was set for that
    Release,
    /// Let a core run on that has halted there
    Resume,
    /// Control commands to the target
    Control,
    /// Catch resets of the core
    Catch,
}

/// How a session leaves its core.
#[derive(Debug)]
pub enum Leave {
    /// It stops, and may come back
    Stop(StoppedReason),
    /// It shuts down for good
    Shutdown,
}

impl Leave {
    /// Why the session is stopped when it has left.
    pub open spec fn reason(self) -> StoppedReason {
        match self {
            Leave::Stop(reason) => reason,
            Leave::Shutdown => StoppedReason::Shutdown,
        }
    }
}

/// What a session is waiting for in the middle of a turn. `S` is a list of
/// commands.
#[derive(Debug)]
pub enum Step<S> {
    /// No turn is under way
    Idle,
    /// Recovery of a stopped session: the core, then its status
    RecoverCore,
    RecoverStatus,
    /// Core setup: the core, its status, the commands of a phase (with whether
    /// the core was halted at first and the commands still to come), and the
    /// check that the core runs
    SetupCore,
    SetupStatus,
    Setup(SetupPhase, bool, S),
    SetupRunning,
    /// RTT attach: the core, the control block, the commands of a phase, the check
    /// for a halted core, and the response to the client
    AttachCore,
    AttachRegion,
    Attach(AttachPhase, RttHandles, S),
    AttachStatus(RttHandles),
    Respond(RttHandles),
    /// Running: the core, a read and what becomes of its bytes, and the check
    /// for a halted core
    RunCore,
    RunRead,
    RunMetrics(usize),
    RunWrite,
    RunStatus,
    RunStack(HaltReason),
    RunCounter(HaltReason),
    /// Leaving the core: the core (with whether the session caught resets of it), the
    /// check for a core that has halted where the channel mode is set up (with
    /// whether the core is to run on in any case), then the commands still to come
    StopCore(Leave, bool),
    StopStatus(Leave, bool),
    Stop(Leave, S),
    /// Closing the client's connection
    Close,
}

/// The whole state of a session.
pub struct SessionModel {
    pub id: ProxySessionId,
    pub name: Seq<char>,
    pub target_cfg: TargetConfig,
    pub rtt_cfg: RttConfig,
    pub log_rtt_metrics: bool,
    pub client_response_sent: bool,
    pub state: RttSessionState,
    pub buffer_size: usize,
    pub metrics: Metrics,
    pub last_rtt_read_had_data: bool,
    /// When the last data came, or when the session began to run
    pub last_data: Interval,
    /// Whether the session has left its core once. For a bootloader that signals
    /// completion.
    pub completed: bool,
    /// Whether the session has counted itself in among those that cleared the core
    pub cleared: bool,
    /// Whether the session has counted itself in among those that catch resets
    pub caught: bool,
    pub rtt_poll: LimiterView,
    pub idle_poll: LimiterView,
    pub recovery: LimiterView,
    pub attach_retry: LimiterView,
    pub stopping_condition: LimiterView,
    pub step: Step<Seq<Command>>,
}

/// What one step leads to: the session and the shared state of its core
/// afterwards, and what is to be done next.
pub struct Outcome {
    pub session: SessionModel,
    pub shared: SharedState,
    pub command: Command,
}

/// The time to wait for a reset core to halt, in milliseconds
pub const RESET_TIMEOUT_MS: u64 = 100;

/// The time between a stop and a start command, in milliseconds
pub const RESTART_DELAY_MS: u64 = 10;

/// No command where the condition does not hold.
pub open spec fn only_if(condition: bool, script: Seq<Command>) -> Seq<Command> {
    if condition {
        script
    } else {
        Seq::empty()
    }
}

/// Whether the session drives the control functionality of its core. The companion of
/// a bootloader does not.
pub open spec fn drives(cfg: TargetConfig) -> bool {
    !cfg.bootloader_companion_application
}

/// Whether a command drives the control functionality of a core: resets it, runs it,
/// or sets or clears breakpoints.
pub open spec fn drives_the_core(command: Command) -> bool {
    ||| command is ResetAndHalt
    ||| command is Run
    ||| command is SetBreakpoint
    ||| command is ClearBreakpoint
    ||| command is ClearAllBreakpoints
}

/// The commands that reset the core and read its registers.
pub open spec fn reset_script(cfg: TargetConfig) -> Seq<Command> {
    only_if(
        drives(cfg) && cfg.reset,
        seq![
            Command::ResetAndHalt(RESET_TIMEOUT_MS),
            Command::ReadStackPointer,
            Command::ReadProgramCounter,
        ],
    )
}

/// The commands that clear what earlier sessions left behind. Only the first
/// session on the core does it, and it leaves a vector catch alone that somebody
/// holds.
pub open spec fn clear_script(first: bool, nobody_catches: bool) -> Seq<Command> {
    only_if(
        first,
        only_if(nobody_catches, seq![Command::DisableVectorCatch])
            + seq![Command::ClearAllBreakpoints],
    )
}

/// The command that catches core resets. Only the first session on the core does
/// it.
pub open spec fn catch_script(first: bool) -> Seq<Command> {
    only_if(first, seq![Command::EnableVectorCatch])
}

/// Whether the session enables the vector catch before it attaches to RTT. Other
/// sessions do so after that, since their core would trip the catch right away
/// if it waits to be started by another core.
pub open spec fn catches_early(cfg: TargetConfig) -> bool {
    cfg.bootloader || cfg.bootloader_companion_application
}

/// The commands that let a halted core run.
pub open spec fn start_script(cfg: TargetConfig, halted: bool) -> Seq<Command> {
    only_if(
        drives(cfg) && (cfg.reset || halted),
        seq![Command::ReadStackPointer, Command::ReadProgramCounter, Command::Run],
    )
}

/// The command that sets a breakpoint, if there is one to set.
pub open spec fn set_breakpoint(address: Option<u64>) -> Seq<Command> {
    match address {
        Some(address) => seq![Command::SetBreakpoint(address)],
        None => Seq::empty(),
    }
}

/// The command that clears a breakpoint, if there is one to clear.
pub open spec fn clear_breakpoint(address: Option<u64>) -> Seq<Command> {
    match address {
        Some(address) => seq![Command::ClearBreakpoint(address)],
        None => Seq::empty(),
    }
}

/// The commands that set the breakpoints: the one which stops the session, and last the
/// one where the channel mode is to be set up.
pub open spec fn breakpoint_script(target: TargetConfig, cfg: RttConfig) -> Seq<Command> {
    only_if(
        drives(target),
        only_if(
            cfg.setup_on_breakpoint_address is Some || cfg.stop_on_breakpoint_address is Some,
            seq![Command::CountBreakpoints],
        ) + set_breakpoint(cfg.stop_on_breakpoint_address) + set_breakpoint(
            cfg.setup_on_breakpoint_address,
        ),
    )
}

/// Whether the session sets the channel mode up at a breakpoint.
pub open spec fn sets_mode_up(target: TargetConfig, cfg: RttConfig) -> bool {
    drives(target) && cfg.setup_on_breakpoint_address is Some
}

/// The commands that start tracing on the target, after a stop if so configured.
pub open spec fn control_script(cfg: RttConfig) -> Seq<Command> {
    only_if(
        !cfg.disable_control_plane,
        only_if(
            cfg.restart,
            seq![
                Command::WriteDown(TrcCommand::StopTracing),
                Command::Sleep(RESTART_DELAY_MS),
            ],
        ) + seq![Command::WriteDown(TrcCommand::StartTracing)],
    )
}

/// Where the control block is looked for.
pub open spec fn scan_region(cfg: RttConfig) -> ScanRegion {
    match cfg.control_block_address {
        Some(address) => ScanRegion::Exact(address),
        None => ScanRegion::Target,
    }
}

impl SessionModel {
    /// A session that was just made.
    pub open spec fn fresh(
        id: ProxySessionId,
        name: Seq<char>,
        target_cfg: TargetConfig,
        rtt_cfg: RttConfig,
        log_rtt_metrics: bool,
        now: Interval,
    ) -> SessionModel {
        let buffer_size = if rtt_cfg.rtt_read_buffer_size < 64 {
            RttConfig::DEFAULT_RTT_BUFFER_SIZE as usize
        } else {
            rtt_cfg.rtt_read_buffer_size as usize
        };
        SessionModel {
            id,
            name,
            target_cfg,
            rtt_cfg,
            log_rtt_metrics,
            client_response_sent: false,
            state: RttSessionState::Init,
            buffer_size,
            metrics: Metrics::fresh(buffer_size as u64, now),
            last_rtt_read_had_data: true,
            last_data: now,
            completed: false,
            cleared: false,
            caught: false,
            rtt_poll: LimiterView::fresh(poll_nanos(rtt_cfg.rtt_poll_interval_ms), now.total()),
            idle_poll: LimiterView::fresh(
                poll_nanos(rtt_cfg.rtt_idle_poll_interval_ms),
                now.total(),
            ),
            recovery: LimiterView::fresh(50_000_000, now.total()),
            attach_retry: LimiterView::fresh(20_000_000, now.total()),
            stopping_condition: LimiterView::fresh(50_000_000, now.total()),
            step: Step::Idle,
        }
    }

    /// Whether what is still to be done belongs to a session like this: one that
    /// does not drive its core does nothing of that kind.
    pub open spec fn may_do(self, todo: Seq<Command>) -> bool {
        forall|i: int|
            0 <= i < todo.len() && drives_the_core(#[trigger] todo[i]) ==> drives(self.target_cfg)
    }

    /// Whether a command belongs to a session like this that leaves: one that does not
    /// drive its core at most lets it run on after a reset.
    pub open spec fn may_stop_with(self, leave: Leave, command: Command) -> bool {
        drives_the_core(command) ==> drives(self.target_cfg) || command is Run
            && leave.reason() is ResetCatch
    }

    /// What the session has counted itself in for fits where it stands: nothing
    /// before core setup gets to it and nothing once the session has begun to
    /// leave; the vector catch before it is attached only if that is done early.
    pub open spec fn counts_fit(self) -> bool {
        match self.step {
            Step::Setup(SetupPhase::Clear, ..) => !self.caught,
            Step::Setup(SetupPhase::Reset, ..) => !self.cleared && !self.caught,
            Step::Setup(..) | Step::SetupRunning => self.caught ==> catches_early(self.target_cfg),
            Step::StopCore(..) | Step::StopStatus(..) => !self.cleared && !self.caught,
            Step::Stop(..) | Step::Close => !self.cleared && !self.caught,
            Step::Attach(AttachPhase::Catch, ..) | Step::Respond(_) => true,
            _ => match self.state {
                RttSessionState::Init => !self.cleared && !self.caught,
                RttSessionState::RttAttach(_) => self.caught ==> catches_early(self.target_cfg),
                RttSessionState::Run(_) => true,
                RttSessionState::Stopped(_) => !self.cleared && !self.caught,
                RttSessionState::Shutdown => !self.cleared && !self.caught,
            },
        }
    }

    /// A session that has left its core, or is about to, is marked for it.
    pub open spec fn mark_fits(self) -> bool {
        ||| self.completed
        ||| self.is_on_core() && match self.step {
            Step::StopCore(..) | Step::StopStatus(..) | Step::Stop(..) | Step::Close => false,
            _ => true,
        }
    }

    /// The step fits the state, what is still to be done in it is something that
    /// belongs there, the session has counted itself in for what it should have, and
    /// it is marked if it has left its core. Disabling the vector catch is never put
    /// off.
    pub open spec fn wf(self) -> bool {
        self.counts_fit() && self.mark_fits() && match self.step {
            Step::Idle => true,
            Step::RecoverCore | Step::RecoverStatus => self.state is Stopped,
            Step::SetupCore | Step::SetupStatus | Step::SetupRunning => self.state is Init,
            Step::Setup(phase, _, todo) => {
                &&& self.state is Init
                &&& phase is Catch ==> todo.len() == 0
                &&& self.may_do(todo)
                &&& forall|i: int|
                    0 <= i < todo.len() ==> in_setup_phase(phase, #[trigger] todo[i]) && !(
                    todo[i] is DisableVectorCatch)
            },
            Step::AttachCore | Step::AttachRegion => self.state is RttAttach,
            Step::Attach(phase, _, todo) => {
                &&& self.state is RttAttach
                &&& !(phase is Control) ==> todo.len() == 0
                &&& phase is Control ==> !self.rtt_cfg.disable_control_plane
                &&& phase is Mode || phase is Release || phase is Resume ==> sets_mode_up(
                    self.target_cfg,
                    self.rtt_cfg,
                )
                &&& self.may_do(todo)
                &&& forall|i: int|
                    0 <= i < todo.len() ==> in_attach_phase(phase, #[trigger] todo[i])
            },
            Step::AttachStatus(_) => self.state is RttAttach && sets_mode_up(
                self.target_cfg,
                self.rtt_cfg,
            ),
            Step::Respond(_) => self.state is RttAttach && !self.client_response_sent,
            Step::RunCore | Step::RunRead | Step::RunWrite | Step::RunStatus => self.state is Run,
            Step::RunMetrics(_) | Step::RunStack(_) | Step::RunCounter(_) => self.state is Run,
            Step::StopCore(..) => self.is_on_core(),
            Step::StopStatus(..) => self.waits_at_breakpoint(),
            Step::Stop(leave, todo) => {
                &&& self.is_on_core()
                &&& forall|i: int|
                    0 <= i < todo.len() ==> in_stop_phase(#[trigger] todo[i]) && self.may_stop_with(
                        leave,
                        todo[i],
                    ) && !(todo[i] is DisableVectorCatch) && (todo[i] is WriteDown
                        ==> !self.rtt_cfg.disable_control_plane)
            },
            Step::Close => self.state is Stopped,
        }
    }

    /// Whether the session is stopped because its core could not be reached,
    /// which is most likely when the target has lost its power.
    pub open spec fn is_stopped_due_to_core_attach(self) -> bool {
        self.state matches RttSessionState::Stopped(
            StoppedReason::Error(Error::CoreAttach(_)),
        )
    }

    /// The session asks for something and waits.
    pub open spec fn ask(
        self,
        shared: SharedState,
        step: Step<Seq<Command>>,
        command: Command,
    ) -> Outcome {
        Outcome { session: SessionModel { step, ..self }, shared, command }
    }

    /// The turn is over.
    pub open spec fn rest(self, shared: SharedState) -> Outcome {
        self.ask(shared, Step::Idle, Command::EndTurn)
    }

    /// The session asks for its core.
    pub open spec fn ask_core(self, shared: SharedState, step: Step<Seq<Command>>) -> Outcome {
        self.ask(shared, step, Command::AttachCore(self.target_cfg.core))
    }

    /// Whether the core may have halted where the channel mode is set up: its
    /// breakpoint is set, and cleared only once the session has attached.
    pub open spec fn waits_at_breakpoint(self) -> bool {
        self.state is RttAttach && sets_mode_up(self.target_cfg, self.rtt_cfg)
    }

    /// Whether a session that leaves lets the core run on: it has halted at the
    /// session's breakpoint, or a reset was caught. A session that does not drive the
    /// core only does so where it caught resets itself.
    pub open spec fn resumes(self, held: bool, leave: Leave) -> bool {
        ||| leave.reason() is Breakpoint && drives(self.target_cfg)
        ||| leave.reason() is ResetCatch && (drives(self.target_cfg) || held)
    }

    /// The commands with which the session leaves its core, given whether nobody
    /// catches resets any more and whether the core is to run on.
    pub open spec fn stop_script(self, nobody_catches: bool, resume: bool) -> Seq<Command> {
        // Only disable vector catches if we're the last session to do so
        only_if(nobody_catches, seq![Command::DisableVectorCatch])
        // Send the stop command if we can
        + only_if(
            self.state is Run && !self.rtt_cfg.disable_control_plane,
            seq![Command::WriteDown(TrcCommand::StopTracing)],
        )
        // Clear the breakpoints; the one for the channel mode is there only until the
        // session has attached
        + only_if(
            self.waits_at_breakpoint(),
            clear_breakpoint(self.rtt_cfg.setup_on_breakpoint_address),
        )
        + only_if(
            drives(self.target_cfg),
            clear_breakpoint(self.rtt_cfg.stop_on_breakpoint_address),
        )
        // Run the core if we're halted due to breakpoint or reset
        + only_if(resume, seq![Command::Run])
    }

    /// Whether the session has not left its core yet.
    pub open spec fn is_on_core(self) -> bool {
        !(self.state is Stopped) && !(self.state is Shutdown)
    }

    /// The session starts to leave its core. It gives up its part of the shared
    /// state at once, and no more than that.
    pub open spec fn leaving(self, shared: SharedState, leave: Leave) -> Outcome {
        if self.is_on_core() {
            SessionModel {
                last_rtt_read_had_data: true,
                completed: true,
                cleared: false,
                caught: false,
                ..self
            }.ask_core(
                shared.released(self.cleared, self.caught),
                Step::StopCore(leave, self.caught),
            )
        } else {
            self.left(shared, leave)
        }
    }

    /// Whether nobody else has the vector catch enabled.
    pub open spec fn is_last(self, shared: SharedState) -> bool {
        if self.caught {
            shared.vector_catch_enabled <= 1
        } else {
            shared.vector_catch_enabled == 0
        }
    }

    /// The session is to shut down where its core cannot be reached: it gives up its
    /// part of the shared state, and the client's connection is closed.
    pub open spec fn cut_off(self, shared: SharedState) -> Outcome {
        if self.state is Shutdown {
            self.rest(shared)
        } else {
            SessionModel {
                state: if self.is_on_core() {
                    RttSessionState::Stopped(StoppedReason::Shutdown)
                } else {
                    self.state
                },
                last_rtt_read_had_data: true,
                completed: true,
                cleared: false,
                caught: false,
                ..self
            }.ask(
                shared.released(self.cleared, self.caught),
                Step::Close,
                Command::CloseStream,
            )
        }
    }

    /// Nobody holds anything of the core any more.
    pub open spec fn forgotten(self) -> SessionModel {
        SessionModel { cleared: false, caught: false, ..self }
    }

    /// What comes once the core is left: the end of the client's connection
    /// where the session shuts down, otherwise nothing.
    pub open spec fn left(self, shared: SharedState, leave: Leave) -> Outcome {
        if leave is Shutdown {
            self.ask(shared, Step::Close, Command::CloseStream)
        } else {
            self.rest(shared)
        }
    }

    /// The session that leaves has its core: it sees whether the core has halted where
    /// the channel mode is set up, if that may be.
    pub open spec fn stop_reached(self, shared: SharedState, leave: Leave, held: bool) -> Outcome {
        if self.waits_at_breakpoint() {
            self.ask(
                shared,
                Step::StopStatus(leave, self.resumes(held, leave)),
                Command::ReadStatus,
            )
        } else {
            self.stop_begins(shared, leave, self.resumes(held, leave))
        }
    }

    /// The first of the commands with which the session leaves its core.
    pub open spec fn stop_begins(self, shared: SharedState, leave: Leave, resume: bool) -> Outcome {
        self.stop_next(
            shared,
            leave,
            self.stop_script(shared.vector_catch_enabled == 0, resume),
        )
    }

    /// The next command of those with which the session leaves its core. When
    /// all are done it counts as stopped.
    pub open spec fn stop_next(
        self,
        shared: SharedState,
        leave: Leave,
        todo: Seq<Command>,
    ) -> Outcome {
        if todo.len() > 0 {
            self.ask(shared, Step::Stop(leave, todo.drop_first()), todo[0])
        } else {
            SessionModel { state: RttSessionState::Stopped(leave.reason()), ..self }.left(
                shared,
                leave,
            )
        }
    }

    /// What an error leads to: the session stops if it may recover and the
    /// client is still there, otherwise it shuts down.
    pub open spec fn failed(self, shared: SharedState, error: Error) -> Outcome {
        if self.target_cfg.auto_recover && !(error is ClientDisconnected) {
            self.leaving(shared, Leave::Stop(StoppedReason::Error(error)))
        } else {
            self.leaving(shared, Leave::Shutdown)
        }
    }

    /// The next command of a setup phase, or what comes after that phase.
    pub open spec fn set_up_breakpoint(self, shared: SharedState, now: Interval) -> Outcome {
        let todo = breakpoint_script(self.target_cfg, self.rtt_cfg);
        if todo.len() > 0 {
            self.ask(
                shared,
                Step::Setup(SetupPhase::Breakpoint, false, todo.drop_first()),
                todo[0],
            )
        } else {
            self.set_up(shared, now)
        }
    }

    /// Core setup is complete: the RTT attach routine begins with the next turn.
    pub open spec fn set_up(self, shared: SharedState, now: Interval) -> Outcome {
        SessionModel {
            attach_retry: self.attach_retry.restarted(now.total()),
            state: RttSessionState::RttAttach(now),
            ..self
        }.rest(shared)
    }

    /// The start phase of core setup, followed by the check that the core runs.
    pub open spec fn set_up_start(self, shared: SharedState, halted: bool) -> Outcome {
        let todo = start_script(self.target_cfg, halted);
        if todo.len() > 0 {
            self.ask(
                shared,
                Step::Setup(SetupPhase::Start, halted, todo.drop_first()),
                todo[0],
            )
        } else {
            self.ask(shared, Step::SetupRunning, Command::ReadStatus)
        }
    }

    /// The catch phase of core setup: the session counts itself in, and the
    /// first one enables the catch.
    pub open spec fn set_up_catch(self, shared: SharedState, halted: bool) -> Outcome {
        if catches_early(self.target_cfg) {
            let todo = catch_script(shared.vector_catch_enabled == 0);
            let counted = SessionModel { caught: true, ..self };
            if todo.len() > 0 {
                counted.ask(
                    shared.caught(),
                    Step::Setup(SetupPhase::Catch, halted, todo.drop_first()),
                    todo[0],
                )
            } else {
                counted.set_up_start(shared.caught(), halted)
            }
        } else {
            self.set_up_start(shared, halted)
        }
    }

    /// The clear phase of core setup: a session that drives the core counts itself
    /// in, and the first one clears.
    pub open spec fn set_up_clear(self, shared: SharedState, halted: bool) -> Outcome {
        if drives(self.target_cfg) {
            let todo = clear_script(
                shared.clear_vector_catch_and_breakpoints == 0,
                shared.vector_catch_enabled == 0,
            );
            let counted = SessionModel { cleared: true, ..self };
            if todo.len() > 0 {
                counted.ask(
                    shared.cleared(),
                    Step::Setup(SetupPhase::Clear, halted, todo.drop_first()),
                    todo[0],
                )
            } else {
                counted.set_up_catch(shared.cleared(), halted)
            }
        } else {
            self.set_up_catch(shared, halted)
        }
    }

    /// The reset phase of core setup.
    pub open spec fn set_up_reset(self, shared: SharedState, halted: bool) -> Outcome {
        let todo = reset_script(self.target_cfg);
        if todo.len() > 0 {
            self.ask(
                shared,
                Step::Setup(SetupPhase::Reset, halted, todo.drop_first()),
                todo[0],
            )
        } else {
            self.set_up_clear(shared, halted)
        }
    }

    /// A command of a setup phase is done: the next one, or the next phase.
    pub open spec fn setup_next(
        self,
        shared: SharedState,
        phase: SetupPhase,
        halted: bool,
        todo: Seq<Command>,
        now: Interval,
    ) -> Outcome {
        if todo.len() > 0 {
            self.ask(shared, Step::Setup(phase, halted, todo.drop_first()), todo[0])
        } else {
            match phase {
                SetupPhase::Reset => self.set_up_clear(shared, halted),
                SetupPhase::Clear => self.set_up_catch(shared, halted),
                SetupPhase::Catch => self.set_up_start(shared, halted),
                SetupPhase::Start => self.ask(shared, Step::SetupRunning, Command::ReadStatus),
                SetupPhase::Breakpoint => self.set_up(shared, now),
            }
        }
    }

    /// Whether the time to attach is up.
    pub open spec fn attach_timed_out(self, timeout_ms: u32, now: Interval) -> bool {
        match self.state {
            RttSessionState::RttAttach(started) => now.nanos_since(started) > timeout_ms
                * 1_000_000,
            _ => true,
        }
    }

    /// Attaching went wrong. A control block that was not found is looked for
    /// again until the time to attach is up, if there is such a time.
    pub open spec fn attach_failed(
        self,
        shared: SharedState,
        error: Error,
        now: Interval,
    ) -> Outcome {
        if error matches Error::Rtt(RttFault::ControlBlockNotFound(_))
            && self.rtt_cfg.attach_timeout_ms matches Some(timeout_ms) && !self.attach_timed_out(
            timeout_ms,
            now,
        ) {
            self.rest(shared)
        } else {
            self.failed(shared, error)
        }
    }

    /// The control block was found.
    pub open spec fn attached(
        self,
        shared: SharedState,
        control_block: u64,
        up: usize,
        down: usize,
        now: Interval,
    ) -> Outcome {
        if self.rtt_cfg.up_channel >= up {
            self.attach_failed(
                shared,
                Error::UpChannelInvalid(self.rtt_cfg.up_channel as usize),
                now,
            )
        } else if self.rtt_cfg.down_channel >= down {
            self.attach_failed(
                shared,
                Error::DownChannelInvalid(self.rtt_cfg.down_channel as usize),
                now,
            )
        } else {
            let handles = RttHandles {
                control_block,
                up_channel: self.rtt_cfg.up_channel,
                down_channel: self.rtt_cfg.down_channel,
            };
            self.ask(
                shared,
                Step::Attach(AttachPhase::Open, handles, Seq::empty()),
                Command::OpenChannels(self.rtt_cfg.up_channel, self.rtt_cfg.down_channel),
            )
        }
    }

    /// The mode phase of the attach routine, if the channel mode is to be set up.
    pub open spec fn attach_mode(
        self,
        shared: SharedState,
        handles: RttHandles,
        now: Interval,
    ) -> Outcome {
        if sets_mode_up(self.target_cfg, self.rtt_cfg) {
            self.ask(
                shared,
                Step::Attach(AttachPhase::Mode, handles, Seq::empty()),
                Command::SetBlockIfFull,
            )
        } else {
            self.attach_control(shared, handles, now)
        }
    }

    /// The mode is set up: its breakpoint is cleared.
    pub open spec fn attach_release(
        self,
        shared: SharedState,
        handles: RttHandles,
        now: Interval,
    ) -> Outcome {
        match self.rtt_cfg.setup_on_breakpoint_address {
            Some(address) => self.ask(
                shared,
                Step::Attach(AttachPhase::Release, handles, Seq::empty()),
                Command::ClearBreakpoint(address),
            ),
            None => self.attach_control(shared, handles, now),
        }
    }

    /// A core that has halted at the breakpoint runs on.
    pub open spec fn attach_resume(
        self,
        shared: SharedState,
        handles: RttHandles,
        status: CoreStatus,
        now: Interval,
    ) -> Outcome {
        if status is Halted {
            self.ask(
                shared,
                Step::Attach(AttachPhase::Resume, handles, Seq::empty()),
                Command::Run,
            )
        } else {
            self.attach_control(shared, handles, now)
        }
    }

    /// The control phase of the attach routine.
    pub open spec fn attach_control(
        self,
        shared: SharedState,
        handles: RttHandles,
        now: Interval,
    ) -> Outcome {
        let todo = control_script(self.rtt_cfg);
        if todo.len() > 0 {
            self.ask(
                shared,
                Step::Attach(AttachPhase::Control, handles, todo.drop_first()),
                todo[0],
            )
        } else {
            self.attach_catch(shared, handles, now)
        }
    }

    /// The catch phase of the attach routine: the session counts itself in if it
    /// has not done so early, and the first one enables the catch.
    pub open spec fn attach_catch(
        self,
        shared: SharedState,
        handles: RttHandles,
        now: Interval,
    ) -> Outcome {
        if catches_early(self.target_cfg) {
            self.respond(shared, handles, now)
        } else {
            let todo = catch_script(shared.vector_catch_enabled == 0);
            let counted = SessionModel { caught: true, ..self };
            if todo.len() > 0 {
                counted.ask(
                    shared.caught(),
                    Step::Attach(AttachPhase::Catch, handles, todo.drop_first()),
                    todo[0],
                )
            } else {
                counted.respond(shared.caught(), handles, now)
            }
        }
    }

    /// A command of an attach phase is done: the next one, or the next phase.
    pub open spec fn attach_next(
        self,
        shared: SharedState,
        phase: AttachPhase,
        handles: RttHandles,
        todo: Seq<Command>,
        now: Interval,
    ) -> Outcome {
        if todo.len() > 0 {
            self.ask(shared, Step::Attach(phase, handles, todo.drop_first()), todo[0])
        } else {
            match phase {
                AttachPhase::Open => self.attach_mode(shared, handles, now),
                AttachPhase::Mode => self.attach_release(shared, handles, now),
                AttachPhase::Release => self.ask(
                    shared,
                    Step::AttachStatus(handles),
                    Command::ReadStatus,
                ),
                AttachPhase::Resume => self.attach_control(shared, handles, now),
                AttachPhase::Control => self.attach_catch(shared, handles, now),
                AttachPhase::Catch => self.respond(shared, handles, now),
            }
        }
    }

    /// The client gets to know that its session has started, unless it does
    /// already.
    pub open spec fn respond(
        self,
        shared: SharedState,
        handles: RttHandles,
        now: Interval,
    ) -> Outcome {
        if self.client_response_sent {
            self.running(shared, handles, now)
        } else {
            self.ask(shared, Step::Respond(handles), Command::SendStarted(self.id))
        }
    }

    /// The session is attached and runs from the next turn on.
    pub open spec fn running(
        self,
        shared: SharedState,
        handles: RttHandles,
        now: Interval,
    ) -> Outcome {
        SessionModel {
            last_data: now,
            rtt_poll: self.rtt_poll.restarted(now.total()),
            idle_poll: self.idle_poll.restarted(now.total()),
            recovery: self.recovery.restarted(now.total()),
            stopping_condition: self.stopping_condition.restarted(now.total()),
            state: RttSessionState::Run(handles),
            ..self
        }.rest(shared)
    }

    /// A running session has its core: it reads if the poll interval is up. The
    /// idle interval counts if the last read had no data.
    pub open spec fn poll(self, shared: SharedState, now: Interval) -> Outcome {
        let due = if self.last_rtt_read_had_data {
            self.rtt_poll.reached(now.total())
        } else {
            self.idle_poll.reached(now.total())
        };
        let polled = if self.last_rtt_read_had_data {
            SessionModel { rtt_poll: self.rtt_poll.checked(now.total()), ..self }
        } else {
            SessionModel { idle_poll: self.idle_poll.checked(now.total()), ..self }
        };
        if due {
            polled.ask(shared, Step::RunRead, Command::ReadUp)
        } else {
            polled.check_core(shared, now)
        }
    }

    /// A read is done.
    pub open spec fn read(self, shared: SharedState, bytes: usize, now: Interval) -> Outcome {
        let noted = SessionModel {
            last_rtt_read_had_data: bytes != 0,
            last_data: if bytes != 0 {
                now
            } else {
                self.last_data
            },
            ..self
        };
        if self.log_rtt_metrics {
            SessionModel { metrics: self.metrics.updated(bytes as u64, now), ..noted }.ask(
                shared,
                Step::RunMetrics(bytes),
                Command::LogMetrics(self.metrics.update_of(bytes as u64, now)),
            )
        } else {
            noted.forward(shared, bytes, now)
        }
    }

    /// What was read goes to the client. Where nothing was read, the core is
    /// looked after.
    pub open spec fn forward(self, shared: SharedState, bytes: usize, now: Interval) -> Outcome {
        if bytes != 0 {
            self.ask(shared, Step::RunWrite, Command::WriteClient(bytes))
        } else {
            self.check_core(shared, now)
        }
    }

    /// Whether no data came within the configured time.
    pub open spec fn is_out_of_data(self, now: Interval) -> bool {
        self.rtt_cfg.no_data_stop_timeout_ms matches Some(ms) && now.nanos_since(self.last_data)
            > ms * 1_000_000
    }

    /// Looks from time to time whether the core has reached a stopping condition, and
    /// in any case where no data came in time.
    pub open spec fn check_core(self, shared: SharedState, now: Interval) -> Outcome {
        let checked = SessionModel {
            stopping_condition: self.stopping_condition.checked(now.total()),
            ..self
        };
        if self.stopping_condition.reached(now.total()) || self.is_out_of_data(now) {
            checked.ask(shared, Step::RunStatus, Command::ReadStatus)
        } else {
            checked.rest(shared)
        }
    }

    /// What the core's status means for a running session. Where the core runs, the
    /// session stops if no data came in time. A halted core has its registers read
    /// first; any other state but running counts as a reset.
    pub open spec fn core_checked(
        self,
        shared: SharedState,
        status: CoreStatus,
        now: Interval,
    ) -> Outcome {
        match status {
            CoreStatus::Running => if self.is_out_of_data(now) {
                self.leaving(shared, Leave::Stop(StoppedReason::NoData))
            } else {
                self.rest(shared)
            },
            CoreStatus::Halted(reason) => self.ask(
                shared,
                Step::RunStack(reason),
                Command::ReadStackPointer,
            ),
            _ => self.leaving(shared, Leave::Stop(StoppedReason::ResetCatch)),
        }
    }

    /// The session's turn begins.
    pub open spec fn updated(self, shared: SharedState, now: Interval) -> Outcome {
        match self.state {
            // Shutdown state is non-recoverable
            RttSessionState::Shutdown => self.rest(shared),
            RttSessionState::Stopped(_) => if self.target_cfg.auto_recover {
                // Rate limit the recovery attempts
                let checked = SessionModel {
                    recovery: self.recovery.checked(now.total()),
                    ..self
                };
                if self.recovery.reached(now.total()) {
                    checked.ask_core(shared, Step::RecoverCore)
                } else {
                    checked.rest(shared)
                }
            } else {
                self.rest(shared)
            },
            RttSessionState::Init => self.ask_core(shared, Step::SetupCore),
            RttSessionState::RttAttach(_) => {
                let checked = SessionModel {
                    attach_retry: self.attach_retry.checked(now.total()),
                    ..self
                };
                if self.attach_retry.reached(now.total()) {
                    checked.ask_core(shared, Step::AttachCore)
                } else {
                    checked.rest(shared)
                }
            },
            RttSessionState::Run(_) => self.ask_core(shared, Step::RunCore),
        }
    }

    /// The session is told to shut down.
    pub open spec fn shut_down(self, shared: SharedState) -> Outcome {
        if self.state is Shutdown {
            self.rest(shared)
        } else {
            self.leaving(shared, Leave::Shutdown)
        }
    }

    /// Whether the session can go on with this answer.
    pub open spec fn accepts(self, reply: Reply) -> bool {
        step_accepts(self.step, reply)
    }

    /// The session goes on with the answer to what it asked for.
    pub open spec fn resumed(self, shared: SharedState, reply: Reply, now: Interval) -> Outcome {
        let idle = SessionModel { step: Step::Idle, ..self };
        match reply {
            Reply::Failed(fault) => idle.resumed_failed(self.step, shared, fault, now),
            _ => idle.resumed_done(self.step, shared, reply, now),
        }
    }

    /// What was asked for failed. While the session recovers or leaves that is
    /// no error; otherwise the turn ends with one.
    pub open spec fn resumed_failed(
        self,
        step: Step<Seq<Command>>,
        shared: SharedState,
        fault: RttFault,
        now: Interval,
    ) -> Outcome {
        match step {
            Step::Idle | Step::RecoverStatus => self.rest(shared),
            // We're already in the stopped state, update the error reason
            Step::RecoverCore => SessionModel {
                state: RttSessionState::Stopped(
                    StoppedReason::Error(Error::CoreAttach(fault.message())),
                ),
                ..self
            }.rest(shared),
            Step::RunMetrics(bytes) => self.forward(shared, bytes, now),
            // A core that cannot be reached is left as it is
            Step::StopCore(leave, _) => self.stop_next(shared, leave, Seq::empty()),
            Step::StopStatus(leave, resume) => self.stop_begins(shared, leave, resume),
            Step::Stop(leave, todo) => self.stop_next(shared, leave, todo),
            Step::Close => SessionModel { state: RttSessionState::Shutdown, ..self }.rest(shared),
            Step::AttachCore | Step::AttachRegion | Step::Attach(..) | Step::AttachStatus(_) =>
                self.attach_failed(shared, failure(step, fault), now),
            _ => self.failed(shared, failure(step, fault)),
        }
    }

    /// The core setup routine goes on.
    pub open spec fn init_resumed(
        self,
        step: Step<Seq<Command>>,
        shared: SharedState,
        reply: Reply,
        now: Interval,
    ) -> Outcome {
        match step {
            Step::SetupCore => self.ask(shared, Step::SetupStatus, Command::ReadStatus),
            Step::SetupStatus => self.set_up_reset(shared, reply->Status_0 is Halted),
            Step::Setup(phase, halted, todo) => self.setup_next(shared, phase, halted, todo, now),
            // Core needs to be running to continue
            Step::SetupRunning => if reply->Status_0 is Running {
                self.set_up_breakpoint(shared, now)
            } else {
                self.failed(shared, Error::CoreNotRunning(self.target_cfg.core))
            },
            _ => self.rest(shared),
        }
    }

    /// The RTT attach routine goes on.
    pub open spec fn attach_resumed(
        self,
        step: Step<Seq<Command>>,
        shared: SharedState,
        reply: Reply,
        now: Interval,
    ) -> Outcome {
        match step {
            Step::AttachCore => self.ask(
                shared,
                Step::AttachRegion,
                Command::AttachRtt(scan_region(self.rtt_cfg)),
            ),
            Step::AttachRegion => self.attached(
                shared,
                reply->Attached_0,
                reply->Attached_1,
                reply->Attached_2,
                now,
            ),
            Step::Attach(phase, handles, todo) => self.attach_next(
                shared,
                phase,
                handles,
                todo,
                now,
            ),
            Step::AttachStatus(handles) => self.attach_resume(
                shared,
                handles,
                reply->Status_0,
                now,
            ),
            Step::Respond(handles) => SessionModel { client_response_sent: true, ..self }.running(
                shared,
                handles,
                now,
            ),
            _ => self.rest(shared),
        }
    }

    /// A turn of a running session goes on.
    pub open spec fn run_resumed(
        self,
        step: Step<Seq<Command>>,
        shared: SharedState,
        reply: Reply,
        now: Interval,
    ) -> Outcome {
        match step {
            Step::RunCore => self.poll(shared, now),
            Step::RunRead => self.read(shared, reply->Read_0, now),
            Step::RunMetrics(bytes) => self.forward(shared, bytes, now),
            Step::RunWrite => self.rest(shared),
            Step::RunStatus => self.core_checked(shared, reply->Status_0, now),
            Step::RunStack(reason) => self.ask(
                shared,
                Step::RunCounter(reason),
                Command::ReadProgramCounter,
            ),
            // We only enable CoreReset vector catch, so any other halt is a reset
            Step::RunCounter(reason) => self.leaving(
                shared,
                Leave::Stop(
                    if reason is Breakpoint {
                        StoppedReason::Breakpoint(reply->Register_0.as_address())
                    } else {
                        StoppedReason::ResetCatch
                    },
                ),
            ),
            _ => self.rest(shared),
        }
    }

    /// The recovery of a stopped session goes on.
    pub open spec fn recovery_resumed(
        self,
        step: Step<Seq<Command>>,
        shared: SharedState,
        reply: Reply,
        now: Interval,
    ) -> Outcome {
        match step {
            Step::RecoverCore => self.ask(shared, Step::RecoverStatus, Command::ReadStatus),
            Step::RecoverStatus => SessionModel {
                state: RttSessionState::Init,
                ..self
            }.rest(shared),
            _ => self.rest(shared),
        }
    }

    /// Leaving the core goes on.
    pub open spec fn stop_resumed(
        self,
        step: Step<Seq<Command>>,
        shared: SharedState,
        reply: Reply,
        now: Interval,
    ) -> Outcome {
        match step {
            Step::StopCore(leave, held) => self.stop_reached(shared, leave, held),
            Step::StopStatus(leave, resume) => self.stop_begins(
                shared,
                leave,
                resume || reply->Status_0 is Halted,
            ),
            Step::Stop(leave, todo) => self.stop_next(shared, leave, todo),
            Step::Close => SessionModel { state: RttSessionState::Shutdown, ..self }.rest(shared),
            _ => self.rest(shared),
        }
    }

    /// What was asked for is done.
    pub open spec fn resumed_done(
        self,
        step: Step<Seq<Command>>,
        shared: SharedState,
        reply: Reply,
        now: Interval,
    ) -> Outcome {
        match step {
            Step::Idle => self.rest(shared),
            Step::RecoverCore | Step::RecoverStatus => self.recovery_resumed(
                step,
                shared,
                reply,
                now,
            ),
            Step::SetupCore | Step::SetupStatus | Step::Setup(..) | Step::SetupRunning =>
                self.init_resumed(step, shared, reply, now),
            Step::AttachCore | Step::AttachRegion | Step::Attach(..) => self.attach_resumed(
                step,
                shared,
                reply,
                now,
            ),
            Step::AttachStatus(_) | Step::Respond(_) => self.attach_resumed(
                step,
                shared,
                reply,
                now,
            ),
            Step::RunCore | Step::RunRead | Step::RunMetrics(_) | Step::RunWrite
            | Step::RunStatus | Step::RunStack(_) | Step::RunCounter(_) => self.run_resumed(
                step,
                shared,
                reply,
                now,
            ),
            Step::StopCore(..) | Step::StopStatus(..) => self.stop_resumed(
                step,
                shared,
                reply,
                now,
            ),
            Step::Stop(..) | Step::Close => self.stop_resumed(step, shared, reply, now),
        }
    }
}

/// Which answers a session can go on with in a step: those that hold what it
/// asked for, and failures.
pub open spec fn step_accepts(step: Step<Seq<Command>>, reply: Reply) -> bool {
    reply is Failed || match step {
        Step::SetupStatus | Step::SetupRunning | Step::RunStatus => reply is Status,
        Step::AttachStatus(_) | Step::StopStatus(..) => reply is Status,
        Step::RunCounter(_) => reply is Register,
        Step::RunRead => reply is Read,
        Step::AttachRegion => reply is Attached,
        _ => true,
    }
}

/// The error that it is when the thing asked for in a step fails.
pub open spec fn failure(step: Step<Seq<Command>>, fault: RttFault) -> Error {
    let text = fault.message();
    match step {
        Step::SetupCore | Step::AttachCore | Step::RunCore => Error::CoreAttach(text),
        Step::SetupStatus | Step::SetupRunning | Step::RunStatus => Error::CoreStatus(text),
        Step::AttachStatus(_) => Error::CoreStatus(text),
        Step::AttachRegion | Step::RunRead => Error::Rtt(fault),
        Step::Attach(phase, ..) => match phase {
            AttachPhase::Open | AttachPhase::Mode | AttachPhase::Control => Error::Rtt(fault),
            AttachPhase::Release | AttachPhase::Resume | AttachPhase::Catch => Error::Probe(text),
        },
        Step::Respond(_) => Error::ResponseJson(text),
        Step::RunWrite => Error::ClientDisconnected,
        _ => Error::Probe(text),
    }
}

/// Whether a command is one of those of a setup phase.
pub open spec fn in_setup_phase(phase: SetupPhase, command: Command) -> bool {
    match phase {
        SetupPhase::Reset => command is ResetAndHalt || command is ReadStackPointer
            || command is ReadProgramCounter,
        SetupPhase::Clear => command is DisableVectorCatch || command is ClearAllBreakpoints,
        SetupPhase::Catch => command is EnableVectorCatch,
        SetupPhase::Start => command is ReadStackPointer || command is ReadProgramCounter
            || command is Run,
        SetupPhase::Breakpoint => command is CountBreakpoints || command is SetBreakpoint,
    }
}

/// Whether a command is one of those of an attach phase.
pub open spec fn in_attach_phase(phase: AttachPhase, command: Command) -> bool {
    match phase {
        AttachPhase::Open => command is OpenChannels,
        AttachPhase::Mode => command is SetBlockIfFull,
        AttachPhase::Release => command is ClearBreakpoint,
        AttachPhase::Resume => command is Run,
        AttachPhase::Control => command is WriteDown || command is Sleep,
        AttachPhase::Catch => command is EnableVectorCatch,
    }
}

/// Whether a command is one of those with which a session leaves its core.
pub open spec fn in_stop_phase(command: Command) -> bool {
    command is DisableVectorCatch || command == Command::WriteDown(TrcCommand::StopTracing)
        || command is ClearBreakpoint || command is Run
}

/// A poll interval in nanoseconds: at least a millisecond.
pub open spec fn poll_nanos(interval_ms: u32) -> nat {
    if interval_ms < 1 {
        1_000_000
    } else {
        interval_ms as nat * 1_000_000
    }
}

} // verus!
