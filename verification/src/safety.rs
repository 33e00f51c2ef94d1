//! The safety supervisor: a latching state machine that sits between the
//! motion planner and the actuators and only lets a command through when the
//! runtime is healthy, the inputs are fresh and consistent, and the command is
//! inside the configured limits.
//!
//! Timestamps and command values are `f64` samples carried by their bit
//! patterns (`F64Bits`). The only floating-point arithmetic the decision
//! needs, the two elapsed times `now_ms - timestamp_ms`, is done by the caller
//! and handed over in the input (`health_age_ms`, `command_age_ms`).
use vstd::prelude::*;

use crate::ieee::F64Bits;

verus! {

/// The states of the supervisor.
#[derive(Clone, Copy, Debug, PartialEq, Eq, Structural)]
pub enum SafetyState {
    Boot,
    Warmup,
    Ready,
    Active,
    EmergencyStop,
    Fault,
    Stopped,
}

/// Why the supervisor is in its current state.
#[derive(Clone, Copy, Debug, PartialEq, Eq, Structural)]
pub enum Reason {
    Boot,
    Reset,
    Shutdown,
    EmergencyStop,
    WarmingUp,
    StartupReady,
    Allow,
    SessionMismatch,
    MissingRuntimeInput,
    RuntimeUnhealthy,
    FrameMismatch,
    FrameSequenceGap,
    InvalidHealthTimestamp,
    TimestampRegression,
    StaleHealth,
    InvalidCommandTimestamp,
    StaleCommand,
    TimestampMismatch,
    InvalidCommand,
}

impl Reason {
    /// The wire name of the reason.
    pub open spec fn text(self) -> Seq<char> {
        match self {
            Reason::Boot => "boot"@,
            Reason::Reset => "reset"@,
            Reason::Shutdown => "shutdown"@,
            Reason::EmergencyStop => "emergency_stop"@,
            Reason::WarmingUp => "warming_up"@,
            Reason::StartupReady => "startup_ready"@,
            Reason::Allow => "allow"@,
            Reason::SessionMismatch => "session_mismatch"@,
            Reason::MissingRuntimeInput => "missing_runtime_input"@,
            Reason::RuntimeUnhealthy => "runtime_unhealthy"@,
            Reason::FrameMismatch => "frame_mismatch"@,
            Reason::FrameSequenceGap => "frame_sequence_gap"@,
            Reason::InvalidHealthTimestamp => "invalid_health_timestamp"@,
            Reason::TimestampRegression => "timestamp_regression"@,
            Reason::StaleHealth => "stale_health"@,
            Reason::InvalidCommandTimestamp => "invalid_command_timestamp"@,
            Reason::StaleCommand => "stale_command"@,
            Reason::TimestampMismatch => "timestamp_mismatch"@,
            Reason::InvalidCommand => "invalid_command"@,
        }
    }

    /// The wire name of the reason.
    pub fn as_str(&self) -> (s: &'static str)
        ensures
            s@ == self.text(),
    {
        match self {
            Reason::Boot => "boot",
            Reason::Reset => "reset",
            Reason::Shutdown => "shutdown",
            Reason::EmergencyStop => "emergency_stop",
            Reason::WarmingUp => "warming_up",
            Reason::StartupReady => "startup_ready",
            Reason::Allow => "allow",
            Reason::SessionMismatch => "session_mismatch",
            Reason::MissingRuntimeInput => "missing_runtime_input",
            Reason::RuntimeUnhealthy => "runtime_unhealthy",
            Reason::FrameMismatch => "frame_mismatch",
            Reason::FrameSequenceGap => "frame_sequence_gap",
            Reason::InvalidHealthTimestamp => "invalid_health_timestamp",
            Reason::TimestampRegression => "timestamp_regression",
            Reason::StaleHealth => "stale_health",
            Reason::InvalidCommandTimestamp => "invalid_command_timestamp",
            Reason::StaleCommand => "stale_command",
            Reason::TimestampMismatch => "timestamp_mismatch",
            Reason::InvalidCommand => "invalid_command",
        }
    }
}

/// The name under which a state is published.
pub open spec fn state_label(state: SafetyState) -> Seq<char> {
    match state {
        SafetyState::Boot => "boot"@,
        SafetyState::Warmup => "warmup"@,
        SafetyState::Ready => "ready"@,
        SafetyState::Active => "active"@,
        SafetyState::EmergencyStop => "emergency_stop"@,
        SafetyState::Fault => "fault"@,
        SafetyState::Stopped => "stopped"@,
    }
}

/// The numeric code under which a state is published.
pub open spec fn state_number(state: SafetyState) -> int {
    match state {
        SafetyState::Boot => 0,
        SafetyState::Warmup => 1,
        SafetyState::Ready => 2,
        SafetyState::Active => 3,
        SafetyState::EmergencyStop => 4,
        SafetyState::Fault => 5,
        SafetyState::Stopped => 6,
    }
}

/// The name under which a state is published.
pub fn state_name(state: SafetyState) -> (name: &'static str)
    ensures
        name@ == state_label(state),
{
    match state {
        SafetyState::Boot => "boot",
        SafetyState::Warmup => "warmup",
        SafetyState::Ready => "ready",
        SafetyState::Active => "active",
        SafetyState::EmergencyStop => "emergency_stop",
        SafetyState::Fault => "fault",
        SafetyState::Stopped => "stopped",
    }
}

/// The numeric code under which a state is published.
pub fn state_code(state: SafetyState) -> (code: i32)
    ensures
        code == state_number(state),
{
    match state {
        SafetyState::Boot => 0,
        SafetyState::Warmup => 1,
        SafetyState::Ready => 2,
        SafetyState::Active => 3,
        SafetyState::EmergencyStop => 4,
        SafetyState::Fault => 5,
        SafetyState::Stopped => 6,
    }
}

/// Health report of the runtime for one frame.
#[derive(Clone, Copy, Debug, PartialEq, Eq)]
pub struct RuntimeHealth {
    pub frame_id: u64,
    pub timestamp_ms: F64Bits,
    pub sensor_valid: bool,
    pub perception_valid: bool,
    pub solver_valid: bool,
    pub articulation_ready: bool,
}

/// The command proposed by the planner for one frame.
#[derive(Clone, Copy, Debug, PartialEq, Eq)]
pub struct ControlProposal {
    pub frame_id: u64,
    pub timestamp_ms: F64Bits,
    pub linear: F64Bits,
    pub angular: F64Bits,
}

/// Everything the supervisor reads in one step.
///
/// `health_age_ms` and `command_age_ms` are the `f64` results of
/// `now_ms - health.timestamp_ms` and `now_ms - command.timestamp_ms`; they
/// are read only when the corresponding report is present.
#[derive(Clone, Copy, Debug, PartialEq, Eq)]
pub struct SupervisorInput {
    pub now_ms: F64Bits,
    pub epoch: u64,
    pub health: Option<RuntimeHealth>,
    pub command: Option<ControlProposal>,
    pub emergency_stop: bool,
    pub reset: bool,
    pub shutdown: bool,
    pub health_age_ms: F64Bits,
    pub command_age_ms: F64Bits,
}

/// The outcome of one step, with the reason as an enum.
#[derive(Clone, Copy, Debug, PartialEq, Eq)]
pub struct Verdict {
    pub state: SafetyState,
    pub linear: F64Bits,
    pub angular: F64Bits,
    pub reason: Reason,
    pub latched: bool,
}

/// The outcome of one step as published: the command to forward (zero unless
/// motion is allowed), the state, the reason and whether the state latches.
#[derive(Clone, Debug, PartialEq, Eq)]
pub struct SafetyDecision {
    pub state: SafetyState,
    pub linear: F64Bits,
    pub angular: F64Bits,
    pub reason: String,
    pub latched: bool,
}

impl SafetyDecision {
    /// This decision publishes `verdict`.
    pub open spec fn shows(&self, verdict: Verdict) -> bool {
        &&& self.state == verdict.state
        &&& self.linear == verdict.linear
        &&& self.angular == verdict.angular
        &&& self.reason@ == verdict.reason.text()
        &&& self.latched == verdict.latched
    }
}

/// The whole memory of the supervisor, as plain values.
#[derive(Clone, Copy, Debug, PartialEq, Eq)]
pub struct SupervisorCore {
    pub warmup_frames: u64,
    pub watchdog_ms: F64Bits,
    pub max_linear: F64Bits,
    pub max_angular: F64Bits,
    pub state: SafetyState,
    pub reason: Reason,
    pub healthy_frames: u64,
    pub last_frame_id: Option<u64>,
    pub last_now_ms: Option<F64Bits>,
    pub last_timestamp_ms: Option<F64Bits>,
    pub last_epoch: Option<u64>,
}

/// The reasons each state can be in.
pub open spec fn reason_fits(state: SafetyState, reason: Reason) -> bool {
    match state {
        SafetyState::Boot => reason == Reason::Boot || reason == Reason::Reset,
        SafetyState::Warmup => reason == Reason::WarmingUp,
        SafetyState::Ready => reason == Reason::StartupReady,
        SafetyState::Active => reason == Reason::Allow,
        SafetyState::EmergencyStop => reason == Reason::EmergencyStop,
        SafetyState::Stopped => reason == Reason::Shutdown,
        SafetyState::Fault => !(reason == Reason::Boot || reason == Reason::Reset || reason
            == Reason::Shutdown || reason == Reason::EmergencyStop || reason == Reason::WarmingUp
            || reason == Reason::StartupReady || reason == Reason::Allow),
    }
}

/// `warmup_frames` is at least one and the watchdog period is finite and
/// positive.
pub open spec fn timing_config_valid(warmup_frames: u64, watchdog_ms: F64Bits) -> bool {
    !(warmup_frames < 1 || !watchdog_ms.finite() || watchdog_ms.at_most(F64Bits::zero()))
}

/// Both command limits are finite and non-negative.
pub open spec fn limits_valid(max_linear: F64Bits, max_angular: F64Bits) -> bool {
    !(!max_linear.finite() || max_linear.less_than(F64Bits::zero()) || !max_angular.finite()
        || max_angular.less_than(F64Bits::zero()))
}

impl SupervisorCore {
    /// The memory of a freshly built supervisor.
    pub open spec fn initial(
        warmup_frames: u64,
        watchdog_ms: F64Bits,
        max_linear: F64Bits,
        max_angular: F64Bits,
    ) -> SupervisorCore {
        SupervisorCore {
            warmup_frames,
            watchdog_ms,
            max_linear,
            max_angular,
            state: SafetyState::Boot,
            reason: Reason::Boot,
            healthy_frames: 0,
            last_frame_id: None,
            last_now_ms: None,
            last_timestamp_ms: None,
            last_epoch: None,
        }
    }

    /// What every reachable memory satisfies.
    pub open spec fn wf(self) -> bool {
        &&& timing_config_valid(self.warmup_frames, self.watchdog_ms)
        &&& limits_valid(self.max_linear, self.max_angular)
        &&& self.healthy_frames <= self.warmup_frames
        &&& (self.state == SafetyState::Boot ==> self.healthy_frames == 0)
        &&& (self.state == SafetyState::Warmup ==> self.healthy_frames < self.warmup_frames)
        &&& (self.state == SafetyState::Ready || self.state == SafetyState::Active
            ==> self.healthy_frames == self.warmup_frames)
        &&& reason_fits(self.state, self.reason)
        &&& (self.last_now_ms matches Some(t) ==> t.finite())
        &&& (self.last_timestamp_ms matches Some(t) ==> t.finite())
    }

    /// States that hold until an explicit reset.
    pub open spec fn latching(state: SafetyState) -> bool {
        state == SafetyState::EmergencyStop || state == SafetyState::Fault
    }

    /// The decision that forwards no motion.
    pub open spec fn zero(self) -> Verdict {
        Verdict {
            state: self.state,
            linear: F64Bits::zero(),
            angular: F64Bits::zero(),
            reason: self.reason,
            latched: Self::latching(self.state),
        }
    }

    pub open spec fn enter(self, state: SafetyState, reason: Reason) -> SupervisorCore {
        SupervisorCore { state, reason, ..self }
    }

    /// Back to `Boot` with the frame and timestamp history forgotten (the
    /// session epoch is kept).
    pub open spec fn restart_session(self) -> SupervisorCore {
        SupervisorCore {
            state: SafetyState::Boot,
            reason: Reason::Reset,
            healthy_frames: 0,
            last_frame_id: None,
            last_now_ms: None,
            last_timestamp_ms: None,
            ..self
        }
    }

    /// The first check that `input` fails, in the order the supervisor
    /// checks them, or `None` when the frame is acceptable.
    pub open spec fn validation_fault(self, input: SupervisorInput) -> Option<Reason> {
        if input.health is None || input.command is None {
            Some(Reason::MissingRuntimeInput)
        } else {
            let health = input.health->0;
            let command = input.command->0;
            let zero = F64Bits::zero();
            if !(health.sensor_valid && health.perception_valid && health.solver_valid
                && health.articulation_ready) {
                Some(Reason::RuntimeUnhealthy)
            } else if health.frame_id != command.frame_id {
                Some(Reason::FrameMismatch)
            } else if self.last_frame_id matches Some(last) && (last == u64::MAX || last + 1
                != health.frame_id) {
                Some(Reason::FrameSequenceGap)
            } else if !input.now_ms.finite() || !health.timestamp_ms.finite()
                || input.now_ms.less_than(health.timestamp_ms) {
                Some(Reason::InvalidHealthTimestamp)
            } else if (self.last_now_ms matches Some(last) && input.now_ms.less_than(last)) || (
            self.last_timestamp_ms matches Some(last) && health.timestamp_ms.less_than(last)) {
                Some(Reason::TimestampRegression)
            } else if self.watchdog_ms.less_than(input.health_age_ms) {
                Some(Reason::StaleHealth)
            } else if !command.timestamp_ms.finite() || input.now_ms.less_than(
                command.timestamp_ms,
            ) {
                Some(Reason::InvalidCommandTimestamp)
            } else if self.watchdog_ms.less_than(input.command_age_ms) {
                Some(Reason::StaleCommand)
            } else if !health.timestamp_ms.same_value(command.timestamp_ms) {
                Some(Reason::TimestampMismatch)
            } else if !command.linear.finite() || !command.angular.finite() || !(zero.at_most(
                command.linear,
            ) && command.linear.at_most(self.max_linear)) || self.max_angular.less_than(
                command.angular.abs_spec(),
            ) {
                Some(Reason::InvalidCommand)
            } else {
                None
            }
        }
    }

    /// Validation, and on success the warmup count or the pass-through of the
    /// command.
    pub open spec fn step_checked(self, input: SupervisorInput) -> (SupervisorCore, Verdict) {
        match self.validation_fault(input) {
            Some(reason) => {
                let next = self.enter(SafetyState::Fault, reason);
                (next, next.zero())
            },
            None => {
                let health = input.health->0;
                let command = input.command->0;
                let seen = SupervisorCore {
                    last_frame_id: Some(health.frame_id),
                    last_now_ms: Some(input.now_ms),
                    last_timestamp_ms: Some(health.timestamp_ms),
                    ..self
                };
                if seen.state == SafetyState::Boot || seen.state == SafetyState::Warmup {
                    let count = (seen.healthy_frames + 1) as u64;
                    let next = if count < seen.warmup_frames {
                        SupervisorCore {
                            state: SafetyState::Warmup,
                            reason: Reason::WarmingUp,
                            healthy_frames: count,
                            ..seen
                        }
                    } else {
                        SupervisorCore {
                            state: SafetyState::Ready,
                            reason: Reason::StartupReady,
                            healthy_frames: count,
                            ..seen
                        }
                    };
                    (next, next.zero())
                } else {
                    let state = if seen.state == SafetyState::Ready {
                        SafetyState::Active
                    } else {
                        seen.state
                    };
                    let next = SupervisorCore { state, reason: Reason::Allow, ..seen };
                    (
                        next,
                        Verdict {
                            state,
                            linear: command.linear,
                            angular: command.angular,
                            reason: Reason::Allow,
                            latched: false,
                        },
                    )
                }
            },
        }
    }

    /// The epoch of `input` is not the epoch the session is locked to.
    pub open spec fn epoch_changed(self, input: SupervisorInput) -> bool {
        self.last_epoch matches Some(last) && last != input.epoch
    }

    /// Session bookkeeping (epoch lock), then validation.
    pub open spec fn step_session(self, input: SupervisorInput) -> (SupervisorCore, Verdict) {
        if self.epoch_changed(input) && !input.reset {
            let next = self.enter(SafetyState::Fault, Reason::SessionMismatch);
            (next, next.zero())
        } else {
            let base = if self.epoch_changed(input) {
                self.restart_session()
            } else {
                self
            };
            SupervisorCore { last_epoch: Some(input.epoch), ..base }.step_checked(input)
        }
    }

    /// One step of the supervisor: the next memory and the decision.
    pub open spec fn step(self, input: SupervisorInput) -> (SupervisorCore, Verdict) {
        if self.state == SafetyState::Stopped {
            (self, self.zero())
        } else if input.shutdown {
            let next = self.enter(SafetyState::Stopped, Reason::Shutdown);
            (next, next.zero())
        } else if input.emergency_stop {
            let next = self.enter(SafetyState::EmergencyStop, Reason::EmergencyStop);
            (next, next.zero())
        } else if Self::latching(self.state) && !input.reset {
            (self, self.zero())
        } else {
            let base = if Self::latching(self.state) {
                self.restart_session()
            } else {
                self
            };
            base.step_session(input)
        }
    }

    fn exec_zero(&self) -> (v: Verdict)
        ensures
            v == self.zero(),
    {
        Verdict {
            state: self.state,
            linear: F64Bits(0),
            angular: F64Bits(0),
            reason: self.reason,
            latched: self.state == SafetyState::EmergencyStop || self.state == SafetyState::Fault,
        }
    }

    fn exec_enter(&self, state: SafetyState, reason: Reason) -> (r: SupervisorCore)
        ensures
            r == self.enter(state, reason),
    {
        SupervisorCore { state, reason, ..*self }
    }

    fn exec_restart_session(&self) -> (r: SupervisorCore)
        ensures
            r == self.restart_session(),
    {
        SupervisorCore {
            state: SafetyState::Boot,
            reason: Reason::Reset,
            healthy_frames: 0,
            last_frame_id: None,
            last_now_ms: None,
            last_timestamp_ms: None,
            ..*self
        }
    }

    fn validate(&self, input: &SupervisorInput) -> (r: Option<Reason>)
        ensures
            r == self.validation_fault(*input),
    {
        let (health, command) = match (input.health, input.command) {
            (Some(h), Some(c)) => (h, c),
            _ => {
                return Some(Reason::MissingRuntimeInput);
            },
        };
        let zero = F64Bits(0);
        if !(health.sensor_valid && health.perception_valid && health.solver_valid
            && health.articulation_ready) {
            return Some(Reason::RuntimeUnhealthy);
        }
        if health.frame_id != command.frame_id {
            return Some(Reason::FrameMismatch);
        }
        if let Some(last) = self.last_frame_id {
            if last == u64::MAX || last + 1 != health.frame_id {
                return Some(Reason::FrameSequenceGap);
            }
        }
        if !input.now_ms.is_finite() || !health.timestamp_ms.is_finite() || input.now_ms.lt(
            health.timestamp_ms,
        ) {
            return Some(Reason::InvalidHealthTimestamp);
        }
        let now_regressed = match self.last_now_ms {
            Some(last) => input.now_ms.lt(last),
            None => false,
        };
        let stamp_regressed = match self.last_timestamp_ms {
            Some(last) => health.timestamp_ms.lt(last),
            None => false,
        };
        if now_regressed || stamp_regressed {
            return Some(Reason::TimestampRegression);
        }
        if self.watchdog_ms.lt(input.health_age_ms) {
            return Some(Reason::StaleHealth);
        }
        if !command.timestamp_ms.is_finite() || input.now_ms.lt(command.timestamp_ms) {
            return Some(Reason::InvalidCommandTimestamp);
        }
        if self.watchdog_ms.lt(input.command_age_ms) {
            return Some(Reason::StaleCommand);
        }
        if !health.timestamp_ms.value_eq(command.timestamp_ms) {
            return Some(Reason::TimestampMismatch);
        }
        if !command.linear.is_finite() || !command.angular.is_finite() || !(zero.le(command.linear)
            && command.linear.le(self.max_linear)) || self.max_angular.lt(command.angular.abs()) {
            return Some(Reason::InvalidCommand);
        }
        None
    }

    fn exec_step_checked(&self, input: &SupervisorInput) -> (r: (SupervisorCore, Verdict))
        requires
            self.wf(),
            self.state != SafetyState::Stopped,
            !Self::latching(self.state),
        ensures
            r == self.step_checked(*input),
    {
        match self.validate(input) {
            Some(reason) => {
                let next = self.exec_enter(SafetyState::Fault, reason);
                let v = next.exec_zero();
                (next, v)
            },
            None => {
                let health = input.health.unwrap();
                let command = input.command.unwrap();
                let seen = SupervisorCore {
                    last_frame_id: Some(health.frame_id),
                    last_now_ms: Some(input.now_ms),
                    last_timestamp_ms: Some(health.timestamp_ms),
                    ..*self
                };
                if seen.state == SafetyState::Boot || seen.state == SafetyState::Warmup {
                    let count = seen.healthy_frames + 1;
                    let next = if count < seen.warmup_frames {
                        SupervisorCore {
                            state: SafetyState::Warmup,
                            reason: Reason::WarmingUp,
                            healthy_frames: count,
                            ..seen
                        }
                    } else {
                        SupervisorCore {
                            state: SafetyState::Ready,
                            reason: Reason::StartupReady,
                            healthy_frames: count,
                            ..seen
                        }
                    };
                    let v = next.exec_zero();
                    (next, v)
                } else {
                    let state = if seen.state == SafetyState::Ready {
                        SafetyState::Active
                    } else {
                        seen.state
                    };
                    let next = SupervisorCore { state, reason: Reason::Allow, ..seen };
                    (
                        next,
                        Verdict {
                            state,
                            linear: command.linear,
                            angular: command.angular,
                            reason: Reason::Allow,
                            latched: false,
                        },
                    )
                }
            },
        }
    }

    /// One step of the supervisor on plain values.
    pub fn next(&self, input: &SupervisorInput) -> (r: (SupervisorCore, Verdict))
        requires
            self.wf(),
        ensures
            r == self.step(*input),
            r.0.wf(),
    {
        proof {
            lemma_step_keeps_wf(*self, *input);
        }
        if self.state == SafetyState::Stopped {
            let v = self.exec_zero();
            return (*self, v);
        }
        if input.shutdown {
            let next = self.exec_enter(SafetyState::Stopped, Reason::Shutdown);
            let v = next.exec_zero();
            return (next, v);
        }
        if input.emergency_stop {
            let next = self.exec_enter(SafetyState::EmergencyStop, Reason::EmergencyStop);
            let v = next.exec_zero();
            return (next, v);
        }
        let latched = self.state == SafetyState::EmergencyStop || self.state == SafetyState::Fault;
        if latched && !input.reset {
            let v = self.exec_zero();
            return (*self, v);
        }
        let base = if latched {
            self.exec_restart_session()
        } else {
            *self
        };
        let epoch_changed = match base.last_epoch {
            Some(last) => last != input.epoch,
            None => false,
        };
        if epoch_changed && !input.reset {
            let next = base.exec_enter(SafetyState::Fault, Reason::SessionMismatch);
            let v = next.exec_zero();
            return (next, v);
        }
        let fresh = if epoch_changed {
            base.exec_restart_session()
        } else {
            base
        };
        let locked = SupervisorCore { last_epoch: Some(input.epoch), ..fresh };
        locked.exec_step_checked(input)
    }
}

/// Every step keeps a well-formed memory well-formed.
pub proof fn lemma_step_keeps_wf(core: SupervisorCore, input: SupervisorInput)
    requires
        core.wf(),
    ensures
        core.step(input).0.wf(),
{
}

/// A step accepted the frame of `input`.
pub open spec fn accepts(core: SupervisorCore, input: SupervisorInput) -> bool {
    let reason = core.step(input).1.reason;
    reason == Reason::WarmingUp || reason == Reason::StartupReady || reason == Reason::Allow
}

/// The step starts a new session: the frame and timestamp history is dropped.
pub open spec fn restarts_session(core: SupervisorCore, input: SupervisorInput) -> bool {
    &&& core.state != SafetyState::Stopped
    &&& !input.shutdown
    &&& !input.emergency_stop
    &&& input.reset
    &&& (SupervisorCore::latching(core.state) || core.epoch_changed(input))
}

/// The memory after the given inputs, fed one after the other.
pub open spec fn run(core: SupervisorCore, inputs: Seq<SupervisorInput>) -> SupervisorCore
    decreases inputs.len(),
{
    if inputs.len() == 0 {
        core
    } else {
        run(core, inputs.drop_last()).step(inputs.last()).0
    }
}

/// Once stopped, the supervisor stays stopped: the memory does not change and
/// no motion is forwarded, whatever the input.
pub proof fn lemma_stopped_is_terminal(core: SupervisorCore, input: SupervisorInput)
    requires
        core.state == SafetyState::Stopped,
    ensures
        core.step(input).0 == core,
        core.step(input).1.state == SafetyState::Stopped,
        core.step(input).1.linear == F64Bits::zero(),
        core.step(input).1.angular == F64Bits::zero(),
{
}

/// A shutdown request always ends in `Stopped` with zero command, whatever
/// else the input asks for.
pub proof fn lemma_shutdown_has_priority(core: SupervisorCore, input: SupervisorInput)
    requires
        input.shutdown,
    ensures
        core.step(input).0.state == SafetyState::Stopped,
        core.step(input).1.state == SafetyState::Stopped,
        core.step(input).1.linear == F64Bits::zero(),
        core.step(input).1.angular == F64Bits::zero(),
{
}

/// An emergency stop request (without shutdown) always latches
/// `EmergencyStop` with zero command, even together with a reset request.
pub proof fn lemma_emergency_stop_has_priority(core: SupervisorCore, input: SupervisorInput)
    requires
        core.state != SafetyState::Stopped,
        !input.shutdown,
        input.emergency_stop,
    ensures
        core.step(input).0.state == SafetyState::EmergencyStop,
        core.step(input).1.state == SafetyState::EmergencyStop,
        core.step(input).1.reason == Reason::EmergencyStop,
        core.step(input).1.latched,
        core.step(input).1.linear == F64Bits::zero(),
        core.step(input).1.angular == F64Bits::zero(),
{
}

/// `EmergencyStop` and `Fault` latch: without a reset (and without a new
/// shutdown or emergency stop request) nothing changes and zero is forwarded.
pub proof fn lemma_latched_until_reset(core: SupervisorCore, input: SupervisorInput)
    requires
        SupervisorCore::latching(core.state),
        !input.shutdown,
        !input.emergency_stop,
        !input.reset,
    ensures
        core.step(input).0 == core,
        core.step(input).1 == core.zero(),
        core.step(input).1.latched,
{
}

/// Motion is forwarded only in `Active`; every other decision forwards zero.
/// A decision latches exactly when its state is `EmergencyStop` or `Fault`,
/// and it always reports the state the supervisor is left in.
pub proof fn lemma_motion_only_when_active(core: SupervisorCore, input: SupervisorInput)
    requires
        core.wf(),
    ensures
        core.step(input).1.state == core.step(input).0.state,
        core.step(input).1.reason == core.step(input).0.reason,
        core.step(input).1.latched <==> SupervisorCore::latching(core.step(input).1.state),
        core.step(input).1.state != SafetyState::Active ==> core.step(input).1.linear
            == F64Bits::zero() && core.step(input).1.angular == F64Bits::zero(),
        core.step(input).1.state == SafetyState::Active ==> core.step(input).1.reason
            == Reason::Allow,
{
}

/// What is forwarded is exactly the proposed command, and only when the
/// runtime is healthy, health and command belong to the same frame and carry
/// the same timestamp, neither is older than the watchdog period, and the
/// command is finite with
/// `0 <= linear <= max_linear` and `|angular| <= max_angular`.
pub proof fn lemma_forwarded_command_is_safe(core: SupervisorCore, input: SupervisorInput)
    requires
        core.wf(),
        core.step(input).1.state == SafetyState::Active,
    ensures
        input.health is Some,
        input.command is Some,
        ({
            let health = input.health->0;
            let command = input.command->0;
            let next = core.step(input).0;
            &&& core.step(input).1.linear == command.linear
            &&& core.step(input).1.angular == command.angular
            &&& health.sensor_valid && health.perception_valid && health.solver_valid
                && health.articulation_ready
            &&& health.frame_id == command.frame_id
            &&& health.timestamp_ms.same_value(command.timestamp_ms)
            &&& !core.watchdog_ms.less_than(input.health_age_ms)
            &&& !core.watchdog_ms.less_than(input.command_age_ms)
            &&& command.linear.finite() && command.angular.finite()
            &&& F64Bits::zero().at_most(command.linear)
            &&& command.linear.at_most(core.max_linear)
            &&& !core.max_angular.less_than(command.angular.abs_spec())
            &&& next.max_linear == core.max_linear && next.max_angular == core.max_angular
        }),
{
}

/// A frame is accepted (warming up, ready, or forwarding) only when both
/// reports are present, the runtime is healthy, both belong to the same
/// frame, the clock and both timestamps are finite with neither timestamp
/// ahead of the clock, neither report is older than the watchdog period, the
/// two timestamps have the same value, and the command is finite with
/// `0 <= linear <= max_linear` and `|angular| <= max_angular`.
pub proof fn lemma_accepted_frame_passes_every_check(core: SupervisorCore, input: SupervisorInput)
    requires
        core.wf(),
        accepts(core, input),
    ensures
        input.health is Some,
        input.command is Some,
        ({
            let health = input.health->0;
            let command = input.command->0;
            &&& health.sensor_valid && health.perception_valid && health.solver_valid
                && health.articulation_ready
            &&& health.frame_id == command.frame_id
            &&& input.now_ms.finite() && health.timestamp_ms.finite()
                && command.timestamp_ms.finite()
            &&& health.timestamp_ms.at_most(input.now_ms)
            &&& command.timestamp_ms.at_most(input.now_ms)
            &&& !core.watchdog_ms.less_than(input.health_age_ms)
            &&& !core.watchdog_ms.less_than(input.command_age_ms)
            &&& health.timestamp_ms.same_value(command.timestamp_ms)
            &&& command.linear.finite() && command.angular.finite()
            &&& F64Bits::zero().at_most(command.linear)
            &&& command.linear.at_most(core.max_linear)
            &&& !core.max_angular.less_than(command.angular.abs_spec())
        }),
{
}

/// Conversely, in a running, unlatched session with the same epoch and no
/// shutdown or emergency stop, a frame that follows the last accepted one,
/// does not move either clock backwards and passes every check above is
/// accepted; a supervisor that was `Ready` or `Active` then forwards exactly
/// the proposed command.
pub proof fn lemma_frame_passing_every_check_is_accepted(
    core: SupervisorCore,
    input: SupervisorInput,
)
    requires
        core.wf(),
        core.state != SafetyState::Stopped,
        core.state != SafetyState::EmergencyStop,
        core.state != SafetyState::Fault,
        !input.shutdown,
        !input.emergency_stop,
        core.last_epoch matches Some(e) ==> e == input.epoch,
        input.health is Some,
        input.command is Some,
        ({
            let health = input.health->0;
            let command = input.command->0;
            &&& health.sensor_valid && health.perception_valid && health.solver_valid
                && health.articulation_ready
            &&& health.frame_id == command.frame_id
            &&& (core.last_frame_id matches Some(last) ==> last < u64::MAX && last + 1
                == health.frame_id)
            &&& input.now_ms.finite() && health.timestamp_ms.finite()
                && command.timestamp_ms.finite()
            &&& health.timestamp_ms.at_most(input.now_ms)
            &&& command.timestamp_ms.at_most(input.now_ms)
            &&& (core.last_now_ms matches Some(last) ==> last.at_most(input.now_ms))
            &&& (core.last_timestamp_ms matches Some(last) ==> last.at_most(
                health.timestamp_ms,
            ))
            &&& !core.watchdog_ms.less_than(input.health_age_ms)
            &&& !core.watchdog_ms.less_than(input.command_age_ms)
            &&& health.timestamp_ms.same_value(command.timestamp_ms)
            &&& command.linear.finite() && command.angular.finite()
            &&& F64Bits::zero().at_most(command.linear)
            &&& command.linear.at_most(core.max_linear)
            &&& !core.max_angular.less_than(command.angular.abs_spec())
        }),
    ensures
        accepts(core, input),
        core.step(input).0.last_frame_id == Some(input.health->0.frame_id),
        core.state == SafetyState::Ready || core.state == SafetyState::Active ==> {
            &&& core.step(input).1.state == SafetyState::Active
            &&& core.step(input).1.linear == input.command->0.linear
            &&& core.step(input).1.angular == input.command->0.angular
        },
{
}

/// `Active` is entered only from `Ready` (or kept from `Active`): there is no
/// jump from booting, warming up or a latched state straight to motion.
pub proof fn lemma_active_only_after_ready(core: SupervisorCore, input: SupervisorInput)
    requires
        core.wf(),
        core.step(input).0.state == SafetyState::Active,
    ensures
        core.state == SafetyState::Ready || core.state == SafetyState::Active,
{
}

/// Each step counts at most one more healthy frame.
pub proof fn lemma_one_frame_per_step(core: SupervisorCore, input: SupervisorInput)
    requires
        core.wf(),
    ensures
        core.step(input).0.healthy_frames <= core.healthy_frames + 1,
{
}

proof fn lemma_run_counts(core: SupervisorCore, inputs: Seq<SupervisorInput>)
    requires
        core.wf(),
        core.healthy_frames == 0,
    ensures
        run(core, inputs).wf(),
        run(core, inputs).healthy_frames <= inputs.len(),
    decreases inputs.len(),
{
    if inputs.len() > 0 {
        lemma_run_counts(core, inputs.drop_last());
        lemma_step_keeps_wf(run(core, inputs.drop_last()), inputs.last());
        lemma_one_frame_per_step(run(core, inputs.drop_last()), inputs.last());
    }
}

/// Starting from a supervisor with no healthy frame counted (a new one, or
/// one just reset), `Ready` needs at least `warmup_frames` inputs and `Active`
/// (forwarding motion) needs more than `warmup_frames` inputs.
pub proof fn lemma_warmup_precedes_motion(core: SupervisorCore, inputs: Seq<SupervisorInput>)
    requires
        core.wf(),
        core.healthy_frames == 0,
    ensures
        run(core, inputs).state == SafetyState::Ready ==> inputs.len() >= core.warmup_frames,
        run(core, inputs).state == SafetyState::Active ==> inputs.len() > core.warmup_frames,
    decreases inputs.len(),
{
    lemma_run_counts(core, inputs);
    if inputs.len() > 0 {
        let prev = run(core, inputs.drop_last());
        lemma_run_counts(core, inputs.drop_last());
        assert(prev.warmup_frames == core.warmup_frames) by {
            lemma_run_keeps_config(core, inputs.drop_last());
        }
        lemma_run_keeps_config(core, inputs);
        if run(core, inputs).state == SafetyState::Active {
            lemma_active_only_after_ready(prev, inputs.last());
        }
    }
}

/// The configuration never changes.
pub proof fn lemma_run_keeps_config(core: SupervisorCore, inputs: Seq<SupervisorInput>)
    ensures
        run(core, inputs).warmup_frames == core.warmup_frames,
        run(core, inputs).watchdog_ms == core.watchdog_ms,
        run(core, inputs).max_linear == core.max_linear,
        run(core, inputs).max_angular == core.max_angular,
    decreases inputs.len(),
{
    if inputs.len() > 0 {
        lemma_run_keeps_config(core, inputs.drop_last());
    }
}

/// Within a session, accepted frames are consecutive: a frame is accepted
/// after frame `f` only if it is frame `f + 1` (so nothing is accepted after
/// frame `u64::MAX`).
pub proof fn lemma_frames_are_consecutive(core: SupervisorCore, input: SupervisorInput)
    requires
        core.wf(),
        accepts(core, input),
        !restarts_session(core, input),
        core.last_frame_id is Some,
    ensures
        core.last_frame_id->0 < u64::MAX,
        input.health->0.frame_id == core.last_frame_id->0 + 1,
        core.step(input).0.last_frame_id == Some(input.health->0.frame_id),
{
}

/// Within a session, accepted clocks never run backwards: neither the
/// supervisor's clock nor the health timestamp is below the last accepted one.
pub proof fn lemma_timestamps_never_regress(core: SupervisorCore, input: SupervisorInput)
    requires
        core.wf(),
        accepts(core, input),
        !restarts_session(core, input),
    ensures
        input.now_ms.finite(),
        input.health->0.timestamp_ms.finite(),
        core.last_now_ms matches Some(last) ==> last.at_most(input.now_ms),
        core.last_timestamp_ms matches Some(last) ==> last.at_most(input.health->0.timestamp_ms),
{
}

/// The first epoch seen locks the session; a different epoch without a reset
/// request faults with `session_mismatch`.
pub proof fn lemma_epoch_lock(core: SupervisorCore, input: SupervisorInput)
    requires
        core.wf(),
        core.state != SafetyState::Stopped,
        !input.shutdown,
        !input.emergency_stop,
        !SupervisorCore::latching(core.state),
    ensures
        core.epoch_changed(input) && !input.reset ==> core.step(input).0.state
            == SafetyState::Fault && core.step(input).1.reason == Reason::SessionMismatch,
        !(core.epoch_changed(input) && !input.reset) ==> core.step(input).0.last_epoch == Some(
            input.epoch,
        ),
{
}

/// A reset out of `EmergencyStop` or `Fault` starts the warmup over: that
/// step never forwards motion and counts at most the one frame it carries.
pub proof fn lemma_reset_restarts_warmup(core: SupervisorCore, input: SupervisorInput)
    requires
        core.wf(),
        SupervisorCore::latching(core.state),
        !input.shutdown,
        !input.emergency_stop,
        input.reset,
    ensures
        core.step(input).0.state != SafetyState::Active,
        core.step(input).0.healthy_frames <= 1,
        core.step(input).1.linear == F64Bits::zero(),
        core.step(input).1.angular == F64Bits::zero(),
{
}

/// Distinct states are published under distinct codes.
pub proof fn lemma_state_codes_distinct(a: SafetyState, b: SafetyState)
    requires
        a != b,
    ensures
        state_number(a) != state_number(b),
{
}

/// The safety supervisor.
pub struct SafetySupervisor {
    core: SupervisorCore,
}

impl View for SafetySupervisor {
    type V = SupervisorCore;

    closed spec fn view(&self) -> SupervisorCore {
        self.core
    }
}

impl SafetySupervisor {
    #[verifier::type_invariant]
    spec fn well_formed(self) -> bool {
        self.core.wf()
    }

    /// A supervisor that needs `warmup_frames` consecutive accepted frames
    /// before it forwards motion, treats data older than `watchdog_ms` as
    /// stale, and forwards only commands with `0 <= linear <= max_linear` and
    /// `|angular| <= max_angular`.
    pub fn new(
        warmup_frames: u64,
        watchdog_ms: F64Bits,
        max_linear: F64Bits,
        max_angular: F64Bits,
    ) -> (r: Result<SafetySupervisor, String>)
        ensures
            r is Ok <==> timing_config_valid(warmup_frames, watchdog_ms) && limits_valid(
                max_linear,
                max_angular,
            ),
            r matches Ok(s) ==> s@ == SupervisorCore::initial(
                warmup_frames,
                watchdog_ms,
                max_linear,
                max_angular,
            ),
            r matches Err(e) ==> e@ == (if !timing_config_valid(warmup_frames, watchdog_ms) {
                "warmup_frames and watchdog_ms must be positive"@
            } else {
                "command limits must be finite and non-negative"@
            }),
    {
        let zero = F64Bits(0);
        if warmup_frames < 1 || !watchdog_ms.is_finite() || watchdog_ms.le(zero) {
            return Err("warmup_frames and watchdog_ms must be positive".to_owned());
        }
        if !max_linear.is_finite() || max_linear.lt(zero) || !max_angular.is_finite()
            || max_angular.lt(zero) {
            return Err("command limits must be finite and non-negative".to_owned());
        }
        Ok(
            SafetySupervisor {
                core: SupervisorCore {
                    warmup_frames,
                    watchdog_ms,
                    max_linear,
                    max_angular,
                    state: SafetyState::Boot,
                    reason: Reason::Boot,
                    healthy_frames: 0,
                    last_frame_id: None,
                    last_now_ms: None,
                    last_timestamp_ms: None,
                    last_epoch: None,
                },
            },
        )
    }

    /// The current state.
    pub fn state(&self) -> (s: SafetyState)
        ensures
            s == self@.state,
    {
        self.core.state
    }

    /// Advances the supervisor by one input and returns what to publish.
    pub fn step(&mut self, input: SupervisorInput) -> (decision: SafetyDecision)
        ensures
            final(self)@ == old(self)@.step(input).0,
            old(self)@.wf(),
            final(self)@.wf(),
            decision.shows(old(self)@.step(input).1),
    {
        proof {
            use_type_invariant(&*self);
        }
        let (next, verdict) = self.core.next(&input);
        self.core = next;
        SafetyDecision {
            state: verdict.state,
            linear: verdict.linear,
            angular: verdict.angular,
            reason: verdict.reason.as_str().to_owned(),
            latched: verdict.latched,
        }
    }
}

} // verus!
