use fsd_core::ieee::F64Bits;
use fsd_core::safety::{
    state_code, state_name, ControlProposal, Reason, RuntimeHealth, SafetyDecision, SafetyState,
    SafetySupervisor, SupervisorInput,
};

fn bits(x: f64) -> F64Bits {
    F64Bits(x.to_bits())
}

fn value(x: F64Bits) -> f64 {
    f64::from_bits(x.0)
}

fn healthy(frame_id: u64, timestamp_ms: f64) -> RuntimeHealth {
    RuntimeHealth {
        frame_id,
        timestamp_ms: bits(timestamp_ms),
        sensor_valid: true,
        perception_valid: true,
        solver_valid: true,
        articulation_ready: true,
    }
}

fn proposal(frame_id: u64, timestamp_ms: f64) -> ControlProposal {
    ControlProposal {
        frame_id,
        timestamp_ms: bits(timestamp_ms),
        linear: bits(0.4),
        angular: bits(0.2),
    }
}

fn input(frame_id: u64, timestamp_ms: f64) -> SupervisorInput {
    SupervisorInput {
        now_ms: bits(timestamp_ms),
        epoch: 1,
        health: Some(healthy(frame_id, timestamp_ms)),
        command: Some(proposal(frame_id, timestamp_ms)),
        emergency_stop: false,
        reset: false,
        shutdown: false,
        health_age_ms: bits(0.0),
        command_age_ms: bits(0.0),
    }
}

/// The elapsed times the supervisor reads, computed as `f64` like its caller does.
fn aged(mut input: SupervisorInput) -> SupervisorInput {
    let now = value(input.now_ms);
    if let Some(health) = input.health {
        input.health_age_ms = bits(now - value(health.timestamp_ms));
    }
    if let Some(command) = input.command {
        input.command_age_ms = bits(now - value(command.timestamp_ms));
    }
    input
}

fn step(supervisor: &mut SafetySupervisor, input: SupervisorInput) -> SafetyDecision {
    supervisor.step(aged(input))
}

fn new(warmup: u64, watchdog: f64, max_linear: f64, max_angular: f64) -> Result<SafetySupervisor, String> {
    SafetySupervisor::new(warmup, bits(watchdog), bits(max_linear), bits(max_angular))
}

fn command(decision: &SafetyDecision) -> (f64, f64) {
    (value(decision.linear), value(decision.angular))
}

#[test]
fn warmup_requires_consecutive_healthy_frames_before_allowing_motion() {
    let mut supervisor = new(3, 150.0, 0.8, 0.6).unwrap();

    let first = step(&mut supervisor, input(1, 10.0));
    assert_eq!(first.state, SafetyState::Warmup);
    assert_eq!(command(&first), (0.0, 0.0));

    let second = step(&mut supervisor, input(2, 20.0));
    assert_eq!(second.state, SafetyState::Warmup);
    assert_eq!(command(&second), (0.0, 0.0));

    let third = step(&mut supervisor, input(3, 30.0));
    assert_eq!(third.state, SafetyState::Ready);
    assert_eq!(third.reason, "startup_ready");
    assert_eq!(command(&third), (0.0, 0.0));

    let fourth = step(&mut supervisor, input(4, 40.0));
    assert_eq!(fourth.state, SafetyState::Active);
    assert_eq!(command(&fourth), (0.4, 0.2));
}

#[test]
fn unhealthy_runtime_faults_and_latches_zero_until_reset() {
    let mut supervisor = new(1, 150.0, 0.8, 0.6).unwrap();
    let mut unhealthy = input(1, 10.0);
    unhealthy.health.as_mut().unwrap().perception_valid = false;

    let fault = step(&mut supervisor, unhealthy);
    assert_eq!(fault.state, SafetyState::Fault);
    assert_eq!(fault.reason, "runtime_unhealthy");
    assert!(fault.latched);

    let still_fault = step(&mut supervisor, input(2, 20.0));
    assert_eq!(still_fault.state, SafetyState::Fault);
    assert_eq!(command(&still_fault), (0.0, 0.0));

    let mut reset = input(1, 30.0);
    reset.reset = true;
    let after_reset = step(&mut supervisor, reset);
    assert_eq!(after_reset.state, SafetyState::Ready);
    assert!(!after_reset.latched);
}

#[test]
fn emergency_stop_latches_until_explicit_reset() {
    let mut supervisor = new(1, 150.0, 0.8, 0.6).unwrap();
    let mut stop = input(1, 10.0);
    stop.emergency_stop = true;

    let stopped = step(&mut supervisor, stop);
    assert_eq!(stopped.state, SafetyState::EmergencyStop);
    assert!(stopped.latched);

    let still_stopped = step(&mut supervisor, input(2, 20.0));
    assert_eq!(still_stopped.state, SafetyState::EmergencyStop);

    let mut reset = input(1, 30.0);
    reset.reset = true;
    let after_reset = step(&mut supervisor, reset);
    assert_eq!(after_reset.state, SafetyState::Ready);
}

#[test]
fn shutdown_is_terminal_and_always_zero() {
    let mut supervisor = new(1, 150.0, 0.8, 0.6).unwrap();
    let mut shutdown = input(1, 10.0);
    shutdown.shutdown = true;

    let decision = step(&mut supervisor, shutdown);
    assert_eq!(decision.state, SafetyState::Stopped);
    assert_eq!(decision.reason, "shutdown");

    let after = step(&mut supervisor, input(2, 20.0));
    assert_eq!(after.state, SafetyState::Stopped);
    assert_eq!(command(&after), (0.0, 0.0));
}

#[test]
fn validation_reasons_match_phase5_contract() {
    let cases: Vec<(&str, SupervisorInput)> = vec![
        (
            "missing_runtime_input",
            SupervisorInput {
                health: None,
                command: None,
                ..input(1, 10.0)
            },
        ),
        (
            "frame_mismatch",
            SupervisorInput {
                command: Some(proposal(2, 10.0)),
                ..input(1, 10.0)
            },
        ),
        (
            "invalid_health_timestamp",
            SupervisorInput {
                now_ms: bits(9.0),
                ..input(1, 10.0)
            },
        ),
        (
            "stale_health",
            SupervisorInput {
                now_ms: bits(200.1),
                ..input(1, 10.0)
            },
        ),
        (
            "invalid_command_timestamp",
            SupervisorInput {
                command: Some(proposal(1, f64::NAN)),
                ..input(1, 10.0)
            },
        ),
        (
            "timestamp_mismatch",
            SupervisorInput {
                now_ms: bits(11.0),
                command: Some(proposal(1, 11.0)),
                ..input(1, 10.0)
            },
        ),
        (
            "invalid_command",
            SupervisorInput {
                command: Some(ControlProposal {
                    linear: bits(0.9),
                    ..proposal(1, 10.0)
                }),
                ..input(1, 10.0)
            },
        ),
    ];

    for (reason, case) in cases {
        let mut supervisor = new(1, 150.0, 0.8, 0.6).unwrap();
        let decision = step(&mut supervisor, case);
        assert_eq!(decision.reason, reason);
        assert_eq!(decision.state, SafetyState::Fault);
        assert_eq!(command(&decision), (0.0, 0.0));
    }
}

#[test]
fn frame_sequence_gap_faults_after_a_valid_frame() {
    let mut supervisor = new(1, 150.0, 0.8, 0.6).unwrap();
    assert_eq!(step(&mut supervisor, input(1, 10.0)).state, SafetyState::Ready);

    let gap = step(&mut supervisor, input(3, 20.0));
    assert_eq!(gap.state, SafetyState::Fault);
    assert_eq!(gap.reason, "frame_sequence_gap");
}

#[test]
fn stale_command_faults_while_health_is_fresh() {
    let mut supervisor = new(1, 120.0, 0.8, 0.6).unwrap();
    assert_eq!(step(&mut supervisor, input(1, 0.0)).state, SafetyState::Ready);
    assert_eq!(step(&mut supervisor, input(2, 50.0)).state, SafetyState::Active);

    let fault = step(
        &mut supervisor,
        SupervisorInput {
            now_ms: bits(200.0),
            epoch: 1,
            health: Some(healthy(3, 200.0)),
            command: Some(proposal(3, 50.0)),
            emergency_stop: false,
            reset: false,
            shutdown: false,
            health_age_ms: bits(0.0),
            command_age_ms: bits(0.0),
        },
    );
    assert_eq!(fault.state, SafetyState::Fault);
    assert_eq!(fault.reason, "stale_command");
    assert!(fault.latched);
}

#[test]
fn reset_restarts_the_full_warmup_sequence() {
    let mut supervisor = new(2, 150.0, 0.8, 0.6).unwrap();
    assert_eq!(step(&mut supervisor, input(1, 0.0)).state, SafetyState::Warmup);
    assert_eq!(step(&mut supervisor, input(2, 50.0)).state, SafetyState::Ready);
    assert_eq!(step(&mut supervisor, input(3, 100.0)).state, SafetyState::Active);

    let mut stop = input(4, 150.0);
    stop.emergency_stop = true;
    assert_eq!(step(&mut supervisor, stop).state, SafetyState::EmergencyStop);

    let mut reset = input(6, 250.0);
    reset.reset = true;
    assert_eq!(step(&mut supervisor, reset).state, SafetyState::Warmup);
    assert_eq!(step(&mut supervisor, input(7, 300.0)).state, SafetyState::Ready);
    assert_eq!(step(&mut supervisor, input(8, 350.0)).state, SafetyState::Active);
}

#[test]
fn maximum_frame_id_followed_by_any_frame_faults_without_panicking() {
    let mut supervisor = new(1, 150.0, 0.8, 0.6).unwrap();
    assert_eq!(
        step(&mut supervisor, input(u64::MAX, 10.0)).state,
        SafetyState::Ready
    );

    let fault = step(&mut supervisor, input(0, 20.0));
    assert_eq!(fault.state, SafetyState::Fault);
    assert_eq!(fault.reason, "frame_sequence_gap");
}

#[test]
fn accepted_timestamps_must_not_move_backwards_within_a_session() {
    let mut supervisor = new(1, 150.0, 0.8, 0.6).unwrap();
    assert_eq!(step(&mut supervisor, input(1, 1_000.0)).state, SafetyState::Ready);

    let fault = step(&mut supervisor, input(2, 100.0));
    assert_eq!(fault.state, SafetyState::Fault);
    assert_eq!(fault.reason, "timestamp_regression");
    assert!(fault.latched);
}

#[test]
fn watchdog_boundary_is_inclusive_and_next_representable_value_is_stale() {
    let mut at_boundary = new(1, 150.0, 0.8, 0.6).unwrap();
    let accepted = step(
        &mut at_boundary,
        SupervisorInput {
            now_ms: bits(160.0),
            epoch: 1,
            health: Some(healthy(1, 10.0)),
            command: Some(proposal(1, 10.0)),
            emergency_stop: false,
            reset: false,
            shutdown: false,
            health_age_ms: bits(0.0),
            command_age_ms: bits(0.0),
        },
    );
    assert_eq!(accepted.state, SafetyState::Ready);

    let mut beyond = new(1, 150.0, 0.8, 0.6).unwrap();
    let stale = step(
        &mut beyond,
        SupervisorInput {
            now_ms: bits(160.000_001),
            epoch: 1,
            health: Some(healthy(1, 10.0)),
            command: Some(proposal(1, 10.0)),
            emergency_stop: false,
            reset: false,
            shutdown: false,
            health_age_ms: bits(0.0),
            command_age_ms: bits(0.0),
        },
    );
    assert_eq!(stale.state, SafetyState::Fault);
    assert_eq!(stale.reason, "stale_health");
}

#[test]
fn command_limits_are_inclusive_and_non_finite_values_fail_closed() {
    for (linear, angular) in [(0.0, -0.6), (0.8, 0.6)] {
        let mut supervisor = new(1, 150.0, 0.8, 0.6).unwrap();
        let mut case = input(1, 10.0);
        case.command = Some(ControlProposal {
            linear: bits(linear),
            angular: bits(angular),
            ..proposal(1, 10.0)
        });
        assert_eq!(step(&mut supervisor, case).state, SafetyState::Ready);
    }

    for (linear, angular) in [
        (-f64::EPSILON, 0.0),
        (0.8 + f64::EPSILON, 0.0),
        (0.0, 0.6 + f64::EPSILON),
        (f64::NAN, 0.0),
        (0.0, f64::INFINITY),
    ] {
        let mut supervisor = new(1, 150.0, 0.8, 0.6).unwrap();
        let mut case = input(1, 10.0);
        case.command = Some(ControlProposal {
            linear: bits(linear),
            angular: bits(angular),
            ..proposal(1, 10.0)
        });
        let decision = step(&mut supervisor, case);
        assert_eq!(decision.state, SafetyState::Fault);
        assert_eq!(decision.reason, "invalid_command");
    }
}

#[test]
fn terminal_and_emergency_actions_have_fixed_priority() {
    let mut shutdown_wins = new(1, 150.0, 0.8, 0.6).unwrap();
    let mut all_actions = input(1, 10.0);
    all_actions.shutdown = true;
    all_actions.emergency_stop = true;
    all_actions.reset = true;
    assert_eq!(step(&mut shutdown_wins, all_actions).state, SafetyState::Stopped);

    let mut stop_wins = new(1, 150.0, 0.8, 0.6).unwrap();
    let mut stop_and_reset = input(1, 10.0);
    stop_and_reset.emergency_stop = true;
    stop_and_reset.reset = true;
    assert_eq!(
        step(&mut stop_wins, stop_and_reset).state,
        SafetyState::EmergencyStop
    );
}

#[test]
fn equal_timestamps_are_allowed_but_decreasing_timestamps_are_not() {
    let mut supervisor = new(1, 150.0, 0.8, 0.6).unwrap();
    assert_eq!(step(&mut supervisor, input(1, 10.0)).state, SafetyState::Ready);
    assert_eq!(step(&mut supervisor, input(2, 10.0)).state, SafetyState::Active);
}

#[test]
fn first_frame_locks_epoch_and_mismatched_epoch_faults() {
    let mut supervisor = new(1, 150.0, 0.8, 0.6).unwrap();
    assert_eq!(step(&mut supervisor, input(1, 10.0)).state, SafetyState::Ready);

    let mut replay = input(2, 20.0);
    replay.epoch = 999;
    let decision = step(&mut supervisor, replay);
    assert_eq!(decision.state, SafetyState::Fault);
    assert_eq!(decision.reason, "session_mismatch");
}

#[test]
fn new_epoch_with_reset_opens_a_fresh_session() {
    let mut supervisor = new(1, 150.0, 0.8, 0.6).unwrap();
    assert_eq!(step(&mut supervisor, input(1, 10.0)).state, SafetyState::Ready);
    assert_eq!(step(&mut supervisor, input(2, 20.0)).state, SafetyState::Active);

    let mut new_session = input(1, 30.0);
    new_session.epoch = 2;
    new_session.reset = true;
    let decision = step(&mut supervisor, new_session);
    assert_eq!(decision.state, SafetyState::Ready);
}

#[test]
fn constructor_rejects_invalid_configuration() {
    assert!(new(0, 150.0, 0.8, 0.6).is_err());
    assert!(new(1, 0.0, 0.8, 0.6).is_err());
    assert!(new(1, f64::NAN, 0.8, 0.6).is_err());
    assert!(new(1, 150.0, f64::INFINITY, 0.6).is_err());
    assert!(new(1, 150.0, 0.8, f64::NAN).is_err());
    assert!(new(1, 150.0, -0.1, 0.6).is_err());
    assert!(new(1, 150.0, 0.8, -0.1).is_err());
}

#[test]
fn constructor_errors_name_the_offending_setting() {
    assert_eq!(
        new(0, 150.0, 0.8, 0.6).err().unwrap(),
        "warmup_frames and watchdog_ms must be positive"
    );
    assert_eq!(
        new(1, 150.0, -0.1, 0.6).err().unwrap(),
        "command limits must be finite and non-negative"
    );
    assert!(new(1, 150.0, 0.0, 0.0).is_ok());
    assert!(new(1, 150.0, -0.0, 0.6).is_ok());
}

#[test]
fn new_supervisor_boots() {
    let supervisor = new(5, 150.0, 0.8, 0.6).unwrap();
    assert_eq!(supervisor.state(), SafetyState::Boot);
}

#[test]
fn stopped_supervisor_ignores_reset_and_healthy_frames() {
    let mut supervisor = new(1, 150.0, 0.8, 0.6).unwrap();
    let mut shutdown = input(1, 10.0);
    shutdown.shutdown = true;
    step(&mut supervisor, shutdown);
    for frame in 2..6 {
        let mut case = input(frame, 10.0 * frame as f64);
        case.reset = true;
        let decision = step(&mut supervisor, case);
        assert_eq!(decision.state, SafetyState::Stopped);
        assert_eq!(decision.reason, "shutdown");
        assert!(!decision.latched);
        assert_eq!(command(&decision), (0.0, 0.0));
    }
}

#[test]
fn fault_without_reset_keeps_reason_and_ignores_valid_frames() {
    let mut supervisor = new(1, 150.0, 0.8, 0.6).unwrap();
    step(&mut supervisor, input(1, 10.0));
    let gap = step(&mut supervisor, input(5, 20.0));
    assert_eq!(gap.reason, "frame_sequence_gap");
    let again = step(&mut supervisor, input(6, 30.0));
    assert_eq!(again.state, SafetyState::Fault);
    assert_eq!(again.reason, "frame_sequence_gap");
    assert!(again.latched);
}

#[test]
fn reset_flag_is_ignored_while_healthy() {
    let mut supervisor = new(2, 150.0, 0.8, 0.6).unwrap();
    assert_eq!(step(&mut supervisor, input(1, 10.0)).state, SafetyState::Warmup);
    let mut reset = input(2, 20.0);
    reset.reset = true;
    // The reset does not restart the session: frame 2 continues frame 1.
    assert_eq!(step(&mut supervisor, reset).state, SafetyState::Ready);
    // And the sequence continues without a gap.
    assert_eq!(step(&mut supervisor, input(3, 30.0)).state, SafetyState::Active);
}

#[test]
fn reset_after_fault_accepts_any_next_frame_id() {
    let mut supervisor = new(1, 150.0, 0.8, 0.6).unwrap();
    step(&mut supervisor, input(10, 100.0));
    let mut stop = input(11, 110.0);
    stop.emergency_stop = true;
    step(&mut supervisor, stop);
    // A reset drops the frame and timestamp history: an earlier frame id and
    // an earlier clock are accepted.
    let mut reset = input(3, 50.0);
    reset.reset = true;
    let decision = step(&mut supervisor, reset);
    assert_eq!(decision.state, SafetyState::Ready);
    assert_eq!(decision.reason, "startup_ready");
}

#[test]
fn epoch_change_with_reset_while_latched_restarts_once() {
    let mut supervisor = new(1, 150.0, 0.8, 0.6).unwrap();
    step(&mut supervisor, input(1, 10.0));
    let mut replay = input(2, 20.0);
    replay.epoch = 7;
    assert_eq!(step(&mut supervisor, replay).reason, "session_mismatch");
    let mut reset = input(1, 30.0);
    reset.epoch = 7;
    reset.reset = true;
    assert_eq!(step(&mut supervisor, reset).state, SafetyState::Ready);
    // The session is now locked to epoch 7.
    let next = input(2, 40.0);
    let mut next7 = next;
    next7.epoch = 7;
    assert_eq!(step(&mut supervisor, next7).state, SafetyState::Active);
}

#[test]
fn forwarded_command_is_bit_exact() {
    let mut supervisor = new(1, 150.0, 0.8, 0.6).unwrap();
    step(&mut supervisor, input(1, 10.0));
    let mut case = input(2, 20.0);
    case.command = Some(ControlProposal {
        linear: bits(-0.0),
        angular: bits(-0.6),
        ..proposal(2, 20.0)
    });
    let decision = step(&mut supervisor, case);
    assert_eq!(decision.state, SafetyState::Active);
    assert_eq!(decision.reason, "allow");
    assert_eq!(decision.linear, bits(-0.0));
    assert_eq!(decision.angular, bits(-0.6));
}

#[test]
fn health_timestamp_regression_is_detected_even_when_clock_advances() {
    let mut supervisor = new(1, 150.0, 0.8, 0.6).unwrap();
    step(&mut supervisor, input(1, 100.0));
    let case = SupervisorInput {
        now_ms: bits(120.0),
        health: Some(healthy(2, 90.0)),
        command: Some(proposal(2, 90.0)),
        ..input(2, 120.0)
    };
    let decision = step(&mut supervisor, case);
    assert_eq!(decision.reason, "timestamp_regression");
}

#[test]
fn state_names_and_codes() {
    let states = [
        (SafetyState::Boot, "boot", 0),
        (SafetyState::Warmup, "warmup", 1),
        (SafetyState::Ready, "ready", 2),
        (SafetyState::Active, "active", 3),
        (SafetyState::EmergencyStop, "emergency_stop", 4),
        (SafetyState::Fault, "fault", 5),
        (SafetyState::Stopped, "stopped", 6),
    ];
    for (state, name, code) in states {
        assert_eq!(state_name(state), name);
        assert_eq!(state_code(state), code);
    }
}

#[test]
fn reason_names() {
    assert_eq!(Reason::Boot.as_str(), "boot");
    assert_eq!(Reason::WarmingUp.as_str(), "warming_up");
    assert_eq!(Reason::InvalidCommandTimestamp.as_str(), "invalid_command_timestamp");
    assert_eq!(Reason::TimestampMismatch.as_str(), "timestamp_mismatch");
}
