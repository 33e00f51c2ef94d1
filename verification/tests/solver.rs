use fsd_core::ieee::F64Bits;
use fsd_core::solver::{
    build_obstacle_params, reference_point, validate_finite_slice, validate_stage, DynamicObstacle,
    MpcSolver, NlpHandleAddresses, SolverError, SolverQuantity,
};

fn bits(x: f64) -> F64Bits {
    F64Bits(x.to_bits())
}

fn obstacle(x: f64, y: f64, a: f64, b: f64) -> DynamicObstacle {
    DynamicObstacle {
        x: bits(x),
        y: bits(y),
        a: bits(a),
        b: bits(b),
    }
}

#[test]
fn obstacle_parameter_builder_rejects_nan() {
    let err = build_obstacle_params(&[obstacle(f64::NAN, 0.0, 0.3, 0.2)]).unwrap_err();
    assert!(matches!(err, SolverError::NonFinite { .. }));
    assert_eq!(
        err,
        SolverError::NonFinite {
            quantity: SolverQuantity::Obstacle,
            index: 0,
            value: bits(f64::NAN)
        }
    );
}

#[test]
fn obstacle_parameter_builder_rejects_bad_dimensions() {
    let obstacles = vec![
        obstacle(0.0, 0.0, 0.3, 0.2),
        obstacle(1.0, 0.0, 0.3, 0.2),
        obstacle(2.0, 0.0, 0.3, 0.2),
        obstacle(3.0, 0.0, 0.3, 0.2),
    ];
    let err = build_obstacle_params(&obstacles).unwrap_err();
    assert!(matches!(err, SolverError::TooManyObstacles { .. }));
    assert_eq!(err, SolverError::TooManyObstacles { max: 3, got: 4 });
}

#[test]
fn obstacle_parameters_pad_with_absent_obstacles() {
    let p = build_obstacle_params(&[obstacle(0.5, -0.35, 0.3, 0.2)]).unwrap();
    let values: Vec<f64> = p.iter().map(|b| f64::from_bits(b.0)).collect();
    assert_eq!(
        values,
        vec![0.5, -0.35, 0.3, 0.2, 1000.0, 1000.0, 0.1, 0.1, 1000.0, 1000.0, 0.1, 0.1]
    );
    let empty = build_obstacle_params(&[]).unwrap();
    assert_eq!(empty.len(), 12);
    assert_eq!(f64::from_bits(empty[0].0), 1000.0);
    assert_eq!(f64::from_bits(empty[3].0), 0.1);
}

#[test]
fn obstacle_axes_must_be_positive() {
    assert_eq!(
        build_obstacle_params(&[obstacle(0.0, 0.0, 0.3, 0.2), obstacle(1.0, 1.0, 0.0, 0.2)]),
        Err(SolverError::NonPositiveAxes { obstacle: 1 })
    );
    assert_eq!(
        build_obstacle_params(&[obstacle(0.0, 0.0, 0.3, -0.0)]),
        Err(SolverError::NonPositiveAxes { obstacle: 0 })
    );
}

#[test]
fn stages_run_from_zero_to_the_horizon() {
    assert_eq!(validate_stage(0), Ok(()));
    assert_eq!(validate_stage(20), Ok(()));
    assert_eq!(validate_stage(21), Err(SolverError::StageOutOfRange { stage: 21 }));
    assert_eq!(validate_stage(-1), Err(SolverError::StageOutOfRange { stage: -1 }));
}

#[test]
fn finite_slices_of_known_dimensions() {
    let state = [bits(0.0), bits(1.0), bits(2.0), bits(3.0)];
    assert_eq!(validate_finite_slice(SolverQuantity::CurrentState, &state), Ok(()));
    assert_eq!(
        validate_finite_slice(SolverQuantity::CurrentState, &state[..3]),
        Err(SolverError::UnexpectedDimension {
            quantity: SolverQuantity::CurrentState,
            len: 3
        })
    );
    let control = [bits(0.0), bits(f64::INFINITY)];
    assert_eq!(
        validate_finite_slice(SolverQuantity::OptimalControl, &control),
        Err(SolverError::NonFinite {
            quantity: SolverQuantity::OptimalControl,
            index: 1,
            value: bits(f64::INFINITY)
        })
    );
    assert_eq!(
        validate_finite_slice(SolverQuantity::CurrentVelocity, &[bits(0.3)]),
        Ok(())
    );
}

#[test]
fn reference_vectors_carry_a_zero_control_reference_except_at_the_end() {
    let middle = reference_point(5, bits(1.0), bits(2.0), bits(0.0), bits(0.3)).unwrap();
    let middle: Vec<f64> = middle.iter().map(|b| f64::from_bits(b.0)).collect();
    assert_eq!(middle, vec![1.0, 2.0, 0.0, 0.3, 0.0, 0.0]);
    let last = reference_point(20, bits(1.0), bits(2.0), bits(0.0), bits(0.3)).unwrap();
    assert_eq!(last.len(), 4);
    assert_eq!(
        reference_point(21, bits(1.0), bits(2.0), bits(0.0), bits(0.3)),
        Err(SolverError::StageOutOfRange { stage: 21 })
    );
    assert_eq!(
        reference_point(3, bits(1.0), bits(f64::NAN), bits(0.0), bits(0.3)),
        Err(SolverError::NonFinite {
            quantity: SolverQuantity::ReferenceTrajectory,
            index: 1,
            value: bits(f64::NAN)
        })
    );
}

#[test]
fn null_capsule_and_handles_are_refused_in_order() {
    let handles = NlpHandleAddresses {
        config: 1,
        dims: 2,
        nlp_in: 3,
        nlp_out: 0,
    };
    assert_eq!(MpcSolver { capsule: 0 }.ensure_capsule(), Err(SolverError::NullCapsule));
    assert_eq!(MpcSolver { capsule: 8 }.ensure_capsule(), Ok(()));
    assert_eq!(
        MpcSolver { capsule: 0 }.check_nlp_handles(handles, false),
        Err(SolverError::NullCapsule)
    );
    assert_eq!(MpcSolver { capsule: 8 }.check_nlp_handles(handles, false), Ok(handles));
    assert_eq!(
        MpcSolver { capsule: 8 }.check_nlp_handles(handles, true),
        Err(SolverError::NullNlpOut)
    );
    let no_config = NlpHandleAddresses { config: 0, dims: 0, ..handles };
    assert_eq!(
        MpcSolver { capsule: 8 }.check_nlp_handles(no_config, true),
        Err(SolverError::NullConfig)
    );
}
