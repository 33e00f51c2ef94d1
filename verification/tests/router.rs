use fsd_core::ieee::F32Bits;
use fsd_core::router::{
    validate_finite, DrivingSignalPayload, EventRouter, RouteError, RouterEvent, SignalData,
    SignalKind, BEV_GRID_LEN,
};

fn bits(x: f32) -> F32Bits {
    F32Bits(x.to_bits())
}

fn floats(values: &[f32]) -> SignalData {
    SignalData::Float32(values.iter().map(|v| bits(*v)).collect())
}

fn input(id: &str, data: SignalData) -> RouterEvent {
    RouterEvent::Input {
        id: id.to_string(),
        data,
    }
}

#[test]
fn odometry_becomes_physical_odometry() {
    let routed = EventRouter::dispatch_event(input("odometry", floats(&[1.0, 2.0, 0.5, 0.3, 9.0])));
    assert_eq!(
        routed,
        Ok(DrivingSignalPayload::PhysicalOdometry {
            x: bits(1.0),
            y: bits(2.0),
            yaw: bits(0.5),
            v: bits(0.3)
        })
    );
}

#[test]
fn short_or_mistyped_odometry_is_rejected() {
    assert_eq!(
        EventRouter::dispatch_event(input("odometry", floats(&[1.0, 2.0, 3.0]))),
        Err(RouteError::ArrayTooShort(SignalKind::Odometry))
    );
    assert_eq!(
        EventRouter::dispatch_event(input("odometry", SignalData::UInt8(vec![1, 2, 3, 4]))),
        Err(RouteError::WrongArrayType(SignalKind::Odometry))
    );
}

#[test]
fn non_finite_values_are_reported_with_their_index() {
    assert_eq!(
        EventRouter::dispatch_event(input("odometry", floats(&[1.0, f32::NAN, f32::INFINITY, 0.0]))),
        Err(RouteError::NonFinite {
            signal: SignalKind::Odometry,
            index: 1,
            value: bits(f32::NAN)
        })
    );
    // Values after the ones the signal needs are not checked.
    assert!(EventRouter::dispatch_event(input("obstacle_force", floats(&[0.5, -0.5, f32::NAN]))).is_ok());
    assert_eq!(
        EventRouter::dispatch_event(input("human_prior", floats(&[0.0, 1.0, f32::NEG_INFINITY]))),
        Err(RouteError::NonFinite {
            signal: SignalKind::HumanPrior,
            index: 2,
            value: bits(f32::NEG_INFINITY)
        })
    );
}

#[test]
fn obstacle_force_and_human_prior() {
    assert_eq!(
        EventRouter::dispatch_event(input("obstacle_force", floats(&[0.5, -0.25]))),
        Ok(DrivingSignalPayload::ObstacleRepulsionForce {
            fx: bits(0.5),
            fy: bits(-0.25)
        })
    );
    assert_eq!(
        EventRouter::dispatch_event(input("obstacle_force", floats(&[0.5]))),
        Err(RouteError::ArrayTooShort(SignalKind::ObstacleForce))
    );
    assert_eq!(
        EventRouter::dispatch_event(input("human_prior", floats(&[0.52, 4.11, 0.0]))),
        Ok(DrivingSignalPayload::SlowBrainAttractionNav {
            goal_x: bits(0.52),
            goal_y: bits(4.11),
            goal_yaw: bits(0.0)
        })
    );
}

#[test]
fn bev_grid_must_have_the_exact_size() {
    let grid = vec![7u8; BEV_GRID_LEN];
    assert_eq!(
        EventRouter::dispatch_event(input("bev_grid", SignalData::UInt8(grid.clone()))),
        Ok(DrivingSignalPayload::BevGrid(grid))
    );
    assert_eq!(
        EventRouter::dispatch_event(input("bev_grid", SignalData::UInt8(vec![0u8; 10]))),
        Err(RouteError::BevGridSize {
            expected: 36864,
            got: 10
        })
    );
    assert_eq!(
        EventRouter::dispatch_event(input("bev_grid", floats(&[0.0]))),
        Err(RouteError::WrongArrayType(SignalKind::BevGrid))
    );
}

#[test]
fn ttc_rejects_nan_and_negative_values_only() {
    assert_eq!(
        EventRouter::dispatch_event(input("ttc", floats(&[1.5]))),
        Ok(DrivingSignalPayload::NeuralReflexTtc(bits(1.5)))
    );
    assert_eq!(
        EventRouter::dispatch_event(input("ttc", floats(&[f32::INFINITY]))),
        Ok(DrivingSignalPayload::NeuralReflexTtc(bits(f32::INFINITY)))
    );
    assert_eq!(
        EventRouter::dispatch_event(input("ttc", floats(&[-0.0]))),
        Ok(DrivingSignalPayload::NeuralReflexTtc(bits(-0.0)))
    );
    assert_eq!(
        EventRouter::dispatch_event(input("ttc", floats(&[-0.5]))),
        Err(RouteError::InvalidTtc(bits(-0.5)))
    );
    assert_eq!(
        EventRouter::dispatch_event(input("ttc", floats(&[f32::NAN]))),
        Err(RouteError::InvalidTtc(bits(f32::NAN)))
    );
    assert_eq!(
        EventRouter::dispatch_event(input("ttc", floats(&[]))),
        Err(RouteError::ArrayTooShort(SignalKind::Ttc))
    );
}

#[test]
fn unknown_inputs_stop_and_other_events() {
    assert_eq!(
        EventRouter::dispatch_event(input("gps", floats(&[1.0]))),
        Ok(DrivingSignalPayload::Uncalibrated)
    );
    assert_eq!(
        EventRouter::dispatch_event(RouterEvent::Stop),
        Ok(DrivingSignalPayload::SystemOffline)
    );
    assert_eq!(
        EventRouter::dispatch_event(RouterEvent::Other),
        Ok(DrivingSignalPayload::Uncalibrated)
    );
}

#[test]
fn validate_finite_reports_the_first_bad_value() {
    let values = [bits(0.0), bits(f32::INFINITY), bits(f32::NAN)];
    assert_eq!(
        validate_finite(SignalKind::Odometry, &values),
        Err(RouteError::NonFinite {
            signal: SignalKind::Odometry,
            index: 1,
            value: bits(f32::INFINITY)
        })
    );
    assert_eq!(validate_finite(SignalKind::Odometry, &[bits(1.0), bits(-2.0)]), Ok(()));
    assert_eq!(validate_finite(SignalKind::Odometry, &[]), Ok(()));
}
