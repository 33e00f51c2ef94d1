use fsd_core::ieee::{F32Bits, F64Bits};
use fsd_core::node::{
    param_bool, param_f64, param_i64, read_control_frame, MetadataParameters, Parameter,
    SafetyRequests,
};
use fsd_core::router::SignalData;

fn metadata(entries: Vec<(&str, Parameter)>) -> MetadataParameters {
    MetadataParameters {
        entries: entries.into_iter().map(|(k, v)| (k.to_string(), v)).collect(),
    }
}

#[test]
fn typed_parameters_with_defaults() {
    let m = metadata(vec![
        ("flag", Parameter::Bool(true)),
        ("count", Parameter::Integer(-3)),
        ("stamp", Parameter::Float(F64Bits(12.5f64.to_bits()))),
        ("name", Parameter::String("x".to_string())),
    ]);
    assert!(param_bool(&m, "flag"));
    assert!(!param_bool(&m, "count"));
    assert!(!param_bool(&m, "missing"));
    assert_eq!(param_i64(&m, "count"), -3);
    assert_eq!(param_i64(&m, "flag"), 0);
    assert_eq!(f64::from_bits(param_f64(&m, "stamp").0), 12.5);
    assert!(f64::from_bits(param_f64(&m, "name").0).is_nan());
    assert!(f64::from_bits(param_f64(&m, "missing").0).is_nan());
}

#[test]
fn control_frames_clamp_ids_and_fall_back_to_nan() {
    let m = metadata(vec![
        ("source_frame_id", Parameter::Integer(-5)),
        ("session_epoch", Parameter::Integer(4)),
        ("health_timestamp_ms", Parameter::Float(F64Bits(10.0f64.to_bits()))),
        ("sensor_valid", Parameter::Bool(true)),
        ("perception_valid", Parameter::Bool(true)),
        ("solver_valid", Parameter::Bool(false)),
    ]);
    let data = SignalData::Float32(vec![F32Bits(0.4f32.to_bits()), F32Bits(0.2f32.to_bits())]);
    let frame = read_control_frame(&m, &data);
    assert_eq!(frame.frame_id, 0);
    assert_eq!(frame.epoch, 4);
    assert_eq!(frame.health.frame_id, 0);
    assert!(frame.health.sensor_valid && frame.health.perception_valid);
    assert!(!frame.health.solver_valid && !frame.health.articulation_ready);
    assert_eq!(f64::from_bits(frame.health.timestamp_ms.0), 10.0);
    assert!(f64::from_bits(frame.proposal_timestamp_ms.0).is_nan());
    assert_eq!(f32::from_bits(frame.linear.0), 0.4);
    assert_eq!(f32::from_bits(frame.angular.0), 0.2);

    let three = SignalData::Float32(vec![F32Bits(0); 3]);
    let frame = read_control_frame(&m, &three);
    assert!(f32::from_bits(frame.linear.0).is_nan());
    assert!(f32::from_bits(frame.angular.0).is_nan());
}

#[test]
fn safety_requests_latch_reset_until_taken() {
    let mut requests = SafetyRequests {
        emergency_stop: false,
        reset_pending: false,
    };
    requests.apply_request(&SignalData::UInt8(vec![1, 1]));
    assert!(requests.emergency_stop && requests.reset_pending);
    requests.apply_request(&SignalData::UInt8(vec![0, 0]));
    assert!(!requests.emergency_stop);
    assert!(requests.reset_pending);
    requests.apply_request(&SignalData::UInt8(vec![1]));
    assert!(!requests.emergency_stop);
    assert!(requests.take_reset());
    assert!(!requests.take_reset());
}
