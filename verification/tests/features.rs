use fsd_core::features::{
    decode_xfeat_struct, recover_history_visual_fingerprint, struct_column_f32, ColumnData,
    DecodeError, Float32Column, FrameColumn, ListValues, NodeFingerprint, StructColumns, XfeatColumn, XFEAT_DESCRIPTOR_DIM,
};
use fsd_core::ieee::F32Bits;

fn bits(x: f32) -> F32Bits {
    F32Bits(x.to_bits())
}

fn all(values: &[f32]) -> Vec<F32Bits> {
    values.iter().map(|v| bits(*v)).collect()
}

fn value(x: F32Bits) -> f32 {
    f32::from_bits(x.0)
}

#[test]
fn history_fingerprint_skips_when_keypoints_missing() {
    let mut node = NodeFingerprint::default();
    node.descriptors = all(&vec![0.1; XFEAT_DESCRIPTOR_DIM * 2]);

    assert!(recover_history_visual_fingerprint(&node).is_empty());
}

#[test]
fn history_fingerprint_restores_64d_descriptor_and_xy_pairs() {
    let mut node = NodeFingerprint::default();
    let mut descriptors = vec![0.0; XFEAT_DESCRIPTOR_DIM * 2];
    descriptors[3] = 1.0;
    descriptors[XFEAT_DESCRIPTOR_DIM + 7] = 1.0;
    node.descriptors = all(&descriptors);
    node.keypoints = all(&[10.0, 20.0, 30.0, 40.0]);

    let features = recover_history_visual_fingerprint(&node);

    assert_eq!(features.len(), 2);
    assert_eq!((value(features[0].x), value(features[0].y)), (10.0, 20.0));
    assert_eq!((value(features[1].x), value(features[1].y)), (30.0, 40.0));
    assert_eq!(features[0].descriptor.len(), XFEAT_DESCRIPTOR_DIM);
    assert_eq!(features[1].descriptor.len(), XFEAT_DESCRIPTOR_DIM);
}

#[test]
fn history_fingerprint_keeps_descriptor_contents_and_full_confidence() {
    let mut descriptors = vec![0.0; XFEAT_DESCRIPTOR_DIM * 2];
    descriptors[3] = 1.0;
    descriptors[XFEAT_DESCRIPTOR_DIM + 7] = 1.0;
    let node = NodeFingerprint {
        descriptors: all(&descriptors),
        keypoints: all(&[10.0, 20.0, 30.0, 40.0]),
    };
    let features = recover_history_visual_fingerprint(&node);
    assert_eq!(value(features[0].descriptor[3]), 1.0);
    assert_eq!(value(features[1].descriptor[7]), 1.0);
    assert_eq!(value(features[1].descriptor[3]), 0.0);
    assert_eq!(value(features[0].confidence), 1.0);
    assert_eq!(value(features[1].confidence), 1.0);
}

#[test]
fn history_fingerprint_rejects_partial_descriptors_and_empty_nodes() {
    let partial = NodeFingerprint {
        descriptors: all(&vec![0.0; XFEAT_DESCRIPTOR_DIM + 1]),
        keypoints: all(&[1.0, 2.0]),
    };
    assert!(recover_history_visual_fingerprint(&partial).is_empty());
    assert!(recover_history_visual_fingerprint(&NodeFingerprint::default()).is_empty());
    let too_many_keypoints = NodeFingerprint {
        descriptors: all(&vec![0.0; XFEAT_DESCRIPTOR_DIM]),
        keypoints: all(&[1.0, 2.0, 3.0, 4.0]),
    };
    assert!(recover_history_visual_fingerprint(&too_many_keypoints).is_empty());
}

fn float32(values: &[f32]) -> Float32Column {
    Float32Column {
        values: all(values),
        validity: None,
    }
}

fn f32_column(values: Vec<f32>) -> ColumnData {
    ColumnData::Float32(float32(&values))
}

fn descriptor_column(rows: usize, dim: i32) -> ColumnData {
    ColumnData::FixedSizeList {
        value_length: dim,
        rows,
        validity: None,
        values: ListValues::Float32(float32(&vec![0.1f32; dim as usize * rows])),
    }
}

fn xfeat_struct(x: ColumnData, y: ColumnData, score: ColumnData, descriptor: ColumnData) -> StructColumns {
    StructColumns {
        columns: vec![
            ("x".to_string(), x),
            ("y".to_string(), y),
            ("score".to_string(), score),
            ("descriptor".to_string(), descriptor),
        ],
    }
}

#[test]
fn decode_accepts_well_formed_struct() {
    let array = xfeat_struct(
        f32_column(vec![1.0, 2.0]),
        f32_column(vec![3.0, 4.0]),
        f32_column(vec![0.9, 0.8]),
        descriptor_column(2, XFEAT_DESCRIPTOR_DIM as i32),
    );
    let features = decode_xfeat_struct(&array).expect("valid struct must decode");
    assert_eq!(features.len(), 2);
    assert_eq!((value(features[0].x), value(features[0].y)), (1.0, 3.0));
    assert_eq!(features[1].descriptor.len(), XFEAT_DESCRIPTOR_DIM);
}

#[test]
fn decode_rejects_missing_column() {
    let array = StructColumns {
        columns: vec![
            ("x".to_string(), f32_column(vec![1.0])),
            ("y".to_string(), f32_column(vec![1.0])),
        ],
    };
    assert!(decode_xfeat_struct(&array).is_err());
}

#[test]
fn decode_rejects_missing_descriptor() {
    let array = StructColumns {
        columns: vec![
            ("x".to_string(), f32_column(vec![1.0])),
            ("y".to_string(), f32_column(vec![1.0])),
            ("score".to_string(), f32_column(vec![1.0])),
        ],
    };
    assert!(decode_xfeat_struct(&array).is_err());
}

#[test]
fn decode_rejects_non_finite_keypoint() {
    let array = xfeat_struct(
        f32_column(vec![f32::NAN, 2.0]),
        f32_column(vec![1.0, 2.0]),
        f32_column(vec![1.0, 2.0]),
        descriptor_column(2, XFEAT_DESCRIPTOR_DIM as i32),
    );
    assert!(decode_xfeat_struct(&array).is_err());
}

#[test]
fn decode_rejects_wrong_descriptor_width() {
    let array = xfeat_struct(
        f32_column(vec![1.0]),
        f32_column(vec![1.0]),
        f32_column(vec![1.0]),
        descriptor_column(1, 32),
    );
    assert!(decode_xfeat_struct(&array).is_err());
}

#[test]
fn decode_errors_name_the_problem() {
    let missing_score = StructColumns {
        columns: vec![
            ("x".to_string(), f32_column(vec![1.0])),
            ("y".to_string(), f32_column(vec![1.0])),
        ],
    };
    assert_eq!(
        decode_xfeat_struct(&missing_score),
        Err(DecodeError::MissingColumn(XfeatColumn::Score))
    );
    let wrong_type = xfeat_struct(
        ColumnData::Other,
        f32_column(vec![1.0]),
        f32_column(vec![1.0]),
        descriptor_column(1, 64),
    );
    assert_eq!(
        decode_xfeat_struct(&wrong_type),
        Err(DecodeError::ColumnNotFloat32(XfeatColumn::X))
    );
    let mismatch = xfeat_struct(
        f32_column(vec![1.0, 2.0]),
        f32_column(vec![1.0]),
        f32_column(vec![1.0, 2.0]),
        descriptor_column(2, 64),
    );
    assert_eq!(
        decode_xfeat_struct(&mismatch),
        Err(DecodeError::ColumnLengthMismatch { x: 2, y: 1, score: 2 })
    );
    let rows = xfeat_struct(
        f32_column(vec![1.0]),
        f32_column(vec![1.0]),
        f32_column(vec![1.0]),
        descriptor_column(2, 64),
    );
    assert_eq!(
        decode_xfeat_struct(&rows),
        Err(DecodeError::DescriptorLengthMismatch { rows: 1, descriptors: 2 })
    );
    assert_eq!(
        decode_xfeat_struct(&xfeat_struct(
            f32_column(vec![1.0]),
            f32_column(vec![1.0]),
            f32_column(vec![1.0]),
            descriptor_column(1, 32),
        )),
        Err(DecodeError::DescriptorWidth { width: 32 })
    );
    assert_eq!(
        decode_xfeat_struct(&xfeat_struct(
            f32_column(vec![1.0]),
            f32_column(vec![1.0]),
            f32_column(vec![1.0]),
            f32_column(vec![1.0]),
        )),
        Err(DecodeError::DescriptorNotFixedSizeList)
    );
    assert_eq!(
        decode_xfeat_struct(&xfeat_struct(
            f32_column(vec![1.0]),
            f32_column(vec![1.0]),
            f32_column(vec![1.0]),
            ColumnData::FixedSizeList {
                value_length: 64,
                rows: 1,
                validity: None,
                values: ListValues::Other
            },
        )),
        Err(DecodeError::DescriptorChildNotFloat32)
    );
}

#[test]
fn decode_reports_the_first_bad_row() {
    let mut descriptors = vec![0.1f32; 64 * 3];
    descriptors[64 + 5] = f32::INFINITY;
    let array = xfeat_struct(
        f32_column(vec![1.0, 2.0, 3.0]),
        f32_column(vec![1.0, 2.0, 3.0]),
        f32_column(vec![1.0, 2.0, f32::NAN]),
        ColumnData::FixedSizeList {
            value_length: 64,
            rows: 3,
            validity: None,
            values: ListValues::Float32(float32(&descriptors)),
        },
    );
    assert_eq!(
        decode_xfeat_struct(&array),
        Err(DecodeError::NonFiniteDescriptor { row: 1 })
    );
}

#[test]
fn decode_keeps_rows_in_order_with_their_descriptors() {
    let descriptors: Vec<f32> = (0..128).map(|i| i as f32).collect();
    let array = xfeat_struct(
        f32_column(vec![1.0, 2.0]),
        f32_column(vec![3.0, 4.0]),
        f32_column(vec![0.5, 0.25]),
        ColumnData::FixedSizeList {
            value_length: 64,
            rows: 2,
            validity: None,
            values: ListValues::Float32(float32(&descriptors)),
        },
    );
    let features = decode_xfeat_struct(&array).unwrap();
    assert_eq!(value(features[1].confidence), 0.25);
    assert_eq!(value(features[1].descriptor[0]), 64.0);
    assert_eq!(value(features[0].descriptor[63]), 63.0);
}

#[test]
fn column_lookup_takes_the_first_column_of_a_name() {
    let array = StructColumns {
        columns: vec![
            ("x".to_string(), f32_column(vec![1.0])),
            ("x".to_string(), f32_column(vec![2.0, 3.0])),
        ],
    };
    assert_eq!(struct_column_f32(&array, XfeatColumn::X).unwrap().values.len(), 1);
    assert_eq!(
        struct_column_f32(&array, XfeatColumn::Y),
        Err(DecodeError::MissingColumn(XfeatColumn::Y))
    );
}

fn with_validity(values: &[f32], validity: Vec<bool>) -> ColumnData {
    ColumnData::Float32(Float32Column {
        values: all(values),
        validity: Some(validity),
    })
}

#[test]
fn decode_rejects_null_slots_in_any_array() {
    let null_y = xfeat_struct(
        f32_column(vec![1.0, 2.0]),
        with_validity(&[1.0, 2.0], vec![true, false]),
        f32_column(vec![0.9, 0.8]),
        descriptor_column(2, 64),
    );
    assert_eq!(
        decode_xfeat_struct(&null_y),
        Err(DecodeError::NullValues(FrameColumn::Y))
    );
    let null_list = xfeat_struct(
        f32_column(vec![1.0]),
        f32_column(vec![1.0]),
        f32_column(vec![1.0]),
        ColumnData::FixedSizeList {
            value_length: 64,
            rows: 1,
            validity: Some(vec![false]),
            values: ListValues::Float32(float32(&[0.1; 64])),
        },
    );
    assert_eq!(
        decode_xfeat_struct(&null_list),
        Err(DecodeError::NullValues(FrameColumn::Descriptor))
    );
    let mut child_validity = vec![true; 128];
    child_validity[100] = false;
    let null_child = xfeat_struct(
        f32_column(vec![1.0, 2.0]),
        f32_column(vec![1.0, 2.0]),
        f32_column(vec![1.0, 2.0]),
        ColumnData::FixedSizeList {
            value_length: 64,
            rows: 2,
            validity: None,
            values: ListValues::Float32(Float32Column {
                values: all(&[0.1; 128]),
                validity: Some(child_validity),
            }),
        },
    );
    assert_eq!(
        decode_xfeat_struct(&null_child),
        Err(DecodeError::NullValues(FrameColumn::DescriptorValues))
    );
}

#[test]
fn null_check_comes_before_the_value_check_and_all_valid_bitmaps_pass() {
    let nan_under_null = xfeat_struct(
        with_validity(&[f32::NAN, 2.0], vec![false, true]),
        f32_column(vec![1.0, 2.0]),
        f32_column(vec![1.0, 2.0]),
        descriptor_column(2, 64),
    );
    assert_eq!(
        decode_xfeat_struct(&nan_under_null),
        Err(DecodeError::NullValues(FrameColumn::X))
    );
    let all_valid = xfeat_struct(
        with_validity(&[1.0, 2.0], vec![true, true]),
        f32_column(vec![1.0, 2.0]),
        f32_column(vec![1.0, 2.0]),
        descriptor_column(2, 64),
    );
    assert_eq!(decode_xfeat_struct(&all_valid).unwrap().len(), 2);
    let short_bitmap = xfeat_struct(
        f32_column(vec![1.0, 2.0]),
        f32_column(vec![1.0, 2.0]),
        with_validity(&[1.0, 2.0], vec![true]),
        descriptor_column(2, 64),
    );
    assert_eq!(
        decode_xfeat_struct(&short_bitmap),
        Err(DecodeError::NullValues(FrameColumn::Score))
    );
}
