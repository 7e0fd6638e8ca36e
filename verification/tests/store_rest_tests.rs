use nn_accel::convert::{DataConverter, DataFormat, FixedPoint};
use nn_accel::rest::{accepted_response, parse_submission, OperationRequest};
use nn_accel::store::make_block_name;
use nn_accel::types::{BlockIndex, MatrixIndex, Operation, OperationStatus, Priority, UNIT_COUNT};

#[test]
fn test_block_name_generation() {
    let index = BlockIndex::new(1, 2);
    let name = make_block_name("matrix", index);
    assert_eq!(name, "matrix_0001_0002");
}

#[test]
fn test_block_name_wide_values() {
    let name = make_block_name("m", BlockIndex::new(0xabcd, 0x1234f));
    assert_eq!(name, "m_abcd_1234f");
}

#[test]
fn test_matrix_index_split() {
    let (block, inner) = MatrixIndex::new(35, 18).to_block_indices();
    assert_eq!(block.row, 2);
    assert_eq!(block.col, 1);
    assert_eq!(inner.row, 3);
    assert_eq!(inner.col, 2);
}

#[test]
fn test_parse_submission() {
    let request = OperationRequest {
        operation: Operation::Nop,
        unit_id: 7,
        priority: Priority::Normal,
    };
    let (unit, op, priority) = parse_submission(&request).unwrap();
    assert_eq!(unit.raw(), 7);
    assert!(matches!(op, Operation::Nop));
    assert!(matches!(priority, Priority::Normal));

    let bad = OperationRequest {
        operation: Operation::Nop,
        unit_id: UNIT_COUNT,
        priority: Priority::Normal,
    };
    let err = parse_submission(&bad).unwrap_err();
    assert_eq!(err.code, "INVALID_REQUEST");
}

#[test]
fn test_accepted_response_id() {
    let response = accepted_response();
    // A fresh hyphenated UUID: 36 characters, four hyphens.
    assert_eq!(response.operation_id.len(), 36);
    assert_eq!(response.operation_id.matches('-').count(), 4);
    assert!(matches!(response.status, OperationStatus::Success));
    assert_eq!(response.eta, Some(1000));

    let second = accepted_response();
    assert_ne!(response.operation_id, second.operation_id);
}

#[test]
fn test_fixed_point_raw() {
    let f = FixedPoint::from_raw(1 << 15, 16).unwrap();
    assert_eq!(f.raw_value(), 1 << 15);
    assert_eq!(f.raw_scale(), 16);
    assert!(FixedPoint::from_raw(1, 32).is_err());
}

#[test]
fn test_data_converter_format() {
    let converter = DataConverter::new(DataFormat::Fixed { scale: 16 });
    assert!(matches!(converter.format(), DataFormat::Fixed { scale: 16 }));
}
