use nn_accel::errors::{AccelError, HardwareError, StatusWithError};
use nn_accel::types::{UnitId, UNIT_COUNT};

#[test]
fn test_unit_id_validation() {
    assert!(UnitId::new(0).is_some());
    assert!(UnitId::new(UNIT_COUNT - 1).is_some());
    assert!(UnitId::new(UNIT_COUNT).is_none());
}

#[test]
fn test_error_conversion() {
    let hw_err = HardwareError::Timeout(1000);
    let accel_err: AccelError = hw_err.into();
    assert!(matches!(accel_err, AccelError::Hardware(_)));
}

#[test]
fn test_status_with_error() {
    let success = StatusWithError::success(42);
    assert!(success.is_success());
    assert!(!success.is_error());
    assert!(success.into_result().is_ok());

    let error = StatusWithError::<i32>::error(AccelError::Config("test error".to_string()));
    assert!(!error.is_success());
    assert!(error.is_error());
    assert!(error.into_result().is_err());
}

#[test]
fn test_unit_id_raw_roundtrip() {
    let unit = UnitId::new(37).unwrap();
    assert_eq!(unit.raw(), 37);
}
