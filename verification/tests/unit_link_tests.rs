use nn_accel::link::{FpgaConfig, FpgaInterface, MockFpga};
use nn_accel::protocol::{Command, Response};
use nn_accel::types::{Operation, OperationStatus, Status, UnitId};
use nn_accel::unit::UnitManager;

#[test]
fn test_mock_fpga() {
    let mut fpga = MockFpga::default();
    let config = FpgaConfig::default();

    assert!(fpga.initialize(&config).is_ok());
    assert!(fpga.is_ready());

    let cmd = Command::QueryStatus { unit_id: None };
    assert!(fpga.send_command(cmd).is_ok());

    let response = fpga.receive_response().unwrap();
    match response {
        Response::Status { status, .. } => {
            assert!(matches!(status, OperationStatus::Success));
        }
        _ => panic!("Unexpected response type"),
    }
}

#[test]
fn test_mock_fpga_rejects_before_initialization() {
    let mut fpga = MockFpga::default();
    assert!(!fpga.is_ready());
    assert!(fpga.send_command(Command::SystemReset).is_err());
    assert!(fpga.receive_response().is_err());
}

#[test]
fn test_unit_manager() {
    let mut manager = UnitManager::new(MockFpga::default());

    assert!(manager.initialize(&FpgaConfig::default()).is_ok());

    let unit_id = UnitId::new(0).unwrap();
    let state = manager.get_state(unit_id).unwrap();
    assert_eq!(state.status, Status::Success);

    let op = Operation::Nop;
    assert!(manager.execute(unit_id, op).is_ok());

    let ops = vec![
        (UnitId::new(0).unwrap(), Operation::Nop),
        (UnitId::new(1).unwrap(), Operation::Nop),
    ];
    assert!(manager.execute_parallel(ops).is_ok());
}

#[test]
fn test_unit_reset() {
    let mut manager = UnitManager::new(MockFpga::default());
    assert!(manager.initialize(&FpgaConfig::default()).is_ok());

    let unit_id = UnitId::new(0).unwrap();
    assert!(manager.reset_unit(unit_id).is_ok());
    assert!(manager.reset_all().is_ok());
}

#[test]
fn test_unit_busy_refused() {
    // An unanswered unit stays in progress; a second operation is refused.
    let mut manager = UnitManager::new(MockFpga::default());
    let unit_id = UnitId::new(3).unwrap();

    // Without initialization the send fails, leaving the unit in progress.
    assert!(manager.execute(unit_id, Operation::Nop).is_err());
    assert_eq!(manager.get_state(unit_id).unwrap().status, Status::InProgress);

    let refused = manager.execute(unit_id, Operation::Nop);
    assert!(refused.is_err());

    // Reset clears the unit.
    manager.reset_unit(unit_id).unwrap();
    assert_eq!(manager.get_state(unit_id).unwrap().status, Status::Success);
}

#[test]
fn test_default_config() {
    let config = FpgaConfig::default();
    assert_eq!(config.device, "/dev/fpga0");
    assert_eq!(config.timeout_ms, 1000);
}
