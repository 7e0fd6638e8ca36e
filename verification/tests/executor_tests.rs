use nn_accel::errors::{AccelError, HardwareError};
use nn_accel::executor::{
    resolve_attempt, AttemptOutcome, Executor, OperationContext, OperationExecutor, Resolution,
    MAX_RETRIES,
};
use nn_accel::link::{FpgaConfig, FpgaInterface, MockFpga};
use nn_accel::memory::{AllocationStrategy, BlockStatus, MemoryManager};
use nn_accel::protocol::{Command, Response};
use nn_accel::types::{Operation, OperationStatus, UnitId};

#[test]
fn test_operation_execution() {
    let memory = MemoryManager::new(1024, 16).unwrap();
    let mut fpga = MockFpga::default();
    fpga.initialize(&FpgaConfig::default()).unwrap();
    let mut executor = Executor::new(fpga, memory);

    let context = OperationContext::new(
        Operation::Copy { source: UnitId::new(0).unwrap() },
        UnitId::new(1).unwrap(),
    );

    let status = executor.execute(context).unwrap();
    assert!(matches!(status, OperationStatus::Success));

    let unit = UnitId::new(1).unwrap();
    assert!(executor.cancel(unit).is_ok());
}

#[test]
fn test_operation_retry() {
    let memory = MemoryManager::new(1024, 16).unwrap();
    let mut fpga = MockFpga::default();
    fpga.initialize(&FpgaConfig::default()).unwrap();
    let mut executor = Executor::new(fpga, memory);

    let mut context = OperationContext::new(
        Operation::Copy { source: UnitId::new(0).unwrap() },
        UnitId::new(1).unwrap(),
    );

    context.retries = MAX_RETRIES - 1;
    let status = executor.execute(context).unwrap();

    assert!(matches!(status, OperationStatus::Success));
}

/// Simulated hardware that always reports a failed operation and counts the
/// commands it receives.
struct FailingFpga {
    ready: bool,
    sends: usize,
}

impl FpgaInterface for FailingFpga {
    fn ready(&self) -> bool {
        self.ready
    }

    fn initialize(&mut self, _config: &FpgaConfig) -> Result<(), AccelError> {
        self.ready = true;
        Ok(())
    }

    fn send_command(&mut self, _cmd: Command) -> Result<(), AccelError> {
        if !self.ready {
            return Err(AccelError::Hardware(HardwareError::Communication(
                "link not initialized".to_string(),
            )));
        }
        self.sends += 1;
        Ok(())
    }

    fn receive_response(&mut self) -> Result<Response, AccelError> {
        Ok(Response::Status {
            unit_id: UnitId::new(0).unwrap(),
            status: OperationStatus::Failed { code: 7 },
        })
    }

    fn is_ready(&self) -> bool {
        self.ready
    }
}

#[test]
fn test_retry_bound() {
    let memory = MemoryManager::new(1024, 16).unwrap();
    let mut fpga = FailingFpga { ready: false, sends: 0 };
    fpga.initialize(&FpgaConfig::default()).unwrap();
    let mut executor = Executor::new(fpga, memory);

    let context = OperationContext::new(
        Operation::Nop,
        UnitId::new(2).unwrap(),
    );

    // Hardware that always fails yields a terminal Failed status after
    // exactly MAX_RETRIES attempts in all, never looping indefinitely.
    let status = executor.execute(context).unwrap();
    assert!(matches!(status, OperationStatus::Failed { code: 7 }));
    assert_eq!(executor.fpga_ref().sends, MAX_RETRIES as usize);
}

#[test]
fn test_resolution_rules() {
    let ctx = OperationContext::new(Operation::Nop, UnitId::new(0).unwrap());
    let unit = UnitId::new(0).unwrap();

    // A failure within budget retries with the counter incremented.
    let r = resolve_attempt(
        ctx,
        AttemptOutcome::Response(Response::Status {
            unit_id: unit,
            status: OperationStatus::Failed { code: 1 },
        }),
    );
    assert!(matches!(r, Resolution::Retry(c) if c.retries == 1));

    // A failure on the attempt that exhausts the budget is terminal.
    let mut exhausted = ctx;
    exhausted.retries = MAX_RETRIES - 1;
    let r = resolve_attempt(
        exhausted,
        AttemptOutcome::Response(Response::Status {
            unit_id: unit,
            status: OperationStatus::Failed { code: 1 },
        }),
    );
    assert!(matches!(r, Resolution::Complete(OperationStatus::Failed { code: 1 })));

    // A timeout is never retried and surfaces a timeout error.
    let r = resolve_attempt(ctx, AttemptOutcome::TimedOut);
    assert!(matches!(
        r,
        Resolution::Fault(AccelError::Hardware(HardwareError::Timeout(_)))
    ));

    // A protocol-level error response is never retried.
    let r = resolve_attempt(
        ctx,
        AttemptOutcome::Response(Response::Error { code: 2, message: "bad".to_string() }),
    );
    assert!(matches!(r, Resolution::Fault(AccelError::Unit(_))));
}

#[test]
fn test_execute_locks_and_releases_block() {
    let mut memory = MemoryManager::new(1024, 16).unwrap();
    let unit = UnitId::new(1).unwrap();
    let block = memory.allocate(16, unit, AllocationStrategy::Contiguous).unwrap();
    let mut fpga = MockFpga::default();
    fpga.initialize(&FpgaConfig::default()).unwrap();
    let mut executor = Executor::new(fpga, memory);

    let mut context = OperationContext::new(Operation::Nop, unit);
    context.block = Some(block);

    let status = executor.execute(context).unwrap();
    assert!(matches!(status, OperationStatus::Success));
    // After a terminal status the block is back in the allocated state.
    assert!(matches!(
        executor.block_status(block),
        Ok(BlockStatus::Allocated { unit: u }) if u == unit
    ));
}

#[test]
fn test_exceeded_retries_and_duration() {
    let mut ctx = OperationContext::new(Operation::Nop, UnitId::new(0).unwrap());
    assert!(!ctx.exceeded_retries());
    ctx.retries = MAX_RETRIES;
    assert!(ctx.exceeded_retries());
    ctx.start_time = 100;
    assert_eq!(ctx.duration(350), 250);
    assert_eq!(ctx.duration(50), 0);
}
