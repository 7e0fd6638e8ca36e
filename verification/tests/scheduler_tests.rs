use nn_accel::errors::AccelError;
use nn_accel::executor::{OperationContext, OperationExecutor};
use nn_accel::scheduler::{
    PollOutcome, Scheduler, SchedulerStatus, MAX_QUEUE_SIZE, QUEUE_TIMEOUT_MS,
};
use nn_accel::types::{Operation, OperationStatus, Priority, UnitId};

/// Test double that completes every operation successfully and records the
/// order in which operations reach it.
struct MockExecutor {
    executed: Vec<Operation>,
}

impl MockExecutor {
    fn new() -> MockExecutor {
        MockExecutor { executed: Vec::new() }
    }
}

impl OperationExecutor for MockExecutor {
    fn inv(&self) -> bool {
        true
    }

    fn execute(&mut self, context: OperationContext) -> Result<OperationStatus, AccelError> {
        self.executed.push(context.operation);
        Ok(OperationStatus::Success)
    }

    fn cancel(&mut self, _unit: UnitId) -> Result<(), AccelError> {
        Ok(())
    }
}

#[test]
fn test_scheduler_basic_flow() {
    let mut scheduler = Scheduler::new(MockExecutor::new());

    let unit = UnitId::new(0).unwrap();
    let op = Operation::Copy { source: UnitId::new(1).unwrap() };

    scheduler.schedule(op, unit, Priority::High, 0).unwrap();
    scheduler.schedule(op, unit, Priority::Normal, 0).unwrap();
    scheduler.schedule(op, unit, Priority::Low, 0).unwrap();

    let status = scheduler.queue_status(unit, 0);
    assert_eq!(status.queued_operations, 3);
    assert_eq!(status.high_priority, 1);
    assert_eq!(status.normal_priority, 1);
    assert_eq!(status.low_priority, 1);
}

#[test]
fn test_scheduler_queue_limits() {
    let mut scheduler = Scheduler::new(MockExecutor::new());

    let unit = UnitId::new(0).unwrap();
    let op = Operation::Copy { source: UnitId::new(1).unwrap() };

    for _ in 0..MAX_QUEUE_SIZE {
        scheduler.schedule(op, unit, Priority::Normal, 0).unwrap();
    }

    let result = scheduler.schedule(op, unit, Priority::Normal, 0);
    assert!(result.is_err());
}

#[test]
fn test_scheduler_cancellation() {
    let mut scheduler = Scheduler::new(MockExecutor::new());

    let unit = UnitId::new(0).unwrap();

    let op = Operation::Copy { source: UnitId::new(1).unwrap() };
    scheduler.schedule(op, unit, Priority::Normal, 0).unwrap();

    scheduler.cancel_all(unit).unwrap();

    let status = scheduler.queue_status(unit, 0);
    assert_eq!(status.queued_operations, 0);
}

#[test]
fn test_queue_limits() {
    let mut scheduler = Scheduler::new(MockExecutor::new());

    let unit = UnitId::new(0).unwrap();
    let op = Operation::Copy { source: UnitId::new(1).unwrap() };

    for _ in 0..MAX_QUEUE_SIZE {
        scheduler.schedule(op, unit, Priority::Normal, 0).unwrap();
    }

    let result = scheduler.schedule(op, unit, Priority::Normal, 0);
    assert!(result.is_err());

    scheduler.cancel_all(unit).unwrap();

    let status = scheduler.queue_status(unit, 0);
    assert_eq!(status.queued_operations, 0);
}

#[test]
fn test_scheduler_operation() {
    let mut scheduler = Scheduler::new(MockExecutor::new());

    let unit = UnitId::new(0).unwrap();
    let op = Operation::Copy { source: UnitId::new(1).unwrap() };

    scheduler.schedule(op, unit, Priority::Normal, 0).unwrap();
    scheduler.schedule(op, unit, Priority::High, 0).unwrap();

    let status = scheduler.queue_status(unit, 0);
    assert_eq!(status.queued_operations, 2);
    assert_eq!(status.high_priority, 1);
    assert_eq!(status.normal_priority, 1);

    for _ in 0..2 {
        match scheduler.run_unit_once(unit, 1) {
            Some(SchedulerStatus::OperationComplete { unit: u, status }) => {
                assert_eq!(u, unit);
                assert!(matches!(status, OperationStatus::Success));
            }
            _ => panic!("Unexpected status"),
        }
    }

    let status = scheduler.queue_status(unit, 1);
    assert_eq!(status.queued_operations, 0);
}

#[test]
fn test_priority_ordering() {
    let mut scheduler = Scheduler::new(MockExecutor::new());

    let unit = UnitId::new(0).unwrap();
    let op = Operation::Copy { source: UnitId::new(1).unwrap() };

    scheduler.schedule(op, unit, Priority::Low, 0).unwrap();
    scheduler.schedule(op, unit, Priority::High, 0).unwrap();
    scheduler.schedule(op, unit, Priority::Normal, 0).unwrap();

    let status = scheduler.queue_status(unit, 0);
    assert_eq!(status.high_priority, 1);
    assert_eq!(status.normal_priority, 1);
    assert_eq!(status.low_priority, 1);
}

#[test]
fn test_priority_dispatch_order() {
    // Queue ordering scenario: submissions [Low, Normal, High] to an empty
    // unit queue dispatch in order [High, Normal, Low].
    let mut scheduler = Scheduler::new(MockExecutor::new());
    let unit = UnitId::new(0).unwrap();

    let a = Operation::Copy { source: UnitId::new(1).unwrap() };
    let b = Operation::Copy { source: UnitId::new(2).unwrap() };
    let c = Operation::Copy { source: UnitId::new(3).unwrap() };

    scheduler.schedule(a, unit, Priority::Low, 0).unwrap();
    scheduler.schedule(b, unit, Priority::Normal, 0).unwrap();
    scheduler.schedule(c, unit, Priority::High, 0).unwrap();

    for _ in 0..3 {
        assert!(scheduler.run_unit_once(unit, 0).is_some());
    }

    let executed = &scheduler.executor_ref().executed;
    assert_eq!(executed.len(), 3);
    assert!(matches!(executed[0], Operation::Copy { source } if source.raw() == 3));
    assert!(matches!(executed[1], Operation::Copy { source } if source.raw() == 2));
    assert!(matches!(executed[2], Operation::Copy { source } if source.raw() == 1));
}

#[test]
fn test_busy_flag_serializes_unit() {
    // Per-unit exclusivity scenario: while a dispatched operation has not
    // completed, polling the same unit dispatches nothing.
    let mut scheduler = Scheduler::new(MockExecutor::new());
    let unit = UnitId::new(4).unwrap();
    let op = Operation::Nop;

    scheduler.schedule(op, unit, Priority::Normal, 0).unwrap();
    scheduler.schedule(op, unit, Priority::Normal, 0).unwrap();

    let first = scheduler.poll_unit(unit, 0);
    assert!(matches!(first, PollOutcome::Dispatch(_)));

    // The unit is busy: no second dispatch.
    assert!(matches!(scheduler.poll_unit(unit, 0), PollOutcome::Idle));

    // Completion clears the flag and the next entry dispatches.
    scheduler.complete_unit(unit, &Ok(OperationStatus::Success));
    assert!(matches!(scheduler.poll_unit(unit, 0), PollOutcome::Dispatch(_)));
}

#[test]
fn test_cross_unit_independence() {
    // Dispatching on one unit leaves every other unit ready to dispatch.
    let mut scheduler = Scheduler::new(MockExecutor::new());
    let u0 = UnitId::new(0).unwrap();
    let u1 = UnitId::new(1).unwrap();

    scheduler.schedule(Operation::Nop, u0, Priority::Normal, 0).unwrap();
    scheduler.schedule(Operation::Nop, u1, Priority::Normal, 0).unwrap();

    assert!(matches!(scheduler.poll_unit(u0, 0), PollOutcome::Dispatch(_)));
    assert!(matches!(scheduler.poll_unit(u1, 0), PollOutcome::Dispatch(_)));
}

#[test]
fn test_queue_timeout_discards_entry() {
    let mut scheduler = Scheduler::new(MockExecutor::new());
    let unit = UnitId::new(0).unwrap();

    scheduler.schedule(Operation::Nop, unit, Priority::Normal, 0).unwrap();

    let event = scheduler.run_unit_once(unit, QUEUE_TIMEOUT_MS + 1);
    assert!(matches!(event, Some(SchedulerStatus::Error { unit: u, .. }) if u == unit));
    // The expired entry never reached the executor.
    assert_eq!(scheduler.executor_ref().executed.len(), 0);
}
