//! Processing unit management: per-unit state tracking over the hardware
//! link, with a busy check that refuses a second operation while one is in
//! progress.

use vstd::prelude::*;

use crate::errors::{AccelError, HardwareError, UnitError};
use crate::link::{FpgaConfig, FpgaInterface};
use crate::protocol::{wf_operation, Command, Response};
use crate::types::{Operation, OperationStatus, Status, UnitId, UNIT_COUNT};

verus! {

/// State of one processing unit.
#[derive(Debug, Clone)]
pub struct UnitState {
    /// Current computation status.
    pub status: Status,
    /// Current operation, if any.
    pub current_op: Option<Operation>,
    /// Error information, if any.
    pub error: Option<String>,
}

impl Default for UnitState {
    /// A fresh unit: successful, idle, no error recorded.
    fn default() -> (r: UnitState)
        ensures
            r.status == Status::Success,
            r.current_op is None,
            r.error is None,
    {
        UnitState { status: Status::Success, current_op: None, error: None }
    }
}

/// Manager of the array's per-unit states.
pub struct UnitManager<F: FpgaInterface> {
    fpga: F,
    states: Vec<UnitState>,
}

impl<F: FpgaInterface> UnitManager<F> {
    /// The per-unit states, indexed by unit id.
    pub closed spec fn states(&self) -> Seq<UnitState> {
        self.states@
    }

    /// The link owned by this manager.
    pub closed spec fn fpga(&self) -> F {
        self.fpga
    }

    /// Well-formedness: one state per unit.
    pub open spec fn wf(&self) -> bool {
        self.states().len() == UNIT_COUNT
    }

    /// Create a new unit manager over a link, all units fresh.
    pub fn new(fpga: F) -> (r: UnitManager<F>)
        ensures
            r.wf(),
            r.fpga() == fpga,
            forall|u: int|
                0 <= u < UNIT_COUNT ==> (#[trigger] r.states()[u]).status == Status::Success
                    && r.states()[u].current_op is None && r.states()[u].error is None,
    {
        let mut states: Vec<UnitState> = Vec::new();
        let mut i: usize = 0;
        while i < UNIT_COUNT
            invariant
                i <= UNIT_COUNT,
                states@.len() == i,
                forall|u: int|
                    0 <= u < i ==> (#[trigger] states@[u]).status == Status::Success
                        && states@[u].current_op is None && states@[u].error is None,
            decreases UNIT_COUNT - i,
        {
            states.push(UnitState { status: Status::Success, current_op: None, error: None });
            i = i + 1;
        }
        UnitManager { fpga, states }
    }

    /// Initialize the underlying link.
    pub fn initialize(&mut self, config: &FpgaConfig) -> (r: Result<(), AccelError>)
        requires
            old(self).wf(),
        ensures
            final(self).wf(),
            final(self).states() == old(self).states(),
            r is Ok ==> final(self).fpga().ready(),
    {
        self.fpga.initialize(config)
    }

    /// Get the state of one unit.  Fails with `InvalidId` only if the raw id
    /// exceeds the state table — impossible for a validated `UnitId`, but
    /// the table boundary stays defensively range-checked.
    pub fn get_state(&self, unit_id: UnitId) -> (r: Result<&UnitState, UnitError>)
        requires
            self.wf(),
            unit_id.wf(),
        ensures
            r matches Ok(s) && *s == self.states()[unit_id.0 as int],
    {
        if unit_id.raw() < self.states.len() {
            Ok(&self.states[unit_id.raw()])
        } else {
            Err(UnitError::InvalidId(unit_id.raw()))
        }
    }

    /// Execute one operation on one unit.
    ///
    /// A unit already in progress is refused with `Busy` and nothing
    /// changes.  Otherwise the unit is marked in progress, the command sent,
    /// and the unit's state updated from the status the array reports; on a
    /// link error the unit stays marked in progress, and a reset clears it.
    pub fn execute(&mut self, unit_id: UnitId, op: Operation) -> (r: Result<(), AccelError>)
        requires
            old(self).wf(),
            unit_id.wf(),
            wf_operation(op),
        ensures
            final(self).wf(),
            forall|u: int|
                0 <= u < UNIT_COUNT && u != unit_id.0 as int ==> #[trigger] final(self).states()[u]
                    == old(self).states()[u],
            old(self).states()[unit_id.0 as int].status is InProgress ==> (r matches Err(
                AccelError::Unit(UnitError::Busy(b)),
            ) && b == unit_id && *final(self) == *old(self)),
            !(old(self).states()[unit_id.0 as int].status is InProgress) && r is Ok ==> {
                let s = final(self).states()[unit_id.0 as int];
                &&& s.current_op == Some(op)
                &&& (s.status is Success || s.status is InProgress || s.status is Failed)
                &&& (s.status is Failed <==> s.error is Some)
            },
            !(old(self).states()[unit_id.0 as int].status is InProgress) && r is Err ==> {
                let s = final(self).states()[unit_id.0 as int];
                s.status is InProgress && s.current_op == Some(op) && s.error is None
            },
    {
        let idx = unit_id.raw();
        match self.states[idx].status {
            Status::InProgress => {
                return Err(AccelError::Unit(UnitError::Busy(unit_id)));
            },
            _ => {},
        }
        self.states.set(
            idx,
            UnitState { status: Status::InProgress, current_op: Some(op), error: None },
        );
        match self.fpga.send_command(Command::Execute { unit_id, operation: op }) {
            Ok(()) => {},
            Err(e) => {
                return Err(e);
            },
        }
        let response = match self.fpga.receive_response() {
            Ok(resp) => resp,
            Err(e) => {
                return Err(e);
            },
        };
        match response {
            Response::Status { status, .. } => {
                let new_state = match status {
                    OperationStatus::Success => UnitState {
                        status: Status::Success,
                        current_op: Some(op),
                        error: None,
                    },
                    OperationStatus::InProgress => UnitState {
                        status: Status::InProgress,
                        current_op: Some(op),
                        error: None,
                    },
                    OperationStatus::Failed { code: _ } => UnitState {
                        status: Status::Failed,
                        current_op: Some(op),
                        error: Some("operation failed".to_owned()),
                    },
                };
                self.states.set(idx, new_state);
                Ok(())
            },
            Response::Error { code: _, message } => Err(
                AccelError::Unit(UnitError::Failed { unit: unit_id, reason: message }),
            ),
            Response::SystemStatus { .. } => Err(
                AccelError::Hardware(HardwareError::Protocol("unsolicited system status".to_owned())),
            ),
        }
    }

    /// Execute a batch of operations, one per entry.  Every entry is issued
    /// even after a failure, and the first error — in batch order — is
    /// reported, as the fan-out collects all results before checking them.
    pub fn execute_parallel(&mut self, operations: Vec<(UnitId, Operation)>) -> (r: Result<
        (),
        AccelError,
    >)
        requires
            old(self).wf(),
            forall|i: int|
                0 <= i < operations@.len() ==> (#[trigger] operations@[i]).0.wf() && wf_operation(
                    operations@[i].1,
                ),
        ensures
            final(self).wf(),
    {
        let mut first_error: Option<AccelError> = None;
        let mut i: usize = 0;
        while i < operations.len()
            invariant
                self.wf(),
                i <= operations@.len(),
                forall|j: int|
                    0 <= j < operations@.len() ==> (#[trigger] operations@[j]).0.wf()
                        && wf_operation(operations@[j].1),
            decreases operations@.len() - i,
        {
            let (unit_id, op) = operations[i];
            match self.execute(unit_id, op) {
                Ok(()) => {},
                Err(e) => {
                    if first_error.is_none() {
                        first_error = Some(e);
                    }
                },
            }
            i = i + 1;
        }
        match first_error {
            None => Ok(()),
            Some(e) => Err(e),
        }
    }

    /// Reset one unit to its fresh state.
    pub fn reset_unit(&mut self, unit_id: UnitId) -> (r: Result<(), AccelError>)
        requires
            old(self).wf(),
            unit_id.wf(),
        ensures
            final(self).wf(),
            r is Ok,
            forall|u: int|
                0 <= u < UNIT_COUNT && u != unit_id.0 as int ==> #[trigger] final(self).states()[u]
                    == old(self).states()[u],
            final(self).states()[unit_id.0 as int].status == Status::Success,
            final(self).states()[unit_id.0 as int].current_op is None,
            final(self).states()[unit_id.0 as int].error is None,
    {
        self.states.set(
            unit_id.raw(),
            UnitState { status: Status::Success, current_op: None, error: None },
        );
        Ok(())
    }

    /// Reset all units to their fresh state.
    pub fn reset_all(&mut self) -> (r: Result<(), AccelError>)
        requires
            old(self).wf(),
        ensures
            final(self).wf(),
            r is Ok,
            forall|u: int|
                0 <= u < UNIT_COUNT ==> (#[trigger] final(self).states()[u]).status
                    == Status::Success && final(self).states()[u].current_op is None && final(self).states()[u].error is None,
    {
        let mut i: usize = 0;
        while i < UNIT_COUNT
            invariant
                self.wf(),
                i <= UNIT_COUNT,
                forall|u: int|
                    0 <= u < i ==> (#[trigger] self.states()[u]).status == Status::Success
                        && self.states()[u].current_op is None && self.states()[u].error is None,
            decreases UNIT_COUNT - i,
        {
            self.states.set(
                i,
                UnitState { status: Status::Success, current_op: None, error: None },
            );
            i = i + 1;
        }
        Ok(())
    }
}

} // verus!
