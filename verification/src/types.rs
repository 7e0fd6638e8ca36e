//! Core domain types: unit handles, operations, statuses and priorities.

use vstd::prelude::*;

verus! {

/// Number of independently addressable processing units.
pub const UNIT_COUNT: usize = 256;

/// Granularity of the memory pool, in bytes.
pub const BLOCK_SIZE: usize = 16;

/// Identifies a specific processing unit.
///
/// A `UnitId` can only be built through the validating [`UnitId::new`]
/// factory, so a value of this type always holds a raw id below
/// [`UNIT_COUNT`].
#[derive(Debug, Clone, Copy, PartialEq, Eq, Structural, Hash)]
pub struct UnitId(pub usize);

impl UnitId {
    /// True of every value this module hands out.
    pub open spec fn wf(self) -> bool {
        self.0 < UNIT_COUNT
    }

    /// Create a new `UnitId`, returning `None` if out of range.
    pub fn new(id: usize) -> (r: Option<UnitId>)
        ensures
            id < UNIT_COUNT ==> r == Some(UnitId(id)),
            id >= UNIT_COUNT ==> r is None,
    {
        if id < UNIT_COUNT {
            Some(UnitId(id))
        } else {
            None
        }
    }

    /// Get the raw unit id value.
    pub fn raw(&self) -> (r: usize)
        ensures
            r == self.0,
    {
        self.0
    }
}

/// Activation functions a unit can apply.
#[derive(Debug, Clone, Copy, PartialEq, Eq, Structural)]
pub enum Activation {
    /// Hyperbolic tangent.
    Tanh,
    /// Rectified linear unit.
    ReLU,
}

/// One hardware action targeting a unit.
#[derive(Debug, Clone, Copy, PartialEq, Eq, Structural)]
pub enum Operation {
    /// No operation.
    Nop,
    /// Copy data from another unit.
    Copy { source: UnitId },
    /// Accumulate data from another unit.
    Add { source: UnitId },
    /// Apply an activation function.
    Activate { function: Activation },
}

/// Terminal or intermediate status of one operation.
#[derive(Debug, Clone, Copy, PartialEq, Eq, Structural)]
pub enum OperationStatus {
    /// The operation completed successfully.
    Success,
    /// The operation failed with a hardware error code.
    Failed { code: u8 },
    /// The operation is still in flight.
    InProgress,
}

/// Coarse computation status reported per unit.
#[derive(Debug, Clone, Copy, PartialEq, Eq, Structural)]
pub enum Status {
    /// The last operation completed successfully.
    Success,
    /// An operation is in progress.
    InProgress,
    /// The last operation failed.
    Failed,
}

/// Priority of a queued operation.
///
/// A queue is ordered by tier — `High` ahead of `Normal` ahead of `Low` —
/// and admissions within one tier keep their order.
#[derive(Debug, Clone, Copy, PartialEq, Eq, Structural)]
pub enum Priority {
    High,
    Normal,
    Low,
}

/// Position of one 16x16 block inside a blocked matrix.
#[derive(Debug, Clone, Copy, PartialEq, Eq, Structural, Hash)]
pub struct BlockIndex {
    pub row: usize,
    pub col: usize,
}

impl BlockIndex {
    /// Build a block index from row and column block coordinates.
    pub fn new(row: usize, col: usize) -> (r: BlockIndex)
        ensures
            r == (BlockIndex { row, col }),
    {
        BlockIndex { row, col }
    }
}

/// Position of one element inside a blocked matrix.
#[derive(Debug, Clone, Copy, PartialEq, Eq, Structural)]
pub struct MatrixIndex {
    pub row: usize,
    pub col: usize,
}

impl MatrixIndex {
    /// Build an element index from row and column coordinates.
    pub fn new(row: usize, col: usize) -> (r: MatrixIndex)
        ensures
            r == (MatrixIndex { row, col }),
    {
        MatrixIndex { row, col }
    }

    /// Split an element index into the index of the block that holds it and
    /// the index of the element within that block.
    pub fn to_block_indices(&self) -> (r: (BlockIndex, MatrixIndex))
        ensures
            r.0 == (BlockIndex { row: self.row / BLOCK_SIZE, col: self.col / BLOCK_SIZE }),
            r.1 == (MatrixIndex { row: self.row % BLOCK_SIZE, col: self.col % BLOCK_SIZE }),
    {
        let block = BlockIndex::new(self.row / BLOCK_SIZE, self.col / BLOCK_SIZE);
        let inner = MatrixIndex::new(self.row % BLOCK_SIZE, self.col % BLOCK_SIZE);
        (block, inner)
    }
}

/// Configuration of one operation bound to a unit pair.
#[derive(Debug, Clone, Copy)]
pub struct UnitConfig {
    /// Target unit id.
    pub target_unit: usize,
    /// Source unit id.
    pub source_unit: usize,
    /// Operation to run.
    pub operation: Operation,
    /// Optional activation applied afterwards.
    pub activation: Option<Activation>,
}

} // verus!
