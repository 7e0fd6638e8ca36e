//! Compute unit primitives: unit-level errors and states.

use vstd::prelude::*;

verus! {

/// Errors of one compute unit.
#[derive(Debug, Clone, Copy, PartialEq, Eq, Structural)]
pub enum UnitError {
    /// The instruction sequence is invalid.
    InvalidInstruction,
    /// A register or scratch access failed.
    MemoryAccessError,
    /// The matrix register is not loaded.
    MatrixNotLoaded,
}

/// State of one compute unit.
#[derive(Debug, Clone, Copy, PartialEq, Eq, Structural)]
pub enum UnitStatus {
    /// Free for work.
    Available,
    /// Running an instruction word.
    Busy,
    /// Holding a loaded matrix.
    MatrixLoaded,
    /// Stopped on an error.
    Error,
}

} // verus!
