//! Device layer: the compute fabric's instruction words and per-unit
//! primitives.

pub mod instruction;
pub mod unit;

use vstd::prelude::*;

verus! {

/// Errors of the device layer.
#[derive(Debug, Clone)]
pub enum DeviceError {
    /// No compute unit is available.
    NoAvailableUnits,
    /// A memory access was out of range.
    MemoryAccessError { max: usize, attempted: usize },
    /// The requested computation kind is not supported.
    UnsupportedComputationType(String),
    /// Internal communication failed.
    CommunicationError(String),
    /// A matrix was expected to be loaded first.
    MatrixNotPrepared(String),
    /// A unit-level error.
    UnitError(crate::device::unit::UnitError),
}

} // verus!
