//! Coarse compute operations of the numeric layer's interface.

use vstd::prelude::*;

verus! {

/// Operations a compute unit can run.
#[derive(Debug, Clone, Copy, PartialEq, Eq, Structural)]
pub enum ComputeOperation {
    /// Multiply the loaded matrix with the loaded vector.
    MatrixVectorMultiply,
    /// Add the loaded vector to the shared-memory vector.
    VectorAdd,
    /// Apply the rectified linear unit to the loaded vector.
    VectorReLU,
}

} // verus!
