//! Error taxonomy of the control plane.
//!
//! Resource exhaustion and invalid arguments are surfaced synchronously;
//! hardware and operation failures travel through the executor; memory pool
//! errors propagate unchanged, since they indicate a control-plane bug rather
//! than a transient hardware condition.

use vstd::prelude::*;

use crate::memory::MemoryError;
use crate::types::UnitId;

verus! {

/// Hardware-link errors.
#[derive(Debug, Clone)]
pub enum HardwareError {
    /// Communication with the unit array failed.
    Communication(String),
    /// A packet violated the wire protocol.
    Protocol(String),
    /// No response arrived within the bound, in milliseconds.
    Timeout(u64),
    /// The device was not found.
    NotFound(String),
}

/// Processing unit errors.
#[derive(Debug, Clone)]
pub enum UnitError {
    /// The raw unit id is out of range.
    InvalidId(usize),
    /// The unit already has an operation in flight.
    Busy(UnitId),
    /// The unit cannot run this operation.
    UnsupportedOperation(String),
    /// The unit reported a failure.
    Failed { unit: UnitId, reason: String },
}

/// Main error type of the control plane.
#[derive(Debug, Clone)]
pub enum AccelError {
    /// A dimension argument was invalid.
    Dimension(String),
    /// A hardware communication error.
    Hardware(HardwareError),
    /// A processing unit error.
    Unit(UnitError),
    /// A memory pool error, propagated unchanged.
    Memory(MemoryError),
    /// A configuration error.
    Config(String),
    /// A bounded resource is exhausted.
    Resource(String),
}

impl From<HardwareError> for AccelError {
    /// Wrap a hardware error.
    fn from(e: HardwareError) -> (r: AccelError) {
        AccelError::Hardware(e)
    }
}

impl vstd::std_specs::convert::FromSpecImpl<HardwareError> for AccelError {
    open spec fn obeys_from_spec() -> bool {
        true
    }

    open spec fn from_spec(e: HardwareError) -> AccelError {
        AccelError::Hardware(e)
    }
}

impl From<UnitError> for AccelError {
    /// Wrap a unit error.
    fn from(e: UnitError) -> (r: AccelError) {
        AccelError::Unit(e)
    }
}

impl vstd::std_specs::convert::FromSpecImpl<UnitError> for AccelError {
    open spec fn obeys_from_spec() -> bool {
        true
    }

    open spec fn from_spec(e: UnitError) -> AccelError {
        AccelError::Unit(e)
    }
}

impl From<MemoryError> for AccelError {
    /// Wrap a memory pool error.
    fn from(e: MemoryError) -> (r: AccelError) {
        AccelError::Memory(e)
    }
}

impl vstd::std_specs::convert::FromSpecImpl<MemoryError> for AccelError {
    open spec fn obeys_from_spec() -> bool {
        true
    }

    open spec fn from_spec(e: MemoryError) -> AccelError {
        AccelError::Memory(e)
    }
}

impl AccelError {
    /// A short diagnostic text for this error, one per variant.
    pub fn message(&self) -> (r: String)
        ensures
            self is Dimension ==> r@ == "invalid dimension"@,
            self is Hardware ==> r@ == "hardware communication error"@,
            self is Unit ==> r@ == "processing unit error"@,
            self is Memory ==> r@ == "memory error"@,
            self is Config ==> r@ == "configuration error"@,
            self is Resource ==> r@ == "resource exhausted"@,
    {
        match self {
            AccelError::Dimension(..) => "invalid dimension".to_owned(),
            AccelError::Hardware(..) => "hardware communication error".to_owned(),
            AccelError::Unit(..) => "processing unit error".to_owned(),
            AccelError::Memory(..) => "memory error".to_owned(),
            AccelError::Config(..) => "configuration error".to_owned(),
            AccelError::Resource(..) => "resource exhausted".to_owned(),
        }
    }
}

/// Computation status with error context: at most one of result and error is
/// meaningful, and `into_result` prefers a well-formed side.
#[derive(Debug)]
pub struct StatusWithError<T> {
    /// The result, when the computation succeeded.
    pub result: Option<T>,
    /// The error, when it failed.
    pub error: Option<AccelError>,
}

impl<T> StatusWithError<T> {
    /// Create a new successful status holding `result`.
    pub fn success(result: T) -> (r: StatusWithError<T>)
        ensures
            r.result == Some(result),
            r.error is None,
    {
        StatusWithError { result: Some(result), error: None }
    }

    /// Create a new error status holding `error`.
    pub fn error(error: AccelError) -> (r: StatusWithError<T>)
        ensures
            r.result is None,
            r.error == Some(error),
    {
        StatusWithError { result: None, error: Some(error) }
    }

    /// True when the status holds a result.
    pub fn is_success(&self) -> (r: bool)
        ensures
            r == (self.result is Some),
    {
        self.result.is_some()
    }

    /// True when the status holds an error.
    pub fn is_error(&self) -> (r: bool)
        ensures
            r == (self.error is Some),
    {
        self.error.is_some()
    }

    /// Convert the status into a `Result`: `Ok` exactly when the status holds
    /// a result and no error, the stored error when it holds only an error,
    /// and a configuration error for the two ill-formed combinations.
    pub fn into_result(self) -> (r: Result<T, AccelError>)
        ensures
            (self.result is Some && self.error is None) ==> r == Ok::<T, AccelError>(
                self.result->0,
            ),
            (self.result is None && self.error is Some) ==> r == Err::<T, AccelError>(
                self.error->0,
            ),
            !(self.result is Some && self.error is None) && !(self.result is None && self.error
                is Some) ==> r is Err,
    {
        match (self.result, self.error) {
            (Some(result), None) => Ok(result),
            (None, Some(error)) => Err(error),
            _ => Err(AccelError::Config("invalid status".to_owned())),
        }
    }
}

} // verus!

verus! {

/// Errors of the matrix block store.
#[derive(Debug, Clone)]
pub enum NNError {
    /// A dimension was invalid.
    Dimension(String),
    /// A block was not found.
    NotFound(String),
    /// A storage operation failed.
    Storage(String),
    /// A computation failed.
    Computation(String),
}

/// Errors of the accelerator's numeric boundary.
#[derive(Debug, Clone)]
pub enum AcceleratorError {
    /// A vector or matrix dimension is not a multiple of the block size.
    InvalidDimension(usize),
    /// A memory access was out of bounds.
    MemoryAccessError { max: usize, attempted: usize },
    /// No unit is available.
    NoAvailableUnits,
    /// The computation kind is not supported.
    UnsupportedComputationType(String),
    /// A data conversion failed.
    DataConversionError(String),
    /// Internal communication failed.
    CommunicationError(String),
}

} // verus!
