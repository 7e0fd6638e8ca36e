//! Data representation types of the numeric layer's boundary.
//!
//! The numeric kernels themselves live outside this crate; here stand the
//! plain-value carriers they exchange with the control plane: a raw fixed
//! point number, the trinary weight alphabet, and the format selector.

use vstd::prelude::*;

verus! {

/// Errors of the numeric data boundary.
#[derive(Debug, Clone)]
pub enum FpgaError {
    /// A value could not be represented in the target format.
    TypeConversion(String),
    /// A computation could not be carried out.
    Computation(String),
    /// A memory slot was missing or out of range.
    Memory(String),
    /// A configuration value was invalid.
    Configuration(String),
}

/// A fixed point number: a raw scaled integer and its binary scale.
#[derive(Debug, Clone, Copy, PartialEq, Eq, Structural)]
pub struct FixedPoint {
    value: i32,
    scale: u8,
}

impl FixedPoint {
    /// The raw scaled integer.
    pub closed spec fn spec_value(self) -> i32 {
        self.value
    }

    /// The binary scale; at most 31.
    pub closed spec fn spec_scale(self) -> u8 {
        self.scale
    }

    /// Build a fixed point number from its raw scaled integer; a scale
    /// above 31 is rejected.
    pub fn from_raw(value: i32, scale: u8) -> (r: Result<FixedPoint, FpgaError>)
        ensures
            scale > 31 ==> r matches Err(FpgaError::Configuration(..)),
            scale <= 31 ==> (r matches Ok(f) && f.spec_value() == value && f.spec_scale()
                == scale),
    {
        if scale > 31 {
            return Err(FpgaError::Configuration("scale must be at most 31".to_owned()));
        }
        Ok(FixedPoint { value, scale })
    }

    /// The raw scaled integer.
    pub fn raw_value(&self) -> (r: i32)
        ensures
            r == self.spec_value(),
    {
        self.value
    }

    /// The binary scale.
    pub fn raw_scale(&self) -> (r: u8)
        ensures
            r == self.spec_scale(),
    {
        self.scale
    }
}

/// A trinary weight value.
#[derive(Debug, Clone, Copy, PartialEq, Eq, Structural)]
pub enum TrinaryValue {
    /// Zero.
    Zero,
    /// Positive one.
    Plus,
    /// Negative one.
    Minus,
}

/// Data format of values crossing the numeric boundary.
#[derive(Debug, Clone, Copy, PartialEq, Eq, Structural)]
pub enum DataFormat {
    /// Full floating point, handled outside this crate.
    Full,
    /// Fixed point with the given binary scale.
    Fixed { scale: u8 },
    /// Trinary weights.
    Trinary,
}

/// Converter configured for one data format.
#[derive(Debug, Clone, Copy)]
pub struct DataConverter {
    format: DataFormat,
}

impl DataConverter {
    /// The configured format.
    pub closed spec fn spec_format(self) -> DataFormat {
        self.format
    }

    /// Create a converter for one format.
    pub fn new(format: DataFormat) -> (r: DataConverter)
        ensures
            r.spec_format() == format,
    {
        DataConverter { format }
    }

    /// The configured format.
    pub fn format(&self) -> (r: DataFormat)
        ensures
            r == self.spec_format(),
    {
        self.format
    }
}

/// Conversion applied to vectors crossing the boundary.
#[derive(Debug, Clone, Copy, PartialEq, Eq, Structural)]
pub enum VectorConversionType {
    /// Keep full precision.
    Full,
    /// Trinarize the values.
    Trinary,
    /// Convert to 1s.31 fixed point.
    FixedPoint1s31,
}

/// Conversion applied to matrices crossing the boundary.
#[derive(Debug, Clone, Copy, PartialEq, Eq, Structural)]
pub enum MatrixConversionType {
    /// Keep full precision.
    Full,
    /// Trinarize the values.
    Trinary,
    /// Convert to 1s.31 fixed point.
    FixedPoint1s31,
}

/// Computation kinds of the numeric layer.
#[derive(Debug, Clone, Copy, PartialEq, Eq, Structural)]
pub enum ComputationType {
    Add,
    Multiply,
    Tanh,
    ReLU,
    MatrixVectorMultiply,
}

/// Side length of one square matrix block.
pub const MATRIX_SIZE: usize = 16;

/// Length of one vector block.
pub const VECTOR_SIZE: usize = 16;

} // verus!
