//! Instruction-level sub-protocol: the closed opcode set of the compute
//! fabric and the 4-slot fixed-width instruction word it issues each cycle.

use vstd::prelude::*;

use crate::compute::ComputeOperation;
use crate::convert::FpgaError;

verus! {

/// Primitive instruction set of one compute unit.
#[derive(Debug, Clone, Copy, PartialEq, Eq, Structural)]
pub enum FpgaInstruction {
    /// No operation.
    Nop,
    /// Load vector register 0.
    LoadV0,
    /// Load vector register 1.
    LoadV1,
    /// Load the matrix register.
    LoadM0,
    /// Store vector register 0.
    StoreV0,
    /// Store vector register 1.
    StoreV1,
    /// Store the matrix register.
    StoreM0,
    /// Matrix-vector multiply.
    MatrixVectorMul,
    /// Vector addition.
    VectorAdd,
    /// Vector subtraction.
    VectorSub,
    /// Zero vector register 0.
    ZeroV0,
    /// Zero vector register 1.
    ZeroV1,
    /// Zero the matrix register.
    ZeroM0,
    /// Push vector register 0 to the shared scratch area.
    PushV0,
    /// Pop the shared scratch area into vector register 1.
    PullV1,
    /// Pop the shared scratch area into vector register 0.
    PullV0,
    /// Rectified linear unit.
    VectorRelu,
    /// Hard hyperbolic tangent.
    VectorHTanh,
    /// Element-wise square.
    VectorSquare,
}

impl FpgaInstruction {
    /// Opcode of this instruction on the fabric.
    pub open spec fn spec_code(self) -> u8 {
        match self {
            FpgaInstruction::Nop => 0x00,
            FpgaInstruction::MatrixVectorMul => 0x01,
            FpgaInstruction::VectorAdd => 0x02,
            FpgaInstruction::VectorSub => 0x03,
            FpgaInstruction::LoadV0 => 0x08,
            FpgaInstruction::LoadV1 => 0x09,
            FpgaInstruction::LoadM0 => 0x0a,
            FpgaInstruction::StoreV0 => 0x0b,
            FpgaInstruction::StoreV1 => 0x0c,
            FpgaInstruction::StoreM0 => 0x0d,
            FpgaInstruction::ZeroV0 => 0x0e,
            FpgaInstruction::ZeroV1 => 0x0f,
            FpgaInstruction::ZeroM0 => 0x10,
            FpgaInstruction::PushV0 => 0x11,
            FpgaInstruction::PullV1 => 0x12,
            FpgaInstruction::PullV0 => 0x13,
            FpgaInstruction::VectorRelu => 0x14,
            FpgaInstruction::VectorHTanh => 0x15,
            FpgaInstruction::VectorSquare => 0x16,
        }
    }

    /// Opcode of this instruction on the fabric.
    pub fn code(self) -> (r: u8)
        ensures
            r == self.spec_code(),
    {
        match self {
            FpgaInstruction::Nop => 0x00,
            FpgaInstruction::MatrixVectorMul => 0x01,
            FpgaInstruction::VectorAdd => 0x02,
            FpgaInstruction::VectorSub => 0x03,
            FpgaInstruction::LoadV0 => 0x08,
            FpgaInstruction::LoadV1 => 0x09,
            FpgaInstruction::LoadM0 => 0x0a,
            FpgaInstruction::StoreV0 => 0x0b,
            FpgaInstruction::StoreV1 => 0x0c,
            FpgaInstruction::StoreM0 => 0x0d,
            FpgaInstruction::ZeroV0 => 0x0e,
            FpgaInstruction::ZeroV1 => 0x0f,
            FpgaInstruction::ZeroM0 => 0x10,
            FpgaInstruction::PushV0 => 0x11,
            FpgaInstruction::PullV1 => 0x12,
            FpgaInstruction::PullV0 => 0x13,
            FpgaInstruction::VectorRelu => 0x14,
            FpgaInstruction::VectorHTanh => 0x15,
            FpgaInstruction::VectorSquare => 0x16,
        }
    }
}

impl From<ComputeOperation> for FpgaInstruction {
    /// Map a coarse compute operation onto its fabric instruction.
    fn from(op: ComputeOperation) -> (r: FpgaInstruction) {
        match op {
            ComputeOperation::MatrixVectorMultiply => FpgaInstruction::MatrixVectorMul,
            ComputeOperation::VectorAdd => FpgaInstruction::VectorAdd,
            ComputeOperation::VectorReLU => FpgaInstruction::VectorRelu,
        }
    }
}

impl vstd::std_specs::convert::FromSpecImpl<ComputeOperation> for FpgaInstruction {
    open spec fn obeys_from_spec() -> bool {
        true
    }

    open spec fn from_spec(op: ComputeOperation) -> FpgaInstruction {
        match op {
            ComputeOperation::MatrixVectorMultiply => FpgaInstruction::MatrixVectorMul,
            ComputeOperation::VectorAdd => FpgaInstruction::VectorAdd,
            ComputeOperation::VectorReLU => FpgaInstruction::VectorRelu,
        }
    }
}

/// Packed form of a 4-slot instruction word: one opcode per byte, the first
/// slot in the most significant byte.
pub open spec fn spec_pack(w: VliwInstruction) -> int {
    w.op1.spec_code() * 0x1000000 + w.op2.spec_code() * 0x10000 + w.op3.spec_code() * 0x100
        + w.op4.spec_code()
}

/// A 4-slot fixed-width instruction word; all four slots issue together each
/// cycle, later slots observing the register effects of earlier slots.
#[derive(Debug, Clone, Copy, PartialEq, Eq, Structural)]
pub struct VliwInstruction {
    /// First slot.
    pub op1: FpgaInstruction,
    /// Second slot.
    pub op2: FpgaInstruction,
    /// Third slot.
    pub op3: FpgaInstruction,
    /// Fourth slot.
    pub op4: FpgaInstruction,
}

impl VliwInstruction {
    /// Build a word from its four slots.
    pub fn new(
        op1: FpgaInstruction,
        op2: FpgaInstruction,
        op3: FpgaInstruction,
        op4: FpgaInstruction,
    ) -> (r: VliwInstruction)
        ensures
            r == (VliwInstruction { op1, op2, op3, op4 }),
    {
        VliwInstruction { op1, op2, op3, op4 }
    }

    /// Build a word from a single instruction, the other slots no-ops.
    pub fn from_single(op: FpgaInstruction) -> (r: VliwInstruction)
        ensures
            r == (VliwInstruction {
                op1: op,
                op2: FpgaInstruction::Nop,
                op3: FpgaInstruction::Nop,
                op4: FpgaInstruction::Nop,
            }),
    {
        VliwInstruction {
            op1: op,
            op2: FpgaInstruction::Nop,
            op3: FpgaInstruction::Nop,
            op4: FpgaInstruction::Nop,
        }
    }

    /// Pack the word into its 32-bit wire form.
    pub fn pack(&self) -> (r: u32)
        ensures
            r == spec_pack(*self),
    {
        (self.op1.code() as u32) * 0x1000000 + (self.op2.code() as u32) * 0x10000 + (
        self.op3.code() as u32) * 0x100 + (self.op4.code() as u32)
    }
}

/// Issuing capability for fabric instructions.
pub trait InstructionExecutor: Sized {
    /// Issue a single instruction.
    fn execute_instruction(&mut self, inst: FpgaInstruction) -> Result<(), FpgaError>;

    /// Issue one 4-slot instruction word.
    fn execute_vliw(&mut self, vliw: VliwInstruction) -> Result<(), FpgaError>;
}

/// Channel that issues instructions to the fabric; this build carries no
/// device handle and accepts every instruction.
#[derive(Debug)]
pub struct FpgaInstructionChannel {
}

impl FpgaInstructionChannel {
    /// Open an instruction channel.
    pub fn new() -> (r: Result<FpgaInstructionChannel, FpgaError>)
        ensures
            r is Ok,
    {
        Ok(FpgaInstructionChannel {  })
    }
}

impl InstructionExecutor for FpgaInstructionChannel {
    fn execute_instruction(&mut self, inst: FpgaInstruction) -> (r: Result<(), FpgaError>)
        ensures
            r is Ok,
    {
        let _ = inst;
        Ok(())
    }

    fn execute_vliw(&mut self, vliw: VliwInstruction) -> (r: Result<(), FpgaError>)
        ensures
            r is Ok,
    {
        let _ = vliw;
        Ok(())
    }
}

} // verus!
