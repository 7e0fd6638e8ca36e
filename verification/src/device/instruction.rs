//! The VLIW instruction set: a closed command alphabet and the 4-slot
//! instruction word builder.

use vstd::prelude::*;

verus! {

/// Commands of the 4-slot instruction word.
#[derive(Debug, Clone, Copy, PartialEq, Eq, Structural)]
pub enum VliwCommand {
    /// No operation.
    Nop,
    /// Load vector register 0.
    LoadV0,
    /// Load vector register 1.
    LoadV1,
    /// Load the matrix register.
    LoadM0,
    /// Store vector register 0.
    StoreV0,
    /// Store vector register 1.
    StoreV1,
    /// Store the matrix register.
    StoreM0,
    /// Zero vector register 0.
    ZeroV0,
    /// Zero vector register 1.
    ZeroV1,
    /// Zero the matrix register.
    ZeroM0,
    /// Push vector register 0 to the shared scratch area.
    PushV0,
    /// Pop the shared scratch area into vector register 1.
    PopV1,
    /// Pop the shared scratch area into vector register 0.
    PopV0,
    /// Matrix-vector multiply.
    MatrixVectorMultiply,
    /// Add vector registers 0 and 1.
    VectorAdd01,
    /// Subtract vector register 1 from 0.
    VectorSub01,
    /// Rectified linear unit.
    VectorReLU,
    /// Hyperbolic tangent.
    VectorTanh,
    /// Element-wise square.
    VectorSquare,
}

/// One 4-slot instruction word.
#[derive(Debug, Clone, Copy, PartialEq, Eq, Structural)]
pub struct VliwInstruction {
    /// First slot.
    pub op1: VliwCommand,
    /// Second slot.
    pub op2: VliwCommand,
    /// Third slot.
    pub op3: VliwCommand,
    /// Fourth slot.
    pub op4: VliwCommand,
}

impl VliwInstruction {
    /// The all-no-op word.
    pub fn nop() -> (r: VliwInstruction)
        ensures
            r == (VliwInstruction {
                op1: VliwCommand::Nop,
                op2: VliwCommand::Nop,
                op3: VliwCommand::Nop,
                op4: VliwCommand::Nop,
            }),
    {
        VliwInstruction {
            op1: VliwCommand::Nop,
            op2: VliwCommand::Nop,
            op3: VliwCommand::Nop,
            op4: VliwCommand::Nop,
        }
    }

    /// A word holding a single command in its first slot.
    pub fn single(op: VliwCommand) -> (r: VliwInstruction)
        ensures
            r == (VliwInstruction {
                op1: op,
                op2: VliwCommand::Nop,
                op3: VliwCommand::Nop,
                op4: VliwCommand::Nop,
            }),
    {
        VliwInstruction {
            op1: op,
            op2: VliwCommand::Nop,
            op3: VliwCommand::Nop,
            op4: VliwCommand::Nop,
        }
    }
}

/// The word `b` builds with `op` filled into slot `slot`.
pub open spec fn spec_fill_slot(w: VliwInstruction, slot: int, op: VliwCommand) -> VliwInstruction {
    if slot == 0 {
        VliwInstruction { op1: op, ..w }
    } else if slot == 1 {
        VliwInstruction { op2: op, ..w }
    } else if slot == 2 {
        VliwInstruction { op3: op, ..w }
    } else {
        VliwInstruction { op4: op, ..w }
    }
}

/// Builder filling the four slots of one instruction word in order;
/// commands beyond the fourth slot are ignored.
#[derive(Debug, Clone, Copy)]
pub struct InstructionBuilder {
    inst: VliwInstruction,
    current_slot: usize,
}

impl InstructionBuilder {
    /// The word built so far.
    pub closed spec fn instr(self) -> VliwInstruction {
        self.inst
    }

    /// The next slot to fill.
    pub closed spec fn slot(self) -> usize {
        self.current_slot
    }

    /// Create a builder over an all-no-op word.
    pub fn new() -> (r: InstructionBuilder)
        ensures
            r.instr() == (VliwInstruction {
                op1: VliwCommand::Nop,
                op2: VliwCommand::Nop,
                op3: VliwCommand::Nop,
                op4: VliwCommand::Nop,
            }),
            r.slot() == 0,
    {
        InstructionBuilder { inst: VliwInstruction::nop(), current_slot: 0 }
    }

    /// Fill the next free slot with `op`; with all four slots filled the
    /// command is dropped and the builder unchanged.
    pub fn add_op(self, op: VliwCommand) -> (r: InstructionBuilder)
        ensures
            self.slot() < 4 ==> r.instr() == spec_fill_slot(self.instr(), self.slot() as int, op)
                && r.slot() == self.slot() + 1,
            self.slot() >= 4 ==> r == self,
    {
        if self.current_slot >= 4 {
            return self;
        }
        let inst = if self.current_slot == 0 {
            VliwInstruction { op1: op, ..self.inst }
        } else if self.current_slot == 1 {
            VliwInstruction { op2: op, ..self.inst }
        } else if self.current_slot == 2 {
            VliwInstruction { op3: op, ..self.inst }
        } else {
            VliwInstruction { op4: op, ..self.inst }
        };
        InstructionBuilder { inst, current_slot: self.current_slot + 1 }
    }

    /// The finished instruction word.
    pub fn build(self) -> (r: VliwInstruction)
        ensures
            r == self.instr(),
    {
        self.inst
    }
}

} // verus!
